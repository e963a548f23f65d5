use autobricks_worm::storage::paths::{check_storage_component, meta_path, storage_path_parts};
use autobricks_worm::storage::store::{
    check_create_target, check_delete_allowed, check_metadata_size, check_new_root_entry,
    check_store_format,
};
use autobricks_worm::storage::transaction::{
    append_recovery, check_append_transaction, check_create_transaction, create_recovery,
    delete_recovery, AppendRecovery, CreateObserved, CreateRecovery,
};
use autobricks_worm::storage::view::{
    base_name, check_remove_entry, child_name, is_listed, read_length, view_target, ViewTarget,
};
use autobricks_worm::storage::{ErrorKind, Record, StoreError};

fn parts(name: &str) -> Result<Vec<String>, StoreError> {
    storage_path_parts(name.as_bytes())
        .map(|parts| parts.into_iter().map(|p| String::from_utf8(p).unwrap()).collect())
}

#[test]
fn storage_paths_are_relative_components() {
    assert_eq!(parts("a"), Ok(vec!["a".to_string()]));
    assert_eq!(parts("folder/nested"), Ok(vec!["folder".to_string(), "nested".to_string()]));
    assert_eq!(parts("a//b/./c/"), Ok(vec!["a".into(), "b".into(), "c".into()]));
    assert_eq!(parts("a/../b"), Ok(vec!["a".into(), "..".into(), "b".into()]));
    assert_eq!(parts(""), Err(StoreError::NotRelativePath));
    assert_eq!(parts("a\\b"), Err(StoreError::NotRelativePath));
    assert_eq!(parts("c:x"), Err(StoreError::NotRelativePath));
    assert_eq!(parts("/absolute"), Err(StoreError::InvalidPath));
    assert_eq!(parts("./a"), Err(StoreError::InvalidPath));
    assert_eq!(parts("."), Err(StoreError::InvalidPath));
}

#[test]
fn storage_components_reject_reserved_names() {
    assert_eq!(check_storage_component(b"data"), Ok(()));
    assert_eq!(check_storage_component(b".."), Err(StoreError::InvalidPath));
    for name in ["data.meta", "DATA.META"] {
        let error = check_storage_component(name.as_bytes()).unwrap_err();
        assert_eq!(error, StoreError::ReservedEntryName);
        assert_eq!(error.kind(), ErrorKind::PermissionDenied);
    }
    assert_eq!(check_storage_component(b"a\0b"), Err(StoreError::ReservedEntryName));
    for name in [".ab-worm.lock", ".AB-WORM", ".ab-worm-anything"] {
        assert_eq!(check_storage_component(name.as_bytes()), Err(StoreError::ReservedControlName));
    }
    assert_eq!(check_storage_component(b".ab-wor"), Ok(()));
    assert_eq!(meta_path(b"/root/folder/data"), b"/root/folder/data.meta".to_vec());
}

#[test]
fn store_roots_and_targets() {
    assert_eq!(check_store_format(&"Autobricks WORM storage v1".to_string()), Ok(()));
    assert_eq!(check_store_format(&"other".to_string()), Err(StoreError::UnsupportedFormat));
    assert_eq!(check_new_root_entry(b".ab-worm.lock"), Ok(()));
    assert_eq!(check_new_root_entry(b"file"), Err(StoreError::RootNotEmpty));
    assert_eq!(check_metadata_size(16384), Ok(()));
    assert_eq!(check_metadata_size(16385), Err(StoreError::MetadataTooLarge));
    assert_eq!(check_create_target(false, false, Some(true)), Ok(()));
    assert_eq!(check_create_target(true, false, Some(true)), Err(StoreError::AlreadyExists));
    assert_eq!(check_create_target(false, true, None), Err(StoreError::AlreadyExists));
    assert_eq!(check_create_target(false, false, Some(false)), Err(StoreError::ParentDirectoryMissing));
    assert_eq!(check_create_target(false, false, None), Err(StoreError::NoParentDirectory));
    let record = Record::new(100, 3600).unwrap();
    assert_eq!(check_delete_allowed(&record, 3699), Err(StoreError::RetentionActive));
    assert_eq!(check_delete_allowed(&record, 3700), Ok(()));
}

#[test]
fn interrupted_append_rolls_back_only_the_uncommitted_tail() {
    let before = Record::new(0, 3600).unwrap().append(0, b"first").unwrap();
    let after = before.append(5, b"second").unwrap();
    assert_eq!(check_append_transaction(&before, &after), Ok(()));
    assert_eq!(
        check_append_transaction(&after, &before),
        Err(StoreError::InvalidAppendTransaction)
    );
    assert_eq!(append_recovery(&before, &after, &after, 11), Ok(AppendRecovery::KeepAppended));
    assert_eq!(append_recovery(&before, &after, &before, 8), Ok(AppendRecovery::TruncateTo(5)));
    assert_eq!(append_recovery(&before, &after, &before, 5), Ok(AppendRecovery::TruncateTo(5)));
    assert_eq!(append_recovery(&before, &after, &before, 4), Err(StoreError::AppendInconsistent));
    assert_eq!(append_recovery(&before, &after, &after, 12), Err(StoreError::AppendInconsistent));
}

#[test]
fn interrupted_create_and_delete_decisions() {
    let record = Record::new(0, 0).unwrap();
    assert_eq!(check_create_transaction(&record), Ok(()));
    let grown = record.append(0, b"x").unwrap();
    assert_eq!(check_create_transaction(&grown), Err(StoreError::InvalidCreateTransaction));
    assert_eq!(create_recovery(&record, &CreateObserved::Absent), Ok(CreateRecovery::NothingToUndo));
    assert_eq!(
        create_recovery(&record, &CreateObserved::DataOnly { data_len: 0 }),
        Ok(CreateRecovery::RemoveData)
    );
    assert_eq!(
        create_recovery(&record, &CreateObserved::DataOnly { data_len: 3 }),
        Err(StoreError::CreateContainsData)
    );
    assert_eq!(
        create_recovery(&record, &CreateObserved::Committed { stored: record.clone(), data_len: 0 }),
        Ok(CreateRecovery::KeepCreated)
    );
    assert_eq!(
        create_recovery(&record, &CreateObserved::Committed { stored: grown.clone(), data_len: 0 }),
        Err(StoreError::CreateConflict)
    );
    assert_eq!(delete_recovery(&record, None), Ok(()));
    assert_eq!(delete_recovery(&record, Some(&record)), Ok(()));
    assert_eq!(delete_recovery(&record, Some(&grown)), Err(StoreError::DeleteConflict));
}

#[test]
fn namespace_view_names() {
    assert_eq!(view_target(b""), ViewTarget::Root);
    assert_eq!(view_target(b"data.meta"), ViewTarget::Metadata(b"data".to_vec()));
    assert_eq!(view_target(b"dir/data.meta"), ViewTarget::Metadata(b"dir/data".to_vec()));
    assert_eq!(view_target(b"data.META"), ViewTarget::Data);
    assert_eq!(view_target(b"data"), ViewTarget::Data);
    assert_eq!(read_length(10), 10);
    assert_eq!(read_length(usize::MAX), 1024 * 1024);
    assert_eq!(check_remove_entry(true), Err(StoreError::DirectoryDeletion));
    assert_eq!(check_remove_entry(false), Ok(()));
    assert_eq!(child_name(b"", b"a"), b"a".to_vec());
    assert_eq!(child_name(b"dir", b"a"), b"dir/a".to_vec());
    assert_eq!(base_name(b"dir/sub/a"), b"a".to_vec());
    assert_eq!(base_name(b"a"), b"a".to_vec());
    assert!(!is_listed(b".ab-worm.transaction"));
    assert!(is_listed(b"data.meta"));
}

#[test]
fn refusals_describe_themselves() {
    assert_eq!(StoreError::RetentionOverflow.message(), "Retention overflow");
    assert_eq!(StoreError::AppendNotAtLock.message(), "Append offset must equal LOCK");
    assert_eq!(
        autobricks_worm::cli::CliError::UnmountUsage.message(),
        "Usage: ab-worm unmount MOUNTPOINT"
    );
    assert_eq!(
        autobricks_worm::cli::CliError::MountUsage.message(),
        "Usage: ab-worm mount SOURCE MOUNTPOINT --retain DAYS (unsigned days, 0 permits immediate deletion)"
    );
}
