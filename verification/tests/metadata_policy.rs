use autobricks_worm::metadata::{check_user_access, check_user_entry_name, name_for, MetadataOperation};
use autobricks_worm::{EntryPolicy, PolicyError};

fn access_is_read_only() {
    for operation in [MetadataOperation::Read, MetadataOperation::GetAttributes] {
        assert_eq!(check_user_access(operation), Ok(()));
    }
    for operation in [
        MetadataOperation::Create,
        MetadataOperation::Write,
        MetadataOperation::Truncate,
        MetadataOperation::Delete,
        MetadataOperation::Rename,
        MetadataOperation::SetAttributes,
        MetadataOperation::CreateLink,
    ] {
        assert_eq!(
            check_user_access(operation),
            Err(PolicyError::ReadOnlyMetadata)
        );
    }
    assert_eq!(
        EntryPolicy::Metadata.check_rename(),
        Err(PolicyError::ImmutablePath)
    );
}

fn names_preserve_extensions() {
    for name in ["audit.log", "audit", ".audit"] {
        let metadata = name_for(name.as_bytes()).unwrap();
        assert_eq!(metadata, format!("{name}.meta").into_bytes());
        assert_eq!(
            check_user_entry_name(&metadata),
            Err(PolicyError::ReservedName)
        );
    }
    assert_eq!(
        name_for("audit.META".as_bytes()),
        Err(PolicyError::ReservedName)
    );
}

fn names_reject_paths() {
    for name in [
        "",
        ".",
        "..",
        "../audit",
        "/audit",
        "dir/audit",
        "audit\0log",
    ] {
        assert_eq!(name_for(name.as_bytes()), Err(PolicyError::InvalidName));
    }
}

#[test]
fn metadata_metadata_is_readable_but_all_user_mutations_are_denied() {
    access_is_read_only();
}

#[test]
fn metadata_policy_metadata_is_readable_but_all_user_mutations_are_denied() {
    access_is_read_only();
}

#[test]
fn metadata_metadata_names_preserve_extensions_and_reserve_the_namespace() {
    names_preserve_extensions();
}

#[test]
fn metadata_policy_metadata_names_preserve_extensions_and_reserve_the_namespace() {
    names_preserve_extensions();
}

#[test]
fn metadata_metadata_names_reject_paths_and_invalid_components() {
    names_reject_paths();
}

#[test]
fn metadata_policy_metadata_names_reject_paths_and_invalid_components() {
    names_reject_paths();
}

#[test]
fn reserved_suffix_ignores_ascii_case_only() {
    for name in ["a.meta", "A.MeTa", ".META", ".meta"] {
        assert_eq!(check_user_entry_name(name.as_bytes()), Err(PolicyError::ReservedName));
    }
    for name in ["meta", "a.metadata", "a-meta", "a.met", "a.\u{e9}meta", "data.meta.log"] {
        assert_eq!(check_user_entry_name(name.as_bytes()), Ok(()), "{name}");
    }
    assert_eq!(check_user_entry_name(b"..."), Ok(()));
    assert_eq!(check_user_entry_name(b"a\xffb"), Ok(()));
}

#[test]
fn distinct_files_get_distinct_metadata_names() {
    let a = name_for(b"report").unwrap();
    let b = name_for(b"report.meta2").unwrap();
    assert_ne!(a, b);
    assert_eq!(a, b"report.meta".to_vec());
}
