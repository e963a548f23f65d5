use autobricks_worm::{EntryPolicy, FilePolicy, PolicyError};

#[test]
fn lib_appends_preserve_creation_based_expiry() {
    let policy = FilePolicy::new(100, 365 * 86_400).unwrap();
    let updated = policy
        .after_append(0, 10)
        .unwrap()
        .after_append(10, 20)
        .unwrap();
    assert_eq!(updated.created_at(), 100);
    assert_eq!(updated.retain_until(), policy.retain_until());
    assert_eq!(updated.lock_offset(), 30);
}

#[test]
fn lib_overwrite_and_holes_are_rejected_even_after_retention() {
    let policy = FilePolicy::new(100, 10)
        .unwrap()
        .after_append(0, 20)
        .unwrap();
    assert_eq!(policy.check_delete(110), Ok(()));
    assert_eq!(policy.after_append(0, 1), Err(PolicyError::NotAtEnd));
    assert_eq!(policy.after_append(21, 1), Err(PolicyError::NotAtEnd));
}

#[test]
fn lib_deletion_changes_at_exact_expiry() {
    let policy = FilePolicy::new(100, 10).unwrap();
    assert_eq!(policy.check_delete(109), Err(PolicyError::RetentionActive));
    assert_eq!(policy.check_delete(110), Ok(()));
    assert_eq!(policy.check_delete(111), Ok(()));
}

#[test]
fn lib_overflow_cannot_wrap_expiry_or_lock() {
    assert_eq!(FilePolicy::new(u64::MAX, 1), Err(PolicyError::Overflow));
    let policy = FilePolicy::new(0, 0)
        .unwrap()
        .after_append(0, u64::MAX)
        .unwrap();
    assert_eq!(policy.after_append(u64::MAX, 1), Err(PolicyError::Overflow));
    assert_eq!(policy.lock_offset(), u64::MAX);
}

#[test]
fn file_policy_appends_preserve_creation_based_expiry() {
    let policy = FilePolicy::new(100, 365 * 86_400).unwrap();
    let updated = policy
        .after_append(0, 10)
        .unwrap()
        .after_append(10, 20)
        .unwrap();
    assert_eq!(updated.created_at(), 100);
    assert_eq!(updated.retain_until(), policy.retain_until());
    assert_eq!(updated.lock_offset(), 30);
}

#[test]
fn file_policy_overwrite_and_holes_are_rejected_even_after_retention() {
    let policy = FilePolicy::new(100, 10)
        .unwrap()
        .after_append(0, 20)
        .unwrap();
    assert_eq!(policy.check_delete(110), Ok(()));
    assert_eq!(policy.after_append(0, 1), Err(PolicyError::NotAtEnd));
    assert_eq!(policy.after_append(21, 1), Err(PolicyError::NotAtEnd));
}

#[test]
fn file_policy_deletion_changes_at_exact_expiry() {
    let policy = FilePolicy::new(100, 10).unwrap();
    assert_eq!(policy.check_delete(109), Err(PolicyError::RetentionActive));
    assert_eq!(policy.check_delete(110), Ok(()));
    assert_eq!(policy.check_delete(111), Ok(()));
}

#[test]
fn paths_remain_fixed_across_append_and_retention_expiry() {
    let file = FilePolicy::new(100, 10).unwrap();
    assert_eq!(file.check_delete(109), Err(PolicyError::RetentionActive));
    assert_eq!(
        EntryPolicy::File(file.clone()).check_rename(),
        Err(PolicyError::ImmutablePath)
    );

    let appended = file.after_append(0, 20).unwrap();
    assert_eq!(appended.check_delete(110), Ok(()));
    assert_eq!(
        EntryPolicy::File(appended).check_rename(),
        Err(PolicyError::ImmutablePath)
    );
    assert_eq!(
        EntryPolicy::Directory.check_rename(),
        Err(PolicyError::ImmutablePath)
    );
}

#[test]
fn file_policy_overflow_cannot_wrap_expiry_or_lock() {
    assert_eq!(FilePolicy::new(u64::MAX, 1), Err(PolicyError::Overflow));
    let policy = FilePolicy::new(0, 0)
        .unwrap()
        .after_append(0, u64::MAX)
        .unwrap();
    assert_eq!(policy.after_append(u64::MAX, 1), Err(PolicyError::Overflow));
    assert_eq!(policy.lock_offset(), u64::MAX);
}

#[test]
fn retention_counts_from_creation_not_from_appends() {
    let policy = FilePolicy::new(1_000, 500).unwrap();
    assert_eq!(policy.retain_until(), 1_500);
    assert_eq!(policy.lock_offset(), 0);
    let mut current = policy.clone();
    let mut offset = 0;
    for length in [7u64, 0, 64, 1] {
        current = current.after_append(offset, length).unwrap();
        offset += length;
        assert_eq!(current.created_at(), 1_000);
        assert_eq!(current.retain_until(), 1_500);
        assert_eq!(current.check_delete(1_499), Err(PolicyError::RetentionActive));
        assert_eq!(current.check_delete(1_500), Ok(()));
    }
    assert_eq!(current.lock_offset(), 72);
    assert_eq!(current.after_append(71, 1), Err(PolicyError::NotAtEnd));
    assert_eq!(current.after_append(73, 1), Err(PolicyError::NotAtEnd));
}

#[test]
fn metadata_and_directories_cannot_be_renamed() {
    assert_eq!(EntryPolicy::Metadata.check_rename(), Err(PolicyError::ImmutablePath));
    let file = FilePolicy::new(0, u64::MAX).unwrap();
    assert_eq!(file.retain_until(), u64::MAX);
    assert_eq!(EntryPolicy::File(file).check_rename(), Err(PolicyError::ImmutablePath));
}
