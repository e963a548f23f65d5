use autobricks_worm::cli::mount::MountOptions;
use autobricks_worm::fuse::inodes::{InodeTable, ROOT_INO};
use autobricks_worm::fuse::{
    bridge_errno, bridge_operation, directory_rows, entry_attributes, mknod_decision, guard_entry_name, linux_errno,
    open_decision, paths_overlap, read_offset, readdir_next_offset, readdir_skip,
    setattr_fields, setattr_size, write_decision, BridgeOperation, Errno, FileKind, IoKind,
};
use autobricks_worm::storage::listing::{listing_names, name_le};
use autobricks_worm::storage::Entry;

fn strings(args: &[&str]) -> Vec<String> {
    args.iter().map(|s| s.to_string()).collect()
}

#[test]
fn mount_may_allow_other_users() {
    let args = strings(&["mount", "s", "t", "--retain", "1", "--allow-other"]);
    let options = MountOptions::parse_at(&args, 0).unwrap();
    assert!(options.allow_other);
    let args = strings(&["mount", "s", "t", "--retain", "1"]);
    assert!(!MountOptions::parse_at(&args, 0).unwrap().allow_other);
    let args = strings(&["mount", "s", "t", "--retain", "1", "--other"]);
    assert!(MountOptions::parse_at(&args, 0).is_err());
}

#[test]
fn inode_numbers_are_stable_and_never_reused() {
    let mut table = InodeTable::new();
    assert_eq!(table.path_for(ROOT_INO), Some(Vec::new()));
    let a = table.inode_for(b"a").unwrap();
    let b = table.inode_for(b"dir/b").unwrap();
    assert_eq!(a, 2);
    assert_eq!(b, 3);
    assert_eq!(table.inode_for(b"a"), Some(2));
    assert_eq!(table.inode_for(b""), Some(ROOT_INO));
    assert_eq!(table.path_for(3), Some(b"dir/b".to_vec()));
    assert_eq!(table.parent_inode(b"a"), Some(ROOT_INO));
    assert_eq!(table.parent_inode(b"dir/b"), Some(4));
    assert_eq!(table.path_for(4), Some(b"dir".to_vec()));
    table.forget(b"a");
    assert_eq!(table.path_for(2), None);
    assert_eq!(table.inode_for(b"a"), Some(5));
    table.forget(b"");
    assert_eq!(table.path_for(ROOT_INO), Some(Vec::new()));
}

#[test]
fn listings_hide_control_files_and_sort_by_bytes() {
    let names: Vec<Vec<u8>> = ["b", ".ab-worm.lock", "a.meta", "a", "B", ".AB-WORM.stage", "ab", "a"]
        .iter()
        .map(|s| s.as_bytes().to_vec())
        .collect();
    let listed: Vec<String> = listing_names(&names)
        .into_iter()
        .map(|n| String::from_utf8(n).unwrap())
        .collect();
    assert_eq!(listed, vec!["B", "a", "a", "a.meta", "ab", "b"]);
    assert!(name_le(b"a", b"ab"));
    assert!(!name_le(b"b", b"ab"));
    assert!(name_le(b"", b""));
}

#[test]
fn mount_requests_are_refused_with_error_numbers() {
    assert_eq!(guard_entry_name(b"audit.log"), Ok(()));
    assert_eq!(guard_entry_name(b"audit.log.meta"), Err(Errno::Perm));
    assert_eq!(guard_entry_name(b".META"), Err(Errno::Perm));
    assert_eq!(guard_entry_name(b"a/b"), Err(Errno::Inval));
    assert_eq!(guard_entry_name(b""), Err(Errno::Inval));
    assert_eq!(linux_errno(IoKind::NotFound), Errno::NoEnt);
    assert_eq!(linux_errno(IoKind::PermissionDenied), Errno::Access);
    assert_eq!(linux_errno(IoKind::InvalidData), Errno::Inval);
    assert_eq!(linux_errno(IoKind::AlreadyExists), Errno::Io);
    assert_eq!(bridge_errno(IoKind::PermissionDenied), Errno::Perm);
    assert_eq!(bridge_errno(IoKind::AlreadyExists), Errno::Exist);
    assert_eq!(bridge_errno(IoKind::InvalidData), Errno::Io);
    assert_eq!(setattr_fields(false, false, false, false), Ok(()));
    assert_eq!(setattr_fields(true, false, false, false), Err(Errno::Perm));
    assert_eq!(setattr_size(Some(5), 5), Ok(()));
    assert_eq!(setattr_size(Some(0), 5), Err(Errno::Perm));
    assert_eq!(setattr_size(None, 5), Ok(()));
    assert_eq!(open_decision(true, false, true), Err(Errno::IsDir));
    assert_eq!(open_decision(false, true, false), Err(Errno::RoFs));
    assert_eq!(open_decision(false, true, true), Ok(()));
    assert_eq!(open_decision(false, false, false), Ok(()));
    assert_eq!(read_offset(-1), Err(Errno::Inval));
    assert_eq!(read_offset(7), Ok(7));
    assert_eq!(write_decision(3, b"data"), Ok(3));
    assert_eq!(write_decision(3, b"data.meta"), Err(Errno::Access));
    assert_eq!(write_decision(-3, b"data"), Err(Errno::Inval));
    assert_eq!(readdir_skip(-4), 0);
    assert_eq!(readdir_skip(4), 4);
    assert_eq!(readdir_next_offset(0), Some(1));
    assert_eq!(readdir_next_offset(i64::MAX as u64), None);
    assert_eq!(bridge_operation(b"entries"), Some(BridgeOperation::Entries));
    assert_eq!(bridge_operation(b"sync"), Some(BridgeOperation::Sync));
    assert_eq!(bridge_operation(b"rename"), None);
}

#[test]
fn entry_attributes_follow_the_entry_kind() {
    let file = Entry::new("a".to_string(), false, false, 513, None, 1, 2);
    let attributes = entry_attributes(&file);
    assert_eq!(attributes.kind, FileKind::RegularFile);
    assert_eq!(attributes.blocks, 2);
    assert_eq!(attributes.perm, 0o666);
    assert_eq!(attributes.nlink, 1);
    assert_eq!(file.created_at, 1);
    let meta = Entry::new("a.meta".to_string(), false, true, 512, None, 1, 2);
    assert_eq!(entry_attributes(&meta).perm, 0o444);
    assert_eq!(entry_attributes(&meta).blocks, 1);
    let dir = Entry::new("d".to_string(), true, false, 0, None, 1, 2);
    let attributes = entry_attributes(&dir);
    assert_eq!(attributes.kind, FileKind::Directory);
    assert_eq!((attributes.perm, attributes.nlink, attributes.blocks), (0o777, 2, 0));
}

#[test]
fn source_and_mountpoint_may_not_nest() {
    assert!(paths_overlap(b"/data/worm", b"/data/worm/mnt"));
    assert!(paths_overlap(b"/data/worm/mnt", b"/data/worm"));
    assert!(paths_overlap(b"/data", b"/data"));
    assert!(!paths_overlap(b"/data/worm", b"/data/worm-mnt"));
    assert!(!paths_overlap(b"/worm-storage", b"/mnt/worm-storage"));
    assert!(paths_overlap(b"/", b"/mnt"));
}

#[test]
fn directory_listing_rows_number_each_entry() {
    let mut table = InodeTable::new();
    let dir = table.inode_for(b"dir").unwrap();
    let entries = vec![
        Entry::new("dir/a".to_string(), false, false, 3, None, 0, 0),
        Entry::new("dir/a.meta".to_string(), false, true, 100, None, 0, 0),
        Entry::new("dir/sub".to_string(), true, false, 0, None, 0, 0),
    ];
    let rows = directory_rows(&mut table, dir, ROOT_INO, &entries).unwrap();
    let got: Vec<(u64, FileKind, Vec<u8>)> =
        rows.into_iter().map(|row| (row.ino, row.kind, row.name)).collect();
    assert_eq!(
        got,
        vec![
            (dir, FileKind::Directory, b".".to_vec()),
            (ROOT_INO, FileKind::Directory, b"..".to_vec()),
            (3, FileKind::RegularFile, b"a".to_vec()),
            (4, FileKind::RegularFile, b"a.meta".to_vec()),
            (5, FileKind::Directory, b"sub".to_vec()),
        ]
    );
    assert_eq!(table.inode_for(b"dir/a"), Some(3));
    let again = directory_rows(&mut table, dir, ROOT_INO, &entries).unwrap();
    assert_eq!(again[4].ino, 5);
}

#[test]
fn only_regular_files_may_be_made_as_nodes() {
    let fmt = 0o170000u32;
    let regular = 0o100000u32;
    assert_eq!(mknod_decision(0o100644, fmt, regular), Ok(()));
    assert_eq!(mknod_decision(0o010644, fmt, regular), Err(Errno::Perm));
    assert_eq!(mknod_decision(0o020600, fmt, regular), Err(Errno::Perm));
    assert_eq!(mknod_decision(0o644, fmt, regular), Err(Errno::Perm));
}
