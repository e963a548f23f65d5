//! Decisions of the mounted filesystem adapters: which requests reach the
//! backing store, which error number a refusal returns, and how entries look.
pub mod inodes;
pub mod system_version;

use crate::cli::text_bytes;
use crate::metadata::check_user_entry_name;
use crate::storage::view::base_name;
use inodes::InodeTable;
use crate::policy::PolicyError;
use crate::storage::paths::{kept_segment, kept_segments, segments, split_segments, views};
use crate::storage::store::same_bytes;
use crate::storage::view::{ends_with_meta_exact, Entry};
use vstd::prelude::*;

verus! {

/// The error numbers the adapters return.
#[derive(Debug, Clone, Copy, PartialEq, Eq, Structural)]
pub enum Errno {
    /// EPERM
    Perm,
    /// ENOENT
    NoEnt,
    /// EIO
    Io,
    /// EACCES
    Access,
    /// EEXIST
    Exist,
    /// EBUSY
    Busy,
    /// ENOTDIR
    NotDir,
    /// EISDIR
    IsDir,
    /// EINVAL
    Inval,
    /// EROFS
    RoFs,
    /// ENOSYS
    NoSys,
}

/// The classes of failures that reach the adapters.
#[derive(Debug, Clone, Copy, PartialEq, Eq, Structural)]
pub enum IoKind {
    NotFound,
    PermissionDenied,
    AlreadyExists,
    InvalidInput,
    InvalidData,
    NotADirectory,
    Unsupported,
    WouldBlock,
    Other,
}

/// The error number the Linux adapter returns for a failure without an
/// operating-system error number.
pub open spec fn spec_linux_errno(kind: IoKind) -> Errno {
    match kind {
        IoKind::NotFound => Errno::NoEnt,
        IoKind::PermissionDenied => Errno::Access,
        IoKind::InvalidInput | IoKind::InvalidData => Errno::Inval,
        IoKind::NotADirectory => Errno::NotDir,
        IoKind::Unsupported => Errno::NoSys,
        _ => Errno::Io,
    }
}

/// Maps a failure class to the Linux adapter's error number.
pub fn linux_errno(kind: IoKind) -> (r: Errno)
    ensures
        r == spec_linux_errno(kind),
{
    match kind {
        IoKind::NotFound => Errno::NoEnt,
        IoKind::PermissionDenied => Errno::Access,
        IoKind::InvalidInput | IoKind::InvalidData => Errno::Inval,
        IoKind::NotADirectory => Errno::NotDir,
        IoKind::Unsupported => Errno::NoSys,
        _ => Errno::Io,
    }
}

/// The error number the native macOS volume receives for a failure without
/// an operating-system error number.
pub open spec fn spec_bridge_errno(kind: IoKind) -> Errno {
    match kind {
        IoKind::PermissionDenied => Errno::Perm,
        IoKind::AlreadyExists => Errno::Exist,
        IoKind::NotFound => Errno::NoEnt,
        IoKind::NotADirectory => Errno::NotDir,
        IoKind::WouldBlock => Errno::Busy,
        IoKind::InvalidInput => Errno::Inval,
        _ => Errno::Io,
    }
}

/// Maps a failure class to the macOS volume's error number.
pub fn bridge_errno(kind: IoKind) -> (r: Errno)
    ensures
        r == spec_bridge_errno(kind),
{
    match kind {
        IoKind::PermissionDenied => Errno::Perm,
        IoKind::AlreadyExists => Errno::Exist,
        IoKind::NotFound => Errno::NoEnt,
        IoKind::NotADirectory => Errno::NotDir,
        IoKind::WouldBlock => Errno::Busy,
        IoKind::InvalidInput => Errno::Inval,
        _ => Errno::Io,
    }
}

/// The error number of a refused entry name: an invalid name is `EINVAL`, a
/// reserved metadata name `EPERM`.
pub open spec fn spec_entry_name_errno(e: PolicyError) -> Errno {
    match e {
        PolicyError::InvalidName => Errno::Inval,
        _ => Errno::Perm,
    }
}

/// Checks the name of an entry a user creates, links or renames to through a
/// mount, before the request reaches the backing filesystem.
pub fn guard_entry_name(name: &[u8]) -> (r: Result<(), Errno>)
    ensures
        match crate::metadata::spec_user_entry_name(name@) {
            Ok(()) => r == Ok::<(), Errno>(()),
            Err(e) => r == Err::<(), Errno>(spec_entry_name_errno(e)),
        },
{
    match check_user_entry_name(name) {
        Ok(()) => Ok(()),
        Err(PolicyError::InvalidName) => Err(Errno::Inval),
        Err(_) => Err(Errno::Perm),
    }
}

/// The kind of a mounted entry.
#[derive(Debug, Clone, Copy, PartialEq, Eq, Structural)]
pub enum FileKind {
    Directory,
    RegularFile,
}

/// The attributes a mount reports for an entry, apart from times and owner.
#[derive(Debug, Clone, Copy, PartialEq, Eq, Structural)]
pub struct EntryAttributes {
    pub kind: FileKind,
    pub size: u64,
    /// 512-byte blocks, rounded up.
    pub blocks: u64,
    pub perm: u16,
    pub nlink: u32,
}

/// Directories are open to everyone; metadata entries are read-only; data
/// files can be read and appended to by everyone.
pub fn entry_attributes(entry: &Entry) -> (r: EntryAttributes)
    ensures
        r.kind == if entry.directory {
            FileKind::Directory
        } else {
            FileKind::RegularFile
        },
        r.size == entry.size,
        r.blocks * 512 >= entry.size,
        r.blocks * 512 < entry.size + 512,
        r.perm == if entry.directory {
            0o777u16
        } else if entry.metadata {
            0o444u16
        } else {
            0o666u16
        },
        r.nlink == if entry.directory {
            2u32
        } else {
            1u32
        },
{
    let kind = if entry.directory {
        FileKind::Directory
    } else {
        FileKind::RegularFile
    };
    let blocks = entry.size / 512 + if entry.size % 512 != 0 {
        1u64
    } else {
        0u64
    };
    let perm: u16 = if entry.directory {
        0o777
    } else if entry.metadata {
        0o444
    } else {
        0o666
    };
    let nlink: u32 = if entry.directory {
        2
    } else {
        1
    };
    EntryAttributes { kind, size: entry.size, blocks, perm, nlink }
}

/// Changes of mode, owner, group or flags are refused before the entry is looked up.
pub fn setattr_fields(mode_set: bool, uid_set: bool, gid_set: bool, flags_set: bool) -> (r: Result<(), Errno>)
    ensures
        r is Ok <==> !(mode_set || uid_set || gid_set || flags_set),
        r matches Err(e) ==> e == Errno::Perm,
{
    if mode_set || uid_set || gid_set || flags_set {
        Err(Errno::Perm)
    } else {
        Ok(())
    }
}

/// A size change is accepted only when it keeps the current size: committed
/// bytes can be neither truncated nor extended with a hole.
pub fn setattr_size(requested: Option<u64>, current: u64) -> (r: Result<(), Errno>)
    ensures
        r is Ok <==> match requested {
            Some(size) => size == current,
            None => true,
        },
        r matches Err(e) ==> e == Errno::Perm,
{
    match requested {
        Some(size) => if size == current {
            Ok(())
        } else {
            Err(Errno::Perm)
        },
        None => Ok(()),
    }
}

/// Directories cannot be opened as files, and metadata entries open only for reading.
pub fn open_decision(directory: bool, metadata: bool, read_only: bool) -> (r: Result<(), Errno>)
    ensures
        r == if directory {
            Err::<(), Errno>(Errno::IsDir)
        } else if metadata && !read_only {
            Err::<(), Errno>(Errno::RoFs)
        } else {
            Ok::<(), Errno>(())
        },
{
    if directory {
        Err(Errno::IsDir)
    } else if metadata && !read_only {
        Err(Errno::RoFs)
    } else {
        Ok(())
    }
}

/// A read must start at a nonnegative offset.
pub fn read_offset(offset: i64) -> (r: Result<u64, Errno>)
    ensures
        match r {
            Ok(o) => offset >= 0 && o == offset,
            Err(e) => offset < 0 && e == Errno::Inval,
        },
{
    if offset < 0 {
        Err(Errno::Inval)
    } else {
        Ok(offset as u64)
    }
}

/// A write must start at a nonnegative offset and may not target a metadata
/// entry; where it lands is then up to the append policy.
pub fn write_decision(offset: i64, path: &[u8]) -> (r: Result<u64, Errno>)
    ensures
        match r {
            Ok(o) => offset >= 0 && o == offset && !ends_with_meta_exact(path@),
            Err(e) => (offset < 0 && e == Errno::Inval) || (offset >= 0 && ends_with_meta_exact(path@) && e
                == Errno::Access),
        },
{
    if offset < 0 {
        return Err(Errno::Inval);
    }
    let n = path.len();
    let meta = n >= 5 && path[n - 5] == 46u8 && path[n - 4] == 109u8 && path[n - 3] == 101u8 && path[n
        - 2] == 116u8 && path[n - 1] == 97u8;
    proof {
        if n >= 5 {
            let tail = path@.subrange(n - 5, n as int);
            assert(tail[0] == path@[n - 5]);
            assert(tail[1] == path@[n - 4]);
            assert(tail[2] == path@[n - 3]);
            assert(tail[3] == path@[n - 2]);
            assert(tail[4] == path@[n - 1]);
            if meta {
                assert(tail =~= crate::metadata::meta_suffix());
            }
        }
    }
    if meta {
        Err(Errno::Access)
    } else {
        Ok(offset as u64)
    }
}

/// How many listing rows a directory read skips: the offset, or none for a
/// negative offset.
pub fn readdir_skip(offset: i64) -> (r: u64)
    ensures
        r == if offset < 0 {
            0
        } else {
            offset as int
        },
{
    if offset < 0 {
        0
    } else {
        offset as u64
    }
}

/// The offset a listing row reports: the position of the next row.
pub fn readdir_next_offset(index: u64) -> (r: Option<i64>)
    ensures
        match r {
            Some(o) => o == index + 1,
            None => index + 1 > i64::MAX,
        },
{
    if index >= i64::MAX as u64 {
        None
    } else {
        Some(index as i64 + 1)
    }
}

/// The components of an absolute path, as `Path::components` reads it after
/// the root: empty and `.` components are dropped.
pub open spec fn absolute_components(path: Seq<u8>) -> Seq<Seq<u8>> {
    segments(path).filter(|s: Seq<u8>| kept_segment(s))
}

/// Whether `outer`'s components begin with all of `inner`'s.
pub open spec fn components_start_with(outer: Seq<Seq<u8>>, inner: Seq<Seq<u8>>) -> bool {
    inner.len() <= outer.len() && outer.subrange(0, inner.len() as int) == inner
}

fn starts_with_components(outer: &Vec<Vec<u8>>, inner: &Vec<Vec<u8>>) -> (r: bool)
    ensures
        r == components_start_with(views(outer@), views(inner@)),
{
    if inner.len() > outer.len() {
        return false;
    }
    let mut k: usize = 0;
    while k < inner.len()
        invariant
            inner.len() <= outer.len(),
            k <= inner.len(),
            forall|j: int| 0 <= j < k ==> outer@[j]@ == inner@[j]@,
        decreases inner.len() - k,
    {
        if !same_bytes(outer[k].as_slice(), inner[k].as_slice()) {
            proof {
                assert(views(outer@).subrange(0, inner.len() as int)[k as int] != views(inner@)[k as int]);
            }
            return false;
        }
        k = k + 1;
    }
    assert(views(outer@).subrange(0, inner.len() as int) =~= views(inner@));
    true
}

/// A mount needs separate, non-nested source and mountpoint directories:
/// refused when either absolute path lies within the other.
pub fn paths_overlap(source: &[u8], mountpoint: &[u8]) -> (r: bool)
    ensures
        r == (components_start_with(absolute_components(source@), absolute_components(mountpoint@))
            || components_start_with(absolute_components(mountpoint@), absolute_components(source@))),
{
    let source_parts = kept_segments(&split_segments(source));
    let mount_parts = kept_segments(&split_segments(mountpoint));
    starts_with_components(&source_parts, &mount_parts) || starts_with_components(&mount_parts, &source_parts)
}

/// The operations the native macOS volume sends to the backing store.
#[derive(Debug, Clone, Copy, PartialEq, Eq, Structural)]
pub enum BridgeOperation {
    Entry,
    Entries,
    Read,
    Create,
    Mkdir,
    Write,
    Delete,
    Sync,
}

/// The largest request the macOS volume may send, in bytes.
pub const MAX_BRIDGE_REQUEST: u64 = 8388608;

/// Recognizes the operation word of a macOS volume request.
pub fn bridge_operation(word: &[u8]) -> (r: Option<BridgeOperation>)
    ensures
        r == if word@ == seq![101u8, 110u8, 116u8, 114u8, 121u8] {
            Some(BridgeOperation::Entry)
        } else if word@ == seq![101u8, 110u8, 116u8, 114u8, 105u8, 101u8, 115u8] {
            Some(BridgeOperation::Entries)
        } else if word@ == seq![114u8, 101u8, 97u8, 100u8] {
            Some(BridgeOperation::Read)
        } else if word@ == seq![99u8, 114u8, 101u8, 97u8, 116u8, 101u8] {
            Some(BridgeOperation::Create)
        } else if word@ == seq![109u8, 107u8, 100u8, 105u8, 114u8] {
            Some(BridgeOperation::Mkdir)
        } else if word@ == seq![119u8, 114u8, 105u8, 116u8, 101u8] {
            Some(BridgeOperation::Write)
        } else if word@ == seq![100u8, 101u8, 108u8, 101u8, 116u8, 101u8] {
            Some(BridgeOperation::Delete)
        } else if word@ == seq![115u8, 121u8, 110u8, 99u8] {
            Some(BridgeOperation::Sync)
        } else {
            None
        },
{
    let entry: [u8; 5] = [101u8, 110u8, 116u8, 114u8, 121u8];
    let entries: [u8; 7] = [101u8, 110u8, 116u8, 114u8, 105u8, 101u8, 115u8];
    let read: [u8; 4] = [114u8, 101u8, 97u8, 100u8];
    let create: [u8; 6] = [99u8, 114u8, 101u8, 97u8, 116u8, 101u8];
    let mkdir: [u8; 5] = [109u8, 107u8, 100u8, 105u8, 114u8];
    let write: [u8; 5] = [119u8, 114u8, 105u8, 116u8, 101u8];
    let delete: [u8; 6] = [100u8, 101u8, 108u8, 101u8, 116u8, 101u8];
    let sync: [u8; 4] = [115u8, 121u8, 110u8, 99u8];
    assert(entry@ =~= seq![101u8, 110u8, 116u8, 114u8, 121u8]);
    assert(entries@ =~= seq![101u8, 110u8, 116u8, 114u8, 105u8, 101u8, 115u8]);
    assert(read@ =~= seq![114u8, 101u8, 97u8, 100u8]);
    assert(create@ =~= seq![99u8, 114u8, 101u8, 97u8, 116u8, 101u8]);
    assert(mkdir@ =~= seq![109u8, 107u8, 100u8, 105u8, 114u8]);
    assert(write@ =~= seq![119u8, 114u8, 105u8, 116u8, 101u8]);
    assert(delete@ =~= seq![100u8, 101u8, 108u8, 101u8, 116u8, 101u8]);
    assert(sync@ =~= seq![115u8, 121u8, 110u8, 99u8]);
    if same_bytes(word, &entry) {
        Some(BridgeOperation::Entry)
    } else if same_bytes(word, &entries) {
        Some(BridgeOperation::Entries)
    } else if same_bytes(word, &read) {
        Some(BridgeOperation::Read)
    } else if same_bytes(word, &create) {
        Some(BridgeOperation::Create)
    } else if same_bytes(word, &mkdir) {
        Some(BridgeOperation::Mkdir)
    } else if same_bytes(word, &write) {
        Some(BridgeOperation::Write)
    } else if same_bytes(word, &delete) {
        Some(BridgeOperation::Delete)
    } else if same_bytes(word, &sync) {
        Some(BridgeOperation::Sync)
    } else {
        None
    }
}

/// `base` is the last component of `name`: what follows its last `/`.
pub open spec fn is_base_name(base: Seq<u8>, name: Seq<u8>) -> bool {
    &&& exists|k: int|
        0 <= k <= name.len() && base == name.subrange(k, name.len() as int) && (k == 0 || name[k - 1]
            == 47u8)
    &&& !base.contains(47u8)
}

/// One row of a directory listing.
#[derive(Debug)]
pub struct DirectoryRow {
    pub ino: u64,
    pub kind: FileKind,
    pub name: Vec<u8>,
}

/// Row `k` of a listing, for `k >= 2`, stands for `entry`: it carries the
/// inode number the table gives the entry's path, its kind and its base name.
pub open spec fn row_for_entry(row: DirectoryRow, entry: Entry, paths: Map<u64, Seq<u8>>) -> bool {
    &&& paths.contains_key(row.ino)
    &&& paths[row.ino] == text_bytes(entry.name)
    &&& row.kind == if entry.directory {
        FileKind::Directory
    } else {
        FileKind::RegularFile
    }
    &&& is_base_name(row.name@, text_bytes(entry.name))
}

/// The rows of a directory listing: `.` for the directory itself, `..` for
/// its parent, then each entry under the inode number its path has (looked
/// up, and numbered if new, in `table`), its kind and its base name. `None`
/// when some entry finds the inode numbers exhausted. Numbers already given
/// keep their paths.
pub fn directory_rows(table: &mut InodeTable, ino: u64, parent: u64, entries: &[Entry]) -> (r: Option<Vec<DirectoryRow>>)
    requires
        old(table).wf(),
    ensures
        final(table).wf(),
        forall|i: u64|
            #[trigger] old(table)@.paths.contains_key(i) ==> final(table)@.paths.contains_key(i)
                && final(table)@.paths[i] == old(table)@.paths[i],
        match r {
            Some(rows) => {
                &&& rows@.len() == entries@.len() + 2
                &&& rows@[0].ino == ino && rows@[0].kind == FileKind::Directory && rows@[0].name@ == seq![46u8]
                &&& rows@[1].ino == parent && rows@[1].kind == FileKind::Directory && rows@[1].name@ == seq![46u8, 46u8]
                &&& forall|k: int|
                    0 <= k < entries@.len() ==> row_for_entry(#[trigger] rows@[k + 2], entries@[k], final(table)@.paths)
            },
            None => {
                &&& final(table)@.next_inode == u64::MAX
                &&& exists|k: int|
                    #![trigger entries@[k]]
                    0 <= k < entries@.len() && forall|i: u64|
                        #[trigger] final(table)@.paths.contains_key(i) ==> final(table)@.paths[i] != text_bytes(entries@[k].name)
            },
        },
{
    let mut rows: Vec<DirectoryRow> = Vec::new();
    rows.push(DirectoryRow { ino, kind: FileKind::Directory, name: vec![46u8] });
    rows.push(DirectoryRow { ino: parent, kind: FileKind::Directory, name: vec![46u8, 46u8] });
    let ghost start = *table;
    let mut k: usize = 0;
    while k < entries.len()
        invariant
            table.wf(),
            start == *old(table),
            0 <= k <= entries@.len(),
            rows@.len() == k + 2,
            rows@[0].ino == ino && rows@[0].kind == FileKind::Directory && rows@[0].name@ == seq![46u8],
            rows@[1].ino == parent && rows@[1].kind == FileKind::Directory && rows@[1].name@ == seq![46u8, 46u8],
            forall|i: u64|
                #[trigger] start@.paths.contains_key(i) ==> table@.paths.contains_key(i) && table@.paths[i]
                    == start@.paths[i],
            forall|j: int| 0 <= j < k ==> row_for_entry(#[trigger] rows@[j + 2], entries@[j], table@.paths),
        decreases entries@.len() - k,
    {
        let entry = &entries[k];
        let path = entry.name.as_str().as_bytes();
        let ghost before = *table;
        let number = match table.inode_for(path) {
            Some(number) => number,
            None => {
                assert(forall|i: u64|
                    #[trigger] table@.paths.contains_key(i) ==> table@.paths[i] != text_bytes(entries@[k as int].name));
                return None;
            },
        };
        let kind = if entry.directory {
            FileKind::Directory
        } else {
            FileKind::RegularFile
        };
        let name = base_name(path);
        let row = DirectoryRow { ino: number, kind, name };
        proof {
            assert forall|j: int| 0 <= j < k implies row_for_entry(#[trigger] rows@[j + 2], entries@[j], table@.paths) by {
                assert(row_for_entry(rows@[j + 2], entries@[j], before@.paths));
                assert(before@.paths.contains_key(rows@[j + 2].ino));
            }
        }
        let ghost earlier = rows@;
        rows.push(row);
        proof {
            assert forall|j: int| 0 <= j < k + 1 implies row_for_entry(#[trigger] rows@[j + 2], entries@[j], table@.paths) by {
                if j < k {
                    assert(rows@[j + 2] == earlier[j + 2]);
                }
            }
        }
        k = k + 1;
    }
    Some(rows)
}

/// A node made through a mount must be a regular file: the file-type bits of
/// `mode` (those in `type_mask`) must equal `regular`. Other kinds (devices,
/// pipes, sockets) are refused with `EPERM`.
pub fn mknod_decision(mode: u32, type_mask: u32, regular: u32) -> (r: Result<(), Errno>)
    ensures
        r == if mode & type_mask == regular {
            Ok::<(), Errno>(())
        } else {
            Err::<(), Errno>(Errno::Perm)
        },
{
    if mode & type_mask == regular {
        Ok(())
    } else {
        Err(Errno::Perm)
    }
}

} // verus!
