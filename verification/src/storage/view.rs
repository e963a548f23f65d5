//! The read-only namespace view used by mounted filesystem adapters: every
//! data file `NAME` appears with its metadata entry `NAME.meta`.
use super::paths::has_control_prefix;
use super::record::Record;
use super::StoreError;
use crate::metadata::meta_suffix;
use vstd::prelude::*;

verus! {

/// One entry of the namespace view.
#[derive(Debug, Clone, PartialEq, Eq)]
pub struct Entry {
    pub name: String,
    pub directory: bool,
    pub metadata: bool,
    pub size: u64,
    pub created_at: u64,
    pub modified_at: u64,
}

impl Entry {
    /// An entry of the view. A data file or metadata entry takes its creation
    /// time from its checkpoint; a directory from the file system.
    pub fn new(
        name: String,
        directory: bool,
        metadata: bool,
        size: u64,
        record: Option<&Record>,
        fs_created_at: u64,
        modified_at: u64,
    ) -> (r: Entry)
        ensures
            r.name@ == name@,
            r.directory == directory,
            r.metadata == metadata,
            r.size == size,
            r.created_at == match record {
                Some(rec) => rec.created_at,
                None => fs_created_at,
            },
            r.modified_at == modified_at,
    {
        let created_at = match record {
            Some(rec) => rec.created_at,
            None => fs_created_at,
        };
        Entry { name, directory, metadata, size, created_at, modified_at }
    }
}

/// What a view name refers to.
#[derive(Debug, Clone, PartialEq, Eq)]
pub enum ViewTarget {
    /// The storage root.
    Root,
    /// The metadata entry of the data file with this name.
    Metadata(Vec<u8>),
    /// A data file or directory with the name itself.
    Data,
}

/// A name that ends with `.meta` exactly.
pub open spec fn ends_with_meta_exact(name: Seq<u8>) -> bool {
    name.len() >= 5 && name.subrange(name.len() - 5, name.len() as int) == meta_suffix()
}

/// Resolves a view name: the empty name is the root, `NAME.meta` is the
/// metadata entry of `NAME`, and any other name is a data file or directory.
pub fn view_target(name: &[u8]) -> (r: ViewTarget)
    ensures
        match r {
            ViewTarget::Root => name@.len() == 0,
            ViewTarget::Metadata(data_name) => {
                &&& ends_with_meta_exact(name@)
                &&& data_name@ == name@.subrange(0, name@.len() - 5)
            },
            ViewTarget::Data => name@.len() > 0 && !ends_with_meta_exact(name@),
        },
{
    let n = name.len();
    if n == 0 {
        return ViewTarget::Root;
    }
    if n >= 5 && name[n - 5] == 46u8 && name[n - 4] == 109u8 && name[n - 3] == 101u8 && name[n - 2] == 116u8
        && name[n - 1] == 97u8 {
        let mut data_name: Vec<u8> = Vec::new();
        let mut i: usize = 0;
        while i < n - 5
            invariant
                n == name.len(),
                n >= 5,
                i <= n - 5,
                data_name@ =~= name@.subrange(0, i as int),
            decreases n - 5 - i,
        {
            data_name.push(name[i]);
            i = i + 1;
        }
        assert(name@.subrange(n - 5, n as int) =~= meta_suffix());
        return ViewTarget::Metadata(data_name);
    }
    proof {
        if n >= 5 && name@.subrange(n - 5, n as int) == meta_suffix() {
            assert(name@.subrange(n - 5, n as int)[0] == name@[n - 5]);
            assert(name@.subrange(n - 5, n as int)[1] == name@[n - 4]);
            assert(name@.subrange(n - 5, n as int)[2] == name@[n - 3]);
            assert(name@.subrange(n - 5, n as int)[3] == name@[n - 2]);
            assert(name@.subrange(n - 5, n as int)[4] == name@[n - 1]);
        }
    }
    ViewTarget::Data
}

/// The most bytes one read request returns: 1 MiB.
pub const MAX_READ: u64 = 1048576;

/// How many bytes a read request of `length` bytes returns at most.
pub fn read_length(length: usize) -> (r: u64)
    ensures
        r == if length < MAX_READ {
            length as u64
        } else {
            MAX_READ
        },
{
    if (length as u64) < MAX_READ {
        length as u64
    } else {
        MAX_READ
    }
}

/// Directories are never deleted; files go through retention-checked deletion.
pub fn check_remove_entry(directory: bool) -> (r: Result<(), StoreError>)
    ensures
        r is Ok <==> !directory,
        r matches Err(e) ==> e == StoreError::DirectoryDeletion,
{
    if directory {
        Err(StoreError::DirectoryDeletion)
    } else {
        Ok(())
    }
}

/// The view name of `file_name` inside the directory `parent`.
pub fn child_name(parent: &[u8], file_name: &[u8]) -> (r: Vec<u8>)
    ensures
        r@ == if parent@.len() == 0 {
            file_name@
        } else {
            parent@ + seq![47u8] + file_name@
        },
{
    let mut out: Vec<u8> = Vec::new();
    let mut i: usize = 0;
    while i < parent.len()
        invariant
            i <= parent.len(),
            out@ =~= parent@.subrange(0, i as int),
        decreases parent.len() - i,
    {
        out.push(parent[i]);
        i = i + 1;
    }
    if parent.len() > 0 {
        out.push(47u8);
    }
    let ghost prefix = out@;
    let mut j: usize = 0;
    while j < file_name.len()
        invariant
            j <= file_name.len(),
            out@ =~= prefix + file_name@.subrange(0, j as int),
        decreases file_name.len() - j,
    {
        out.push(file_name[j]);
        j = j + 1;
    }
    assert(file_name@.subrange(0, file_name@.len() as int) =~= file_name@);
    assert(parent@.subrange(0, parent@.len() as int) =~= parent@);
    out
}

/// The last component of a view name: what follows its last `/`.
pub fn base_name(name: &[u8]) -> (r: Vec<u8>)
    ensures
        exists|k: int|
            0 <= k <= name@.len() && r@ == name@.subrange(k, name@.len() as int) && (k == 0 || name@[k
                - 1] == 47u8),
        !r@.contains(47u8),
{
    let mut start: usize = name.len();
    while start > 0 && name[start - 1] != 47u8
        invariant
            start <= name.len(),
            forall|j: int| start <= j < name@.len() ==> name@[j] != 47u8,
        decreases start,
    {
        start = start - 1;
    }
    let mut out: Vec<u8> = Vec::new();
    let mut i: usize = start;
    while i < name.len()
        invariant
            start <= i <= name.len(),
            forall|j: int| start <= j < name@.len() ==> name@[j] != 47u8,
            out@ =~= name@.subrange(start as int, i as int),
        decreases name.len() - i,
    {
        out.push(name[i]);
        i = i + 1;
    }
    assert(start == 0 || name@[start - 1] == 47u8);
    out
}

/// Whether a file name is shown in listings: the store's control files are hidden.
pub fn is_listed(file_name: &[u8]) -> (r: bool)
    ensures
        r == !has_control_prefix(file_name@),
{
    !super::paths::is_control_name(file_name)
}

} // verus!
