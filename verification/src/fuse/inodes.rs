//! The inode numbers a mounted volume hands out for storage paths.
//!
//! Inode 1 is the root, whose path is empty. Every other path gets the next
//! unused number when it is first looked up, keeps it while it exists, and
//! loses it when its file is deleted. No number is ever handed out twice.
use crate::storage::paths::views;
use crate::storage::store::same_bytes;
use vstd::prelude::*;
use vstd::slice::{slice_subrange, slice_to_vec};

verus! {

/// The inode number of the root directory.
pub const ROOT_INO: u64 = 1;

/// The mathematical state of an inode table.
pub struct InodeTableView {
    /// The path of each inode in use.
    pub paths: Map<u64, Seq<u8>>,
    /// The number the next new path will get.
    pub next_inode: u64,
}

/// Inode numbers by path and paths by inode number.
pub struct InodeTable {
    inodes: Vec<u64>,
    paths: Vec<Vec<u8>>,
    next_inode: u64,
}

/// The position at which `ino` is stored.
pub open spec fn position_of(inodes: Seq<u64>, ino: u64) -> int {
    choose|k: int| 0 <= k < inodes.len() && inodes[k] == ino
}

/// Each path has at most one inode and each inode at most one path.
pub open spec fn is_injective(paths: Map<u64, Seq<u8>>) -> bool {
    forall|a: u64, b: u64|
        paths.contains_key(a) && paths.contains_key(b) && #[trigger] paths[a] == #[trigger] paths[b] ==> a == b
}

/// The directory part of a path: what stands before its last `/`, or
/// `None` for a top-level name.
pub open spec fn parent_path(path: Seq<u8>) -> Option<Seq<u8>>
    decreases path.len(),
{
    if path.len() == 0 {
        None
    } else if path.last() == 47u8 {
        Some(path.drop_last())
    } else {
        parent_path(path.drop_last())
    }
}

/// What looking up `path` does to a table: an existing path keeps its number
/// and the table is unchanged; a new path gets the next number; when the
/// numbers are exhausted nothing changes and there is no number.
pub open spec fn inode_lookup(before: InodeTableView, after: InodeTableView, path: Seq<u8>, r: Option<u64>) -> bool {
    match r {
        Some(ino) => {
            &&& after.paths.contains_key(ino)
            &&& after.paths[ino] == path
            &&& if before.paths.contains_key(ino) {
                after == before
            } else {
                &&& ino == before.next_inode
                &&& after.paths == before.paths.insert(ino, path)
                &&& after.next_inode == ino + 1
                &&& forall|i: u64| before.paths.contains_key(i) ==> before.paths[i] != path
            }
        },
        None => {
            &&& after == before
            &&& before.next_inode == u64::MAX
            &&& forall|i: u64| before.paths.contains_key(i) ==> before.paths[i] != path
        },
    }
}

impl View for InodeTable {
    type V = InodeTableView;

    closed spec fn view(&self) -> InodeTableView {
        InodeTableView {
            paths: Map::new(
                |i: u64| self.inodes@.contains(i),
                |i: u64| self.paths@[position_of(self.inodes@, i)]@,
            ),
            next_inode: self.next_inode,
        }
    }
}

impl InodeTable {
    /// The table is consistent: parallel entries with distinct numbers and
    /// distinct paths, the root first, and every number below the next one.
    pub closed spec fn wf(self) -> bool {
        &&& self.inodes@.len() == self.paths@.len()
        &&& self.inodes@.len() >= 1
        &&& self.inodes@[0] == ROOT_INO
        &&& self.paths@[0]@ == Seq::<u8>::empty()
        &&& self.next_inode >= 2
        &&& forall|k: int| 0 <= k < self.inodes@.len() ==> #[trigger] self.inodes@[k] < self.next_inode
        &&& forall|j: int, k: int|
            0 <= j < k < self.inodes@.len() ==> #[trigger] self.inodes@[j] != #[trigger] self.inodes@[k]
        &&& forall|j: int, k: int|
            0 <= j < k < self.paths@.len() ==> #[trigger] self.paths@[j]@ != #[trigger] self.paths@[k]@
    }

    proof fn lemma_position(self, k: int)
        requires
            self.wf(),
            0 <= k < self.inodes@.len(),
        ensures
            position_of(self.inodes@, self.inodes@[k]) == k,
            self@.paths.contains_key(self.inodes@[k]),
            self@.paths[self.inodes@[k]] == self.paths@[k]@,
    {
        let p = position_of(self.inodes@, self.inodes@[k]);
        assert(self.inodes@.contains(self.inodes@[k]));
        if p != k {
            if p < k {
                assert(self.inodes@[p] != self.inodes@[k]);
            } else {
                assert(self.inodes@[k] != self.inodes@[p]);
            }
        }
    }

    proof fn lemma_view_facts(self)
        requires
            self.wf(),
        ensures
            is_injective(self@.paths),
            self@.paths.contains_key(ROOT_INO),
            self@.paths[ROOT_INO] == Seq::<u8>::empty(),
            forall|i: u64| #[trigger] self@.paths.contains_key(i) ==> i < self@.next_inode,
    {
        self.lemma_position(0);
        assert forall|a: u64, b: u64|
            self@.paths.contains_key(a) && self@.paths.contains_key(b) && #[trigger] self@.paths[a]
                == #[trigger] self@.paths[b] implies a == b by {
            let ka = choose|k: int| 0 <= k < self.inodes@.len() && self.inodes@[k] == a;
            let kb = choose|k: int| 0 <= k < self.inodes@.len() && self.inodes@[k] == b;
            self.lemma_position(ka);
            self.lemma_position(kb);
            if ka < kb {
                assert(self.paths@[ka]@ != self.paths@[kb]@);
            } else if kb < ka {
                assert(self.paths@[kb]@ != self.paths@[ka]@);
            }
        }
        assert forall|i: u64| #[trigger] self@.paths.contains_key(i) implies i < self@.next_inode by {
            let k = choose|k: int| 0 <= k < self.inodes@.len() && self.inodes@[k] == i;
        }
    }

    /// A table that knows only the root.
    pub fn new() -> (r: Self)
        ensures
            r.wf(),
            r@.paths == Map::<u64, Seq<u8>>::empty().insert(ROOT_INO, Seq::<u8>::empty()),
            r@.next_inode == ROOT_INO + 1,
    {
        let mut inodes: Vec<u64> = Vec::new();
        inodes.push(ROOT_INO);
        let mut paths: Vec<Vec<u8>> = Vec::new();
        paths.push(Vec::new());
        let r = InodeTable { inodes, paths, next_inode: ROOT_INO + 1 };
        proof {
            r.lemma_position(0);
            assert(r@.paths =~= Map::<u64, Seq<u8>>::empty().insert(ROOT_INO, Seq::<u8>::empty()));
        }
        r
    }

    fn find_inode(&self, ino: u64) -> (r: Option<usize>)
        requires
            self.wf(),
        ensures
            match r {
                Some(k) => k < self.inodes@.len() && self.inodes@[k as int] == ino,
                None => !self.inodes@.contains(ino),
            },
    {
        let mut k: usize = 0;
        while k < self.inodes.len()
            invariant
                k <= self.inodes@.len(),
                forall|j: int| 0 <= j < k ==> self.inodes@[j] != ino,
            decreases self.inodes@.len() - k,
        {
            if self.inodes[k] == ino {
                return Some(k);
            }
            k = k + 1;
        }
        None
    }

    fn find_path(&self, path: &[u8]) -> (r: Option<usize>)
        requires
            self.wf(),
        ensures
            match r {
                Some(k) => k < self.paths@.len() && self.paths@[k as int]@ == path@,
                None => forall|k: int| 0 <= k < self.paths@.len() ==> self.paths@[k]@ != path@,
            },
    {
        let mut k: usize = 0;
        while k < self.paths.len()
            invariant
                k <= self.paths@.len(),
                forall|j: int| 0 <= j < k ==> self.paths@[j]@ != path@,
            decreases self.paths@.len() - k,
        {
            if same_bytes(self.paths[k].as_slice(), path) {
                return Some(k);
            }
            k = k + 1;
        }
        None
    }

    /// The path of an inode number, if it is in use.
    pub fn path_for(&self, ino: u64) -> (r: Option<Vec<u8>>)
        requires
            self.wf(),
        ensures
            match r {
                Some(p) => self@.paths.contains_key(ino) && self@.paths[ino] == p@,
                None => !self@.paths.contains_key(ino),
            },
    {
        match self.find_inode(ino) {
            Some(k) => {
                proof {
                    self.lemma_position(k as int);
                }
                Some(self.paths[k].clone())
            },
            None => None,
        }
    }

    /// The inode number of a path: the one it already has, or else the next
    /// unused number. `None` when the numbers are exhausted.
    pub fn inode_for(&mut self, path: &[u8]) -> (r: Option<u64>)
        requires
            old(self).wf(),
        ensures
            final(self).wf(),
            match r {
                Some(ino) => {
                    &&& final(self)@.paths.contains_key(ino)
                    &&& final(self)@.paths[ino] == path@
                    &&& if old(self)@.paths.contains_key(ino) {
                        final(self)@ == old(self)@
                    } else {
                        &&& ino == old(self)@.next_inode
                        &&& final(self)@.paths == old(self)@.paths.insert(ino, path@)
                        &&& final(self)@.next_inode == ino + 1
                        &&& forall|i: u64| old(self)@.paths.contains_key(i) ==> old(self)@.paths[i] != path@
                    }
                },
                None => {
                    &&& final(self)@ == old(self)@
                    &&& old(self)@.next_inode == u64::MAX
                    &&& forall|i: u64| old(self)@.paths.contains_key(i) ==> old(self)@.paths[i] != path@
                },
            },
    {
        proof {
            self.lemma_view_facts();
        }
        match self.find_path(path) {
            Some(k) => {
                proof {
                    self.lemma_position(k as int);
                }
                return Some(self.inodes[k]);
            },
            None => {},
        }
        proof {
            assert forall|i: u64| old(self)@.paths.contains_key(i) implies old(self)@.paths[i] != path@ by {
                let k = choose|k: int| 0 <= k < self.inodes@.len() && self.inodes@[k] == i;
                self.lemma_position(k);
            }
        }
        let ino = self.next_inode;
        let next = match ino.checked_add(1) {
            Some(n) => n,
            None => return None,
        };
        let ghost before = *self;
        self.inodes.push(ino);
        self.paths.push(slice_to_vec(path));
        self.next_inode = next;
        proof {
            assert(!before.inodes@.contains(ino)) by {
                if before.inodes@.contains(ino) {
                    let k = choose|k: int| 0 <= k < before.inodes@.len() && before.inodes@[k] == ino;
                    assert(before.inodes@[k] < before.next_inode);
                }
            }
            let n = before.inodes@.len() as int;
            assert(self.inodes@[n] == ino);
            assert forall|j: int, k: int|
                0 <= j < k < self.inodes@.len() implies #[trigger] self.inodes@[j] != #[trigger] self.inodes@[k] by {
                if k == n {
                    assert(before.inodes@.contains(before.inodes@[j]));
                }
            }
            assert forall|j: int, k: int|
                0 <= j < k < self.paths@.len() implies #[trigger] self.paths@[j]@ != #[trigger] self.paths@[k]@ by {
                if k == n {
                    assert(self.paths@[k]@ == path@);
                    assert(self.paths@[j] == before.paths@[j]);
                }
            }
            assert(self.wf());
            self.lemma_position(n);
            assert forall|i: u64| #[trigger] before@.paths.contains_key(i) implies self@.paths.contains_key(i)
                && self@.paths[i] == before@.paths[i] by {
                let k = choose|k: int| 0 <= k < before.inodes@.len() && before.inodes@[k] == i;
                before.lemma_position(k);
                assert(self.inodes@[k] == i);
                self.lemma_position(k);
            }
            assert(self@.paths =~= before@.paths.insert(ino, path@));
        }
        Some(ino)
    }

    /// The inode number of the directory that holds `path`: the root for a
    /// top-level name, otherwise the number of the part before the last `/`.
    pub fn parent_inode(&mut self, path: &[u8]) -> (r: Option<u64>)
        requires
            old(self).wf(),
        ensures
            final(self).wf(),
            match parent_path(path@) {
                None => r == Some(ROOT_INO) && final(self)@ == old(self)@,
                Some(parent) => inode_lookup(old(self)@, final(self)@, parent, r),
            },
    {
        let mut split: usize = path.len();
        assert(path@.subrange(0, split as int) =~= path@);
        while split > 0 && path[split - 1] != 47u8
            invariant
                split <= path.len(),
                parent_path(path@.subrange(0, split as int)) == parent_path(path@),
            decreases split,
        {
            assert(path@.subrange(0, split as int).drop_last() =~= path@.subrange(0, split - 1));
            split = split - 1;
        }
        if split > 0 {
            assert(path@.subrange(0, split as int).drop_last() =~= path@.subrange(0, split - 1));
        }
        if split == 0 {
            proof {
                self.lemma_view_facts();
            }
            return Some(ROOT_INO);
        }
        let parent = slice_to_vec(slice_subrange(path, 0, split - 1));
        self.inode_for(parent.as_slice())
    }

    /// Forgets the inode of a deleted path. The root is never forgotten.
    pub fn forget(&mut self, path: &[u8])
        requires
            old(self).wf(),
        ensures
            final(self).wf(),
            final(self)@.next_inode == old(self)@.next_inode,
            forall|i: u64|
                #[trigger] final(self)@.paths.contains_key(i) <==> old(self)@.paths.contains_key(i)
                    && (i == ROOT_INO || old(self)@.paths[i] != path@),
            forall|i: u64| #[trigger] final(self)@.paths.contains_key(i) ==> final(self)@.paths[i] == old(self)@.paths[i],
    {
        let ghost before = *self;
        proof {
            before.lemma_view_facts();
        }
        let mut k: usize = 1;
        while k < self.paths.len()
            invariant
                *self == before,
                before == *old(self),
                before.wf(),
                1 <= k <= self.paths@.len(),
                forall|j: int| 1 <= j < k ==> self.paths@[j]@ != path@,
            decreases self.paths@.len() - k,
        {
            if same_bytes(self.paths[k].as_slice(), path) {
                let ghost removed = self.inodes@[k as int];
                self.inodes.remove(k);
                self.paths.remove(k);
                proof {
                    assert forall|j: int, m: int|
                        0 <= j < m < self.inodes@.len() implies #[trigger] self.inodes@[j] != #[trigger] self.inodes@[m] by {
                        let oj = if j < k { j } else { j + 1 };
                        let om = if m < k { m } else { m + 1 };
                        assert(self.inodes@[j] == before.inodes@[oj]);
                        assert(self.inodes@[m] == before.inodes@[om]);
                    }
                    assert forall|j: int, m: int|
                        0 <= j < m < self.paths@.len() implies #[trigger] self.paths@[j]@ != #[trigger] self.paths@[m]@ by {
                        let oj = if j < k { j } else { j + 1 };
                        let om = if m < k { m } else { m + 1 };
                        assert(self.paths@[j] == before.paths@[oj]);
                        assert(self.paths@[m] == before.paths@[om]);
                    }
                    assert forall|m: int| 0 <= m < self.inodes@.len() implies #[trigger] self.inodes@[m] < self.next_inode by {
                        let om = if m < k { m } else { m + 1 };
                        assert(self.inodes@[m] == before.inodes@[om]);
                    }
                    assert(self.wf());
                    before.lemma_position(k as int);
                    assert forall|i: u64|
                        #[trigger] self@.paths.contains_key(i) <==> before@.paths.contains_key(i) && (i
                            == ROOT_INO || before@.paths[i] != path@) by {
                        if self@.paths.contains_key(i) {
                            let m = choose|m: int| 0 <= m < self.inodes@.len() && self.inodes@[m] == i;
                            let om = if m < k { m } else { m + 1 };
                            assert(before.inodes@[om] == i);
                            before.lemma_position(om);
                            if om != 0 {
                                assert(om != k);
                                if om < k {
                                    assert(before.paths@[om]@ != before.paths@[k as int]@);
                                } else {
                                    assert(before.paths@[k as int]@ != before.paths@[om]@);
                                }
                            }
                        }
                        if before@.paths.contains_key(i) && (i == ROOT_INO || before@.paths[i] != path@) {
                            let om = choose|m: int| 0 <= m < before.inodes@.len() && before.inodes@[m] == i;
                            before.lemma_position(om);
                            assert(om != k);
                            let m = if om < k { om } else { om - 1 };
                            assert(self.inodes@[m] == i);
                        }
                    }
                    assert forall|i: u64| #[trigger] self@.paths.contains_key(i) implies self@.paths[i]
                        == before@.paths[i] by {
                        let m = choose|m: int| 0 <= m < self.inodes@.len() && self.inodes@[m] == i;
                        let om = if m < k { m } else { m + 1 };
                        self.lemma_position(m);
                        assert(before.inodes@[om] == i);
                        before.lemma_position(om);
                        assert(self.paths@[m] == before.paths@[om]);
                    }
                }
                return ;
            }
            k = k + 1;
        }
        proof {
            assert forall|i: u64|
                #[trigger] self@.paths.contains_key(i) <==> before@.paths.contains_key(i) && (i == ROOT_INO
                    || before@.paths[i] != path@) by {
                if before@.paths.contains_key(i) {
                    let m = choose|m: int| 0 <= m < before.inodes@.len() && before.inodes@[m] == i;
                    before.lemma_position(m);
                    if m == 0 {
                        assert(i == ROOT_INO);
                    }
                }
            }
        }
    }
}

/// An inode table always maps the root to the empty path and never gives one
/// path two numbers or one number two paths, whatever lookups and deletions
/// have happened.
pub proof fn law_inode_numbers_identify_paths(table: InodeTable)
    requires
        table.wf(),
    ensures
        is_injective(table@.paths),
        table@.paths.contains_key(ROOT_INO),
        table@.paths[ROOT_INO] == Seq::<u8>::empty(),
        forall|i: u64| #[trigger] table@.paths.contains_key(i) ==> i < table@.next_inode,
{
    table.lemma_view_facts();
}

} // verus!
