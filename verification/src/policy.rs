//! Append, retention, and immutable path policies.
use vstd::prelude::*;

verus! {

/// Reasons a policy refuses an operation.
#[derive(Debug, Clone, Copy, PartialEq, Eq, Structural)]
pub enum PolicyError {
    Overflow,
    NotAtEnd,
    RetentionActive,
    ImmutablePath,
    ReadOnlyMetadata,
    ReservedName,
    InvalidName,
}

/// The mathematical state of a file policy.
pub struct FilePolicyView {
    pub created_at: u64,
    pub retain_until: u64,
    pub lock_offset: u64,
}

/// Private fields prevent callers from changing the creation time or retention.
#[derive(Debug, Clone, Copy, PartialEq, Eq, Structural)]
pub struct FilePolicy {
    created_at: u64,
    retain_until: u64,
    lock_offset: u64,
}

impl View for FilePolicy {
    type V = FilePolicyView;

    closed spec fn view(&self) -> FilePolicyView {
        FilePolicyView {
            created_at: self.created_at,
            retain_until: self.retain_until,
            lock_offset: self.lock_offset,
        }
    }
}

/// The policy a file gets at creation: retention counted from `created_at`,
/// LOCK at the start of the file.
pub open spec fn spec_new(created_at: u64, retention_seconds: u64) -> Result<FilePolicyView, PolicyError> {
    if created_at + retention_seconds > u64::MAX {
        Err(PolicyError::Overflow)
    } else {
        Ok(FilePolicyView {
            created_at,
            retain_until: (created_at + retention_seconds) as u64,
            lock_offset: 0,
        })
    }
}

/// An append is accepted only at the LOCK boundary; it moves LOCK past the
/// appended bytes and leaves creation time and retention unchanged.
pub open spec fn spec_after_append(p: FilePolicyView, offset: u64, length: u64) -> Result<FilePolicyView, PolicyError> {
    if offset != p.lock_offset {
        Err(PolicyError::NotAtEnd)
    } else if offset + length > u64::MAX {
        Err(PolicyError::Overflow)
    } else {
        Ok(FilePolicyView { lock_offset: (offset + length) as u64, ..p })
    }
}

/// Deletion is allowed at and after the retention deadline.
pub open spec fn spec_check_delete(p: FilePolicyView, now: u64) -> Result<(), PolicyError> {
    if now < p.retain_until {
        Err(PolicyError::RetentionActive)
    } else {
        Ok(())
    }
}

/// Lifts a result over views.
pub open spec fn view_result(r: Result<FilePolicy, PolicyError>) -> Result<FilePolicyView, PolicyError> {
    match r {
        Ok(p) => Ok(p@),
        Err(e) => Err(e),
    }
}

impl FilePolicy {
    /// A policy never expires before it was created.
    #[verifier::type_invariant]
    spec fn well_formed(self) -> bool {
        self.created_at <= self.retain_until
    }

    pub fn new(created_at: u64, retention_seconds: u64) -> (r: Result<Self, PolicyError>)
        ensures
            view_result(r) == spec_new(created_at, retention_seconds),
    {
        let retain_until = match created_at.checked_add(retention_seconds) {
            Some(value) => value,
            None => return Err(PolicyError::Overflow),
        };
        Ok(Self { created_at, retain_until, lock_offset: 0 })
    }

    pub fn created_at(&self) -> (r: u64)
        ensures
            r == self@.created_at,
    {
        self.created_at
    }

    pub fn retain_until(&self) -> (r: u64)
        ensures
            r == self@.retain_until,
            self@.created_at <= r,
    {
        proof {
            use_type_invariant(self);
        }
        self.retain_until
    }

    pub fn lock_offset(&self) -> (r: u64)
        ensures
            r == self@.lock_offset,
    {
        self.lock_offset
    }

    /// Propose policy state for a complete, confirmed append.
    ///
    /// Returns a new policy with an advanced LOCK boundary and the same retention deadline.
    pub fn after_append(&self, offset: u64, length: u64) -> (r: Result<Self, PolicyError>)
        ensures
            view_result(r) == spec_after_append(self@, offset, length),
    {
        proof {
            use_type_invariant(self);
        }
        if offset != self.lock_offset {
            return Err(PolicyError::NotAtEnd);
        }
        let lock_offset = match offset.checked_add(length) {
            Some(value) => value,
            None => return Err(PolicyError::Overflow),
        };
        Ok(Self { created_at: self.created_at, retain_until: self.retain_until, lock_offset })
    }

    /// Evaluate whole-file deletion eligibility against the retention deadline.
    pub fn check_delete(&self, now: u64) -> (r: Result<(), PolicyError>)
        ensures
            r == spec_check_delete(self@, now),
    {
        if now < self.retain_until {
            Err(PolicyError::RetentionActive)
        } else {
            Ok(())
        }
    }
}

/// Policy for a created filesystem entry with a fixed name and parent directory.
#[derive(Debug, Clone, PartialEq, Eq)]
pub enum EntryPolicy {
    File(FilePolicy),
    Directory,
    Metadata,
}

impl EntryPolicy {
    /// Reject renaming and moving an entry, including replacement and exchange.
    pub fn check_rename(&self) -> (r: Result<(), PolicyError>)
        ensures
            r == Err::<(), PolicyError>(PolicyError::ImmutablePath),
    {
        Err(PolicyError::ImmutablePath)
    }
}

/// Appends `lengths` one after another, each at the LOCK left by the previous one.
pub open spec fn spec_append_all(p: FilePolicyView, lengths: Seq<u64>) -> Result<FilePolicyView, PolicyError>
    decreases lengths.len(),
{
    if lengths.len() == 0 {
        Ok(p)
    } else {
        match spec_after_append(p, p.lock_offset, lengths[0]) {
            Ok(q) => spec_append_all(q, lengths.drop_first()),
            Err(e) => Err(e),
        }
    }
}

/// Sum of a sequence of lengths.
pub open spec fn total_length(lengths: Seq<u64>) -> int
    decreases lengths.len(),
{
    if lengths.len() == 0 {
        0
    } else {
        lengths[0] + total_length(lengths.drop_first())
    }
}

/// Retention is fixed at creation: any run of accepted appends keeps the
/// creation time and the retention deadline, and moves LOCK by exactly the
/// number of bytes appended.
pub proof fn law_appends_keep_retention(p: FilePolicyView, lengths: Seq<u64>)
    ensures
        spec_append_all(p, lengths) matches Ok(q) ==> {
            &&& q.created_at == p.created_at
            &&& q.retain_until == p.retain_until
            &&& q.lock_offset == p.lock_offset + total_length(lengths)
        },
    decreases lengths.len(),
{
    if lengths.len() > 0 {
        if let Ok(q) = spec_after_append(p, p.lock_offset, lengths[0]) {
            law_appends_keep_retention(q, lengths.drop_first());
        }
    }
}

/// Committed bytes cannot be overwritten and no hole can be left: after an
/// accepted append, every append that does not start exactly at the new LOCK
/// is refused with `NotAtEnd`, whether or not retention has expired.
pub proof fn law_committed_bytes_are_immutable(p: FilePolicyView, offset: u64, length: u64, next_offset: u64, next_length: u64)
    requires
        spec_after_append(p, offset, length) is Ok,
        next_offset != offset + length,
    ensures
        spec_after_append(spec_after_append(p, offset, length)->Ok_0, next_offset, next_length)
            == Err::<FilePolicyView, PolicyError>(PolicyError::NotAtEnd),
{
}

/// Deletion eligibility depends only on the creation-based deadline: it does
/// not change with appends, and once a file may be deleted it stays deletable.
pub proof fn law_deletion_follows_deadline(p: FilePolicyView, offset: u64, length: u64, now: u64, later: u64)
    requires
        now <= later,
    ensures
        spec_after_append(p, offset, length) matches Ok(q) ==> spec_check_delete(q, now) == spec_check_delete(p, now),
        spec_check_delete(p, now) is Ok ==> spec_check_delete(p, later) is Ok,
        spec_check_delete(p, now) is Ok <==> now >= p.retain_until,
{
}

/// A newly created policy expires exactly `retention_seconds` after creation
/// and has nothing committed yet.
pub proof fn law_new_counts_from_creation(created_at: u64, retention_seconds: u64)
    ensures
        spec_new(created_at, retention_seconds) matches Ok(p) ==> {
            &&& p.retain_until == created_at + retention_seconds
            &&& p.created_at == created_at
            &&& p.lock_offset == 0
        },
        spec_new(created_at, retention_seconds) is Err <==> created_at + retention_seconds > u64::MAX,
{
}

/// Appends happen only at LOCK: for every policy, an append is accepted
/// exactly when its offset is the current LOCK and the new LOCK fits in 64
/// bits; any other offset, on an empty file too, is refused with `NotAtEnd`,
/// an overflowing length with `Overflow`. An accepted append moves LOCK by
/// exactly its length and keeps the creation time and the deadline.
pub proof fn law_appends_only_at_lock(p: FilePolicyView, offset: u64, length: u64)
    ensures
        spec_after_append(p, offset, length) is Ok <==> offset == p.lock_offset && offset + length
            <= 0xffff_ffff_ffff_ffffu64,
        offset != p.lock_offset ==> spec_after_append(p, offset, length) == Err::<
            FilePolicyView,
            PolicyError,
        >(PolicyError::NotAtEnd),
        offset == p.lock_offset && offset + length > 0xffff_ffff_ffff_ffffu64 ==> spec_after_append(
            p,
            offset,
            length,
        ) == Err::<FilePolicyView, PolicyError>(PolicyError::Overflow),
        spec_after_append(p, offset, length) matches Ok(q) ==> {
            &&& q.lock_offset == offset + length
            &&& q.created_at == p.created_at
            &&& q.retain_until == p.retain_until
        },
{
}

} // verus!
