//! The journal of one storage operation and the decisions that recover it
//! after an interruption.
//!
//! An operation first writes its journal entry, then changes data and
//! metadata, then removes the journal. When a journal entry is found on the
//! next start, recovery completes or undoes the operation so that each file
//! is left either as it was before or as it is after the operation.
use super::record::{spec_validate, Record, RecordView};
use super::StoreError;
use vstd::prelude::*;

verus! {

/// One journaled storage operation.
#[derive(Debug, Clone)]
pub enum Transaction {
    Create { name: String, record: Record },
    Append { name: String, before: Record, after: Record },
    Delete { name: String, record: Record },
}

/// Whether two checkpoints are the same.
pub fn same_record(a: &Record, b: &Record) -> (r: bool)
    ensures
        r == (a@ == b@),
{
    if a.format_version != b.format_version || a.created_at != b.created_at
        || a.retain_until != b.retain_until || a.lock_offset != b.lock_offset {
        return false;
    }
    if !(a.checksum == b.checksum) {
        return false;
    }
    if a.sha256_state.len() != b.sha256_state.len() {
        assert(a@.sha256_state.len() != b@.sha256_state.len());
        return false;
    }
    let mut i: usize = 0;
    while i < a.sha256_state.len()
        invariant
            i <= a.sha256_state.len(),
            a.sha256_state.len() == b.sha256_state.len(),
            forall|j: int| 0 <= j < i ==> a.sha256_state@[j] == b.sha256_state@[j],
        decreases a.sha256_state.len() - i,
    {
        if a.sha256_state[i] != b.sha256_state[i] {
            assert(a@.sha256_state[i as int] != b@.sha256_state[i as int]);
            return false;
        }
        i = i + 1;
    }
    assert(a@.sha256_state =~= b@.sha256_state);
    true
}

// ---------------------------------------------------------------- create

/// A create journal holds a valid checkpoint of an empty file.
pub open spec fn spec_check_create(record: RecordView) -> Result<(), StoreError> {
    match spec_validate(record) {
        Err(e) => Err(e),
        Ok(()) => if record.lock_offset != 0 {
            Err(StoreError::InvalidCreateTransaction)
        } else {
            Ok(())
        },
    }
}

/// Checks the checkpoint of a create journal before anything is touched.
pub fn check_create_transaction(record: &Record) -> (r: Result<(), StoreError>)
    ensures
        r == spec_check_create(record@),
{
    match record.validate_hasher() {
        Err(e) => return Err(e),
        Ok(()) => {},
    }
    if record.lock_offset != 0 {
        return Err(StoreError::InvalidCreateTransaction);
    }
    Ok(())
}

/// What recovery finds of a file whose creation was journaled.
pub enum CreateObserved {
    /// The metadata entry was written; the data file has `data_len` bytes.
    Committed { stored: Record, data_len: u64 },
    /// Only the data file exists, with `data_len` bytes.
    DataOnly { data_len: u64 },
    /// Neither entry exists.
    Absent,
}

/// What recovery does about an interrupted create.
#[derive(Debug, Clone, Copy, PartialEq, Eq, Structural)]
pub enum CreateRecovery {
    /// The create completed; both entries stay.
    KeepCreated,
    /// The create stopped before its metadata: the empty data file is removed.
    RemoveData,
    /// The create stopped before any entry existed.
    NothingToUndo,
}

/// The recovery decision for an interrupted create: a completed create must
/// match its journal and hold no data; an incomplete one must not have
/// received data, and is undone.
pub open spec fn spec_create_recovery(record: RecordView, observed: CreateObserved) -> Result<CreateRecovery, StoreError> {
    match observed {
        CreateObserved::Committed { stored, data_len } => if stored@ != record || data_len != 0 {
            Err(StoreError::CreateConflict)
        } else {
            Ok(CreateRecovery::KeepCreated)
        },
        CreateObserved::DataOnly { data_len } => if data_len != 0 {
            Err(StoreError::CreateContainsData)
        } else {
            Ok(CreateRecovery::RemoveData)
        },
        CreateObserved::Absent => Ok(CreateRecovery::NothingToUndo),
    }
}

/// Decides how to recover an interrupted create from what is on disk.
pub fn create_recovery(record: &Record, observed: &CreateObserved) -> (r: Result<CreateRecovery, StoreError>)
    ensures
        r == spec_create_recovery(record@, *observed),
{
    match observed {
        CreateObserved::Committed { stored, data_len } => {
            if !same_record(stored, record) || *data_len != 0 {
                Err(StoreError::CreateConflict)
            } else {
                Ok(CreateRecovery::KeepCreated)
            }
        },
        CreateObserved::DataOnly { data_len } => {
            if *data_len != 0 {
                Err(StoreError::CreateContainsData)
            } else {
                Ok(CreateRecovery::RemoveData)
            }
        },
        CreateObserved::Absent => Ok(CreateRecovery::NothingToUndo),
    }
}

// ---------------------------------------------------------------- append

/// An append journal holds two valid checkpoints of the same file, the
/// second strictly longer, with the same creation time and deadline.
pub open spec fn spec_check_append(before: RecordView, after: RecordView) -> Result<(), StoreError> {
    match spec_validate(before) {
        Err(e) => Err(e),
        Ok(()) => match spec_validate(after) {
            Err(e) => Err(e),
            Ok(()) => if after.lock_offset <= before.lock_offset || before.created_at != after.created_at
                || before.retain_until != after.retain_until {
                Err(StoreError::InvalidAppendTransaction)
            } else {
                Ok(())
            },
        },
    }
}

/// Checks the checkpoints of an append journal before anything is touched.
pub fn check_append_transaction(before: &Record, after: &Record) -> (r: Result<(), StoreError>)
    ensures
        r == spec_check_append(before@, after@),
{
    match before.validate_hasher() {
        Err(e) => return Err(e),
        Ok(()) => {},
    }
    match after.validate_hasher() {
        Err(e) => return Err(e),
        Ok(()) => {},
    }
    if after.lock_offset <= before.lock_offset || before.created_at != after.created_at
        || before.retain_until != after.retain_until {
        return Err(StoreError::InvalidAppendTransaction);
    }
    Ok(())
}

/// What recovery does about an interrupted append.
#[derive(Debug, Clone, Copy, PartialEq, Eq, Structural)]
pub enum AppendRecovery {
    /// The metadata still holds the old checkpoint: cut the data file back to
    /// this length, the old LOCK, dropping only bytes that were never committed.
    TruncateTo(u64),
    /// The append completed; nothing changes.
    KeepAppended,
}

/// The recovery decision for an interrupted append, given the checkpoint now
/// in the metadata entry and the data file's length.
pub open spec fn spec_append_recovery(
    before: RecordView,
    after: RecordView,
    current: RecordView,
    length: u64,
) -> Result<AppendRecovery, StoreError> {
    if current == before && length >= before.lock_offset {
        Ok(AppendRecovery::TruncateTo(before.lock_offset))
    } else if current != after || length != after.lock_offset {
        Err(StoreError::AppendInconsistent)
    } else {
        Ok(AppendRecovery::KeepAppended)
    }
}

/// The metadata and length a file has once the recovery decision is carried out.
pub open spec fn spec_after_append_recovery(current: RecordView, length: u64, action: AppendRecovery) -> (RecordView, u64) {
    match action {
        AppendRecovery::TruncateTo(n) => (current, n),
        AppendRecovery::KeepAppended => (current, length),
    }
}

/// Decides how to recover an interrupted append from what is on disk.
pub fn append_recovery(before: &Record, after: &Record, current: &Record, length: u64) -> (r: Result<AppendRecovery, StoreError>)
    ensures
        r == spec_append_recovery(before@, after@, current@, length),
        r matches Ok(action) ==> {
            let (record, len) = spec_after_append_recovery(current@, length, action);
            ||| record == before@ && len == before@.lock_offset
            ||| record == after@ && len == after@.lock_offset
        },
        r matches Ok(AppendRecovery::TruncateTo(n)) ==> n <= length,
{
    if same_record(current, before) && length >= before.lock_offset {
        Ok(AppendRecovery::TruncateTo(before.lock_offset))
    } else if !same_record(current, after) || length != after.lock_offset {
        Err(StoreError::AppendInconsistent)
    } else {
        Ok(AppendRecovery::KeepAppended)
    }
}

/// Recovery of an interrupted append is atomic and repeatable: it leaves the
/// file exactly at the old or at the new checkpoint, with the data length
/// equal to that checkpoint's LOCK, and recovering the recovered file again
/// changes nothing.
pub proof fn law_append_recovery_is_atomic_and_idempotent(
    before: RecordView,
    after: RecordView,
    current: RecordView,
    length: u64,
)
    requires
        spec_check_append(before, after) is Ok,
        spec_append_recovery(before, after, current, length) is Ok,
    ensures
        ({
            let action = spec_append_recovery(before, after, current, length)->Ok_0;
            let (record, len) = spec_after_append_recovery(current, length, action);
            &&& (record == before && len == before.lock_offset) || (record == after && len
                == after.lock_offset)
            &&& spec_append_recovery(before, after, record, len) is Ok
            &&& spec_after_append_recovery(
                record,
                len,
                spec_append_recovery(before, after, record, len)->Ok_0,
            ) == (record, len)
        }),
{
}

// ---------------------------------------------------------------- delete

/// Checks the checkpoint of a delete journal before anything is touched.
pub fn check_delete_transaction(record: &Record) -> (r: Result<(), StoreError>)
    ensures
        r == spec_validate(record@),
{
    record.validate_hasher()
}

/// The recovery decision for an interrupted delete: the metadata entry, if it
/// is still there, must be the journaled checkpoint; then both entries are removed.
pub open spec fn spec_delete_recovery(record: RecordView, stored: Option<RecordView>) -> Result<(), StoreError> {
    match stored {
        Some(s) => if s != record {
            Err(StoreError::DeleteConflict)
        } else {
            Ok(())
        },
        None => Ok(()),
    }
}

/// Decides whether an interrupted delete may be completed.
pub fn delete_recovery(record: &Record, stored: Option<&Record>) -> (r: Result<(), StoreError>)
    ensures
        r == spec_delete_recovery(
            record@,
            match stored {
                Some(s) => Some(s@),
                None => None,
            },
        ),
{
    match stored {
        Some(s) => {
            if !same_record(s, record) {
                Err(StoreError::DeleteConflict)
            } else {
                Ok(())
            }
        },
        None => Ok(()),
    }
}

} // verus!
