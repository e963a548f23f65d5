//! `storage ROOT OPERATION PATH [RETENTION_SECONDS]`: direct backing-store
//! commands for development and verification.
use super::{parse_u64, spec_parse_u64, text_bytes, text_is, CliError};
use vstd::prelude::*;

verus! {

/// The operations of the storage command.
#[derive(Debug, Clone, Copy, PartialEq, Eq, Structural)]
pub enum StorageOperation {
    Create,
    Append,
    Read,
    Meta,
    Verify,
    Delete,
    Mkdir,
}

/// A parsed storage command.
#[derive(Debug)]
pub struct StorageCommand {
    pub root: String,
    pub operation: StorageOperation,
    pub name: String,
    /// The retention in seconds of a `create`.
    pub retention: Option<u64>,
}

/// The operation named by a word.
pub open spec fn spec_operation(word: Seq<u8>) -> Option<StorageOperation> {
    if word == seq![99u8, 114u8, 101u8, 97u8, 116u8, 101u8] {
        Some(StorageOperation::Create)
    } else if word == seq![97u8, 112u8, 112u8, 101u8, 110u8, 100u8] {
        Some(StorageOperation::Append)
    } else if word == seq![114u8, 101u8, 97u8, 100u8] {
        Some(StorageOperation::Read)
    } else if word == seq![109u8, 101u8, 116u8, 97u8] {
        Some(StorageOperation::Meta)
    } else if word == seq![118u8, 101u8, 114u8, 105u8, 102u8, 121u8] {
        Some(StorageOperation::Verify)
    } else if word == seq![100u8, 101u8, 108u8, 101u8, 116u8, 101u8] {
        Some(StorageOperation::Delete)
    } else if word == seq![109u8, 107u8, 100u8, 105u8, 114u8] {
        Some(StorageOperation::Mkdir)
    } else {
        None
    }
}

/// Recognizes an operation word.
pub fn operation_of(word: &String) -> (r: Option<StorageOperation>)
    ensures
        r == spec_operation(text_bytes(*word)),
{
    let create: [u8; 6] = [99u8, 114u8, 101u8, 97u8, 116u8, 101u8];
    let append: [u8; 6] = [97u8, 112u8, 112u8, 101u8, 110u8, 100u8];
    let read: [u8; 4] = [114u8, 101u8, 97u8, 100u8];
    let meta: [u8; 4] = [109u8, 101u8, 116u8, 97u8];
    let verify: [u8; 6] = [118u8, 101u8, 114u8, 105u8, 102u8, 121u8];
    let delete: [u8; 6] = [100u8, 101u8, 108u8, 101u8, 116u8, 101u8];
    let mkdir: [u8; 5] = [109u8, 107u8, 100u8, 105u8, 114u8];
    assert(create@ =~= seq![99u8, 114u8, 101u8, 97u8, 116u8, 101u8]);
    assert(append@ =~= seq![97u8, 112u8, 112u8, 101u8, 110u8, 100u8]);
    assert(read@ =~= seq![114u8, 101u8, 97u8, 100u8]);
    assert(meta@ =~= seq![109u8, 101u8, 116u8, 97u8]);
    assert(verify@ =~= seq![118u8, 101u8, 114u8, 105u8, 102u8, 121u8]);
    assert(delete@ =~= seq![100u8, 101u8, 108u8, 101u8, 116u8, 101u8]);
    assert(mkdir@ =~= seq![109u8, 107u8, 100u8, 105u8, 114u8]);
    if text_is(word, &create) {
        Some(StorageOperation::Create)
    } else if text_is(word, &append) {
        Some(StorageOperation::Append)
    } else if text_is(word, &read) {
        Some(StorageOperation::Read)
    } else if text_is(word, &meta) {
        Some(StorageOperation::Meta)
    } else if text_is(word, &verify) {
        Some(StorageOperation::Verify)
    } else if text_is(word, &delete) {
        Some(StorageOperation::Delete)
    } else if text_is(word, &mkdir) {
        Some(StorageOperation::Mkdir)
    } else {
        None
    }
}

/// The bytes of `storage`.
pub open spec fn storage_word() -> Seq<u8> {
    seq![115u8, 116u8, 111u8, 114u8, 97u8, 103u8, 101u8]
}

/// How a storage command line is read: `storage ROOT OPERATION PATH`, and
/// for `create` exactly one more word, the retention in seconds; no other
/// operation takes more words.
pub open spec fn spec_storage_command(args: Seq<String>) -> Result<(StorageOperation, Option<u64>), CliError> {
    if args.len() < 4 {
        Err(CliError::StorageUsage)
    } else {
        match spec_operation(text_bytes(args[2])) {
            None => Err(CliError::InvalidStorageCommand),
            Some(op) => if text_bytes(args[0]) != storage_word() || (op == StorageOperation::Create
                && args.len() != 5) || (op != StorageOperation::Create && args.len() != 4) {
                Err(CliError::InvalidStorageCommand)
            } else if op == StorageOperation::Create {
                match spec_parse_u64(text_bytes(args[4])) {
                    Some(seconds) => Ok((op, Some(seconds))),
                    None => Err(CliError::InvalidRetention),
                }
            } else {
                Ok((op, None))
            },
        }
    }
}

/// Parses a storage command line.
pub fn parse_storage_command(args: &[String]) -> (r: Result<StorageCommand, CliError>)
    ensures
        match r {
            Ok(command) => {
                &&& spec_storage_command(args@) == Ok::<(StorageOperation, Option<u64>), CliError>(
                    (command.operation, command.retention),
                )
                &&& command.root@ == args@[1]@
                &&& command.name@ == args@[3]@
            },
            Err(e) => spec_storage_command(args@) == Err::<(StorageOperation, Option<u64>), CliError>(e),
        },
{
    if args.len() < 4 {
        return Err(CliError::StorageUsage);
    }
    let storage: [u8; 7] = [115u8, 116u8, 111u8, 114u8, 97u8, 103u8, 101u8];
    assert(storage@ =~= storage_word());
    let operation = match operation_of(&args[2]) {
        Some(op) => op,
        None => return Err(CliError::InvalidStorageCommand),
    };
    let is_create = match operation {
        StorageOperation::Create => true,
        _ => false,
    };
    if !text_is(&args[0], &storage) || (is_create && args.len() != 5) || (!is_create && args.len() != 4) {
        return Err(CliError::InvalidStorageCommand);
    }
    let retention = if is_create {
        match parse_u64(args[4].as_str().as_bytes()) {
            Some(seconds) => Some(seconds),
            None => return Err(CliError::InvalidRetention),
        }
    } else {
        None
    };
    Ok(StorageCommand { root: args[1].clone(), operation, name: args[3].clone(), retention })
}

} // verus!
