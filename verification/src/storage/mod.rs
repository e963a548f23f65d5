//! Private backing storage with serialized append transactions and SHA-256 checkpoints.
//!
//! The decisions of the backing store stand here; the program around the
//! library performs the file operations they call for.
pub mod digest;
pub mod listing;
pub mod paths;
pub mod record;
pub mod store;
pub mod transaction;
pub mod view;

use vstd::prelude::*;

pub use record::{hex, Record, RecordView};
pub use view::Entry;

verus! {

/// The class of a storage failure, as the operating system reports it.
#[derive(Debug, Clone, Copy, PartialEq, Eq, Structural)]
pub enum ErrorKind {
    InvalidData,
    PermissionDenied,
    AlreadyExists,
    NotADirectory,
    Other,
}

/// Why the backing store refuses an operation.
#[derive(Debug, Clone, Copy, PartialEq, Eq, Structural)]
pub enum StoreError {
    MetadataTooLarge,
    InvalidMetadataJson,
    SizeDoesNotMatchLock,
    FileChecksumMismatch,
    NoParentDirectory,
    ParentDirectoryMissing,
    RetentionOverflow,
    InvalidMetadataHeader,
    InvalidStateLength,
    StateLengthMismatch,
    InvalidState,
    StateChecksumMismatch,
    LengthOverflow,
    RootNotDirectory,
    UnsupportedFormat,
    RootNotEmpty,
    InvalidCreateTransaction,
    CreateConflict,
    CreateContainsData,
    InvalidAppendTransaction,
    AppendInconsistent,
    DeleteConflict,
    FilenameNotUtf8,
    NotRelativePath,
    InvalidPath,
    ReadExceededBuffer,
    AppendNotAtLock,
    RetentionActive,
    ReservedEntryName,
    ReservedControlName,
    SymlinkForbidden,
    HardLinkForbidden,
    NotRegularFile,
    DirectoryDeletion,
    AlreadyExists,
    NotADirectory,
    ClockBeforeEpoch,
}

/// The sentence that describes each failure.
pub open spec fn store_error_message(e: StoreError) -> Seq<char> {
    match e {
        StoreError::MetadataTooLarge => "Metadata exceeds size limit"@,
        StoreError::InvalidMetadataJson => "Invalid metadata JSON"@,
        StoreError::SizeDoesNotMatchLock => "File size does not match LOCK"@,
        StoreError::FileChecksumMismatch => "File checksum mismatch"@,
        StoreError::NoParentDirectory => "Storage path has no parent directory"@,
        StoreError::ParentDirectoryMissing => "Parent directory does not exist"@,
        StoreError::RetentionOverflow => "Retention overflow"@,
        StoreError::InvalidMetadataHeader => "Invalid metadata header"@,
        StoreError::InvalidStateLength => "Invalid SHA-256 state length"@,
        StoreError::StateLengthMismatch => "SHA-256 state length does not match LOCK"@,
        StoreError::InvalidState => "Invalid SHA-256 state"@,
        StoreError::StateChecksumMismatch => "Checksum does not match SHA-256 state"@,
        StoreError::LengthOverflow => "SHA-256 length overflow"@,
        StoreError::RootNotDirectory => "Storage root must be an existing directory"@,
        StoreError::UnsupportedFormat => "Unsupported storage format"@,
        StoreError::RootNotEmpty => "Initialize storage in an empty directory"@,
        StoreError::InvalidCreateTransaction => "Invalid create transaction"@,
        StoreError::CreateConflict => "Incomplete create has conflicting data"@,
        StoreError::CreateContainsData => "Incomplete create contains data"@,
        StoreError::InvalidAppendTransaction => "Invalid append transaction"@,
        StoreError::AppendInconsistent => "Append recovery found inconsistent data and metadata"@,
        StoreError::DeleteConflict => "Delete recovery found conflicting metadata"@,
        StoreError::FilenameNotUtf8 => "Filename must be UTF-8"@,
        StoreError::NotRelativePath => "Expected a relative storage path"@,
        StoreError::InvalidPath => "Invalid storage path"@,
        StoreError::ReadExceededBuffer => "File read exceeded verification buffer"@,
        StoreError::AppendNotAtLock => "Append offset must equal LOCK"@,
        StoreError::RetentionActive => "File retention is active"@,
        StoreError::ReservedEntryName => "Reserved or invalid entry name"@,
        StoreError::ReservedControlName => "Reserved storage control name"@,
        StoreError::SymlinkForbidden => "Storage symlinks are forbidden"@,
        StoreError::HardLinkForbidden => "Storage hard links are forbidden"@,
        StoreError::NotRegularFile => "Expected a regular storage file"@,
        StoreError::DirectoryDeletion => "Directory deletion is forbidden"@,
        StoreError::AlreadyExists => "File or metadata already exists"@,
        StoreError::NotADirectory => "Not a directory"@,
        StoreError::ClockBeforeEpoch => "System clock is before the Unix epoch"@,
    }
}

impl StoreError {
    /// The class of the failure.
    pub fn kind(&self) -> (r: ErrorKind)
        ensures
            r == spec_kind(*self),
    {
        match self {
            StoreError::AppendNotAtLock | StoreError::RetentionActive | StoreError::ReservedEntryName
            | StoreError::ReservedControlName | StoreError::SymlinkForbidden
            | StoreError::HardLinkForbidden | StoreError::NotRegularFile
            | StoreError::DirectoryDeletion => ErrorKind::PermissionDenied,
            StoreError::AlreadyExists => ErrorKind::AlreadyExists,
            StoreError::NotADirectory => ErrorKind::NotADirectory,
            StoreError::ClockBeforeEpoch => ErrorKind::Other,
            _ => ErrorKind::InvalidData,
        }
    }

    /// A sentence that describes the failure.
    pub fn message(&self) -> (r: &'static str)
        ensures
            r@ == store_error_message(*self),
    {
        match self {
            StoreError::MetadataTooLarge => "Metadata exceeds size limit",
            StoreError::InvalidMetadataJson => "Invalid metadata JSON",
            StoreError::SizeDoesNotMatchLock => "File size does not match LOCK",
            StoreError::FileChecksumMismatch => "File checksum mismatch",
            StoreError::NoParentDirectory => "Storage path has no parent directory",
            StoreError::ParentDirectoryMissing => "Parent directory does not exist",
            StoreError::RetentionOverflow => "Retention overflow",
            StoreError::InvalidMetadataHeader => "Invalid metadata header",
            StoreError::InvalidStateLength => "Invalid SHA-256 state length",
            StoreError::StateLengthMismatch => "SHA-256 state length does not match LOCK",
            StoreError::InvalidState => "Invalid SHA-256 state",
            StoreError::StateChecksumMismatch => "Checksum does not match SHA-256 state",
            StoreError::LengthOverflow => "SHA-256 length overflow",
            StoreError::RootNotDirectory => "Storage root must be an existing directory",
            StoreError::UnsupportedFormat => "Unsupported storage format",
            StoreError::RootNotEmpty => "Initialize storage in an empty directory",
            StoreError::InvalidCreateTransaction => "Invalid create transaction",
            StoreError::CreateConflict => "Incomplete create has conflicting data",
            StoreError::CreateContainsData => "Incomplete create contains data",
            StoreError::InvalidAppendTransaction => "Invalid append transaction",
            StoreError::AppendInconsistent => "Append recovery found inconsistent data and metadata",
            StoreError::DeleteConflict => "Delete recovery found conflicting metadata",
            StoreError::FilenameNotUtf8 => "Filename must be UTF-8",
            StoreError::NotRelativePath => "Expected a relative storage path",
            StoreError::InvalidPath => "Invalid storage path",
            StoreError::ReadExceededBuffer => "File read exceeded verification buffer",
            StoreError::AppendNotAtLock => "Append offset must equal LOCK",
            StoreError::RetentionActive => "File retention is active",
            StoreError::ReservedEntryName => "Reserved or invalid entry name",
            StoreError::ReservedControlName => "Reserved storage control name",
            StoreError::SymlinkForbidden => "Storage symlinks are forbidden",
            StoreError::HardLinkForbidden => "Storage hard links are forbidden",
            StoreError::NotRegularFile => "Expected a regular storage file",
            StoreError::DirectoryDeletion => "Directory deletion is forbidden",
            StoreError::AlreadyExists => "File or metadata already exists",
            StoreError::NotADirectory => "Not a directory",
            StoreError::ClockBeforeEpoch => "System clock is before the Unix epoch",
        }
    }
}

/// The class of each failure: refusals by policy are permission errors,
/// malformed data is invalid data.
pub open spec fn spec_kind(e: StoreError) -> ErrorKind {
    match e {
        StoreError::AppendNotAtLock | StoreError::RetentionActive | StoreError::ReservedEntryName
        | StoreError::ReservedControlName | StoreError::SymlinkForbidden
        | StoreError::HardLinkForbidden | StoreError::NotRegularFile
        | StoreError::DirectoryDeletion => ErrorKind::PermissionDenied,
        StoreError::AlreadyExists => ErrorKind::AlreadyExists,
        StoreError::NotADirectory => ErrorKind::NotADirectory,
        StoreError::ClockBeforeEpoch => ErrorKind::Other,
        _ => ErrorKind::InvalidData,
    }
}

} // verus!
