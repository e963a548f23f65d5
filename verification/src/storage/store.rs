//! Decisions of the backing store's operations: opening a store, creating,
//! checking, verifying and deleting files.
use super::digest::{
    hashed_count, lemma_initial_state, sha256, sha256_finalize_state, sha256_initial_state,
    sha256_new_state, sha256_state_accepted, sha256_state_digest, sha256_update_state,
    sha256_updated_state,
};
use super::record::{spec_hex, spec_validate, hex, Record, RecordView};
use super::StoreError;
use crate::clock::unix_now;
use vstd::bytes::*;
use vstd::prelude::*;
use vstd::slice::slice_subrange;
use vstd::string::StringSliceAdditionalSpecFns;

verus! {

/// The format marker of a storage root.
pub const STORE_FORMAT: &'static str = "Autobricks WORM storage v1";

/// The lock file that a running store holds exclusively.
pub const LOCK_FILE: &'static str = ".ab-worm.lock";

/// The file that marks an initialized storage root.
pub const STORE_MARKER: &'static str = ".ab-worm.store";

/// The journal of the operation in progress.
pub const TRANSACTION_FILE: &'static str = ".ab-worm.transaction";

/// Where a JSON document is written before it atomically replaces its target.
pub const STAGE_FILE: &'static str = ".ab-worm.stage";

/// The largest metadata document, in bytes.
pub const METADATA_SIZE_LIMIT: u64 = 16384;

/// The current time in UTC Unix seconds; refused when the clock reads a time
/// before the Unix epoch.
pub fn now() -> (r: Result<u64, StoreError>)
    ensures
        r matches Err(e) ==> e == StoreError::ClockBeforeEpoch,
{
    match unix_now() {
        Some(seconds) => Ok(seconds),
        None => Err(StoreError::ClockBeforeEpoch),
    }
}

/// Whether two byte strings are equal.
pub fn same_bytes(a: &[u8], b: &[u8]) -> (r: bool)
    ensures
        r == (a@ == b@),
{
    if a.len() != b.len() {
        return false;
    }
    let mut i: usize = 0;
    while i < a.len()
        invariant
            i <= a.len(),
            a.len() == b.len(),
            forall|j: int| 0 <= j < i ==> a@[j] == b@[j],
        decreases a.len() - i,
    {
        if a[i] != b[i] {
            return false;
        }
        i = i + 1;
    }
    assert(a@ =~= b@);
    true
}

/// An existing storage root must carry this store's format marker.
pub fn check_store_format(format: &String) -> (r: Result<(), StoreError>)
    ensures
        r is Ok <==> format@ == STORE_FORMAT@,
        r matches Err(e) ==> e == StoreError::UnsupportedFormat,
{
    let expected = String::from_str(STORE_FORMAT);
    if *format == expected {
        Ok(())
    } else {
        Err(StoreError::UnsupportedFormat)
    }
}

/// A directory can become a storage root only if it holds nothing but the lock file.
pub fn check_new_root_entry(name: &[u8]) -> (r: Result<(), StoreError>)
    ensures
        r is Ok <==> name@ == LOCK_FILE.spec_bytes(),
        r matches Err(e) ==> e == StoreError::RootNotEmpty,
{
    if same_bytes(name, LOCK_FILE.as_bytes()) {
        Ok(())
    } else {
        Err(StoreError::RootNotEmpty)
    }
}

/// A metadata document larger than the limit is refused before it is parsed.
pub fn check_metadata_size(length: u64) -> (r: Result<(), StoreError>)
    ensures
        r is Ok <==> length <= METADATA_SIZE_LIMIT,
        r matches Err(e) ==> e == StoreError::MetadataTooLarge,
{
    if length > METADATA_SIZE_LIMIT {
        Err(StoreError::MetadataTooLarge)
    } else {
        Ok(())
    }
}

/// A data file is consistent with its checkpoint when the checkpoint is valid
/// and the file holds exactly LOCK bytes.
pub open spec fn spec_check_metadata(record: RecordView, data_len: u64) -> Result<(), StoreError> {
    match spec_validate(record) {
        Err(e) => Err(e),
        Ok(()) => if data_len != record.lock_offset {
            Err(StoreError::SizeDoesNotMatchLock)
        } else {
            Ok(())
        },
    }
}

/// Checks a data file's length against its checkpoint.
pub fn check_metadata(record: &Record, data_len: u64) -> (r: Result<(), StoreError>)
    ensures
        r == spec_check_metadata(record@, data_len),
{
    match record.validate_hasher() {
        Err(e) => return Err(e),
        Ok(()) => {},
    }
    if data_len != record.lock_offset {
        return Err(StoreError::SizeDoesNotMatchLock);
    }
    Ok(())
}

/// A new file needs a free name (no data file and no metadata entry) in an
/// existing directory. `parent_is_dir` is `None` when the path has no parent
/// directory at all, else whether its parent is a directory.
pub open spec fn spec_check_create_target(path_exists: bool, meta_exists: bool, parent_is_dir: Option<bool>) -> Result<(), StoreError> {
    if path_exists || meta_exists {
        Err(StoreError::AlreadyExists)
    } else if parent_is_dir is None {
        Err(StoreError::NoParentDirectory)
    } else if parent_is_dir == Some(false) {
        Err(StoreError::ParentDirectoryMissing)
    } else {
        Ok(())
    }
}

/// Decides whether a file may be created where the caller looked.
pub fn check_create_target(path_exists: bool, meta_exists: bool, parent_is_dir: Option<bool>) -> (r: Result<(), StoreError>)
    ensures
        r == spec_check_create_target(path_exists, meta_exists, parent_is_dir),
{
    if path_exists || meta_exists {
        return Err(StoreError::AlreadyExists);
    }
    match parent_is_dir {
        None => Err(StoreError::NoParentDirectory),
        Some(false) => Err(StoreError::ParentDirectoryMissing),
        Some(true) => Ok(()),
    }
}

/// A retained file can be deleted only at or after its retention deadline.
pub fn check_delete_allowed(record: &Record, now: u64) -> (r: Result<(), StoreError>)
    ensures
        r is Ok <==> now >= record.retain_until,
        r matches Err(e) ==> e == StoreError::RetentionActive,
{
    if now < record.retain_until {
        Err(StoreError::RetentionActive)
    } else {
        Ok(())
    }
}

/// A streaming SHA-256 over a file's content, for verification.
pub struct ContentHasher {
    state: Vec<u8>,
    content: Ghost<Seq<u8>>,
}

impl ContentHasher {
    /// The hasher has absorbed exactly `content`.
    pub closed spec fn wf(self) -> bool {
        &&& sha256_state_accepted(self.state@)
        &&& hashed_count(self.state@) == self.content@.len()
        &&& self.content@.len() <= u64::MAX / 8
        &&& forall|d: Seq<u8>|
            #[trigger] sha256_updated_state(self.state@, d) == sha256_updated_state(
                sha256_initial_state(),
                self.content@ + d,
            )
    }

    /// The bytes absorbed so far.
    pub closed spec fn content(self) -> Seq<u8> {
        self.content@
    }

    /// The digest text of what has been absorbed.
    pub closed spec fn digest_text(self) -> Seq<char> {
        spec_hex(sha256_state_digest(self.state@))
    }

    pub fn new() -> (r: Self)
        ensures
            r.wf(),
            r.content() == Seq::<u8>::empty(),
            r.digest_text() == spec_hex(sha256_state_digest(sha256_initial_state())),
    {
        let state = sha256_new_state();
        proof {
            lemma_initial_state();
        }
        let r = ContentHasher { state, content: Ghost(Seq::empty()) };
        proof {
            assert forall|d: Seq<u8>|
                #[trigger] sha256_updated_state(r.state@, d) == sha256_updated_state(
                    sha256_initial_state(),
                    r.content@ + d,
                ) by {
                assert(r.content@ + d =~= d);
            }
        }
        r
    }

    /// How many bytes have been absorbed.
    pub fn absorbed(&self) -> (r: u64)
        requires
            self.wf(),
        ensures
            r == self.content().len(),
    {
        let blocks = u64_from_le_bytes(slice_subrange(self.state.as_slice(), 32, 40));
        let position = self.state[40] as u64;
        proof {
            assert(hashed_count(self.state@) == blocks * 64 + position);
        }
        blocks * 64 + position
    }

    /// Absorbs the next chunk of content.
    pub fn update(&mut self, chunk: &[u8])
        requires
            old(self).wf(),
            old(self).content().len() + chunk@.len() <= u64::MAX / 8,
        ensures
            final(self).wf(),
            final(self).content() == old(self).content() + chunk@,
            final(self).digest_text() == spec_hex(sha256(final(self).content())),
    {
        let ghost before = self.content@;
        let state = sha256_update_state(self.state.as_slice(), chunk);
        proof {
            assert(sha256_updated_state(self.state@, chunk@) == sha256_updated_state(
                sha256_initial_state(),
                before + chunk@,
            ));
        }
        self.state = state;
        self.content = Ghost(before + chunk@);
        proof {
            assert forall|d: Seq<u8>|
                #[trigger] sha256_updated_state(self.state@, d) == sha256_updated_state(
                    sha256_initial_state(),
                    self.content@ + d,
                ) by {
                assert(sha256_updated_state(old(self).state@, chunk@ + d) == sha256_updated_state(
                    sha256_initial_state(),
                    before + (chunk@ + d),
                ));
                assert(before + (chunk@ + d) =~= (before + chunk@) + d);
            }
        }
    }

    /// The lower-case hexadecimal SHA-256 digest of what has been absorbed.
    pub fn finish(&self) -> (r: String)
        requires
            self.wf(),
        ensures
            r@ == self.digest_text(),
    {
        let digest = sha256_finalize_state(self.state.as_slice());
        hex(digest.as_slice())
    }
}

/// A file verifies when the digest of its content is its checkpoint's checksum.
pub fn check_file_checksum(record: &Record, digest_text: &String) -> (r: Result<(), StoreError>)
    ensures
        r is Ok <==> digest_text@ == record.checksum@,
        r matches Err(e) ==> e == StoreError::FileChecksumMismatch,
{
    if *digest_text == record.checksum {
        Ok(())
    } else {
        Err(StoreError::FileChecksumMismatch)
    }
}

} // verus!
