//! The bounded checkpoint kept beside each data file.
use super::digest::{
    hashed_count, lemma_initial_state, sha256, sha256_finalize_state, sha256_initial_state,
    sha256_new_state, sha256_state_accepted, sha256_state_digest, sha256_state_is_valid,
    sha256_update_state, sha256_updated_state, SHA256_STATE_LEN,
};
use super::StoreError;
use crate::policy::FilePolicy;
use vstd::bytes::*;
use vstd::prelude::*;
use vstd::slice::slice_subrange;

verus! {

/// The lower-case hexadecimal digit of a value below 16.
pub open spec fn hex_digit(n: u8) -> u8 {
    if n < 10 {
        (48 + n) as u8
    } else {
        (87 + n) as u8
    }
}

/// Two lower-case hexadecimal digits per byte, high nibble first.
pub open spec fn hex_bytes(bytes: Seq<u8>) -> Seq<u8> {
    Seq::new(
        2 * bytes.len(),
        |i: int|
            if i % 2 == 0 {
                hex_digit(bytes[i / 2] / 16)
            } else {
                hex_digit(bytes[i / 2] % 16)
            },
    )
}

/// ASCII bytes read as characters.
pub open spec fn ascii_chars(s: Seq<u8>) -> Seq<char> {
    s.map_values(|c: u8| c as char)
}

/// The lower-case hexadecimal text of `bytes`.
pub open spec fn spec_hex(bytes: Seq<u8>) -> Seq<char> {
    ascii_chars(hex_bytes(bytes))
}

/// `String::from_utf8` on bytes that are all ASCII: the string holds the
/// same characters.
#[verifier::external_body]
fn ascii_string(bytes: Vec<u8>) -> (r: String)
    requires
        forall|i: int| 0 <= i < bytes@.len() ==> bytes@[i] < 128,
    ensures
        r@ == ascii_chars(bytes@),
{
    String::from_utf8(bytes).unwrap()
}

fn hex_digit_exec(n: u8) -> (r: u8)
    requires
        n < 16,
    ensures
        r == hex_digit(n),
        r < 128,
{
    if n < 10 {
        48 + n
    } else {
        87 + n
    }
}

/// Lower-case hexadecimal encoding, two digits per byte.
pub fn hex(bytes: &[u8]) -> (r: String)
    ensures
        r@ == spec_hex(bytes@),
{
    let mut out: Vec<u8> = Vec::new();
    let mut i: usize = 0;
    while i < bytes.len()
        invariant
            i <= bytes.len(),
            out@.len() == 2 * i,
            forall|j: int| 0 <= j < 2 * i ==> #[trigger] out@[j] == hex_bytes(bytes@)[j],
            forall|j: int| 0 <= j < out@.len() ==> #[trigger] out@[j] < 128,
        decreases bytes.len() - i,
    {
        let byte = bytes[i];
        let high = hex_digit_exec(byte / 16);
        let low = hex_digit_exec(byte % 16);
        out.push(high);
        out.push(low);
        proof {
            assert(hex_bytes(bytes@)[2 * i as int] == high);
            assert(hex_bytes(bytes@)[2 * i as int + 1] == low);
        }
        i = i + 1;
    }
    assert(out@ =~= hex_bytes(bytes@));
    ascii_string(out)
}

/// A bounded checkpoint for one data file. Digest state format is version-pinned.
#[derive(Debug, Clone, PartialEq, Eq)]
pub struct Record {
    pub format_version: u32,
    pub created_at: u64,
    pub retain_until: u64,
    pub lock_offset: u64,
    pub checksum: String,
    pub sha256_state: Vec<u8>,
}

/// The mathematical content of a record.
pub struct RecordView {
    pub format_version: u32,
    pub created_at: u64,
    pub retain_until: u64,
    pub lock_offset: u64,
    pub checksum: Seq<char>,
    pub sha256_state: Seq<u8>,
}

impl View for Record {
    type V = RecordView;

    open spec fn view(&self) -> RecordView {
        RecordView {
            format_version: self.format_version,
            created_at: self.created_at,
            retain_until: self.retain_until,
            lock_offset: self.lock_offset,
            checksum: self.checksum@,
            sha256_state: self.sha256_state@,
        }
    }
}

/// Lifts a result over views.
pub open spec fn record_result(r: Result<Record, StoreError>) -> Result<RecordView, StoreError> {
    match r {
        Ok(record) => Ok(record@),
        Err(e) => Err(e),
    }
}

/// The checkpoint of a new, empty file created at `now`.
pub open spec fn spec_record_new(now: u64, retention: u64) -> Result<RecordView, StoreError> {
    if now + retention > u64::MAX {
        Err(StoreError::RetentionOverflow)
    } else {
        Ok(
            RecordView {
                format_version: 1,
                created_at: now,
                retain_until: (now + retention) as u64,
                lock_offset: 0,
                checksum: spec_hex(sha256_state_digest(sha256_initial_state())),
                sha256_state: sha256_initial_state(),
            },
        )
    }
}

/// Which checkpoints can resume hashing: a known format, a deadline not
/// before creation, a LOCK whose bit length fits SHA-256's counter, a state
/// that has absorbed exactly LOCK bytes, and a checksum that is the digest of
/// that state.
pub open spec fn spec_validate(r: RecordView) -> Result<(), StoreError> {
    if r.format_version != 1 || r.retain_until < r.created_at || r.lock_offset > u64::MAX / 8 {
        Err(StoreError::InvalidMetadataHeader)
    } else if r.sha256_state.len() != 104 {
        Err(StoreError::InvalidStateLength)
    } else if hashed_count(r.sha256_state) != r.lock_offset {
        Err(StoreError::StateLengthMismatch)
    } else if !sha256_state_accepted(r.sha256_state) {
        Err(StoreError::InvalidState)
    } else if spec_hex(sha256_state_digest(r.sha256_state)) != r.checksum {
        Err(StoreError::StateChecksumMismatch)
    } else {
        Ok(())
    }
}

/// The checkpoint after `data` is appended at `offset`.
pub open spec fn spec_record_append(r: RecordView, offset: u64, data: Seq<u8>) -> Result<RecordView, StoreError> {
    if offset != r.lock_offset {
        Err(StoreError::AppendNotAtLock)
    } else if offset + data.len() > u64::MAX / 8 {
        Err(StoreError::LengthOverflow)
    } else {
        match spec_validate(r) {
            Err(e) => Err(e),
            Ok(()) => {
                let state = sha256_updated_state(r.sha256_state, data);
                Ok(
                    RecordView {
                        lock_offset: (offset + data.len()) as u64,
                        checksum: spec_hex(sha256_state_digest(state)),
                        sha256_state: state,
                        ..r
                    },
                )
            },
        }
    }
}

/// The hashing state of `r` is the state after the content `message`:
/// going on from it with any data is the same as hashing `message` followed
/// by that data.
pub open spec fn holds_content(r: RecordView, message: Seq<u8>) -> bool {
    forall|d: Seq<u8>|
        #[trigger] sha256_updated_state(r.sha256_state, d) == sha256_updated_state(
            sha256_initial_state(),
            message + d,
        )
}

impl Record {
    /// The checkpoint of an empty file created at `now` with the given retention.
    pub fn new(now: u64, retention: u64) -> (r: Result<Self, StoreError>)
        ensures
            record_result(r) == spec_record_new(now, retention),
            r matches Ok(record) ==> spec_validate(record@) == Ok::<(), StoreError>(()),
            r matches Ok(record) ==> holds_content(record@, Seq::empty()),
    {
        let policy = match FilePolicy::new(now, retention) {
            Ok(policy) => policy,
            Err(_) => return Err(StoreError::RetentionOverflow),
        };
        let state = sha256_new_state();
        proof {
            lemma_initial_state();
        }
        let digest = sha256_finalize_state(state.as_slice());
        let record = Record {
            format_version: 1,
            created_at: now,
            retain_until: policy.retain_until(),
            lock_offset: 0,
            checksum: hex(digest.as_slice()),
            sha256_state: state,
        };
        proof {
            assert forall|d: Seq<u8>|
                #[trigger] sha256_updated_state(record@.sha256_state, d) == sha256_updated_state(
                    sha256_initial_state(),
                    Seq::<u8>::empty() + d,
                ) by {
                assert(Seq::<u8>::empty() + d =~= d);
            }
        }
        Ok(record)
    }

    /// Checks that the stored SHA-256 state can resume hashing this file.
    pub fn validate_hasher(&self) -> (r: Result<(), StoreError>)
        ensures
            r == spec_validate(self@),
    {
        if self.format_version != 1 || self.retain_until < self.created_at || self.lock_offset > u64::MAX / 8 {
            return Err(StoreError::InvalidMetadataHeader);
        }
        if self.sha256_state.len() != SHA256_STATE_LEN {
            return Err(StoreError::InvalidStateLength);
        }
        let state = self.sha256_state.as_slice();
        let blocks = u64_from_le_bytes(slice_subrange(state, 32, 40));
        let position = state[40] as u64;
        let counted = match blocks.checked_mul(64) {
            Some(n) => n.checked_add(position),
            None => None,
        };
        match counted {
            Some(n) => {
                if n != self.lock_offset {
                    return Err(StoreError::StateLengthMismatch);
                }
            },
            None => return Err(StoreError::StateLengthMismatch),
        }
        if !sha256_state_is_valid(state) {
            return Err(StoreError::InvalidState);
        }
        let digest = sha256_finalize_state(state);
        let text = hex(digest.as_slice());
        if !(text == self.checksum) {
            return Err(StoreError::StateChecksumMismatch);
        }
        Ok(())
    }

    /// The checkpoint after `data` is appended at `offset`; refused unless
    /// `offset` is the LOCK boundary.
    pub fn append(&self, offset: u64, data: &[u8]) -> (r: Result<Self, StoreError>)
        ensures
            record_result(r) == spec_record_append(self@, offset, data@),
            r matches Ok(q) ==> spec_validate(q@) == Ok::<(), StoreError>(()),
            r matches Ok(q) ==> forall|m: Seq<u8>|
                holds_content(self@, m) ==> {
                    &&& holds_content(q@, m + data@)
                    &&& q@.sha256_state == sha256_updated_state(sha256_initial_state(), m + data@)
                    &&& q@.checksum == spec_hex(sha256(m + data@))
                },
            data@.len() == 0 ==> (r matches Ok(q) ==> q@ == self@),
            r matches Ok(q) ==> continues_from(q@, self@, data@),
    {
        if offset != self.lock_offset {
            return Err(StoreError::AppendNotAtLock);
        }
        let lock_offset = match offset.checked_add(data.len() as u64) {
            Some(n) => {
                if n > u64::MAX / 8 {
                    return Err(StoreError::LengthOverflow);
                }
                n
            },
            None => return Err(StoreError::LengthOverflow),
        };
        match self.validate_hasher() {
            Ok(()) => {},
            Err(e) => return Err(e),
        }
        let state = sha256_update_state(self.sha256_state.as_slice(), data);
        let digest = sha256_finalize_state(state.as_slice());
        let record = Record {
            format_version: self.format_version,
            created_at: self.created_at,
            retain_until: self.retain_until,
            lock_offset,
            checksum: hex(digest.as_slice()),
            sha256_state: state,
        };
        proof {
            assert forall|m: Seq<u8>| holds_content(self@, m) implies {
                &&& holds_content(record@, m + data@)
                &&& record@.sha256_state == sha256_updated_state(sha256_initial_state(), m + data@)
                &&& record@.checksum == spec_hex(sha256(m + data@))
            } by {
                assert(sha256_updated_state(self@.sha256_state, data@) == sha256_updated_state(
                    sha256_initial_state(),
                    m + data@,
                ));
                assert forall|d: Seq<u8>|
                    #[trigger] sha256_updated_state(record@.sha256_state, d)
                        == sha256_updated_state(sha256_initial_state(), (m + data@) + d) by {
                    assert(sha256_updated_state(self@.sha256_state, data@ + d) == sha256_updated_state(
                        sha256_initial_state(),
                        m + (data@ + d),
                    ));
                    assert(m + (data@ + d) =~= (m + data@) + d);
                }
            }
        }
        Ok(record)
    }
}

/// Hashing goes on from `q` as it goes on from `r` with `data` absorbed
/// first: `q` is `r` after `data`, whatever content `r` holds.
pub open spec fn continues_from(q: RecordView, r: RecordView, data: Seq<u8>) -> bool {
    forall|d: Seq<u8>|
        #[trigger] sha256_updated_state(q.sha256_state, d) == sha256_updated_state(r.sha256_state, data + d)
}

/// Appends compose: appending `a` and then `b` at the LOCK gives exactly the
/// checkpoint that appending `a + b` at once gives (the same LOCK, state and
/// checksum), wherever the 64-byte block boundaries fall, and both refuse
/// alike. The record after the first append must be valid and go on hashing
/// as its predecessor with `a` absorbed, as `Record::append` ensures of every
/// record it returns.
pub proof fn law_appends_compose(r: RecordView, a: Seq<u8>, b: Seq<u8>)
    requires
        spec_record_append(r, r.lock_offset, a) is Ok,
        spec_validate(spec_record_append(r, r.lock_offset, a)->Ok_0) is Ok,
        continues_from(spec_record_append(r, r.lock_offset, a)->Ok_0, r, a),
    ensures
        ({
            let first = spec_record_append(r, r.lock_offset, a)->Ok_0;
            spec_record_append(first, first.lock_offset, b) == spec_record_append(r, r.lock_offset, a + b)
        }),
{
    let first = spec_record_append(r, r.lock_offset, a)->Ok_0;
    assert(sha256_updated_state(first.sha256_state, b) == sha256_updated_state(r.sha256_state, a + b));
}

/// An append to a valid checkpoint is refused only for the two reasons the
/// format has: an offset other than LOCK (`AppendNotAtLock`), or a new length
/// beyond `u64::MAX / 8` bytes, the most that SHA-256's 64-bit bit counter can
/// count (`LengthOverflow`). Every other append is accepted: LOCK moves by the
/// data's length and the format, creation time and deadline stay.
pub proof fn law_append_limits(r: RecordView, offset: u64, data: Seq<u8>)
    requires
        spec_validate(r) is Ok,
    ensures
        offset != r.lock_offset ==> spec_record_append(r, offset, data) == Err::<RecordView, StoreError>(
            StoreError::AppendNotAtLock,
        ),
        offset == r.lock_offset && offset + data.len() > 0x1fff_ffff_ffff_ffffu64 ==> spec_record_append(
            r,
            offset,
            data,
        ) == Err::<RecordView, StoreError>(StoreError::LengthOverflow),
        offset == r.lock_offset && offset + data.len() <= 0x1fff_ffff_ffff_ffffu64 ==> {
            &&& spec_record_append(r, offset, data) is Ok
            &&& spec_record_append(r, offset, data)->Ok_0.lock_offset == offset + data.len()
            &&& spec_record_append(r, offset, data)->Ok_0.format_version == r.format_version
            &&& spec_record_append(r, offset, data)->Ok_0.created_at == r.created_at
            &&& spec_record_append(r, offset, data)->Ok_0.retain_until == r.retain_until
        },
{
}

} // verus!
