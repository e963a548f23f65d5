//! SHA-256 hashing through the `sha2` crate, with the hasher carried as its
//! serialized state.
//!
//! sha2 0.11 serializes a SHA-256 hasher as 104 bytes: the eight state words
//! (little-endian), the 8-byte little-endian count of compressed 64-byte
//! blocks, the number of pending bytes in the block buffer, and 63 buffer
//! bytes, of which only the pending ones may be nonzero.
use sha2::digest::common::hazmat::{SerializableState, SerializedState};
use sha2::{Digest, Sha256};
use vstd::bytes::*;
use vstd::prelude::*;

verus! {

/// Length of a serialized SHA-256 hasher state.
pub const SHA256_STATE_LEN: usize = 104;

/// The serialized state of a fresh hasher: the SHA-256 initial hash value,
/// no block compressed, nothing pending.
pub open spec fn sha256_initial_state() -> Seq<u8> {
    seq![
        0x67u8, 0xe6u8, 0x09u8, 0x6au8, 0x85u8, 0xaeu8, 0x67u8, 0xbbu8,
        0x72u8, 0xf3u8, 0x6eu8, 0x3cu8, 0x3au8, 0xf5u8, 0x4fu8, 0xa5u8,
        0x7fu8, 0x52u8, 0x0eu8, 0x51u8, 0x8cu8, 0x68u8, 0x05u8, 0x9bu8,
        0xabu8, 0xd9u8, 0x83u8, 0x1fu8, 0x19u8, 0xcdu8, 0xe0u8, 0x5bu8,
    ] + Seq::new(72, |i: int| 0u8)
}

/// Whether sha2 accepts `state` as a serialized SHA-256 hasher: the length
/// is right, fewer than 64 bytes are pending, and the unused buffer bytes are zero.
pub open spec fn sha256_state_accepted(state: Seq<u8>) -> bool {
    &&& state.len() == 104
    &&& state[40] < 64
    &&& forall|i: int| 41 + state[40] <= i < 104 ==> state[i] == 0u8
}

/// How many message bytes a serialized state has absorbed.
pub open spec fn hashed_count(state: Seq<u8>) -> int {
    spec_u64_from_le_bytes(state.subrange(32, 40)) * 64 + state[40]
}

/// The serialized state after a hasher in `state` absorbs `data` (sha2's `update`).
pub uninterp spec fn sha256_updated_state(state: Seq<u8>, data: Seq<u8>) -> Seq<u8>;

/// The 32-byte digest that a hasher in `state` produces (sha2's `finalize`).
pub uninterp spec fn sha256_state_digest(state: Seq<u8>) -> Seq<u8>;

/// The standard SHA-256 digest of `message`.
pub open spec fn sha256(message: Seq<u8>) -> Seq<u8> {
    sha256_state_digest(sha256_updated_state(sha256_initial_state(), message))
}

/// `Sha256::new` followed by `SerializableState::serialize`: the serialized
/// state of a fresh hasher, as sha2's source defines it.
#[verifier::external_body]
pub(crate) fn sha256_new_state() -> (r: Vec<u8>)
    ensures
        r@ == sha256_initial_state(),
{
    Sha256::new().serialize().to_vec()
}

/// `SerializableState::deserialize` on `state`: claims that it succeeds
/// exactly on the states described by `sha256_state_accepted`.
#[verifier::external_body]
pub(crate) fn sha256_state_is_valid(state: &[u8]) -> (r: bool)
    ensures
        r == sha256_state_accepted(state@),
{
    match SerializedState::<Sha256>::try_from(state) {
        Ok(serialized) => Sha256::deserialize(&serialized).is_ok(),
        Err(_) => false,
    }
}

/// `Digest::update` of `data` on the hasher serialized in `state`. Claims the
/// result depends on `state` and `data` alone, is again an accepted state,
/// has absorbed `data.len()` more bytes, and that hashing goes on from it as
/// if `data` and the later data had been given in one call (the buffer
/// compresses the same 64-byte blocks however the input is split); and that
/// absorbing nothing gives back the same serialized state.
#[verifier::external_body]
pub(crate) fn sha256_update_state(state: &[u8], data: &[u8]) -> (r: Vec<u8>)
    requires
        sha256_state_accepted(state@),
        hashed_count(state@) + data@.len() <= u64::MAX,
    ensures
        r@ == sha256_updated_state(state@, data@),
        sha256_state_accepted(r@),
        hashed_count(r@) == hashed_count(state@) + data@.len(),
        forall|d: Seq<u8>|
            #[trigger] sha256_updated_state(r@, d) == sha256_updated_state(state@, data@ + d),
        data@.len() == 0 ==> r@ == state@,
{
    let serialized = SerializedState::<Sha256>::try_from(state).unwrap();
    let mut hasher = Sha256::deserialize(&serialized).unwrap();
    hasher.update(data);
    hasher.serialize().to_vec()
}

/// `Digest::finalize` of the hasher serialized in `state`. Claims the 32-byte
/// digest depends on `state` alone. sha2 computes the message length in bits
/// as a `u64`, so the state must have absorbed at most `u64::MAX / 8` bytes.
#[verifier::external_body]
pub(crate) fn sha256_finalize_state(state: &[u8]) -> (r: Vec<u8>)
    requires
        sha256_state_accepted(state@),
        hashed_count(state@) <= u64::MAX / 8,
    ensures
        r@ == sha256_state_digest(state@),
        r@.len() == 32,
{
    let serialized = SerializedState::<Sha256>::try_from(state).unwrap();
    Sha256::deserialize(&serialized).unwrap().finalize().to_vec()
}

/// A fresh hasher is an accepted state that has absorbed nothing.
pub proof fn lemma_initial_state()
    ensures
        sha256_state_accepted(sha256_initial_state()),
        hashed_count(sha256_initial_state()) == 0,
{
    let s = sha256_initial_state();
    assert(s.len() == 104);
    let zeros = s.subrange(32, 40);
    assert(zeros =~= Seq::new(8, |i: int| 0u8));
    spec_u64_to_le_bytes_to_open(0u64);
    assert(spec_u64_to_le_bytes_open(0u64) =~= zeros) by {
        assert(((0u64 >> 8u64) & 0xffu64) as u8 == 0u8) by (bit_vector);
        assert(((0u64 >> 16u64) & 0xffu64) as u8 == 0u8) by (bit_vector);
        assert(((0u64 >> 24u64) & 0xffu64) as u8 == 0u8) by (bit_vector);
        assert(((0u64 >> 32u64) & 0xffu64) as u8 == 0u8) by (bit_vector);
        assert(((0u64 >> 40u64) & 0xffu64) as u8 == 0u8) by (bit_vector);
        assert(((0u64 >> 48u64) & 0xffu64) as u8 == 0u8) by (bit_vector);
        assert(((0u64 >> 56u64) & 0xffu64) as u8 == 0u8) by (bit_vector);
        assert((0u64 & 0xffu64) as u8 == 0u8) by (bit_vector);
    }
    lemma_auto_spec_u64_to_from_le_bytes();
    assert(spec_u64_from_le_bytes(zeros) == 0);
}

} // verus!
