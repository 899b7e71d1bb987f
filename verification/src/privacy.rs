use crate::big_endian::{be_digits, lemma_be_digits_len, push_be_digits};
use vstd::prelude::*;

verus! {

/// The SHA-256 digest of a byte string.
pub uninterp spec fn sha256(data: Seq<u8>) -> Seq<u8>;

/// The longest input that is handed to the host for hashing. The host meters its work,
/// and a default budget pays for about 1.8 million hashed bytes.
pub const MAX_HASH_INPUT: usize = 1_000_000;

/// A commitment to a consumption that stays hidden, and when it was registered.
#[derive(Clone, Copy, Debug, PartialEq, Eq)]
pub struct ConsumptionCommitment {
    pub commitment: [u8; 32],
    pub timestamp: u64,
}

/// The value that the 128 bits of `value`, in two's complement, have when read as unsigned.
pub open spec fn unsigned_of(value: i128) -> nat {
    if value >= 0 {
        value as nat
    } else {
        (value + 0x1_0000_0000_0000_0000_0000_0000_0000_0000) as nat
    }
}

/// The 80 bytes that a commitment is made of: the user's 32 bytes, the consumption as
/// 16 bytes in big-endian two's complement, the 32 secret bytes.
pub open spec fn consumption_bytes(user_address: Seq<u8>, consumed_kwh: i128, secret: Seq<u8>) -> Seq<
    u8,
> {
    user_address + be_digits(unsigned_of(consumed_kwh), 16) + secret
}

/// Calls `soroban_sdk::crypto::Crypto::sha256` on a host environment of its own, made by
/// `soroban_sdk::Env::default`. Believed of it: the 32 bytes that come back are the
/// SHA-256 digest of `data`. The host stops when its metering budget is used up, which
/// the bound on the input keeps from happening.
#[verifier::external_body]
fn host_sha256(data: &Vec<u8>) -> (digest: [u8; 32])
    requires
        data@.len() <= MAX_HASH_INPUT,
    ensures
        digest@ == sha256(data@),
{
    let env = soroban_sdk::Env::default();
    let bytes = soroban_sdk::Bytes::from_slice(&env, data.as_slice());
    env.crypto().sha256(&bytes).to_array()
}

/// Whether two digests hold the same bytes.
pub fn same_digest(a: &[u8; 32], b: &[u8; 32]) -> (same: bool)
    ensures
        same == (a@ == b@),
{
    let mut i: usize = 0;
    while i < 32
        invariant
            i <= 32,
            forall|j: int| 0 <= j < i ==> a@[j] == b@[j],
        decreases 32 - i,
    {
        if a[i] != b[i] {
            return false;
        }
        i += 1;
    }
    assert(a@ =~= b@);
    true
}

/// The commitment to `user_data`: its SHA-256 digest.
pub fn generate_commitment(user_data: &Vec<u8>) -> (commitment: [u8; 32])
    requires
        user_data@.len() <= MAX_HASH_INPUT,
    ensures
        commitment@ == sha256(user_data@),
{
    host_sha256(user_data)
}

/// Whether `commitment` is the commitment to `user_data`.
pub fn verify_commitment(commitment: &[u8; 32], user_data: &Vec<u8>) -> (valid: bool)
    requires
        user_data@.len() <= MAX_HASH_INPUT,
    ensures
        valid == (commitment@ == sha256(user_data@)),
{
    let computed = generate_commitment(user_data);
    same_digest(commitment, &computed)
}

/// The unsigned reading of the bits of `value`.
fn to_unsigned(value: i128) -> (n: u128)
    ensures
        n == unsigned_of(value),
{
    if value >= 0 {
        value as u128
    } else {
        let lifted: i128 = (value + i128::MAX) + 1;
        (lifted as u128) + 0x8000_0000_0000_0000_0000_0000_0000_0000u128
    }
}

/// Appends the 32 bytes of `block` to `data`.
fn push_block(data: &mut Vec<u8>, block: &[u8; 32])
    ensures
        final(data)@ == old(data)@ + block@,
{
    let mut i: usize = 0;
    while i < 32
        invariant
            i <= 32,
            data@ == old(data)@ + block@.take(i as int),
        decreases 32 - i,
    {
        data.push(block[i]);
        assert(data@ =~= old(data)@ + block@.take(i + 1));
        i += 1;
    }
    assert(block@.take(32) =~= block@);
}

/// Lays out what a commitment is made of: the user's bytes, the consumption in
/// big-endian bytes, the secret; 80 bytes in all.
pub fn hash_consumption_data(user_address: &[u8; 32], consumed_kwh: i128, secret: &[u8; 32]) -> (data:
    Vec<u8>)
    ensures
        data@ == consumption_bytes(user_address@, consumed_kwh, secret@),
        data@.len() == 80,
{
    let mut data: Vec<u8> = Vec::new();
    push_block(&mut data, user_address);
    push_be_digits(&mut data, to_unsigned(consumed_kwh), 16);
    push_block(&mut data, secret);
    proof {
        lemma_be_digits_len(unsigned_of(consumed_kwh), 16);
        assert(data@ =~= consumption_bytes(user_address@, consumed_kwh, secret@));
    }
    data
}

} // verus!
