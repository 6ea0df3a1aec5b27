//! The entropy that a new DNA or a breeding selector is drawn from: the
//! ledger's random seed, the sender and the index of the extrinsic, encoded
//! one after the other and hashed to sixteen bytes.

use crate::account::AccountId;
use vstd::prelude::*;

verus! {

/// The four bytes of a `u32`, lowest first.
pub open spec fn spec_u32_le_bytes(value: u32) -> Seq<u8> {
    seq![
        (value % 256) as u8,
        ((value / 256) % 256) as u8,
        ((value / 65536) % 256) as u8,
        (value / 16777216) as u8,
    ]
}

/// The encoding of an extrinsic index: a single 0 where there is none, else
/// a 1 followed by the index's four bytes, lowest first.
pub open spec fn spec_encode_extrinsic_index(extrinsic_index: Option<u32>) -> Seq<u8> {
    match extrinsic_index {
        None => seq![0u8],
        Some(index) => seq![1u8] + spec_u32_le_bytes(index),
    }
}

/// The bytes that are hashed: the encoded seed, the encoded sender and the
/// encoded extrinsic index, in this order and with nothing between them.
pub open spec fn spec_payload(
    seed: Seq<u8>,
    sender: Seq<u8>,
    extrinsic_index: Option<u32>,
) -> Seq<u8> {
    seed + sender + spec_encode_extrinsic_index(extrinsic_index)
}

/// The 128-bit Blake2 hash of `data`, as `sp_io::hashing::blake2_128`
/// computes it. The algorithm is not written out here.
pub uninterp spec fn blake2_128_digest(data: Seq<u8>) -> Seq<u8>;

/// The sixteen bytes drawn from a seed, a sender and an extrinsic index.
pub open spec fn spec_random_value(
    seed: Seq<u8>,
    sender: Seq<u8>,
    extrinsic_index: Option<u32>,
) -> Seq<u8> {
    blake2_128_digest(spec_payload(seed, sender, extrinsic_index))
}

/// `parity_scale_codec::Encode::encode` on an `Option<u32>`. Trusted: the
/// codec writes one byte 0 for `None`; for `Some` one byte 1 and then the
/// number's four bytes in little-endian order.
#[verifier::external_body]
fn encode_extrinsic_index(extrinsic_index: Option<u32>) -> (bytes: Vec<u8>)
    ensures
        bytes@ == spec_encode_extrinsic_index(extrinsic_index),
{
    parity_scale_codec::Encode::encode(&extrinsic_index)
}

/// `sp_io::hashing::blake2_128`. Trusted: the sixteen bytes that come back
/// depend on the bytes of `data` alone; they are what `blake2_128_digest`
/// names.
#[verifier::external_body]
pub(crate) fn blake2_128(data: &[u8]) -> (digest: [u8; 16])
    ensures
        digest@ == blake2_128_digest(data@),
{
    sp_io::hashing::blake2_128(data)
}

/// Appends the bytes of `source` to `bytes`.
fn append(bytes: &mut Vec<u8>, source: &[u8])
    ensures
        final(bytes)@ == old(bytes)@ + source@,
{
    let mut i: usize = 0;
    while i < source.len()
        invariant
            i <= source.len(),
            bytes@ == old(bytes)@ + source@.subrange(0, i as int),
        decreases source.len() - i,
    {
        bytes.push(source[i]);
        assert(source@.subrange(0, i + 1) =~= source@.subrange(0, i as int).push(
            source@[i as int],
        ));
        i += 1;
    }
}

/// The bytes that are hashed for a random value.
pub fn payload(seed: &[u8], sender: &AccountId, extrinsic_index: Option<u32>) -> (bytes: Vec<u8>)
    ensures
        bytes@ == spec_payload(seed@, sender@, extrinsic_index),
{
    let mut bytes: Vec<u8> = Vec::new();
    append(&mut bytes, seed);
    append(&mut bytes, sender.0.as_slice());
    let index_bytes = encode_extrinsic_index(extrinsic_index);
    append(&mut bytes, index_bytes.as_slice());
    bytes
}

} // verus!
