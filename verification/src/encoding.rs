//! SCALE encoding of the plain values that identifiers are derived from, and the
//! BLAKE2-256 hash that turns an encoding into an identifier.

use vstd::prelude::*;

verus! {

/// The `n` least significant bytes of `x`, least significant first.
pub open spec fn le_bytes(x: nat, n: nat) -> Seq<u8>
    decreases n,
{
    if n == 0 {
        Seq::empty()
    } else {
        seq![(x % 256) as u8] + le_bytes(x / 256, (n - 1) as nat)
    }
}

/// The number whose little-endian bytes are `s`.
pub open spec fn le_value(s: Seq<u8>) -> nat
    decreases s.len(),
{
    if s.len() == 0 {
        0
    } else {
        s[0] as nat + 256 * le_value(s.drop_first())
    }
}

/// The first `n` bytes of `s`, with zero bytes appended where `s` is shorter.
pub open spec fn zero_padded(s: Seq<u8>, n: nat) -> Seq<u8> {
    if s.len() >= n {
        s.take(n as int)
    } else {
        s + Seq::new((n - s.len()) as nat, |i: int| 0u8)
    }
}

/// SCALE compact encoding of a length (a `u32`).
pub open spec fn compact_len(len: nat) -> Seq<u8> {
    if len < 64 {
        seq![(len * 4) as u8]
    } else if len < 16384 {
        le_bytes(len * 4 + 1, 2)
    } else if len < 1073741824 {
        le_bytes(len * 4 + 2, 4)
    } else {
        seq![3u8] + le_bytes(len, 4)
    }
}

/// SCALE encoding of an optional account number.
pub open spec fn option_u64_bytes(x: Option<u64>) -> Seq<u8> {
    match x {
        Some(v) => seq![1u8] + le_bytes(v as nat, 8),
        None => seq![0u8],
    }
}

/// BLAKE2b with a 256-bit digest, as computed by `BlakeTwo256`.
pub uninterp spec fn blake2_256(data: Seq<u8>) -> Seq<u8>;

/// Calls `parity_scale_codec::Encode::encode` on a `u64`: its eight little-endian bytes.
#[verifier::external_body]
pub(crate) fn encode_u64(x: u64) -> (r: Vec<u8>)
    ensures
        r@ == le_bytes(x as nat, 8),
{
    parity_scale_codec::Encode::encode(&x)
}

/// Calls `parity_scale_codec::Encode::encode` on a `u32`: its four little-endian bytes.
#[verifier::external_body]
pub(crate) fn encode_u32(x: u32) -> (r: Vec<u8>)
    ensures
        r@ == le_bytes(x as nat, 4),
{
    parity_scale_codec::Encode::encode(&x)
}

/// Calls `parity_scale_codec::Encode::encode` on an `Option<u64>`: byte 0 for `None`,
/// byte 1 followed by the value's encoding for `Some`.
#[verifier::external_body]
pub(crate) fn encode_option_u64(x: Option<u64>) -> (r: Vec<u8>)
    ensures
        r@ == option_u64_bytes(x),
{
    parity_scale_codec::Encode::encode(&x)
}

/// Calls `parity_scale_codec::Encode::encode` on a byte vector: the compact encoding of
/// its length followed by the bytes. (The codec panics on more than `u32::MAX` items.)
#[verifier::external_body]
pub(crate) fn encode_bytes(v: &Vec<u8>) -> (r: Vec<u8>)
    requires
        v@.len() <= u32::MAX,
    ensures
        r@ == compact_len(v@.len()) + v@,
{
    parity_scale_codec::Encode::encode(v)
}

/// Calls `<u64 as parity_scale_codec::Decode>::decode` on `sp_runtime`'s
/// `TrailingZeroInput`: the little-endian number in the first eight bytes of `seed`,
/// read as zero where `seed` is shorter. That input never fails to supply bytes.
#[verifier::external_body]
pub(crate) fn decode_u64_zero_padded(seed: &[u8]) -> (r: u64)
    ensures
        r as nat == le_value(zero_padded(seed@, 8)),
{
    let mut input = sp_runtime::traits::TrailingZeroInput::new(seed);
    <u64 as parity_scale_codec::Decode>::decode(&mut input).unwrap_or(0)
}

/// Calls `<sp_runtime::traits::BlakeTwo256 as sp_runtime::traits::Hash>::hash` and
/// returns the bytes of the digest.
#[verifier::external_body]
pub(crate) fn blake_two_256(data: &[u8]) -> (r: [u8; 32])
    ensures
        r@ == blake2_256(data@),
{
    <sp_runtime::traits::BlakeTwo256 as sp_runtime::traits::Hash>::hash(data).0
}

} // verus!
