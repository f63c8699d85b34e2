//! Byte-level building blocks of the account and instruction framing:
//! little-endian integers, byte comparison, and buffer construction.

use vstd::bytes::*;
use vstd::prelude::*;
use vstd::slice::*;
use vstd::utf8::*;

verus! {

/// Relies on std's `String::from_utf8`: it succeeds exactly when the bytes
/// are a valid UTF-8 encoding, and then returns the string those bytes
/// encode.
#[verifier::external_body]
pub fn string_from_utf8(bytes: Vec<u8>) -> (r: Option<String>)
    ensures
        match r {
            Some(s) => valid_utf8(bytes@) && s@ == decode_utf8(bytes@),
            None => !valid_utf8(bytes@),
        },
{
    String::from_utf8(bytes).ok()
}

/// Little-endian bytes of a signed 64-bit value, through its two's-complement
/// bit pattern.
pub open spec fn spec_i64_to_le_bytes(x: i64) -> Seq<u8> {
    spec_u64_to_le_bytes(x as u64)
}

/// The signed 64-bit value read from 8 little-endian two's-complement bytes.
pub open spec fn spec_i64_from_le_bytes(s: Seq<u8>) -> i64 {
    spec_u64_from_le_bytes(s) as i64
}

/// Encoding a signed 64-bit value and reading it back returns the value.
pub proof fn lemma_i64_le_bytes_roundtrip(x: i64)
    ensures
        spec_i64_to_le_bytes(x).len() == 8,
        spec_i64_from_le_bytes(spec_i64_to_le_bytes(x)) == x,
{
    lemma_auto_spec_u64_to_from_le_bytes();
    assert((x as u64) as i64 == x) by (bit_vector);
}

/// Reading a signed 64-bit value from 8 bytes and encoding it again returns
/// the bytes.
pub proof fn lemma_i64_le_bytes_inverse(s: Seq<u8>)
    requires
        s.len() == 8,
    ensures
        spec_i64_to_le_bytes(spec_i64_from_le_bytes(s)) == s,
{
    lemma_auto_spec_u64_to_from_le_bytes();
    let u = spec_u64_from_le_bytes(s);
    assert((u as i64) as u64 == u) by (bit_vector);
}

/// Encoding an unsigned 32-bit value and reading it back returns the value.
pub proof fn lemma_u32_le_bytes_roundtrip(x: u32)
    ensures
        spec_u32_to_le_bytes(x).len() == 4,
        spec_u32_from_le_bytes(spec_u32_to_le_bytes(x)) == x,
{
    lemma_auto_spec_u32_to_from_le_bytes();
    assert(spec_u32_to_le_bytes(x).len() == 4);
}

/// Reading an unsigned 32-bit value from 4 bytes and encoding it again
/// returns the bytes.
pub proof fn lemma_u32_le_bytes_inverse(s: Seq<u8>)
    requires
        s.len() == 4,
    ensures
        spec_u32_to_le_bytes(spec_u32_from_le_bytes(s)) == s,
{
    lemma_auto_spec_u32_to_from_le_bytes();
}

/// Serializes a signed 64-bit value as 8 little-endian bytes.
pub fn i64_to_le_bytes(x: i64) -> (s: Vec<u8>)
    ensures
        s@ == spec_i64_to_le_bytes(x),
        s@.len() == 8,
{
    let bits: u64 = #[verifier::truncate] (x as u64);
    u64_to_le_bytes(bits)
}

/// Reads a signed 64-bit value from 8 little-endian bytes.
pub fn i64_from_le_bytes(s: &[u8]) -> (x: i64)
    requires
        s@.len() == 8,
    ensures
        x == spec_i64_from_le_bytes(s@),
{
    let bits: u64 = u64_from_le_bytes(s);
    #[verifier::truncate] (bits as i64)
}

/// Appends every byte of `src` to `dst`, in order.
pub fn push_bytes(dst: &mut Vec<u8>, src: &[u8])
    ensures
        final(dst)@ == old(dst)@ + src@,
{
    let n = src.len();
    let mut i: usize = 0;
    while i < n
        invariant
            i <= n,
            n == src@.len(),
            dst@ == old(dst)@ + src@.subrange(0, i as int),
        decreases n - i,
    {
        let b = *slice_index_get(src, i);
        dst.push(b);
        proof {
            assert(src@.subrange(0, i + 1) =~= src@.subrange(0, i as int).push(src@[i as int]));
        }
        i = i + 1;
    }
    proof {
        assert(src@.subrange(0, n as int) =~= src@);
    }
}

/// Appends `n` zero bytes to `dst`.
pub fn push_zeros(dst: &mut Vec<u8>, n: usize)
    ensures
        final(dst)@ == old(dst)@ + Seq::new(n as nat, |i: int| 0u8),
{
    let mut i: usize = 0;
    while i < n
        invariant
            i <= n,
            dst@ == old(dst)@ + Seq::new(i as nat, |j: int| 0u8),
        decreases n - i,
    {
        dst.push(0u8);
        proof {
            assert(Seq::new((i + 1) as nat, |j: int| 0u8) =~= Seq::new(
                i as nat,
                |j: int| 0u8,
            ).push(0u8));
        }
        i = i + 1;
    }
}

/// A UTF-8 encoding takes at least one and at most four bytes per Unicode
/// scalar value.
pub proof fn lemma_encode_utf8_len(chars: Seq<char>)
    ensures
        chars.len() <= encode_utf8(chars).len() <= 4 * chars.len(),
    decreases chars.len(),
{
    if chars.len() == 0 {
    } else {
        lemma_encode_utf8_len(chars.drop_first());
        assert(1 <= encode_scalar(chars[0] as u32).len() <= 4);
    }
}

/// Compares two byte slices for equality of their contents.
pub fn bytes_eq(a: &[u8], b: &[u8]) -> (r: bool)
    ensures
        r == (a@ == b@),
{
    let n = a.len();
    if n != b.len() {
        proof {
            assert(a@.len() != b@.len());
        }
        return false;
    }
    let mut i: usize = 0;
    while i < n
        invariant
            i <= n,
            n == a@.len(),
            n == b@.len(),
            forall|j: int| 0 <= j < i ==> a@[j] == b@[j],
        decreases n - i,
    {
        if *slice_index_get(a, i) != *slice_index_get(b, i) {
            proof {
                assert(a@[i as int] != b@[i as int]);
            }
            return false;
        }
        i = i + 1;
    }
    proof {
        assert(a@ =~= b@);
    }
    true
}

} // verus!
