//! Canonical byte encoding.
//!
//! Every wire record of this crate is encoded with the deterministic
//! little-endian, length-prefixed scheme below.  Signatures are computed
//! over these canonical bytes, so the encoding of a value must be unique:
//! the lemmas here establish that the primitives are injective and that
//! decoding inverts encoding exactly.

use vstd::prelude::*;
use vstd::bytes::{
    lemma_auto_spec_u128_to_from_le_bytes, lemma_auto_spec_u64_to_from_le_bytes,
    spec_u128_from_le_bytes, spec_u128_to_le_bytes, spec_u64_from_le_bytes, spec_u64_to_le_bytes,
    u128_from_le_bytes, u128_to_le_bytes, u64_from_le_bytes, u64_to_le_bytes,
};
use vstd::slice::{slice_index_get, slice_subrange, slice_to_vec};
use vstd::string::StringSliceAdditionalSpecFns;
use vstd::utf8::{
    decode_utf8, decode_utf8_encode_utf8, encode_utf8, encode_utf8_decode_utf8,
    encode_utf8_valid_utf8, valid_utf8,
};

verus! {

/// Canonical encoding of a length-prefixed byte string: the length as
/// eight little-endian bytes, then the bytes themselves.
pub open spec fn canon_bytes(b: Seq<u8>) -> Seq<u8>
    recommends
        b.len() <= u64::MAX,
{
    spec_u64_to_le_bytes(b.len() as u64) + b
}

/// Canonical encoding of text: its UTF-8 bytes.  Text always stands in
/// tail position of a record, so it carries no length prefix.
pub open spec fn canon_text(s: Seq<char>) -> Seq<u8> {
    encode_utf8(s)
}

/// A sequence splits into any two adjacent subranges.
pub proof fn lemma_seq_split(b: Seq<u8>, i: int, j: int, k: int)
    requires
        0 <= i <= j <= k <= b.len(),
    ensures
        b.subrange(i, k) == b.subrange(i, j) + b.subrange(j, k),
{
    assert(b.subrange(i, k) =~= b.subrange(i, j) + b.subrange(j, k));
}

/// The canonical text encoding is valid UTF-8 and decodes to the text.
pub proof fn lemma_canon_text_valid(s: Seq<char>)
    ensures
        valid_utf8(canon_text(s)),
        decode_utf8(canon_text(s)) == s,
{
    encode_utf8_valid_utf8(s);
    encode_utf8_decode_utf8(s);
}

/// Two texts with the same canonical encoding are the same text.
pub proof fn lemma_canon_text_injective(s1: Seq<char>, s2: Seq<char>)
    requires
        canon_text(s1) == canon_text(s2),
    ensures
        s1 == s2,
{
    lemma_canon_text_valid(s1);
    lemma_canon_text_valid(s2);
}

pub fn put_u8(out: &mut Vec<u8>, x: u8)
    ensures
        final(out)@ == old(out)@ + seq![x],
{
    out.push(x);
    proof {
        assert(out@ =~= old(out)@ + seq![x]);
    }
}

pub fn put_u64(out: &mut Vec<u8>, x: u64)
    ensures
        final(out)@ == old(out)@ + spec_u64_to_le_bytes(x),
{
    let mut b = u64_to_le_bytes(x);
    out.append(&mut b);
}

pub fn put_u128(out: &mut Vec<u8>, x: u128)
    ensures
        final(out)@ == old(out)@ + spec_u128_to_le_bytes(x),
{
    let mut b = u128_to_le_bytes(x);
    out.append(&mut b);
}

pub fn put_bytes(out: &mut Vec<u8>, b: &[u8])
    ensures
        final(out)@ == old(out)@ + canon_bytes(b@),
{
    let n = b.len();
    put_u64(out, n as u64);
    out.extend_from_slice(b);
}

pub fn put_str(out: &mut Vec<u8>, s: &str)
    ensures
        final(out)@ == old(out)@ + canon_text(s@),
{
    let b = s.as_bytes();
    out.extend_from_slice(b);
}

/// Reads one byte at `at`.
pub fn take_u8(bytes: &[u8], at: usize) -> (r: Option<(u8, usize)>)
    ensures
        match r {
            Some((x, j)) => at < bytes@.len() && j == at + 1 && x == bytes@[at as int],
            None => at >= bytes@.len(),
        },
{
    if at < bytes.len() {
        let x = *slice_index_get(bytes, at);
        Some((x, at + 1))
    } else {
        None
    }
}

/// Reads eight little-endian bytes at `at`.
pub fn take_u64(bytes: &[u8], at: usize) -> (r: Option<(u64, usize)>)
    ensures
        match r {
            Some((x, j)) => {
                &&& at + 8 <= bytes@.len()
                &&& j == at + 8
                &&& spec_u64_to_le_bytes(x) == bytes@.subrange(at as int, at + 8)
                &&& x == spec_u64_from_le_bytes(bytes@.subrange(at as int, at + 8))
            },
            None => at + 8 > bytes@.len(),
        },
{
    if at <= bytes.len() && bytes.len() - at >= 8 {
        let sub = slice_subrange(bytes, at, at + 8);
        let x = u64_from_le_bytes(sub);
        proof {
            lemma_auto_spec_u64_to_from_le_bytes();
        }
        Some((x, at + 8))
    } else {
        None
    }
}

/// Reads sixteen little-endian bytes at `at`.
pub fn take_u128(bytes: &[u8], at: usize) -> (r: Option<(u128, usize)>)
    ensures
        match r {
            Some((x, j)) => {
                &&& at + 16 <= bytes@.len()
                &&& j == at + 16
                &&& spec_u128_to_le_bytes(x) == bytes@.subrange(at as int, at + 16)
                &&& x == spec_u128_from_le_bytes(bytes@.subrange(at as int, at + 16))
            },
            None => at + 16 > bytes@.len(),
        },
{
    if at <= bytes.len() && bytes.len() - at >= 16 {
        let sub = slice_subrange(bytes, at, at + 16);
        let x = u128_from_le_bytes(sub);
        proof {
            lemma_auto_spec_u128_to_from_le_bytes();
        }
        Some((x, at + 16))
    } else {
        None
    }
}

/// Reads a length-prefixed byte string at `at`.
pub fn take_bytes(bytes: &[u8], at: usize) -> (r: Option<(Vec<u8>, usize)>)
    ensures
        match r {
            Some((b, j)) => {
                &&& at + 8 <= bytes@.len()
                &&& b@.len() == spec_u64_from_le_bytes(bytes@.subrange(at as int, at + 8))
                &&& j == at + 8 + b@.len()
                &&& j <= bytes@.len()
                &&& b@ == bytes@.subrange(at + 8, j as int)
                &&& bytes@.subrange(at as int, j as int) == canon_bytes(b@)
            },
            None => at + 8 > bytes@.len() || at + 8 + spec_u64_from_le_bytes(
                bytes@.subrange(at as int, at + 8),
            ) > bytes@.len(),
        },
{
    match take_u64(bytes, at) {
        None => None,
        Some((n, j)) => {
            if n <= (bytes.len() - j) as u64 {
                let jn = j + (n as usize);
                let sub = slice_subrange(bytes, j, jn);
                let b = slice_to_vec(sub);
                proof {
                    lemma_auto_spec_u64_to_from_le_bytes();
                    assert(b@.len() as u64 == n);
                    lemma_seq_split(bytes@, at as int, j as int, jn as int);
                    assert(bytes@.subrange(at as int, jn as int) =~= canon_bytes(b@));
                }
                Some((b, jn))
            } else {
                None
            }
        },
    }
}

/// Reads everything from `at` to the end as UTF-8 text.
pub fn take_rest_text(bytes: &[u8], at: usize) -> (r: Option<String>)
    ensures
        match r {
            Some(s) => at <= bytes@.len() && canon_text(s@) == bytes@.subrange(
                at as int,
                bytes@.len() as int,
            ),
            None => at > bytes@.len() || !valid_utf8(
                bytes@.subrange(at as int, bytes@.len() as int),
            ),
        },
{
    if at > bytes.len() {
        return None;
    }
    let sub = slice_subrange(bytes, at, bytes.len());
    let v = slice_to_vec(sub);
    let r = string_from_utf8(v);
    proof {
        let tail = bytes@.subrange(at as int, bytes@.len() as int);
        if valid_utf8(tail) {
            decode_utf8_encode_utf8(tail);
        }
    }
    r
}

/// Relies on String::from_utf8: returns the string made of exactly the
/// given bytes when they are valid UTF-8, and an error otherwise.
#[verifier::external_body]
fn string_from_utf8(bytes: Vec<u8>) -> (r: Option<String>)
    ensures
        match r {
            Some(s) => valid_utf8(bytes@) && s@ == decode_utf8(bytes@),
            None => !valid_utf8(bytes@),
        },
{
    String::from_utf8(bytes).ok()
}

} // verus!
