//! Identity hashes: the names under which changes are kept.
//!
//! A hash is the MD5 digest of some bytes, written as 32 lowercase
//! hexadecimal digits. A new change gets the hash of a random number's decimal
//! numeral; the hash is made once and never derived from the scripts again.

use rand::Rng;
use vstd::prelude::*;
use vstd::utf8::encode_utf8;

use crate::text::{decimal, decimal_string};

verus! {

/// The MD5 digest of `data`, as the `md5` crate computes it.
pub uninterp spec fn md5_digest(data: Seq<u8>) -> Seq<u8>;

/// The lowercase hexadecimal digit for `n`, which is below sixteen.
pub open spec fn hex_digit(n: int) -> char
    recommends
        0 <= n < 16,
{
    "0123456789abcdef"@[n]
}

/// Two lowercase hexadecimal digits for each byte, the high one first.
pub open spec fn hex(bytes: Seq<u8>) -> Seq<char> {
    Seq::new(
        2 * bytes.len(),
        |i: int|
            if i % 2 == 0 {
                hex_digit(bytes[i / 2] as int / 16)
            } else {
                hex_digit(bytes[i / 2] as int % 16)
            },
    )
}

/// Whether `c` is a lowercase hexadecimal digit.
pub open spec fn is_hex_digit(c: char) -> bool {
    exists|n: int| 0 <= n < 16 && c == #[trigger] hex_digit(n)
}

/// Whether `s` has the shape of an identity hash: 32 lowercase hexadecimal
/// digits.
pub open spec fn is_identity(s: Seq<char>) -> bool {
    &&& s.len() == 32
    &&& forall|i: int| 0 <= i < s.len() ==> is_hex_digit(#[trigger] s[i])
}

/// The hash of `data`.
pub open spec fn hash_of(data: Seq<u8>) -> Seq<char> {
    hex(md5_digest(data))
}

/// The identity hash that the random number `seed` gives.
pub open spec fn identity_of(seed: u32) -> Seq<char> {
    hash_of(encode_utf8(decimal(seed as nat)))
}

/// Calls `md5::compute` and hands out the sixteen bytes of the digest it
/// returns. The contract only names the digest: it is a function of the bytes
/// given, and nothing else is claimed of it.
#[verifier::external_body]
fn md5_compute(data: &[u8]) -> (digest: [u8; 16])
    ensures
        digest@ == md5_digest(data@),
{
    md5::compute(data).0
}

/// Draws a `u32` from `rand::thread_rng()`. Nothing is claimed of the number.
/// The generator seeds itself from the operating system on first use and
/// panics if that fails.
#[verifier::external_body]
fn random_seed() -> (seed: u32) {
    rand::thread_rng().gen::<u32>()
}

/// The one-character slice that holds the hexadecimal digit for `n`.
fn hex_digit_str(n: u8) -> (out: &'static str)
    requires
        n < 16,
    ensures
        out@ == seq![hex_digit(n as int)],
{
    proof {
        reveal_strlit("0123456789abcdef");
    }
    let digits = "0123456789abcdef";
    let at = n as usize;
    let out = digits.substring_char(at, at + 1);
    assert(out@ =~= seq![hex_digit(n as int)]);
    out
}

/// Every byte string's hexadecimal form is twice as long and made of
/// hexadecimal digits only.
pub proof fn lemma_hex_shape(bytes: Seq<u8>)
    ensures
        hex(bytes).len() == 2 * bytes.len(),
        forall|i: int| 0 <= i < hex(bytes).len() ==> is_hex_digit(#[trigger] hex(bytes)[i]),
{
    assert forall|i: int| 0 <= i < hex(bytes).len() implies is_hex_digit(
        #[trigger] hex(bytes)[i],
    ) by {
        let byte = bytes[i / 2] as int;
        if i % 2 == 0 {
            assert(hex(bytes)[i] == hex_digit(byte / 16));
        } else {
            assert(hex(bytes)[i] == hex_digit(byte % 16));
        }
    }
}

/// `bytes` in lowercase hexadecimal.
pub fn to_hex(bytes: &[u8]) -> (out: String)
    ensures
        out@ == hex(bytes@),
{
    let mut out = String::new();
    let mut i: usize = 0;
    while i < bytes.len()
        invariant
            i <= bytes.len(),
            out@ == hex(bytes@.take(i as int)),
        decreases bytes.len() - i,
    {
        let byte = bytes[i];
        out.append(hex_digit_str(byte / 16));
        out.append(hex_digit_str(byte % 16));
        i += 1;
        assert(out@ =~= hex(bytes@.take(i as int)));
    }
    assert(bytes@.take(i as int) =~= bytes@);
    out
}

/// The hash of `data`: its MD5 digest in lowercase hexadecimal.
pub fn content_hash(data: &[u8]) -> (out: String)
    ensures
        out@ == hash_of(data@),
        is_identity(out@),
{
    let digest = md5_compute(data);
    proof {
        lemma_hex_shape(digest@);
    }
    to_hex(digest.as_slice())
}

/// The identity hash that the random number `seed` gives: the hash of its
/// decimal numeral.
pub fn identity_from(seed: u32) -> (out: String)
    ensures
        out@ == identity_of(seed),
        is_identity(out@),
{
    let numeral = decimal_string(seed as u64);
    content_hash(numeral.as_str().as_bytes())
}

/// A new identity hash, from 32 bits of randomness. Which one is not known
/// beforehand, and it is not compared with the hashes already in use.
pub fn new_identity() -> (out: String)
    ensures
        is_identity(out@),
        exists|seed: u32| out@ == #[trigger] identity_of(seed),
{
    let seed = random_seed();
    identity_from(seed)
}

} // verus!
