//! The SHA-256 digest, computed by the `sha2` crate, and its printed form.

use sha2::Digest;
use sha2::Sha256;
use vstd::prelude::*;

use crate::text::digit_char;
use crate::text::hex_lower;
use crate::text::to_hex;

verus! {

/// Bytes in a SHA-256 digest.
pub const DIGEST_LEN: usize = 32;

/// Characters in the hexadecimal form of a SHA-256 digest.
pub const HASH_HEX_LEN: usize = 64;

/// The SHA-256 digest of `data`, as `sha2` computes it.
pub uninterp spec fn sha256(data: Seq<u8>) -> Seq<u8>;

/// Calls `sha2::Sha256::digest`, the one-shot form of creating a hasher,
/// feeding it `data` and finalizing it. The contract is taken on trust: the
/// output is a function of the input bytes alone and is 32 bytes long.
#[verifier::external_body]
pub(crate) fn sha256_bytes(data: &[u8]) -> (out: Vec<u8>)
    ensures
        out@ == sha256(data@),
        out@.len() == DIGEST_LEN,
{
    Sha256::digest(data).to_vec()
}

/// The hash of `data` as text: the lowercase hexadecimal form of its digest.
pub open spec fn hash_hex(data: Seq<u8>) -> Seq<char> {
    hex_lower(sha256(data))
}

/// True of the characters `0`-`9` and `a`-`f`.
pub open spec fn is_lower_hex_char(c: char) -> bool {
    exists|n: int| 0 <= n < 16 && #[trigger] digit_char(n) == c
}

/// True of text made only of lowercase hexadecimal digits.
pub open spec fn is_lower_hex(s: Seq<char>) -> bool {
    forall|i: int| 0 <= i < s.len() ==> is_lower_hex_char(#[trigger] s[i])
}

/// Hashes `data` and prints the digest in lowercase hexadecimal.
pub fn sha256_hex(data: &[u8]) -> (out: String)
    ensures
        out@ == hash_hex(data@),
        out@.len() == HASH_HEX_LEN,
        is_lower_hex(out@),
{
    let digest = sha256_bytes(data);
    let out = to_hex(digest.as_slice());
    proof {
        lemma_hex_lower_shape(digest@);
    }
    out
}

/// The hexadecimal form is twice as long as the bytes and holds only
/// lowercase hexadecimal digits.
pub proof fn lemma_hex_lower_shape(bytes: Seq<u8>)
    ensures
        hex_lower(bytes).len() == 2 * bytes.len(),
        is_lower_hex(hex_lower(bytes)),
{
    let h = hex_lower(bytes);
    assert forall|i: int| 0 <= i < h.len() implies is_lower_hex_char(#[trigger] h[i]) by {
        let n = if i % 2 == 0 {
            bytes[i / 2] as int / 16
        } else {
            bytes[i / 2] as int % 16
        };
        assert(0 <= n < 16 && digit_char(n) == h[i]);
    }
}

} // verus!
