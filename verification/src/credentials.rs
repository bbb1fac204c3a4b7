//! Credential fingerprints: a short, stable digest of an API key that can be
//! stored in place of the key.
use vstd::prelude::*;
use crate::encoding::{hex_encode, hex_encoded, is_lower_hex_digit, sha256, sha256_digest};

verus! {

/// The fingerprint of a key: the first 16 bytes of the SHA-256 digest of its
/// UTF-8 bytes, in lowercase hexadecimal.
pub open spec fn fingerprint_of(key: Seq<char>) -> Seq<char> {
    hex_encoded(sha256_digest(vstd::utf8::encode_utf8(key)).subrange(0, 16))
}

/// The fingerprint of an API key: 32 lowercase hexadecimal digits that depend
/// on the key alone.
pub fn compute_fingerprint(api_key: &str) -> (r: String)
    ensures
        r@ == fingerprint_of(api_key@),
        r@.len() == 32,
        forall|i: int| 0 <= i < r@.len() ==> is_lower_hex_digit(#[trigger] r@[i]),
{
    let digest = sha256(api_key.as_bytes());
    let mut head: Vec<u8> = Vec::new();
    let mut i: usize = 0;
    while i < 16
        invariant
            digest@.len() == 32,
            i <= 16,
            head@ == digest@.subrange(0, i as int),
        decreases 16 - i,
    {
        head.push(digest[i]);
        i = i + 1;
    }
    let r = hex_encode(head.as_slice());
    proof {
        assert forall|k: int| 0 <= k < r@.len() implies is_lower_hex_digit(#[trigger] r@[k]) by {
            let b = head@[k / 2];
            assert(0 <= b / 16 < 16 && 0 <= b % 16 < 16);
        }
    }
    r
}

} // verus!
