//! Hexadecimal text and SHA-256 digests, through the `hex` and `sha2` crates.
use vstd::prelude::*;

verus! {

/// The value of a hexadecimal digit (either case), if the byte is one.
pub open spec fn hex_digit_value(b: u8) -> Option<int> {
    if 48 <= b <= 57 {
        Some(b - 48)
    } else if 97 <= b <= 102 {
        Some(b - 87)
    } else if 65 <= b <= 70 {
        Some(b - 55)
    } else {
        None
    }
}

/// What `hex::decode` gives: for an even number of hexadecimal digits, the
/// bytes that the digit pairs spell, high digit first; otherwise nothing.
pub open spec fn hex_decoded(data: Seq<u8>) -> Option<Seq<u8>> {
    if data.len() % 2 == 0 && forall|i: int| 0 <= i < data.len() ==> #[trigger] hex_digit_value(
        data[i],
    ) is Some {
        Some(
            Seq::new(
                (data.len() / 2) as nat,
                |i: int|
                    (hex_digit_value(data[2 * i])->0 * 16 + hex_digit_value(data[2 * i + 1])->0) as u8,
            ),
        )
    } else {
        None
    }
}

/// The lowercase hexadecimal digit for a value below 16.
pub open spec fn hex_char(v: int) -> char {
    if v < 10 {
        (48 + v) as char
    } else {
        (87 + v) as char
    }
}

/// What `hex::encode` gives: two lowercase digits per byte, high digit first.
pub open spec fn hex_encoded(data: Seq<u8>) -> Seq<char> {
    Seq::new(
        (2 * data.len()) as nat,
        |i: int|
            if i % 2 == 0 {
                hex_char(data[i / 2] as int / 16)
            } else {
                hex_char(data[i / 2] as int % 16)
            },
    )
}

/// A lowercase hexadecimal digit.
pub open spec fn is_lower_hex_digit(c: char) -> bool {
    ('0' <= c && c <= '9') || ('a' <= c && c <= 'f')
}

/// Calls `hex::decode`. Its source: an odd number of bytes, or a byte that is
/// no hexadecimal digit of either case, is an error; otherwise each pair of
/// digits gives one byte, high digit first. Stated exactly as
/// [`hex_decoded`]; the error's kind is dropped.
#[verifier::external_body]
pub(crate) fn hex_decode(data: &[u8]) -> (r: Option<Vec<u8>>)
    ensures
        r.deep_view() == hex_decoded(data@),
{
    hex::decode(data).ok()
}

/// Calls `hex::encode`. Its source: each byte becomes two digits from
/// `0123456789abcdef`, high nibble first. Stated exactly as [`hex_encoded`].
#[verifier::external_body]
pub(crate) fn hex_encode(data: &[u8]) -> (r: String)
    ensures
        r@ == hex_encoded(data@),
{
    hex::encode(data)
}

/// The SHA-256 digest of a byte sequence.
pub uninterp spec fn sha256_digest(data: Seq<u8>) -> Seq<u8>;

/// Calls `sha2::Sha256::digest`. Claimed: the result is `sha256_digest` of
/// the input, 32 bytes long (SHA-256's output size). The digest itself is left
/// to the name.
#[verifier::external_body]
pub(crate) fn sha256(data: &[u8]) -> (r: Vec<u8>)
    ensures
        r@ == sha256_digest(data@),
        r@.len() == 32,
{
    <sha2::Sha256 as sha2::Digest>::digest(data).to_vec()
}

} // verus!
