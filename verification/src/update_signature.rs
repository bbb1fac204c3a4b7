//! Checking the detached Ed25519 signature of a downloaded update package,
//! through `ed25519-dalek`.
use vstd::prelude::*;
use vstd::utf8::{decode_utf8, encode_utf8, valid_utf8};
use crate::encoding::{hex_decode, hex_decoded};
use crate::error::{error_of, AppError, AppErrorView, AppResult};
use crate::text::{trim, trimmed};

verus! {

#[verifier::external_type_specification]
#[verifier::external_body]
pub struct ExVerifyingKey(ed25519_dalek::VerifyingKey);

#[verifier::external_type_specification]
#[verifier::external_body]
pub struct ExSignature(ed25519_dalek::Signature);

/// Whether `ed25519_dalek::VerifyingKey::from_bytes` accepts 32 key bytes
/// (they must decompress to a curve point).
pub uninterp spec fn ed25519_key_accepted(key: Seq<u8>) -> bool;

/// Whether Ed25519 verification with the key bytes accepts the signature
/// bytes for the message.
pub uninterp spec fn ed25519_verifies(key: Seq<u8>, message: Seq<u8>, signature: Seq<u8>) -> bool;

/// A verification key, with the bytes it was read from; only
/// [`verifying_key_from_bytes`] makes one.
pub struct UpdateKey {
    key: ed25519_dalek::VerifyingKey,
    bytes: Vec<u8>,
}

impl View for UpdateKey {
    type V = Seq<u8>;

    closed spec fn view(&self) -> Seq<u8> {
        self.bytes@
    }
}

/// A signature, with the 64 bytes it was read from; only
/// [`signature_from_slice`] makes one.
pub struct UpdateSignature {
    signature: ed25519_dalek::Signature,
    bytes: Vec<u8>,
}

impl View for UpdateSignature {
    type V = Seq<u8>;

    closed spec fn view(&self) -> Seq<u8> {
        self.bytes@
    }
}

/// Calls `ed25519_dalek::VerifyingKey::from_bytes` on 32 bytes. Claimed: it
/// succeeds exactly where `ed25519_key_accepted` holds, and the key made
/// stands for those bytes. Which byte strings decompress is left to the name.
#[verifier::external_body]
fn verifying_key_from_bytes(bytes: &[u8]) -> (r: Option<UpdateKey>)
    requires
        bytes@.len() == 32,
    ensures
        r is Some <==> ed25519_key_accepted(bytes@),
        r matches Some(k) ==> k@ == bytes@,
{
    let array: [u8; 32] = match bytes.try_into() {
        Ok(a) => a,
        Err(_) => return None,
    };
    match ed25519_dalek::VerifyingKey::from_bytes(&array) {
        Ok(key) => Some(UpdateKey { key, bytes: bytes.to_vec() }),
        Err(_) => None,
    }
}

/// Calls `ed25519_dalek::Signature::from_slice`. Its source: it succeeds
/// exactly for 64 bytes, which it keeps as the signature.
#[verifier::external_body]
fn signature_from_slice(bytes: &[u8]) -> (r: Option<UpdateSignature>)
    ensures
        r is Some <==> bytes@.len() == 64,
        r matches Some(s) ==> s@ == bytes@,
{
    match ed25519_dalek::Signature::from_slice(bytes) {
        Ok(signature) => Some(UpdateSignature { signature, bytes: bytes.to_vec() }),
        Err(_) => None,
    }
}

/// Calls `ed25519_dalek::Verifier::verify`. Claimed: it succeeds exactly
/// where `ed25519_verifies` holds for the key's and signature's bytes.
#[verifier::external_body]
fn verify_ed25519(key: &UpdateKey, message: &[u8], signature: &UpdateSignature) -> (r: bool)
    ensures
        r == ed25519_verifies(key@, message@, signature@),
{
    ed25519_dalek::Verifier::verify(&key.key, message, &signature.signature).is_ok()
}

/// Calls `std::str::from_utf8`. Its documentation: it succeeds exactly for
/// valid UTF-8, and the text then holds the characters those bytes encode.
#[verifier::external_body]
fn utf8_text(bytes: &[u8]) -> (r: Option<&str>)
    ensures
        r is Some <==> valid_utf8(bytes@),
        r matches Some(s) ==> s@ == decode_utf8(bytes@),
{
    std::str::from_utf8(bytes).ok()
}

/// The text of a signature file: its UTF-8 text trimmed, or empty where the
/// bytes are not UTF-8.
pub open spec fn signature_text(signature: Seq<u8>) -> Seq<char> {
    if valid_utf8(signature) {
        trimmed(decode_utf8(signature))
    } else {
        Seq::empty()
    }
}

/// The outcome of checking an update package against its signature file with
/// the configured key (hex text, if any).
pub open spec fn signature_check(key: Option<Seq<char>>, message: Seq<u8>, signature: Seq<u8>) -> Result<
    (),
    AppErrorView,
> {
    match key {
        None => Err(AppErrorView::InvalidInput("Update verification key is not configured"@)),
        Some(k) => match hex_decoded(encode_utf8(k)) {
            None => Err(AppErrorView::InvalidInput("Invalid update verification key"@)),
            Some(kb) => if kb.len() != 32 {
                Err(AppErrorView::InvalidInput("Update verification key must be 32 bytes"@))
            } else if !ed25519_key_accepted(kb) {
                Err(AppErrorView::InvalidInput("Invalid update verification key"@))
            } else {
                match hex_decoded(encode_utf8(signature_text(signature))) {
                    None => Err(AppErrorView::InvalidInput("Invalid update signature"@)),
                    Some(sb) => if sb.len() != 64 {
                        Err(AppErrorView::InvalidInput("Invalid update signature"@))
                    } else if ed25519_verifies(kb, message, sb) {
                        Ok(())
                    } else {
                        Err(AppErrorView::InvalidInput("Update signature verification failed"@))
                    },
                }
            },
        },
    }
}

/// Checks a downloaded update package against its detached signature file
/// (hexadecimal text) with the configured public key (hexadecimal text), and
/// says which step refused it.
pub fn verify_signature(encoded_key: Option<&str>, bytes: &[u8], signature_bytes: &[u8]) -> (r:
    AppResult<()>)
    ensures
        error_of(r) == match signature_check(
            match encoded_key {
                Some(k) => Some(k@),
                None => None,
            },
            bytes@,
            signature_bytes@,
        ) {
            Ok(_) => None,
            Err(e) => Some(e),
        },
{
    let encoded_key = match encoded_key {
        Some(k) => k,
        None => return Err(AppError::invalid_input("Update verification key is not configured")),
    };
    let key_bytes = match hex_decode(encoded_key.as_bytes()) {
        Some(b) => b,
        None => return Err(AppError::invalid_input("Invalid update verification key")),
    };
    assert(key_bytes.deep_view() =~= key_bytes@);
    if key_bytes.len() != 32 {
        return Err(AppError::invalid_input("Update verification key must be 32 bytes"));
    }
    let key = match verifying_key_from_bytes(key_bytes.as_slice()) {
        Some(k) => k,
        None => return Err(AppError::invalid_input("Invalid update verification key")),
    };
    let empty = "";
    proof {
        reveal_strlit("");
        assert(empty@ =~= Seq::<char>::empty());
    }
    let text = match utf8_text(signature_bytes) {
        Some(t) => t,
        None => empty,
    };
    let sig_text = trim(text);
    assert(sig_text@ == signature_text(signature_bytes@));
    let signature_data = match hex_decode(sig_text.as_bytes()) {
        Some(d) => d,
        None => return Err(AppError::invalid_input("Invalid update signature")),
    };
    assert(signature_data.deep_view() =~= signature_data@);
    let signature = match signature_from_slice(signature_data.as_slice()) {
        Some(s) => s,
        None => return Err(AppError::invalid_input("Invalid update signature")),
    };
    if verify_ed25519(&key, bytes, &signature) {
        Ok(())
    } else {
        Err(AppError::invalid_input("Update signature verification failed"))
    }
}

} // verus!
