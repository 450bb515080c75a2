//! The AEAD that protects voice packets (XChaCha20-Poly1305, IETF variant),
//! as libsodium provides it.

use vstd::prelude::*;

use libsodium_rs::crypto_aead::xchacha20poly1305;

verus! {

/// What libsodium's XChaCha20-Poly1305 (IETF) encryption yields for a
/// message, additional data, 24-byte nonce and 32-byte key; `None` where
/// libsodium reports a failure.
pub uninterp spec fn xchacha20poly1305_sealed(
    message: Seq<u8>,
    additional_data: Seq<u8>,
    nonce: Seq<u8>,
    key: Seq<u8>,
) -> Option<Seq<u8>>;

/// What libsodium's XChaCha20-Poly1305 (IETF) decryption yields for a
/// ciphertext, additional data, nonce and key; `None` where the tag does not
/// authenticate or libsodium reports another failure.
pub uninterp spec fn xchacha20poly1305_opened(
    ciphertext: Seq<u8>,
    additional_data: Seq<u8>,
    nonce: Seq<u8>,
    key: Seq<u8>,
) -> Option<Seq<u8>>;

/// Tag bytes the AEAD appends (`ABYTES`).
pub const AEAD_TAG_LEN: usize = 16;

/// `libsodium_rs::crypto_aead::xchacha20poly1305::encrypt`, with the nonce
/// and key given as their bytes. Claimed: the outcome is the named
/// [`xchacha20poly1305_sealed`] of the arguments, and a ciphertext is the
/// message length plus the 16 tag bytes (the module documentation's
/// "ciphertext expansion").
#[verifier::external_body]
pub(crate) fn xchacha20poly1305_encrypt(
    message: &[u8],
    additional_data: &[u8],
    nonce: [u8; 24],
    key: [u8; 32],
) -> (r: Option<Vec<u8>>)
    ensures
        match r {
            Some(c) => xchacha20poly1305_sealed(message@, additional_data@, nonce@, key@) == Some(
                c@,
            ) && c@.len() == message@.len() + 16,
            None => xchacha20poly1305_sealed(message@, additional_data@, nonce@, key@) is None,
        },
{
    xchacha20poly1305::encrypt(
        message,
        Some(additional_data),
        &xchacha20poly1305::Nonce::from(nonce),
        &xchacha20poly1305::Key::from(key),
    ).ok()
}

/// `libsodium_rs::crypto_aead::xchacha20poly1305::decrypt`, with the nonce
/// and key given as their bytes. Claimed: the outcome is the named
/// [`xchacha20poly1305_opened`] of the arguments; a ciphertext shorter than
/// the tag fails (the source checks `ABYTES` first); a plaintext is at most
/// the ciphertext minus the tag (the source sizes and truncates its buffer
/// so); and a ciphertext that encryption produced for some message under the
/// same additional data, nonce and key decrypts to that message (AEAD
/// correctness, as the crate documents with its encrypt/decrypt example).
#[verifier::external_body]
pub(crate) fn xchacha20poly1305_decrypt(
    ciphertext: &[u8],
    additional_data: &[u8],
    nonce: [u8; 24],
    key: [u8; 32],
) -> (r: Option<Vec<u8>>)
    ensures
        match r {
            Some(m) => xchacha20poly1305_opened(ciphertext@, additional_data@, nonce@, key@)
                == Some(m@) && m@.len() + 16 <= ciphertext@.len(),
            None => xchacha20poly1305_opened(ciphertext@, additional_data@, nonce@, key@) is None,
        },
        ciphertext@.len() < 16 ==> r is None,
        forall|m: Seq<u8>|
            #[trigger] xchacha20poly1305_sealed(m, additional_data@, nonce@, key@) == Some(
                ciphertext@,
            ) ==> (r is Some && r->0@ == m),
{
    xchacha20poly1305::decrypt(
        ciphertext,
        Some(additional_data),
        &xchacha20poly1305::Nonce::from(nonce),
        &xchacha20poly1305::Key::from(key),
    ).ok()
}

} // verus!
