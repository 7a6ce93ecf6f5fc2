use crate::error::CliError;
use ring::aead;
use ring::digest;
use ring::rand::SecureRandom;
use vstd::prelude::*;
use vstd::slice::{slice_subrange, slice_to_vec};
use vstd::string::*;

verus! {

#[verifier::external_type_specification]
#[verifier::external_body]
pub struct ExUnspecified(ring::error::Unspecified);

/// Bytes of nonce in front of each sealed message.
pub const NONCE_LEN: usize = 12;

/// Bytes of a derived key.
pub const KEY_LEN: usize = 32;

/// Bytes of the authentication tag after each ciphertext.
pub const TAG_LEN: usize = 16;

/// The longest plaintext that ChaCha20-Poly1305 seals under one nonce.
pub const MAX_PLAINTEXT_LEN: u64 = 274_877_906_880;

/// How many times a failed draw of a nonce is tried before giving up.
pub const NONCE_DRAW_ATTEMPTS: u32 = 4;

/// The SHA-256 digest of a byte sequence.
pub uninterp spec fn sha256_of(data: Seq<u8>) -> Seq<u8>;

/// ChaCha20-Poly1305 ciphertext followed by its tag, for the given key, nonce
/// and plaintext, with no associated data.
pub uninterp spec fn chacha20_poly1305_seal_of(
    key: Seq<u8>,
    nonce: Seq<u8>,
    plaintext: Seq<u8>,
) -> Seq<u8>;

/// The plaintext of a ChaCha20-Poly1305 ciphertext with its tag, or `None`
/// where the tag does not verify.
pub uninterp spec fn chacha20_poly1305_open_of(
    key: Seq<u8>,
    nonce: Seq<u8>,
    sealed: Seq<u8>,
) -> Option<Seq<u8>>;

/// Relies on `ring::digest::digest` with `SHA256`: a 32-byte digest that
/// depends on the input alone.
#[verifier::external_body]
fn sha256(data: &[u8]) -> (r: Vec<u8>)
    ensures
        r@ == sha256_of(data@),
        r@.len() == KEY_LEN,
{
    digest::digest(&digest::SHA256, data).as_ref().to_vec()
}

/// Relies on `ring::rand::SystemRandom::fill`: it fills the buffer in place
/// from the system's secure random source, or reports that it could not.
#[verifier::external_body]
fn fill_random(dest: &mut Vec<u8>) -> (r: Result<(), ring::error::Unspecified>)
    ensures
        final(dest)@.len() == old(dest)@.len(),
{
    ring::rand::SystemRandom::new().fill(dest.as_mut_slice())
}

/// Relies on `ring::aead::LessSafeKey::seal_in_place_append_tag` with
/// `CHACHA20_POLY1305` (key built by `UnboundKey::new`, nonce by
/// `Nonce::try_assume_unique_for_key`): it fails only on a plaintext longer
/// than the cipher's limit, and otherwise replaces the plaintext with its
/// ciphertext and appends the 16-byte tag, which opening undoes.
#[verifier::external_body]
fn chacha_seal(key: &[u8], nonce: &[u8], in_out: &mut Vec<u8>) -> (r: Result<
    (),
    ring::error::Unspecified,
>)
    requires
        key@.len() == KEY_LEN,
        nonce@.len() == NONCE_LEN,
    ensures
        r is Ok <==> old(in_out)@.len() <= MAX_PLAINTEXT_LEN,
        r is Ok ==> final(in_out)@ == chacha20_poly1305_seal_of(key@, nonce@, old(in_out)@),
        r is Ok ==> final(in_out)@.len() == old(in_out)@.len() + TAG_LEN,
        r is Ok ==> chacha20_poly1305_open_of(key@, nonce@, final(in_out)@) == Some(
            old(in_out)@,
        ),
{
    let key = aead::LessSafeKey::new(aead::UnboundKey::new(&aead::CHACHA20_POLY1305, key)?);
    let nonce = aead::Nonce::try_assume_unique_for_key(nonce)?;
    key.seal_in_place_append_tag(nonce, aead::Aad::empty(), in_out)
}

/// Relies on `ring::aead::LessSafeKey::open_in_place` with
/// `CHACHA20_POLY1305` (key built by `UnboundKey::new`, nonce by
/// `Nonce::try_assume_unique_for_key`): the plaintext, 16 bytes shorter
/// than its input, where the tag verifies; an error otherwise, and always
/// on an input shorter than a tag.
#[verifier::external_body]
fn chacha_open(key: &[u8], nonce: &[u8], sealed: Vec<u8>) -> (r: Result<
    Vec<u8>,
    ring::error::Unspecified,
>)
    requires
        key@.len() == KEY_LEN,
        nonce@.len() == NONCE_LEN,
    ensures
        r is Ok <==> chacha20_poly1305_open_of(key@, nonce@, sealed@) is Some,
        r is Ok ==> chacha20_poly1305_open_of(key@, nonce@, sealed@) == Some(r->Ok_0@),
        r is Ok ==> r->Ok_0@.len() + TAG_LEN == sealed@.len(),
        sealed@.len() < TAG_LEN ==> r is Err,
{
    let key = aead::LessSafeKey::new(aead::UnboundKey::new(&aead::CHACHA20_POLY1305, key)?);
    let nonce = aead::Nonce::try_assume_unique_for_key(nonce)?;
    let mut sealed = sealed;
    let r = key.open_in_place(nonce, aead::Aad::empty(), &mut sealed).map(|p| p.to_vec());
    r
}

/// `r` holds bytes where `expected` holds their sequence, and the same error
/// where `expected` holds an error.
pub open spec fn result_matches(r: Result<Vec<u8>, CliError>, expected: Result<Seq<u8>, CliError>) -> bool {
    match expected {
        Ok(bytes) => r is Ok && r->Ok_0@ == bytes,
        Err(e) => r == Err::<Vec<u8>, CliError>(e),
    }
}

/// The key that a password stands for: the SHA-256 digest of its UTF-8
/// bytes.
pub open spec fn key_of(password: &str) -> Seq<u8> {
    sha256_of(password.spec_bytes())
}

/// A sealed message: the nonce, then the ciphertext and its tag.
pub open spec fn sealed_message(key: Seq<u8>, nonce: Seq<u8>, plaintext: Seq<u8>) -> Seq<u8> {
    nonce + chacha20_poly1305_seal_of(key, nonce, plaintext)
}

/// `message` is `plaintext` sealed under `key` with the nonce in its first
/// bytes.
pub open spec fn is_sealed(key: Seq<u8>, message: Seq<u8>, plaintext: Seq<u8>) -> bool {
    message.len() >= NONCE_LEN && message == sealed_message(
        key,
        message.take(NONCE_LEN as int),
        plaintext,
    )
}

/// What opening a sealed message under `key` gives: a format error where it
/// is shorter than a nonce, an authentication error where its tag does not
/// verify, else the plaintext.
pub open spec fn opened(key: Seq<u8>, message: Seq<u8>) -> Result<Seq<u8>, CliError> {
    if message.len() < NONCE_LEN {
        Err(CliError::FormatError)
    } else {
        match chacha20_poly1305_open_of(
            key,
            message.take(NONCE_LEN as int),
            message.skip(NONCE_LEN as int),
        ) {
            Some(plaintext) => Ok(plaintext),
            None => Err(CliError::AuthenticationError),
        }
    }
}

/// Derives the cipher key of a password by one SHA-256 pass over its bytes.
pub fn construct_key(password: &str) -> (key: Vec<u8>)
    ensures
        key@ == key_of(password),
        key@.len() == KEY_LEN,
{
    sha256(password.as_bytes())
}

/// Draws a fresh nonce, trying again where the random source fails.
fn draw_nonce() -> (r: Result<Vec<u8>, CliError>)
    ensures
        r is Ok ==> r->Ok_0@.len() == NONCE_LEN,
        r is Err ==> r == Err::<Vec<u8>, CliError>(CliError::Crypto),
{
    let mut attempt: u32 = 0;
    while attempt < NONCE_DRAW_ATTEMPTS
        decreases NONCE_DRAW_ATTEMPTS - attempt,
    {
        let mut nonce: Vec<u8> = Vec::new();
        let mut i: usize = 0;
        while i < NONCE_LEN
            invariant
                i <= NONCE_LEN,
                nonce@.len() == i,
            decreases NONCE_LEN - i,
        {
            nonce.push(0);
            i = i + 1;
        }
        if fill_random(&mut nonce).is_ok() {
            return Ok(nonce);
        }
        attempt = attempt + 1;
    }
    Err(CliError::Crypto)
}

/// Seals `plaintext` under `key` with the given nonce and puts the nonce in
/// front.
pub fn seal_with_nonce(key: &[u8], nonce: &[u8], plaintext: &[u8]) -> (r: Result<
    Vec<u8>,
    CliError,
>)
    requires
        key@.len() == KEY_LEN,
        nonce@.len() == NONCE_LEN,
    ensures
        r is Ok <==> plaintext@.len() <= MAX_PLAINTEXT_LEN,
        r is Ok ==> r->Ok_0@ == sealed_message(key@, nonce@, plaintext@),
        r is Ok ==> r->Ok_0@.len() == NONCE_LEN + plaintext@.len() + TAG_LEN,
        r is Ok ==> opened(key@, r->Ok_0@) == Ok::<Seq<u8>, CliError>(plaintext@),
        r is Err ==> r == Err::<Vec<u8>, CliError>(CliError::Crypto),
{
    let mut in_out = slice_to_vec(plaintext);
    match chacha_seal(key, nonce, &mut in_out) {
        Ok(()) => {
            let mut message = slice_to_vec(nonce);
            message.append(&mut in_out);
            assert(message@.take(NONCE_LEN as int) =~= nonce@);
            assert(message@.skip(NONCE_LEN as int) =~= chacha20_poly1305_seal_of(
                key@,
                nonce@,
                plaintext@,
            ));
            Ok(message)
        },
        Err(_) => Err(CliError::Crypto),
    }
}

/// Seals `plaintext` under `key` with a fresh random nonce.
pub fn encrypt(key: &[u8], plaintext: &[u8]) -> (r: Result<Vec<u8>, CliError>)
    requires
        key@.len() == KEY_LEN,
    ensures
        r is Ok ==> is_sealed(key@, r->Ok_0@, plaintext@),
        r is Ok ==> r->Ok_0@.len() == NONCE_LEN + plaintext@.len() + TAG_LEN,
        r is Ok ==> opened(key@, r->Ok_0@) == Ok::<Seq<u8>, CliError>(plaintext@),
        r is Err ==> r == Err::<Vec<u8>, CliError>(CliError::Crypto),
        plaintext@.len() > MAX_PLAINTEXT_LEN ==> r is Err,
{
    let nonce = match draw_nonce() {
        Ok(nonce) => nonce,
        Err(e) => return Err(e),
    };
    let r = seal_with_nonce(key, nonce.as_slice(), plaintext);
    proof {
        if r is Ok {
            let m = r->Ok_0@;
            assert(m.take(NONCE_LEN as int) =~= nonce@);
        }
    }
    r
}

/// Opens a sealed message under `key`.
pub fn decrypt(key: &[u8], message_data: &[u8]) -> (r: Result<Vec<u8>, CliError>)
    requires
        key@.len() == KEY_LEN,
    ensures
        result_matches(r, opened(key@, message_data@)),
        r is Ok ==> r->Ok_0@.len() + NONCE_LEN + TAG_LEN == message_data@.len(),
        message_data@.len() < NONCE_LEN + TAG_LEN ==> r is Err,
{
    if message_data.len() < NONCE_LEN {
        return Err(CliError::FormatError);
    }
    let nonce = slice_subrange(message_data, 0, NONCE_LEN);
    let ciphertext = slice_to_vec(slice_subrange(message_data, NONCE_LEN, message_data.len()));
    assert(nonce@ =~= message_data@.take(NONCE_LEN as int));
    assert(ciphertext@ =~= message_data@.skip(NONCE_LEN as int));
    match chacha_open(key, nonce, ciphertext) {
        Ok(plaintext) => Ok(plaintext),
        Err(_) => Err(CliError::AuthenticationError),
    }
}

/// Seals the bytes of `message` under the key derived from `password`, with
/// a fresh random nonce in front.
pub fn encrypt_message(password: &str, message: &str) -> (r: Result<Vec<u8>, CliError>)
    ensures
        r is Ok ==> is_sealed(key_of(password), r->Ok_0@, message.spec_bytes()),
        r is Ok ==> r->Ok_0@.len() == NONCE_LEN + message.spec_bytes().len() + TAG_LEN,
        r is Ok ==> opened(key_of(password), r->Ok_0@) == Ok::<Seq<u8>, CliError>(
            message.spec_bytes(),
        ),
        r is Err ==> r == Err::<Vec<u8>, CliError>(CliError::Crypto),
{
    let key = construct_key(password);
    encrypt(key.as_slice(), message.as_bytes())
}

/// Opens a message sealed under the key derived from `password`.
pub fn decrypt_message(password: &str, ciphertext: &Vec<u8>) -> (r: Result<Vec<u8>, CliError>)
    ensures
        result_matches(r, opened(key_of(password), ciphertext@)),
        r is Ok ==> r->Ok_0@.len() + NONCE_LEN + TAG_LEN == ciphertext@.len(),
        ciphertext@.len() < NONCE_LEN + TAG_LEN ==> r is Err,
{
    let key = construct_key(password);
    decrypt(key.as_slice(), ciphertext.as_slice())
}

} // verus!
