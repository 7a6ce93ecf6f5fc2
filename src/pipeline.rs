use crate::error::CliError;
use crate::steg::lsb::{embedded, extracted, fits, lemma_round_trip, LeastBit, HEADER_SIZE};
use crate::steg::Steganography;
use crate::util::crypt::{
    construct_key, decrypt, encrypt, is_sealed, key_of, opened, result_matches, NONCE_LEN,
    TAG_LEN,
};
use vstd::prelude::*;
use vstd::slice::slice_to_vec;

verus! {

/// How many bytes are hidden for a secret of `secret_len` bytes: the secret
/// itself, or its sealed form where a password is given.
pub open spec fn hidden_len(secret_len: nat, password: Option<&str>) -> nat {
    match password {
        None => secret_len,
        Some(_) => (NONCE_LEN + secret_len + TAG_LEN) as nat,
    }
}

/// What extraction gives for a carrier: the hidden bytes, opened under the
/// password's key where a password is given.
pub open spec fn recovered(carrier: Seq<u8>, password: Option<&str>) -> Result<Seq<u8>, CliError> {
    match extracted(carrier) {
        None => Err(CliError::CapacityExceeded),
        Some(hidden) => match password {
            None => Ok(hidden),
            Some(pw) => opened(key_of(pw), hidden),
        },
    }
}

/// Without a password, a secret that fits is extracted exactly as it was
/// embedded.
pub proof fn lemma_round_trip_plain(carrier: Seq<u8>, secret: Seq<u8>)
    requires
        fits(carrier.len(), secret.len()),
    ensures
        recovered(embedded(carrier, secret), None) == Ok::<Seq<u8>, CliError>(secret),
{
    lemma_round_trip(carrier, secret);
}

/// With a password, a hidden message that opens to `secret` under the
/// password's key, once embedded, is extracted and opened to `secret`
/// again.
pub proof fn lemma_round_trip_sealed(
    carrier: Seq<u8>,
    hidden: Seq<u8>,
    secret: Seq<u8>,
    password: &str,
)
    requires
        fits(carrier.len(), hidden.len()),
        opened(key_of(password), hidden) == Ok::<Seq<u8>, CliError>(secret),
    ensures
        extracted(embedded(carrier, hidden)) == Some(hidden),
        recovered(embedded(carrier, hidden), Some(password)) == Ok::<Seq<u8>, CliError>(secret),
{
    lemma_round_trip(carrier, hidden);
}

/// Hides `secret` in `carrier`, sealed first under the key of `password`
/// where one is given.
pub fn insert(carrier: &mut Vec<u8>, secret: &[u8], password: Option<&str>) -> (r: Result<
    (),
    CliError,
>)
    ensures
        !fits(old(carrier)@.len(), hidden_len(secret@.len(), password)) ==> r == Err::<
            (),
            CliError,
        >(CliError::CapacityExceeded),
        fits(old(carrier)@.len(), hidden_len(secret@.len(), password)) ==> r is Ok || r == Err::<
            (),
            CliError,
        >(CliError::Crypto),
        password is None && fits(old(carrier)@.len(), secret@.len()) ==> r is Ok,
        r is Err ==> final(carrier)@ == old(carrier)@,
        password is None && r is Ok ==> final(carrier)@ == embedded(old(carrier)@, secret@),
        match password {
            Some(pw) => r is Ok ==> match extracted(final(carrier)@) {
                Some(hidden) => is_sealed(key_of(pw), hidden, secret@)
                    && final(carrier)@ == embedded(old(carrier)@, hidden),
                None => false,
            },
            None => true,
        },
        r is Ok ==> recovered(final(carrier)@, password) == Ok::<Seq<u8>, CliError>(secret@),
{
    let extra: usize = match password {
        Some(_) => NONCE_LEN + TAG_LEN,
        None => 0,
    };
    if secret.len() > 255 - extra || carrier.len() < HEADER_SIZE + 8 * (secret.len() + extra) {
        return Err(CliError::CapacityExceeded);
    }
    let hidden = match password {
        Some(pw) => {
            let key = construct_key(pw);
            match encrypt(key.as_slice(), secret) {
                Ok(sealed) => sealed,
                Err(e) => return Err(e),
            }
        },
        None => slice_to_vec(secret),
    };
    let ghost before = carrier@;
    let r = LeastBit.embed(carrier, hidden.as_slice());
    proof {
        match password {
            Some(pw) => {
                if r is Ok {
                    lemma_round_trip_sealed(before, hidden@, secret@, pw);
                }
            },
            None => {
                assert(hidden@ == secret@);
                if r is Ok {
                    lemma_round_trip_plain(before, secret@);
                }
            },
        }
    }
    r
}

/// Recovers the secret hidden in `carrier`, opening it under the key of
/// `password` where one is given.
pub fn extract(carrier: &[u8], password: Option<&str>) -> (r: Result<Vec<u8>, CliError>)
    ensures
        result_matches(r, recovered(carrier@, password)),
{
    let hidden = match LeastBit.extract(carrier) {
        Ok(hidden) => hidden,
        Err(e) => return Err(e),
    };
    match password {
        Some(pw) => {
            let key = construct_key(pw);
            decrypt(key.as_slice(), hidden.as_slice())
        },
        None => Ok(hidden),
    }
}

} // verus!
