pub mod lsb;

use crate::error::CliError;
use vstd::prelude::*;
use vstd::string::StringExecFns;
use vstd::utf8::encode_utf8;

verus! {

/// A way of hiding secret bytes inside the bytes of a carrier, and of
/// getting them back.
pub trait Steganography {
    /// Hides `secret_data` in `image_data`, changing it in place; on failure
    /// `image_data` is left as it was.
    fn embed(&self, image_data: &mut Vec<u8>, secret_data: &[u8]) -> Result<(), CliError>;

    /// Recovers the secret hidden in `image_data`.
    fn extract(&self, image_data: &[u8]) -> Result<Vec<u8>, CliError>;
}

/// The hiding methods that can be asked for by name.
#[derive(Debug, Clone, Copy, PartialEq, Eq)]
pub enum SteganographyMethod {
    /// Alters the frequency components of a JPEG image.
    DCTC,
    /// Hides data within the least significant bits of pixel values.
    LeastBit,
    /// Annexes a file to the end of the image.
    AttachZip,
}

/// The lower-case form of a string, as `str::to_lowercase` gives it.
pub uninterp spec fn lowercase_of(s: Seq<char>) -> Seq<char>;

/// Relies on `str::to_lowercase`: the result depends on the characters
/// alone.
#[verifier::external_body]
fn lowercase(s: &str) -> (r: String)
    ensures
        r@ == lowercase_of(s@),
{
    s.to_lowercase()
}

/// The message that names a method that is not known.
pub open spec fn unknown_method_text(s: Seq<char>) -> Seq<char> {
    "Invalid steganography method: "@ + s
}

fn unknown_method_message(s: &str) -> (r: String)
    ensures
        r@ == unknown_method_text(s@),
{
    let message: String = <String as StringExecFns>::from_str("Invalid steganography method: ");
    message.concat(s)
}

/// The method that a lower-case name, in UTF-8 bytes, stands for.
pub open spec fn method_named(name: Seq<u8>) -> Option<SteganographyMethod> {
    if name == seq![100u8, 99, 116, 99] {
        Some(SteganographyMethod::DCTC)
    } else if name == seq![108u8, 101, 97, 115, 116, 95, 98, 105, 116] {
        Some(SteganographyMethod::LeastBit)
    } else if name == seq![97u8, 109, 101, 110, 100, 95, 122, 105, 112] {
        Some(SteganographyMethod::AttachZip)
    } else {
        None
    }
}

fn bytes_equal(a: &[u8], b: &[u8]) -> (r: bool)
    ensures
        r == (a@ == b@),
{
    if a.len() != b.len() {
        return false;
    }
    let mut i: usize = 0;
    while i < a.len()
        invariant
            i <= a@.len(),
            a@.len() == b@.len(),
            a@.take(i as int) == b@.take(i as int),
        decreases a@.len() - i,
    {
        if a[i] != b[i] {
            assert(a@[i as int] != b@[i as int]);
            return false;
        }
        assert(a@.take(i + 1) =~= a@.take(i as int).push(a@[i as int]));
        assert(b@.take(i + 1) =~= b@.take(i as int).push(b@[i as int]));
        i = i + 1;
    }
    assert(a@ =~= a@.take(i as int));
    assert(b@ =~= b@.take(i as int));
    true
}

impl SteganographyMethod {
    /// The method that a lower-case name, in UTF-8 bytes, stands for:
    /// `dctc`, `least_bit` or `amend_zip`.
    pub fn from_lowercase_name(name: &[u8]) -> (r: Option<SteganographyMethod>)
        ensures
            r == method_named(name@),
    {
        let dctc: [u8; 4] = [100, 99, 116, 99];
        let least_bit: [u8; 9] = [108, 101, 97, 115, 116, 95, 98, 105, 116];
        let amend_zip: [u8; 9] = [97, 109, 101, 110, 100, 95, 122, 105, 112];
        assert(dctc@ =~= seq![100u8, 99, 116, 99]);
        assert(least_bit@ =~= seq![108u8, 101, 97, 115, 116, 95, 98, 105, 116]);
        assert(amend_zip@ =~= seq![97u8, 109, 101, 110, 100, 95, 122, 105, 112]);
        if bytes_equal(name, dctc.as_slice()) {
            Some(SteganographyMethod::DCTC)
        } else if bytes_equal(name, least_bit.as_slice()) {
            Some(SteganographyMethod::LeastBit)
        } else if bytes_equal(name, amend_zip.as_slice()) {
            Some(SteganographyMethod::AttachZip)
        } else {
            None
        }
    }

    /// The method that a name stands for, in any letter case.
    pub fn parse(s: &str) -> (r: Option<SteganographyMethod>)
        ensures
            r == method_named(encode_utf8(lowercase_of(s@))),
    {
        let lowered = lowercase(s);
        SteganographyMethod::from_lowercase_name(lowered.as_str().as_bytes())
    }
}

impl std::str::FromStr for SteganographyMethod {
    type Err = String;

    fn from_str(s: &str) -> (r: Result<Self, Self::Err>)
        ensures
            match method_named(encode_utf8(lowercase_of(s@))) {
                Some(m) => r == Ok::<SteganographyMethod, String>(m),
                None => r is Err && r->Err_0@ == unknown_method_text(s@),
            },
    {
        match SteganographyMethod::parse(s) {
            Some(method) => Ok(method),
            None => Err(unknown_method_message(s)),
        }
    }
}

} // verus!
