use vstd::prelude::*;

verus! {

/// The ways an embedding, extraction or cipher operation can fail.
#[derive(Debug, PartialEq, Eq)]
pub enum CliError {
    /// The secret does not fit the length header, or the carrier has too
    /// few bytes for the bit sequence written or declared.
    CapacityExceeded,
    /// A sealed message is shorter than its nonce.
    FormatError,
    /// The authentication tag of a sealed message did not verify.
    AuthenticationError,
    /// The random source or the cipher could not do its part.
    Crypto,
    /// A failure of the file layer, passed on with its message.
    Io(String),
    /// A failure of the image layer, passed on with its message.
    Image(String),
}

} // verus!
