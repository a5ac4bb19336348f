use vstd::prelude::*;
use crate::codec::{DecodingError, EncodingError};

verus! {

#[verifier::external_type_specification]
#[verifier::external_body]
pub struct ExIoError(std::io::Error);

/// What went wrong with a managed stream.
#[derive(Debug)]
pub enum Error {
    /// Reading from or writing to the byte stream failed.
    Io(std::io::Error),
    /// A frame could not be encoded.
    Encoding(EncodingError),
    /// The incoming bytes could not be decoded.
    Decoding(DecodingError),
}

} // verus!
