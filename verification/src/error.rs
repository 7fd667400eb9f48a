use vstd::prelude::*;

verus! {

/// Failure taxonomy of the signing library. Every operation detects its error
/// at the boundary where it arises and returns it at once: no retry, no
/// partial result, no substituted default.
#[derive(Debug)]
pub enum Error {
    /// The private key is malformed: not 32 raw bytes once hex-decoded.
    Wallet(String),
    /// A non-JSON textual input (an address, a connection id) is malformed.
    GenericParse(String),
    /// A JSON-like value does not have the shape the operation requires.
    JsonParse(String),
    /// A value cannot be canonically serialized.
    RmpParse(String),
    /// The EIP-712 type graph or message cannot be resolved.
    TypedData(String),
    /// An address string is not 40 hex characters once stripped.
    InvalidAddressFormat(String),
    /// The underlying signing operation failed unexpectedly; treated as fatal.
    SignatureFailure(String),
}

impl Error {
    /// The descriptive message carried by the error.
    pub open spec fn spec_message(self) -> Seq<char> {
        match self {
            Error::Wallet(m) => m@,
            Error::GenericParse(m) => m@,
            Error::JsonParse(m) => m@,
            Error::RmpParse(m) => m@,
            Error::TypedData(m) => m@,
            Error::InvalidAddressFormat(m) => m@,
            Error::SignatureFailure(m) => m@,
        }
    }

    /// The descriptive message carried by the error.
    pub fn message(&self) -> (r: &String)
        ensures
            r@ == self.spec_message(),
    {
        match self {
            Error::Wallet(m) => m,
            Error::GenericParse(m) => m,
            Error::JsonParse(m) => m,
            Error::RmpParse(m) => m,
            Error::TypedData(m) => m,
            Error::InvalidAddressFormat(m) => m,
            Error::SignatureFailure(m) => m,
        }
    }
}

} // verus!
