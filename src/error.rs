use vstd::prelude::*;

verus! {

#[verifier::external_type_specification]
#[verifier::external_body]
pub struct ExIoError(std::io::Error);

/// Error type for the `decom` crate.
#[derive(Debug)]
pub enum Error {
    /// A condition not covered by the other variants, with a message.
    General(String),
    /// A failure of the byte source or of a decoder, passed through as is.
    Io(std::io::Error),
    /// The leading bytes of the stream match no known format.
    UnsupportedFormat { magic_bytes: Vec<u8> },
}

impl Error {
    pub fn general(message: String) -> (e: Self)
        ensures
            e matches Error::General(m) && m@ == message@,
    {
        Error::General(message)
    }

    pub open spec fn is_unsupported_with(&self, bytes: Seq<u8>) -> bool {
        self matches Error::UnsupportedFormat { magic_bytes } && magic_bytes@ == bytes
    }
}

impl From<std::io::Error> for Error {
    fn from(e: std::io::Error) -> (r: Self) {
        Error::Io(e)
    }
}

impl vstd::std_specs::convert::FromSpecImpl<std::io::Error> for Error {
    open spec fn obeys_from_spec() -> bool {
        true
    }

    open spec fn from_spec(e: std::io::Error) -> Self {
        Error::Io(e)
    }
}

/// Default result type for the `decom` crate.
pub type Result<T> = std::result::Result<T, Error>;

} // verus!
