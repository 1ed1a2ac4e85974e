use vstd::prelude::*;

verus! {

/// The three failure kinds of the converter, each carrying a
/// human-readable message.
///
/// - `DecodeError`: the source text is malformed or does not match the
///   document schema.
/// - `EncodeError`: producing the destination text failed (not expected
///   to occur for this schema, but modelled as a possibility).
/// - `IoError`: a filesystem precondition was violated, or a read,
///   write or directory traversal failed.
#[derive(Debug)]
pub enum Error {
    DecodeError(String),
    EncodeError(String),
    IoError(String),
}

impl Error {
    /// The message carried by the error, whichever kind it is.
    pub closed spec fn spec_message(&self) -> Seq<char> {
        match self {
            Error::DecodeError(m) => m@,
            Error::EncodeError(m) => m@,
            Error::IoError(m) => m@,
        }
    }

    /// Borrow the message carried by the error.
    pub fn message(&self) -> (r: &str)
        ensures
            r@ == self.spec_message(),
    {
        match self {
            Error::DecodeError(m) => m.as_str(),
            Error::EncodeError(m) => m.as_str(),
            Error::IoError(m) => m.as_str(),
        }
    }
}

} // verus!
