use vstd::prelude::*;

verus! {

/// Errors raised by the frame codec and the streaming connection reader.
///
/// `Incomplete` is an internal signal only: it means the buffered bytes do
/// not yet hold a whole frame, and more input must be read. `Invalid`
/// carries the unrecognized tag byte and is a fatal protocol violation.
/// `Other` describes a transport-level failure in words.
#[derive(Debug)]
pub enum Error {
    Incomplete,
    Invalid(u8),
    Other(String),
}

impl From<String> for Error {
    fn from(src: String) -> (e: Error) {
        Error::Other(src)
    }
}

impl vstd::std_specs::convert::FromSpecImpl<String> for Error {
    open spec fn obeys_from_spec() -> bool {
        true
    }

    open spec fn from_spec(src: String) -> Error {
        Error::Other(src)
    }
}

} // verus!
