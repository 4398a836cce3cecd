//! The error type of the containers.
use vstd::prelude::*;

verus! {

/// The decoding error that `core::str::from_utf8` reports. It is carried
/// through for diagnostics; nothing is read from it here.
#[verifier::external_type_specification]
#[verifier::external_body]
pub struct ExUtf8Error(core::str::Utf8Error);

/// The error of `core::fmt::Write`: a marker without fields, which says only
/// that writing failed.
#[verifier::external_type_specification]
pub struct ExFmtError(core::fmt::Error);

/// What a container operation can fail with.
#[derive(Debug, Clone, Copy, PartialEq, Eq)]
pub enum Error {
    /// Attempted to grow a collection beyond its capacity.
    BufferOverflow,
    /// Invalid UTF-8 sequence.
    Utf8Error(core::str::Utf8Error),
}

// The text that the standard library prints for the decoding error `err`.
pub uninterp spec fn utf8_error_text(err: core::str::Utf8Error) -> Seq<char>;

/// `<Utf8Error as Display>::fmt`, through `format!`: the text that the
/// standard library prints for a decoding error. The text is a function of
/// the error alone.
#[verifier::external_body]
fn describe_utf8_error(err: &core::str::Utf8Error) -> (text: std::string::String)
    ensures
        text@ == utf8_error_text(*err),
{
    format!("{err}")
}

impl Error {
    /// The text of the message for this error.
    pub open spec fn message_text(self) -> Seq<char> {
        match self {
            Error::BufferOverflow => "Attempted to grow a collection beyond its capacity"@,
            Error::Utf8Error(err) => "Invalid UTF-8 sequence: "@ + utf8_error_text(err),
        }
    }

    /// The decoding error behind this error, if there is one.
    pub fn source(&self) -> (r: Option<core::str::Utf8Error>)
        ensures
            r == match *self {
                Error::BufferOverflow => None,
                Error::Utf8Error(err) => Some(err),
            },
    {
        match self {
            Error::BufferOverflow => None,
            Error::Utf8Error(err) => Some(*err),
        }
    }

    /// The message for this error, as a string.
    pub fn message(&self) -> (text: std::string::String)
        ensures
            text@ == self.message_text(),
    {
        match self {
            Error::BufferOverflow => {
                std::string::String::from_str(
                    "Attempted to grow a collection beyond its capacity",
                )
            },
            Error::Utf8Error(err) => {
                let mut text = std::string::String::from_str("Invalid UTF-8 sequence: ");
                let detail = describe_utf8_error(err);
                text.append(detail.as_str());
                text
            },
        }
    }
}

impl From<core::str::Utf8Error> for Error {
    fn from(err: core::str::Utf8Error) -> (e: Self)
        ensures
            e == Error::Utf8Error(err),
    {
        Error::Utf8Error(err)
    }
}

impl vstd::std_specs::convert::FromSpecImpl<core::str::Utf8Error> for Error {
    open spec fn obeys_from_spec() -> bool {
        true
    }

    open spec fn from_spec(err: core::str::Utf8Error) -> Self {
        Error::Utf8Error(err)
    }
}

} // verus!
