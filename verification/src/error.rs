use crate::try_catch::Exception;
use vstd::prelude::*;
use vstd::string::StringExecFns;

verus! {

/// Everything that can go wrong in this library.
#[derive(Debug, Clone, PartialEq, Eq)]
pub enum Error {
    /// The command line was not understood; the text names the subcommand to ask for help on.
    InvalidArgs(&'static str),
    /// An action was named that does not exist.
    InvalidActionType,
    /// A tag byte is not a known tag, an enumerated byte is out of range, or a decoded value is
    /// not of the type that was asked for.
    InvalidFieldType,
    /// Fewer than two bytes were left where a length was expected.
    MissingFieldLen,
    /// No byte was left where a tag was expected.
    MissingFieldType,
    /// A record declares more payload bytes than are left, or a fixed-width value has fewer
    /// payload bytes than it needs.
    TruncatedPayload,
    /// A payload is longer than the two-byte length field can say.
    PayloadTooLong,
    /// There is no stored session under the given name.
    NoSession,
    /// A text payload is not valid UTF-8.
    Utf8,
    /// The system clock reads a time before the epoch.
    SystemTime,
    /// A guarded computation failed.
    Exception(Exception),
}

impl Error {
    /// The text shown for this error.
    pub open spec fn text(&self) -> Seq<char> {
        match self {
            Error::InvalidArgs(subcommand) => "invalid argument\n try "@ + subcommand@
                + "--help, but no one will hear you scream in userland"@,
            Error::InvalidActionType => "invalid action type"@,
            Error::InvalidFieldType => "invalid field type"@,
            Error::MissingFieldLen => "missing field length"@,
            Error::MissingFieldType => "missing field type"@,
            Error::TruncatedPayload => "truncated payload"@,
            Error::PayloadTooLong => "payload too long"@,
            Error::NoSession
                => "404: your session is in another castle, or you havn't created it yet"@,
            Error::Utf8 => "invalid utf-8 sequence"@,
            Error::SystemTime => "the system clock is set before the epoch"@,
            Error::Exception(exception) => exception.text(),
        }
    }

    /// Renders the error as it is shown to the user.
    pub fn to_string(&self) -> (out: String)
        ensures
            out@ == self.text(),
    {
        match self {
            Error::InvalidArgs(subcommand) => "invalid argument\n try ".to_owned().concat(
                subcommand,
            ).concat("--help, but no one will hear you scream in userland"),
            Error::InvalidActionType => "invalid action type".to_owned(),
            Error::InvalidFieldType => "invalid field type".to_owned(),
            Error::MissingFieldLen => "missing field length".to_owned(),
            Error::MissingFieldType => "missing field type".to_owned(),
            Error::TruncatedPayload => "truncated payload".to_owned(),
            Error::PayloadTooLong => "payload too long".to_owned(),
            Error::NoSession
                => "404: your session is in another castle, or you havn't created it yet".to_owned(),
            Error::Utf8 => "invalid utf-8 sequence".to_owned(),
            Error::SystemTime => "the system clock is set before the epoch".to_owned(),
            Error::Exception(exception) => exception.to_string(),
        }
    }
}

impl From<Exception> for Error {
    /// Wraps an exception, as `?` does where a guarded computation fails.
    fn from(exception: Exception) -> (error: Error) {
        Error::Exception(exception)
    }
}

impl vstd::std_specs::convert::FromSpecImpl<Exception> for Error {
    open spec fn obeys_from_spec() -> bool {
        true
    }

    open spec fn from_spec(exception: Exception) -> Error {
        Error::Exception(exception)
    }
}

} // verus!
