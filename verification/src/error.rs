//! The ways in which making and printing a reading plan can fail.

use serde_json::Error as JsonError;
use vstd::prelude::*;
use vstd::std_specs::convert::FromSpecImpl;

verus! {

/// `std::io::Error`, carried as a value that nothing here looks into.
#[verifier::external_type_specification]
#[verifier::external_body]
pub struct ExIoError(std::io::Error);

/// `chrono::ParseError`, carried as a value that nothing here looks into.
#[verifier::external_type_specification]
#[verifier::external_body]
pub struct ExParseError(chrono::ParseError);

/// `serde_json::Error`, carried as a value that nothing here looks into.
#[verifier::external_type_specification]
#[verifier::external_body]
pub struct ExJsonError(JsonError);

/// Why a reading plan could not be made or printed. Each variant keeps the
/// error of the library that failed.
#[derive(Debug)]
pub enum Error {
    /// Writing the plan failed.
    IoError(std::io::Error),
    /// A date could not be read from its text.
    DateParseError(chrono::ParseError),
    /// The plan could not be turned into JSON.
    JsonPrintError(JsonError),
}

impl From<std::io::Error> for Error {
    fn from(err: std::io::Error) -> (r: Error) {
        Error::IoError(err)
    }
}

impl FromSpecImpl<std::io::Error> for Error {
    open spec fn obeys_from_spec() -> bool {
        true
    }

    open spec fn from_spec(err: std::io::Error) -> Error {
        Error::IoError(err)
    }
}

impl From<chrono::ParseError> for Error {
    fn from(err: chrono::ParseError) -> (r: Error) {
        Error::DateParseError(err)
    }
}

impl FromSpecImpl<chrono::ParseError> for Error {
    open spec fn obeys_from_spec() -> bool {
        true
    }

    open spec fn from_spec(err: chrono::ParseError) -> Error {
        Error::DateParseError(err)
    }
}

impl From<JsonError> for Error {
    fn from(err: JsonError) -> (r: Error) {
        Error::JsonPrintError(err)
    }
}

impl FromSpecImpl<JsonError> for Error {
    open spec fn obeys_from_spec() -> bool {
        true
    }

    open spec fn from_spec(err: JsonError) -> Error {
        Error::JsonPrintError(err)
    }
}

/// Formats a `std::io::Error` with its `Display` impl. Nothing is claimed of
/// the text.
#[verifier::external_body]
fn io_error_text(err: &std::io::Error) -> String {
    format!("{}", err)
}

/// The text that chrono's `Display` impl for `ParseError` writes for `err`. It
/// depends on the error alone.
pub uninterp spec fn parse_error_message(err: chrono::ParseError) -> Seq<char>;

/// Whether `text` is one of the seven messages with which chrono says why it
/// could not read a date.
pub open spec fn is_parse_error_message(text: Seq<char>) -> bool {
    ||| text == "input is out of range"@
    ||| text == "no possible date and time matching input"@
    ||| text == "input is not enough for unique date and time"@
    ||| text == "input contains invalid characters"@
    ||| text == "premature end of input"@
    ||| text == "trailing input"@
    ||| text == "bad or unsupported format string"@
}

/// Formats a `chrono::ParseError` with its `Display` impl. The contract
/// names the text, and claims that it is one of the seven messages that this
/// impl writes, one for each kind of error that chrono makes.
#[verifier::external_body]
fn parse_error_text(err: &chrono::ParseError) -> (r: String)
    ensures
        r@ == parse_error_message(*err),
        is_parse_error_message(r@),
{
    format!("{}", err)
}

/// Formats a `serde_json::Error` with its `Display` impl. Nothing is claimed
/// of the text.
#[verifier::external_body]
fn json_error_text(err: &JsonError) -> String {
    format!("{}", err)
}

impl Error {
    /// The message of the error that is kept inside, as that error prints
    /// itself, with nothing added. For a date that could not be read it is
    /// the text that chrono writes for the error, one of its seven messages.
    /// The other two errors word their messages from what failed and where,
    /// which can come from the operating system, and nothing is claimed of
    /// their text.
    pub fn message(&self) -> (r: String)
        ensures
            self matches Error::DateParseError(err) ==> r@ == parse_error_message(*err)
                && is_parse_error_message(r@),
    {
        match self {
            Error::IoError(err) => io_error_text(err),
            Error::DateParseError(err) => parse_error_text(err),
            Error::JsonPrintError(err) => json_error_text(err),
        }
    }
}

} // verus!
