//! What the library makes of the outcome of the JavaScript minifier: the
//! bytes it wrote become text, and its errors become errors of this
//! library. The minifier itself is run by the caller.

use vstd::prelude::*;
use vstd::utf8::{decode_utf8, valid_utf8};

verus! {

/// Why a text could not be condensed by its minifier.
#[derive(Debug)]
pub enum PreciseError {
    /// The text is not well formed in its language; the message says where.
    Syntax(String),
    /// The minifier wrote bytes that are not UTF-8; the message says where.
    Encoding(String),
}

impl PreciseError {
    /// The message of the error.
    pub fn message(&self) -> (text: &String)
        ensures
            *text == match *self {
                PreciseError::Syntax(m) => m,
                PreciseError::Encoding(m) => m,
            },
    {
        match self {
            PreciseError::Syntax(m) => m,
            PreciseError::Encoding(m) => m,
        }
    }
}

/// The error of `String::from_utf8`, `std::string::FromUtf8Error`.
#[verifier::external_type_specification]
#[verifier::external_body]
pub struct ExEncodingError(std::string::FromUtf8Error);

/// Turns bytes into a string, through `String::from_utf8`: succeeds exactly
/// on valid UTF-8, and the string then holds the characters that the bytes
/// encode.
#[verifier::external_body]
fn decode_text(bytes: Vec<u8>) -> (decoded: Result<String, std::string::FromUtf8Error>)
    ensures
        decoded is Ok <==> valid_utf8(bytes@),
        decoded is Ok ==> decoded->Ok_0@ == decode_utf8(bytes@),
{
    String::from_utf8(bytes)
}

/// The message of a decoding error, through the `Display` of
/// `std::string::FromUtf8Error`. Nothing is claimed of the result.
#[verifier::external_body]
fn encoding_error_text(error: &std::string::FromUtf8Error) -> (text: String) {
    error.to_string()
}

/// Turns the outcome of the JavaScript minifier into a result: a syntax
/// error is passed on with its message; the bytes written become the text
/// they encode, and are an encoding error if they encode none.
pub fn javascript_text(outcome: Result<Vec<u8>, String>) -> (r: Result<String, PreciseError>)
    ensures
        match outcome {
            Ok(bytes) => if valid_utf8(bytes@) {
                r is Ok && r->Ok_0@ == decode_utf8(bytes@)
            } else {
                r is Err && r->Err_0 is Encoding
            },
            Err(message) => r is Err && r->Err_0 == PreciseError::Syntax(message),
        },
{
    match outcome {
        Ok(bytes) => match decode_text(bytes) {
            Ok(text) => Ok(text),
            Err(error) => Err(PreciseError::Encoding(encoding_error_text(&error))),
        },
        Err(message) => Err(PreciseError::Syntax(message)),
    }
}

} // verus!
