//! The geolocation data: how it is read from the responses of a provider,
//! and how it is shown to the user.

use crate::error::FetchError;
use vstd::prelude::*;

verus! {

/// A JSON object, as a provider sends it for one address.
pub type JsonObject = serde_json::Map<String, serde_json::Value>;

/// `serde_json::Map`, the map of a JSON object. Nothing is known of what it
/// holds.
#[verifier::external_type_specification]
#[verifier::external_body]
#[verifier::reject_recursive_types(K)]
#[verifier::reject_recursive_types(V)]
pub struct ExJsonMap<K, V>(serde_json::Map<K, V>);

/// `serde_json::Value`, any JSON value. Nothing is known of what it holds.
#[verifier::external_type_specification]
#[verifier::external_body]
pub struct ExJsonValue(serde_json::Value);

/// `serde_json::Error`, the error of reading or writing JSON. Nothing is
/// known of what it holds.
#[verifier::external_type_specification]
#[verifier::external_body]
pub struct ExJsonError(serde_json::Error);

/// `std::io::Error`, which colorizing reports its failures with. Nothing is
/// known of what it holds.
#[verifier::external_type_specification]
#[verifier::external_body]
pub struct ExIoError(std::io::Error);

/// Why the data could not be shown.
#[derive(Clone, Debug, PartialEq, Eq)]
pub enum FormatError {
    /// The data could not be written as JSON; holds the cause.
    Serialize(String),
    /// The JSON could not be colorized; holds the cause.
    Colorize(String),
}

impl FormatError {
    /// The cause carried by the error.
    pub open spec fn cause(self) -> Seq<char> {
        match self {
            FormatError::Serialize(cause) => cause@,
            FormatError::Colorize(cause) => cause@,
        }
    }

    /// Returns the message of the error, which is its cause.
    pub fn message(&self) -> (message: String)
        ensures
            message@ == self.cause(),
    {
        match self {
            FormatError::Serialize(cause) => cause.clone(),
            FormatError::Colorize(cause) => cause.clone(),
        }
    }
}

/// The JSON object that `serde_json::from_slice` reads from the bytes, or
/// nothing if it refuses them.
pub uninterp spec fn decoded_object(body: Seq<u8>) -> Option<JsonObject>;

/// The bytes are read as a JSON object.
pub open spec fn is_json_object(body: Seq<u8>) -> bool {
    decoded_object(body) is Some
}

/// Reads bytes as a JSON object.
///
/// Wraps `serde_json::from_slice` at the type of a JSON object, whose result
/// depends on the bytes alone. The object is not spelled out: it is what
/// [`decoded_object`] names.
#[verifier::external_body]
fn json_object_from_slice(body: &[u8]) -> (object: Result<JsonObject, serde_json::Error>)
    ensures
        match object {
            Ok(read) => decoded_object(body@) == Some(read),
            Err(_) => decoded_object(body@) is None,
        },
{
    serde_json::from_slice::<JsonObject>(body)
}

/// `outcome` is what the body of a response comes to: the JSON object that
/// the body is read as, or a failure to decode if it is read as none.
pub open spec fn decodes_to(body: Seq<u8>, outcome: Result<JsonObject, FetchError>) -> bool {
    match decoded_object(body) {
        Some(object) => outcome == Ok::<JsonObject, FetchError>(object),
        None => outcome matches Err(failure) && failure is Decode,
    }
}

/// Reads the body of a response as the JSON object that a provider sends
/// for one address. A body that is no JSON object is a failure to decode.
pub fn decode_response(body: &[u8]) -> (decoded: Result<JsonObject, FetchError>)
    ensures
        decodes_to(body@, decoded),
        decoded is Ok <==> is_json_object(body@),
{
    match json_object_from_slice(body) {
        Ok(object) => Ok(object),
        Err(error) => Err(FetchError::Decode(error.to_string())),
    }
}

/// What one request comes to, given what was received for it: `received`
/// is the body of the response, or the cause for which none arrived.
///
/// A request without response fails with its cause; one with a response
/// yields the JSON object of the body, or fails to decode.
pub fn response_outcome(received: Result<Vec<u8>, String>) -> (outcome: Result<
    JsonObject,
    FetchError,
>)
    ensures
        match received {
            Ok(body) => decodes_to(body@, outcome),
            Err(cause) => outcome == Err::<JsonObject, FetchError>(FetchError::Transport(cause)),
        },
{
    match received {
        Ok(body) => decode_response(body.as_slice()),
        Err(cause) => Err(FetchError::Transport(cause)),
    }
}

/// The pretty-printed JSON array that `serde_json::to_string_pretty` writes
/// for the objects, or nothing if it fails to write them.
pub uninterp spec fn pretty_json(data: Seq<JsonObject>) -> Option<Seq<char>>;

/// Writes the objects as one pretty-printed JSON array.
///
/// Wraps `serde_json::to_string_pretty`, whose text depends on the objects
/// alone. The text is not spelled out: it is what [`pretty_json`] names.
#[verifier::external_body]
fn to_pretty_json(data: &Vec<JsonObject>) -> (written: Result<String, serde_json::Error>)
    ensures
        match written {
            Ok(json) => pretty_json(data@) == Some(json@),
            Err(_) => pretty_json(data@) is None,
        },
{
    serde_json::to_string_pretty(data)
}

/// Whether `json_color::Colorizer::colorize_json_str` returns a text for
/// the given one. It reads the text with `serde_json::from_str` as a JSON
/// value and fails if that fails; writing the value with colors into memory
/// does not fail. So this is the same in every environment, unlike the text
/// that is returned.
pub uninterp spec fn is_json_text(json: Seq<char>) -> bool;

/// Colorizes a JSON text with the predefined set of colors.
///
/// Wraps `json_color::Colorizer::colorize_json_str` on the colorizer that
/// `json_color::Colorizer::arbitrary` makes. Whether color codes are written
/// depends on the environment of the process, so nothing is claimed of the
/// text but that there is one exactly for the texts that [`is_json_text`]
/// names.
#[verifier::external_body]
fn colorize_json_str(json: &str) -> (colorized: Result<String, std::io::Error>)
    ensures
        colorized is Ok <==> is_json_text(json@),
{
    json_color::Colorizer::arbitrary().colorize_json_str(json)
}

/// What is shown for a pretty-printed JSON text, given what colorizing it
/// came to: the colorized text, or the failure to colorize.
pub fn colorized_or_error(colorized: Result<String, String>) -> (shown: Result<String, FormatError>)
    ensures
        match colorized {
            Ok(text) => shown == Ok::<String, FormatError>(text),
            Err(cause) => shown == Err::<String, FormatError>(FormatError::Colorize(cause)),
        },
{
    match colorized {
        Ok(text) => Ok(text),
        Err(cause) => Err(FormatError::Colorize(cause)),
    }
}

/// Colorizes a JSON text for the terminal.
///
/// A text is returned exactly for a text that is JSON; any other text is a
/// failure to colorize.
pub fn colorize(json: &str) -> (shown: Result<String, FormatError>)
    ensures
        shown is Ok <==> is_json_text(json@),
        shown matches Err(failure) ==> failure is Colorize,
{
    match colorize_json_str(json) {
        Ok(text) => colorized_or_error(Ok(text)),
        Err(error) => colorized_or_error(Err(error.to_string())),
    }
}

/// Writes the geolocation data as one pretty-printed and colorized JSON
/// array, which holds the objects in their order.
///
/// Data that cannot be written as JSON is a failure to serialize. Else the
/// pretty-printed array is colorized as [`colorize`] does: a text is
/// returned exactly if the array is taken as JSON, and any other outcome is
/// a failure to colorize.
pub fn colorize_json(data: &Vec<JsonObject>) -> (shown: Result<String, FormatError>)
    ensures
        match pretty_json(data@) {
            Some(json) => {
                &&& shown is Ok <==> is_json_text(json)
                &&& shown matches Err(failure) ==> failure is Colorize
            },
            None => shown matches Err(failure) && failure is Serialize,
        },
{
    match to_pretty_json(data) {
        Ok(json) => colorize(json.as_str()),
        Err(error) => Err(FormatError::Serialize(error.to_string())),
    }
}

} // verus!
