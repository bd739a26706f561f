//! The translation lookup: the address to ask and the reading of the answer.
//!
//! The service answers with a JSON document that holds the translated text under
//! `responseData.translatedText`. The request itself is made by the caller; this
//! module builds the address and turns whatever came back into the text to show.
//! A failure never leaves this module as an error: it becomes one of two fixed
//! texts.

use vstd::prelude::*;
use vstd::string::*;

verus! {

/// `serde_json::Value`, a JSON document in memory. Nothing is seen of its inside:
/// [`json_of`] names the document that it holds.
#[verifier::external_type_specification]
#[verifier::external_body]
pub struct ExValue(serde_json::Value);

/// `serde_json::Error`, the reason why bytes were not accepted. It is only carried.
#[verifier::external_type_specification]
#[verifier::external_body]
pub struct ExJsonError(serde_json::Error);

/// The shape of a JSON document. Numbers are not told apart.
pub enum Json {
    Null,
    Bool(bool),
    Number,
    Text(Seq<char>),
    List(Seq<Json>),
    Object(Map<Seq<char>, Json>),
}

impl Json {
    /// The member `key` of an object. `Null` for a key that the object lacks and for
    /// anything that is no object.
    pub open spec fn member(self, key: Seq<char>) -> Json {
        match self {
            Json::Object(fields) => if fields.contains_key(key) {
                fields[key]
            } else {
                Json::Null
            },
            _ => Json::Null,
        }
    }

    /// The characters of a text, and nothing for any other shape.
    pub open spec fn text(self) -> Option<Seq<char>> {
        match self {
            Json::Text(chars) => Some(chars),
            _ => None,
        }
    }
}

/// The document that a `serde_json::Value` holds.
pub uninterp spec fn json_of(value: serde_json::Value) -> Json;

/// The document that `serde_json` reads from `bytes`, if it accepts them.
pub uninterp spec fn parsed(bytes: Seq<u8>) -> Option<Json>;

/// Calls `serde_json::from_slice` for a `Value`. Trusted: the outcome depends on the
/// bytes alone, so a success holds the document named `parsed(body@)`, and a failure
/// means that there is none.
#[verifier::external_body]
fn parse(body: &[u8]) -> (outcome: Result<serde_json::Value, serde_json::Error>)
    ensures
        match outcome {
            Ok(value) => parsed(body@) == Some(json_of(value)),
            Err(_) => parsed(body@) is None,
        },
{
    serde_json::from_slice::<serde_json::Value>(body)
}

/// Indexes a `serde_json::Value` by a string key. Trusted: the index operator hands
/// out the member of an object that has the key, and `Value::Null` in every other
/// case; it does not panic.
#[verifier::external_body]
fn member<'a>(value: &'a serde_json::Value, key: &str) -> (found: &'a serde_json::Value)
    ensures
        json_of(*found) == json_of(*value).member(key@),
{
    &value[key]
}

/// Calls `serde_json::Value::as_str`. Trusted: it hands out the string of a string
/// value, and nothing for any other value.
#[verifier::external_body]
fn text<'a>(value: &'a serde_json::Value) -> (found: Option<&'a str>)
    ensures
        match found {
            Some(chars) => json_of(*value).text() == Some(chars@),
            None => json_of(*value).text() is None,
        },
{
    value.as_str()
}

/// What the service's answer shows when the translated text cannot be found in it.
pub open spec fn translation_error() -> Seq<char> {
    "Translation Error"@
}

/// What is shown when the service could not be reached.
pub open spec fn network_error() -> Seq<char> {
    "Network Error"@
}

/// The address that answers for `word`.
pub open spec fn lookup_address(word: Seq<char>) -> Seq<char> {
    "https://api.mymemory.translated.net/get?q="@ + word + "&langpair=en|hy"@
}

/// The translated text in a document of the service, if it holds one as a text.
pub open spec fn translated_text(document: Json) -> Option<Seq<char>> {
    document.member("responseData"@).member("translatedText"@).text()
}

/// The text to show for what was read from the answer's body.
pub open spec fn translation_in(document: Option<Json>) -> Seq<char> {
    match document {
        Some(json) => match translated_text(json) {
            Some(chars) => chars,
            None => translation_error(),
        },
        None => translation_error(),
    }
}

/// What came of asking the service.
pub enum Reply {
    /// The request failed: no answer arrived.
    Unreachable,
    /// An answer arrived, but its body could not be read.
    Unreadable,
    /// An answer arrived, with this body.
    Body(Vec<u8>),
}

impl Reply {
    /// The text to show for this reply.
    pub open spec fn shown(self) -> Seq<char> {
        match self {
            Reply::Unreachable => network_error(),
            Reply::Unreadable => translation_error(),
            Reply::Body(bytes) => translation_in(parsed(bytes@)),
        }
    }
}

/// Builds the address that answers for `word`. The word goes in as it is.
pub fn lookup_url(word: &str) -> (url: String)
    ensures
        url@ == lookup_address(word@),
{
    let mut url = String::from_str("https://api.mymemory.translated.net/get?q=");
    url.append(word);
    url.append("&langpair=en|hy");
    url
}

/// Reads the translated text out of a document of the service.
pub fn translation_from_document(document: &serde_json::Value) -> (shown: String)
    ensures
        shown@ == translation_in(Some(json_of(*document))),
{
    let inner = member(member(document, "responseData"), "translatedText");
    match text(inner) {
        Some(chars) => chars.to_owned(),
        None => String::from_str("Translation Error"),
    }
}

/// Reads the translated text out of an answer's body.
pub fn translation_from_body(body: &[u8]) -> (shown: String)
    ensures
        shown@ == translation_in(parsed(body@)),
{
    match parse(body) {
        Ok(document) => translation_from_document(&document),
        Err(_) => String::from_str("Translation Error"),
    }
}

/// The text to show for a reply of the service, whatever it was.
pub fn translation_from_reply(reply: &Reply) -> (shown: String)
    ensures
        shown@ == reply.shown(),
{
    match reply {
        Reply::Unreachable => String::from_str("Network Error"),
        Reply::Unreadable => String::from_str("Translation Error"),
        Reply::Body(bytes) => translation_from_body(bytes.as_slice()),
    }
}

} // verus!
