//! The responses that go back to the peer.
//!
//! A response is a status line, headers, an empty line and the body. The
//! `Content-Length` header counts the bytes of the body in UTF-8.

use vstd::prelude::*;
use vstd::string::*;
use vstd::utf8::{encode_utf8, is_ascii_chars, is_ascii_chars_encode_utf8};
use crate::text::{append_decimal, decimal};

verus! {

/// The outcome that the status line reports.
#[derive(Clone, Copy, Debug, PartialEq, Eq, Structural)]
pub enum Status {
    Success,
    NotFound,
}

impl Status {
    /// The status line, without its line ending.
    pub open spec fn line(self) -> Seq<char> {
        match self {
            Status::Success => "HTTP/1.1 200 OK"@,
            Status::NotFound => "HTTP/1.1 404 NOT FOUND"@,
        }
    }

    /// The status line, without its line ending.
    pub fn status_line(self) -> (line: &'static str)
        ensures
            line@ == self.line(),
    {
        match self {
            Status::Success => "HTTP/1.1 200 OK",
            Status::NotFound => "HTTP/1.1 404 NOT FOUND",
        }
    }
}

/// The number of bytes that `text` takes in UTF-8.
pub open spec fn byte_len(text: Seq<char>) -> nat {
    encode_utf8(text).len()
}

/// The body that reports a translation.
pub open spec fn translation_body(word: Seq<char>, translation: Seq<char>) -> Seq<char> {
    "Original: "@ + word + "\nTranslation (HY): "@ + translation
}

/// A successful response that carries `body` as plain text.
pub open spec fn text_response(body: Seq<char>) -> Seq<char> {
    "HTTP/1.1 200 OK\r\nContent-Type: text/plain; charset=utf-8\r\nContent-Length: "@ + decimal(
        byte_len(body),
    ) + "\r\n\r\n"@ + body
}

/// A response that carries the contents of a page under `status`.
pub open spec fn page_response(status: Status, contents: Seq<char>) -> Seq<char> {
    status.line() + "\r\nContent-Length: "@ + decimal(byte_len(contents)) + "\r\n\r\n"@ + contents
}

/// The body that stands in for a page that could not be read.
pub open spec fn fallback_body() -> Seq<char> {
    "Page not found"@
}

/// The response for a page that could not be read: not found, with the fallback
/// body and, like every response, the length of that body.
pub open spec fn fallback_response() -> Seq<char> {
    page_response(Status::NotFound, fallback_body())
}

/// The number of bytes that `text` takes in UTF-8.
pub fn utf8_len(text: &str) -> (n: usize)
    ensures
        n == byte_len(text@),
{
    text.as_bytes().len()
}

/// Writes the body that reports a translation.
pub fn render_translation_body(word: &str, translation: &str) -> (body: String)
    ensures
        body@ == translation_body(word@, translation@),
{
    let mut body = String::from_str("Original: ");
    body.append(word);
    body.append("\nTranslation (HY): ");
    body.append(translation);
    body
}

/// Writes a successful plain-text response around `body`.
pub fn render_text_response(body: &str) -> (response: String)
    ensures
        response@ == text_response(body@),
{
    let mut response = String::from_str(
        "HTTP/1.1 200 OK\r\nContent-Type: text/plain; charset=utf-8\r\nContent-Length: ",
    );
    append_decimal(&mut response, utf8_len(body));
    response.append("\r\n\r\n");
    response.append(body);
    response
}

/// Writes the response that carries a page under `status`.
pub fn render_page_response(status: Status, contents: &str) -> (response: String)
    ensures
        response@ == page_response(status, contents@),
{
    let mut response = String::from_str(status.status_line());
    response.append("\r\nContent-Length: ");
    append_decimal(&mut response, utf8_len(contents));
    response.append("\r\n\r\n");
    response.append(contents);
    response
}

/// Writes the response for a page that could not be read.
pub fn render_fallback_response() -> (response: String)
    ensures
        response@ == fallback_response(),
{
    render_page_response(Status::NotFound, "Page not found")
}

/// The fallback response, character by character: its body has fourteen bytes.
pub proof fn lemma_fallback_response_text()
    ensures
        fallback_response() == "HTTP/1.1 404 NOT FOUND\r\nContent-Length: 14\r\n\r\nPage not found"@,
{
    reveal_strlit("HTTP/1.1 404 NOT FOUND");
    reveal_strlit("\r\nContent-Length: ");
    reveal_strlit("\r\n\r\n");
    reveal_strlit("Page not found");
    reveal_strlit("HTTP/1.1 404 NOT FOUND\r\nContent-Length: 14\r\n\r\nPage not found");
    let body = fallback_body();
    assert(is_ascii_chars(body));
    is_ascii_chars_encode_utf8(body);
    assert(byte_len(body) == 14);
    assert(decimal(14) =~= seq!['1', '4']) by {
        reveal_with_fuel(decimal, 2);
    }
    assert(fallback_response()
        =~= "HTTP/1.1 404 NOT FOUND\r\nContent-Length: 14\r\n\r\nPage not found"@);
}

} // verus!
