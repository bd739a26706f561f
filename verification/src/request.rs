//! The request line and the route it selects.
//!
//! A connection carries one request line. Three shapes are recognised: the
//! translation query, whose word is cut out of the line, and the two exact lines
//! for the front page and the slow page. Every other line is unknown.

use vstd::prelude::*;
use vstd::string::*;
use crate::text::{before, chars_of, find_from, first_word, skip_run, starts_with};

verus! {

/// What a request line asks for.
pub enum Route {
    /// Translate `word`.
    Translate { word: String },
    /// The front page.
    Root,
    /// The front page, served after a pause.
    Sleep,
    /// Nothing this server knows.
    Unknown,
}

/// The mathematical value of a [`Route`].
pub enum RouteView {
    Translate { word: Seq<char> },
    Root,
    Sleep,
    Unknown,
}

impl View for Route {
    type V = RouteView;

    open spec fn view(&self) -> RouteView {
        match self {
            Route::Translate { word } => RouteView::Translate { word: word@ },
            Route::Root => RouteView::Root,
            Route::Sleep => RouteView::Sleep,
            Route::Unknown => RouteView::Unknown,
        }
    }
}

/// How every translation query begins.
pub open spec fn translate_prefix() -> Seq<char> {
    "GET /translate?word="@
}

/// The marker that introduces the word, and that ends it when it comes again.
pub open spec fn word_marker() -> Seq<char> {
    "word="@
}

/// The request line for the front page.
pub open spec fn root_line() -> Seq<char> {
    "GET / HTTP/1.1"@
}

/// The request line for the slow page.
pub open spec fn sleep_line() -> Seq<char> {
    "GET /sleep HTTP/1.1"@
}

/// The word of a translation query: the first word of what stands between the
/// prefix and the next marker, or the end of the line.
pub open spec fn word_of(line: Seq<char>) -> Seq<char> {
    first_word(before(line.skip(translate_prefix().len() as int), word_marker()))
}

/// The route that a request line selects.
pub open spec fn route_of(line: Seq<char>) -> RouteView {
    if translate_prefix().is_prefix_of(line) {
        RouteView::Translate { word: word_of(line) }
    } else if line == root_line() {
        RouteView::Root
    } else if line == sleep_line() {
        RouteView::Sleep
    } else {
        RouteView::Unknown
    }
}

/// Whether two texts hold the same characters.
fn same_text(a: &[char], b: &[char]) -> (eq: bool)
    ensures
        eq == (a@ == b@),
{
    if a.len() != b.len() {
        return false;
    }
    let eq = starts_with(a, b);
    assert(a@.subrange(0, b@.len() as int) =~= a@);
    eq
}

/// Cuts the word out of a translation query whose prefix has `start` characters.
fn extract_word(line: &str, chars: &[char], start: usize) -> (word: String)
    requires
        chars@ == line@,
        translate_prefix().is_prefix_of(line@),
        start == translate_prefix().len(),
    ensures
        word@ == word_of(line@),
{
    let marker = chars_of("word=");
    let stop = find_from(chars, start, marker.as_slice());
    let from = skip_run(chars, start, stop, true);
    let to = skip_run(chars, from, stop, false);
    proof {
        let segment = before(line@.skip(start as int), word_marker());
        assert(segment =~= line@.subrange(start as int, stop as int));
        let rest = segment.skip(from - start);
        assert(rest =~= line@.subrange(from as int, stop as int));
        assert(rest.take(to - from) =~= line@.subrange(from as int, to as int));
    }
    line.substring_char(from, to).to_owned()
}

/// Classifies a request line.
pub fn classify(line: &str) -> (route: Route)
    ensures
        route@ == route_of(line@),
{
    let chars = chars_of(line);
    let prefix = chars_of("GET /translate?word=");
    if starts_with(chars.as_slice(), prefix.as_slice()) {
        return Route::Translate { word: extract_word(line, chars.as_slice(), prefix.len()) };
    }
    let root = chars_of("GET / HTTP/1.1");
    let sleep = chars_of("GET /sleep HTTP/1.1");
    if same_text(chars.as_slice(), root.as_slice()) {
        Route::Root
    } else if same_text(chars.as_slice(), sleep.as_slice()) {
        Route::Sleep
    } else {
        Route::Unknown
    }
}

} // verus!
