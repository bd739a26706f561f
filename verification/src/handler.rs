//! The connection handler, as decisions between the reads and writes of its caller.
//!
//! The caller reads one line from the connection and hands it to
//! [`handle_connection`], which says what to do next. For a translation the caller
//! asks the service and passes the text to [`translation_reply`]; for a page it
//! waits as long as told, reads the page and passes the contents to [`page_reply`].
//! What comes back is written to the connection, which is then closed. A peer that
//! sent nothing gets nothing.

use vstd::prelude::*;
use vstd::string::*;
use crate::request::{classify, route_of, Route, RouteView};
use crate::response::{
    fallback_response, page_response, render_fallback_response, render_page_response,
    render_text_response, render_translation_body, text_response, translation_body, Status,
};

verus! {

/// A page that the server keeps.
#[derive(Clone, Copy, Debug, PartialEq, Eq, Structural)]
pub enum Page {
    /// The front page.
    Hello,
    /// The page for requests that match nothing.
    NotFound,
}

impl Page {
    /// The name of the file that holds the page.
    pub open spec fn name(self) -> Seq<char> {
        match self {
            Page::Hello => "hello.html"@,
            Page::NotFound => "404.html"@,
        }
    }

    /// The name of the file that holds the page.
    pub fn file_name(self) -> (name: &'static str)
        ensures
            name@ == self.name(),
    {
        match self {
            Page::Hello => "hello.html",
            Page::NotFound => "404.html",
        }
    }
}

/// How long the slow page keeps its worker, in seconds.
pub const SLEEP_SECS: u64 = 5;

/// What the handler asks of its caller once the request line is known.
pub enum Step {
    /// Write nothing and close the connection.
    Close,
    /// Ask the translation service for `word`, then answer with
    /// [`translation_reply`].
    Translate { word: String },
    /// Wait `pause_secs` seconds, read `page`, then answer with [`page_reply`] under
    /// `status`.
    Serve { status: Status, page: Page, pause_secs: u64 },
}

/// The mathematical value of a [`Step`].
pub enum StepView {
    Close,
    Translate { word: Seq<char> },
    Serve { status: Status, page: Page, pause_secs: u64 },
}

impl View for Step {
    type V = StepView;

    open spec fn view(&self) -> StepView {
        match self {
            Step::Close => StepView::Close,
            Step::Translate { word } => StepView::Translate { word: word@ },
            Step::Serve { status, page, pause_secs } => StepView::Serve {
                status: *status,
                page: *page,
                pause_secs: *pause_secs,
            },
        }
    }
}

/// The step that follows from what was read: nothing for a peer that sent no line,
/// and the route's work for a line.
pub open spec fn plan(request_line: Option<Seq<char>>) -> StepView {
    match request_line {
        None => StepView::Close,
        Some(line) => match route_of(line) {
            RouteView::Translate { word } => StepView::Translate { word },
            RouteView::Root => StepView::Serve {
                status: Status::Success,
                page: Page::Hello,
                pause_secs: 0,
            },
            RouteView::Sleep => StepView::Serve {
                status: Status::Success,
                page: Page::Hello,
                pause_secs: SLEEP_SECS,
            },
            RouteView::Unknown => StepView::Serve {
                status: Status::NotFound,
                page: Page::NotFound,
                pause_secs: 0,
            },
        },
    }
}

/// The characters of a text that may be missing.
pub open spec fn optional_text(text: Option<&str>) -> Option<Seq<char>> {
    match text {
        Some(chars) => Some(chars@),
        None => None,
    }
}

/// Decides what to do for a connection whose first line is `request_line`; `None`
/// stands for a peer that closed before it sent a line.
pub fn handle_connection(request_line: Option<&str>) -> (step: Step)
    ensures
        step@ == plan(optional_text(request_line)),
{
    match request_line {
        None => Step::Close,
        Some(line) => match classify(line) {
            Route::Translate { word } => Step::Translate { word },
            Route::Root => Step::Serve { status: Status::Success, page: Page::Hello, pause_secs: 0 },
            Route::Sleep => Step::Serve {
                status: Status::Success,
                page: Page::Hello,
                pause_secs: SLEEP_SECS,
            },
            Route::Unknown => Step::Serve {
                status: Status::NotFound,
                page: Page::NotFound,
                pause_secs: 0,
            },
        },
    }
}

/// The response to a translation query, given whatever text the lookup produced.
pub open spec fn translation_answer(word: Seq<char>, translation: Seq<char>) -> Seq<char> {
    text_response(translation_body(word, translation))
}

/// The response for a page: its contents under `status`, or the fallback when the
/// page could not be read.
pub open spec fn page_answer(status: Status, contents: Option<Seq<char>>) -> Seq<char> {
    match contents {
        Some(text) => page_response(status, text),
        None => fallback_response(),
    }
}

/// Writes the response to a translation query. A lookup that failed hands in its
/// failure text, which is shown like any translation.
pub fn translation_reply(word: &str, translation: &str) -> (response: String)
    ensures
        response@ == translation_answer(word@, translation@),
{
    let body = render_translation_body(word, translation);
    render_text_response(body.as_str())
}

/// Writes the response for a page; `None` stands for a page that could not be read.
pub fn page_reply(status: Status, contents: Option<&str>) -> (response: String)
    ensures
        response@ == page_answer(status, optional_text(contents)),
{
    match contents {
        Some(text) => render_page_response(status, text),
        None => render_fallback_response(),
    }
}

} // verus!
