use last_project::handler::{handle_connection, page_reply, translation_reply, Page, Step};
use last_project::response::Status;

fn body_of(response: &str) -> &str {
    response.split_once("\r\n\r\n").expect("a response has an empty line").1
}

fn header<'a>(response: &'a str, name: &str) -> Option<&'a str> {
    let head = response.split_once("\r\n\r\n")?.0;
    head.split("\r\n").skip(1).find_map(|line| {
        let (key, value) = line.split_once(": ")?;
        if key == name {
            Some(value)
        } else {
            None
        }
    })
}

#[test]
fn translation_query_is_answered_with_both_texts() {
    let step = handle_connection(Some("GET /translate?word=hello"));
    let word = match step {
        Step::Translate { word } => word,
        _ => panic!("a translation query asks for a lookup"),
    };
    assert_eq!(word, "hello");
    let response = translation_reply(&word, "Բարեւ");
    let body = body_of(&response);
    assert_eq!(body, "Original: hello\nTranslation (HY): Բարեւ");
    assert_eq!(header(&response, "Content-Length"), Some("44"));
    assert_eq!(header(&response, "Content-Length"), Some(body.len().to_string().as_str()));
    assert_eq!(header(&response, "Content-Type"), Some("text/plain; charset=utf-8"));
    assert!(response.starts_with("HTTP/1.1 200 OK\r\n"));
}

#[test]
fn failed_lookup_is_shown_as_text_in_a_normal_response() {
    let response = translation_reply("hello", "Network Error");
    assert_eq!(
        response,
        "HTTP/1.1 200 OK\r\nContent-Type: text/plain; charset=utf-8\r\nContent-Length: 47\r\n\r\nOriginal: hello\nTranslation (HY): Network Error"
    );
}

#[test]
fn root_line_serves_the_front_page() {
    match handle_connection(Some("GET / HTTP/1.1")) {
        Step::Serve { status, page, pause_secs } => {
            assert_eq!(status, Status::Success);
            assert_eq!(page, Page::Hello);
            assert_eq!(page.file_name(), "hello.html");
            assert_eq!(pause_secs, 0);
            let response = page_reply(status, Some("<html>ok</html>"));
            assert_eq!(response.split("\r\n").next(), Some("HTTP/1.1 200 OK"));
            assert_eq!(body_of(&response), "<html>ok</html>");
        },
        _ => panic!("the root line serves a page"),
    }
}

#[test]
fn sleep_line_serves_the_front_page_after_a_pause() {
    match handle_connection(Some("GET /sleep HTTP/1.1")) {
        Step::Serve { status, page, pause_secs } => {
            assert_eq!(status, Status::Success);
            assert_eq!(page, Page::Hello);
            assert_eq!(pause_secs, 5);
        },
        _ => panic!("the sleep line serves a page"),
    }
}

#[test]
fn unknown_line_is_not_found() {
    match handle_connection(Some("GET /nope HTTP/1.1")) {
        Step::Serve { status, page, pause_secs } => {
            assert_eq!(status, Status::NotFound);
            assert_eq!(page, Page::NotFound);
            assert_eq!(page.file_name(), "404.html");
            assert_eq!(pause_secs, 0);
            let found = page_reply(status, Some("<h1>Oops</h1>"));
            assert_eq!(found, "HTTP/1.1 404 NOT FOUND\r\nContent-Length: 13\r\n\r\n<h1>Oops</h1>");
            let missing = page_reply(status, None);
            assert_eq!(
                missing,
                "HTTP/1.1 404 NOT FOUND\r\nContent-Length: 14\r\n\r\nPage not found"
            );
            assert_eq!(header(&missing, "Content-Length"), Some("14"));
            assert_eq!(missing.split("\r\n").next(), Some("HTTP/1.1 404 NOT FOUND"));
            assert_eq!(body_of(&missing), "Page not found");
        },
        _ => panic!("an unknown line serves the not-found page"),
    }
}

#[test]
fn unreadable_front_page_falls_back_to_not_found() {
    assert_eq!(
        page_reply(Status::Success, None),
        "HTTP/1.1 404 NOT FOUND\r\nContent-Length: 14\r\n\r\nPage not found"
    );
}

#[test]
fn peer_that_sent_nothing_gets_nothing() {
    assert!(matches!(handle_connection(None), Step::Close));
}

#[test]
fn empty_line_is_a_line() {
    assert!(matches!(
        handle_connection(Some("")),
        Step::Serve { status: Status::NotFound, page: Page::NotFound, pause_secs: 0 }
    ));
}
