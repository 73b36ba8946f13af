use kiss::builder::{build_file_cache, FileRecord};
use kiss::connection::{Action, ConnectionState, Event, PendingRequest, MAX_REQUEST_SIZE};
use kiss::index::OptimizedCache;
use kiss::templates::HeaderTemplates;

fn file(relative_path: &str, content: &str, mtime_secs: u64) -> FileRecord {
    FileRecord {
        relative_path: relative_path.to_string(),
        is_file: true,
        size: content.len() as u64,
        mtime_secs,
        content: content.as_bytes().to_vec(),
    }
}

fn site() -> OptimizedCache {
    build_file_cache(&vec![
        file("index.html", "<h1>home</h1>", 784111777),
        file("app.js", "start();", 784111777),
    ])
}

fn pending(path: &str, is_head: bool, is_http11: bool) -> PendingRequest {
    PendingRequest {
        is_head,
        path: path.to_string(),
        is_http11,
        keep_alive: is_http11,
        if_modified_since: None,
        if_none_match: None,
    }
}

fn run<'a>(
    lines: &[&[u8]],
    templates: &'a HeaderTemplates,
    cache: &'a OptimizedCache,
) -> (ConnectionState, Action<'a>) {
    let (mut state, mut action) = ConnectionState::start(false);
    for line in lines {
        let next = state.step(Event::Line(line), false, templates, cache);
        state = next.0;
        action = next.1;
    }
    (state, action)
}

fn body_of(response: &[u8]) -> &[u8] {
    let at = response.windows(4).position(|w| w == b"\r\n\r\n").unwrap();
    &response[at + 4..]
}

fn status_of(response: &[u8]) -> &[u8] {
    let at = response.windows(2).position(|w| w == b"\r\n").unwrap();
    &response[..at]
}

#[test]
fn connection_starts_by_reading_a_request_line() {
    assert_eq!(ConnectionState::start(false), (ConnectionState::Idle, Action::ReadRequestLine));
}

#[test]
fn connection_accepted_during_shutdown_is_closed() {
    assert_eq!(ConnectionState::start(true), (ConnectionState::Closed, Action::Close));
}

#[test]
fn request_line_opens_the_headers() {
    let templates = HeaderTemplates::new();
    let cache = site();
    let next = ConnectionState::Idle.step(
        Event::Line(b"GET /app.js?v=2 HTTP/1.1\r\n"),
        false,
        &templates,
        &cache,
    );
    assert_eq!(
        next,
        (ConnectionState::Headers(pending("/app.js?v=2", false, true)), Action::ReadHeaderLine)
    );
    let next = ConnectionState::Idle.step(
        Event::Line(b"HEAD / HTTP/1.0\n"),
        true,
        &templates,
        &cache,
    );
    assert_eq!(next, (ConnectionState::Headers(pending("/", true, false)), Action::ReadHeaderLine));
}

#[test]
fn other_versions_do_not_keep_alive_by_default() {
    let templates = HeaderTemplates::new();
    let cache = site();
    for version in ["HTTP/1.0", "HTTP/2", "http/1.1", "HTTP/1.10", "x"] {
        let line = format!("GET / {}\r\n", version);
        let next = ConnectionState::Idle.step(
            Event::Line(line.as_bytes()),
            false,
            &templates,
            &cache,
        );
        assert_eq!(
            next,
            (ConnectionState::Headers(pending("/", false, false)), Action::ReadHeaderLine)
        );
    }
}

#[test]
fn get_is_answered_with_the_file() {
    let templates = HeaderTemplates::new();
    let cache = site();
    let (state, action) = run(
        &[b"GET /app.js HTTP/1.1\r\n", b"Host: localhost\r\n", b"\r\n"],
        &templates,
        &cache,
    );
    assert_eq!(state, ConnectionState::Responding { keep_alive: true });
    let expected = &cache.get("/app.js").unwrap().complete_response;
    assert_eq!(action, Action::Send(expected));
    match action {
        Action::Send(response) => {
            assert_eq!(status_of(response), b"HTTP/1.1 200 OK");
            assert_eq!(body_of(response), b"start();");
        },
        _ => unreachable!(),
    }
}

#[test]
fn head_is_answered_with_the_headers() {
    let templates = HeaderTemplates::new();
    let cache = site();
    let (state, action) = run(&[b"HEAD /app.js HTTP/1.1\r\n", b"\r\n"], &templates, &cache);
    assert_eq!(state, ConnectionState::Responding { keep_alive: true });
    assert_eq!(action, Action::Send(&cache.get("/app.js").unwrap().headers_only));
}

#[test]
fn headers_end_at_a_blank_line_of_any_kind() {
    let templates = HeaderTemplates::new();
    let cache = site();
    for blank in [&b"\r\n"[..], b"\n", b"", b"  \t\r\n", b"\r\n\r\n"] {
        let (state, action) = run(&[b"GET /app.js HTTP/1.1\r\n", blank], &templates, &cache);
        assert_eq!(state, ConnectionState::Responding { keep_alive: true });
        assert_eq!(action, Action::Send(&cache.get("/app.js").unwrap().complete_response));
    }
}

#[test]
fn unknown_path_is_404_and_keeps_the_connection() {
    let templates = HeaderTemplates::new();
    let cache = site();
    let (state, action) = run(&[b"GET /missing.js HTTP/1.1\r\n", b"\r\n"], &templates, &cache);
    assert_eq!(state, ConnectionState::Responding { keep_alive: true });
    assert_eq!(action, Action::Send(&templates.not_found));
    match action {
        Action::Send(response) => {
            assert_eq!(status_of(response), b"HTTP/1.1 404 Not Found");
            assert!(response.windows(26).any(|w| w == b"\r\nContent-Type: text/plain"));
        },
        _ => unreachable!(),
    }
}

#[test]
fn method_other_than_get_and_head_is_405() {
    let templates = HeaderTemplates::new();
    let cache = site();
    for method in ["POST", "PUT", "DELETE", "OPTIONS", "get", "Get", "GETS", "HEADER", "G"] {
        let line = format!("{} /app.js HTTP/1.1\r\n", method);
        let next = ConnectionState::Idle.step(
            Event::Line(line.as_bytes()),
            false,
            &templates,
            &cache,
        );
        assert_eq!(next, (ConnectionState::Closing, Action::Send(&templates.method_not_allowed)));
    }
    assert_eq!(status_of(&templates.method_not_allowed), b"HTTP/1.1 405 Method Not Allowed");
}

#[test]
fn malformed_request_line_is_400() {
    let templates = HeaderTemplates::new();
    let cache = site();
    for line in [
        &b"GET\r\n"[..],
        b"GET /\r\n",
        b"GET / HTTP/1.1 more\r\n",
        b"GET /a b HTTP/1.1\r\n",
        b"GET /\xff HTTP/1.1\r\n",
        b"x\r\n",
    ] {
        let next = ConnectionState::Idle.step(Event::Line(line), false, &templates, &cache);
        assert_eq!(next, (ConnectionState::Closing, Action::Send(&templates.bad_request)));
    }
    assert_eq!(status_of(&templates.bad_request), b"HTTP/1.1 400 Bad Request");
}

#[test]
fn part_count_is_checked_before_the_method() {
    let templates = HeaderTemplates::new();
    let cache = site();
    let next = ConnectionState::Idle.step(Event::Line(b"POST /\r\n"), false, &templates, &cache);
    assert_eq!(next, (ConnectionState::Closing, Action::Send(&templates.bad_request)));
}

#[test]
fn empty_request_line_is_passed_over() {
    let templates = HeaderTemplates::new();
    let cache = site();
    for line in [&b"\r\n"[..], b"\n", b"   \r\n", b"\t\x0b\x0c \r\n", b""] {
        let next = ConnectionState::Idle.step(Event::Line(line), false, &templates, &cache);
        assert_eq!(next, (ConnectionState::Idle, Action::ReadRequestLine));
    }
}

#[test]
fn empty_request_line_during_shutdown_closes() {
    let templates = HeaderTemplates::new();
    let cache = site();
    let next = ConnectionState::Idle.step(Event::Line(b"\r\n"), true, &templates, &cache);
    assert_eq!(next, (ConnectionState::Closed, Action::Close));
}

#[test]
fn request_line_of_the_largest_size_is_accepted() {
    let templates = HeaderTemplates::new();
    let cache = site();
    let head = b"GET /";
    let tail = b" HTTP/1.1\r\n";
    let mut line = head.to_vec();
    line.resize(MAX_REQUEST_SIZE - tail.len(), b'a');
    line.extend_from_slice(tail);
    assert_eq!(line.len(), 8192);
    let path = format!("/{}", "a".repeat(8192 - head.len() - tail.len()));
    let next = ConnectionState::Idle.step(Event::Line(&line), false, &templates, &cache);
    assert_eq!(
        next,
        (ConnectionState::Headers(pending(&path, false, true)), Action::ReadHeaderLine)
    );
}

#[test]
fn request_line_one_byte_longer_is_413() {
    let templates = HeaderTemplates::new();
    let cache = site();
    let head = b"GET /";
    let tail = b" HTTP/1.1\r\n";
    let mut line = head.to_vec();
    line.resize(MAX_REQUEST_SIZE + 1 - tail.len(), b'a');
    line.extend_from_slice(tail);
    assert_eq!(line.len(), 8193);
    let next = ConnectionState::Idle.step(Event::Line(&line), false, &templates, &cache);
    assert_eq!(next, (ConnectionState::Closing, Action::Send(&templates.request_too_large)));
    assert_eq!(status_of(&templates.request_too_large), b"HTTP/1.1 413 Request Entity Too Large");
}

#[test]
fn size_is_checked_before_anything_else() {
    let templates = HeaderTemplates::new();
    let cache = site();
    let blank = vec![b' '; 8193];
    let next = ConnectionState::Idle.step(Event::Line(&blank), false, &templates, &cache);
    assert_eq!(next, (ConnectionState::Closing, Action::Send(&templates.request_too_large)));
    let blank = vec![b' '; 8192];
    let next = ConnectionState::Idle.step(Event::Line(&blank), false, &templates, &cache);
    assert_eq!(next, (ConnectionState::Idle, Action::ReadRequestLine));
    let mut post = b"POST / HTTP/1.1".to_vec();
    post.resize(9000, b' ');
    let next = ConnectionState::Idle.step(Event::Line(&post), false, &templates, &cache);
    assert_eq!(next, (ConnectionState::Closing, Action::Send(&templates.request_too_large)));
}

#[test]
fn header_lines_have_no_size_limit() {
    let templates = HeaderTemplates::new();
    let cache = site();
    let mut header = b"X-Padding: ".to_vec();
    header.resize(20000, b'x');
    header.extend_from_slice(b"\r\n");
    let state = ConnectionState::Headers(pending("/app.js", false, true));
    let next = state.clone().step(Event::Line(&header), false, &templates, &cache);
    assert_eq!(next, (state, Action::ReadHeaderLine));
}

#[test]
fn connection_close_ends_keep_alive() {
    let templates = HeaderTemplates::new();
    let cache = site();
    for header in [
        &b"Connection: close\r\n"[..],
        b"connection: Close\r\n",
        b"CONNECTION:close\r\n",
        b"  Connection: keep-alive, close\r\n",
        b"Connection: closed\r\n",
    ] {
        let (state, _) = run(&[b"GET / HTTP/1.1\r\n", header, b"\r\n"], &templates, &cache);
        assert_eq!(state, ConnectionState::Responding { keep_alive: false });
    }
}

#[test]
fn http10_keeps_alive_only_on_request() {
    let templates = HeaderTemplates::new();
    let cache = site();
    let (state, _) = run(&[b"GET / HTTP/1.0\r\n", b"\r\n"], &templates, &cache);
    assert_eq!(state, ConnectionState::Responding { keep_alive: false });
    let (state, _) = run(
        &[b"GET / HTTP/1.0\r\n", b"Connection: Keep-Alive\r\n", b"\r\n"],
        &templates,
        &cache,
    );
    assert_eq!(state, ConnectionState::Responding { keep_alive: true });
    let (state, _) = run(
        &[b"GET / HTTP/1.0\r\n", b"Connection: upgrade\r\n", b"\r\n"],
        &templates,
        &cache,
    );
    assert_eq!(state, ConnectionState::Responding { keep_alive: false });
}

#[test]
fn http11_keeps_alive_unless_closed() {
    let templates = HeaderTemplates::new();
    let cache = site();
    let (state, _) = run(
        &[b"GET / HTTP/1.1\r\n", b"Connection: upgrade\r\n", b"\r\n"],
        &templates,
        &cache,
    );
    assert_eq!(state, ConnectionState::Responding { keep_alive: true });
}

#[test]
fn last_connection_header_decides() {
    let templates = HeaderTemplates::new();
    let cache = site();
    let (state, _) = run(
        &[b"GET / HTTP/1.1\r\n", b"Connection: close\r\n", b"Connection: keep-alive\r\n", b"\r\n"],
        &templates,
        &cache,
    );
    assert_eq!(state, ConnectionState::Responding { keep_alive: true });
}

#[test]
fn other_headers_change_nothing() {
    let templates = HeaderTemplates::new();
    let cache = site();
    let state = ConnectionState::Headers(pending("/app.js", false, true));
    for header in [
        &b"Host: close\r\n"[..],
        b"X-Connection: close\r\n",
        b"Accept: */*\r\n",
        b"If-Match: *\r\n",
        b"If-None-Matching: *\r\n",
        b"no colon here\r\n",
    ] {
        let next = state.clone().step(Event::Line(header), false, &templates, &cache);
        assert_eq!(next, (state.clone(), Action::ReadHeaderLine));
    }
}

#[test]
fn conditional_headers_are_kept_as_they_stand() {
    let templates = HeaderTemplates::new();
    let cache = site();
    let state = ConnectionState::Headers(pending("/app.js", false, true));
    let (state, action) = state.step(
        Event::Line(b"If-None-Match:  W/\"x\" , \"y\" \r\n"),
        false,
        &templates,
        &cache,
    );
    assert_eq!(action, Action::ReadHeaderLine);
    let (state, action) = state.step(
        Event::Line(b"IF-MODIFIED-SINCE: Sun, 06 Nov 1994 08:49:37 GMT\r\n"),
        false,
        &templates,
        &cache,
    );
    assert_eq!(action, Action::ReadHeaderLine);
    let mut expected = pending("/app.js", false, true);
    expected.if_none_match = Some(b"W/\"x\" , \"y\"".to_vec());
    expected.if_modified_since = Some(b"Sun, 06 Nov 1994 08:49:37 GMT".to_vec());
    assert_eq!(state, ConnectionState::Headers(expected));
}

#[test]
fn conditional_header_without_value_is_passed_over() {
    let templates = HeaderTemplates::new();
    let cache = site();
    let mut request = pending("/app.js", false, true);
    request.if_none_match = Some(b"\"kept\"".to_vec());
    let state = ConnectionState::Headers(request);
    for header in [&b"If-None-Match:\r\n"[..], b"If-None-Match:   \r\n", b"If-Modified-Since: \r\n"] {
        let next = state.clone().step(Event::Line(header), false, &templates, &cache);
        assert_eq!(next, (state.clone(), Action::ReadHeaderLine));
    }
}

#[test]
fn matching_tag_is_answered_with_304() {
    let templates = HeaderTemplates::new();
    let cache = site();
    let (state, action) = run(
        &[b"GET /app.js HTTP/1.1\r\n", b"If-None-Match: \"8-784111777\"\r\n", b"\r\n"],
        &templates,
        &cache,
    );
    assert_eq!(state, ConnectionState::Responding { keep_alive: true });
    assert_eq!(action, Action::Send(&cache.get("/app.js").unwrap().not_modified_response));
    match action {
        Action::Send(response) => {
            assert_eq!(status_of(response), b"HTTP/1.1 304 Not Modified");
            assert_eq!(body_of(response), b"");
        },
        _ => unreachable!(),
    }
}

#[test]
fn current_date_is_answered_with_304() {
    let templates = HeaderTemplates::new();
    let cache = site();
    let (_, action) = run(
        &[
            b"HEAD /app.js HTTP/1.1\r\n",
            b"If-Modified-Since: Sun, 06 Nov 1994 08:49:37 GMT\r\n",
            b"\r\n",
        ],
        &templates,
        &cache,
    );
    assert_eq!(action, Action::Send(&cache.get("/app.js").unwrap().not_modified_response));
    let (_, action) = run(
        &[
            b"HEAD /app.js HTTP/1.1\r\n",
            b"If-Modified-Since: Sun, 06 Nov 1994 08:49:36 GMT\r\n",
            b"\r\n",
        ],
        &templates,
        &cache,
    );
    assert_eq!(action, Action::Send(&cache.get("/app.js").unwrap().headers_only));
}

#[test]
fn health_endpoints_answer_without_the_cache() {
    let templates = HeaderTemplates::new();
    let cache = OptimizedCache::new();
    let (state, action) = run(&[b"GET /health HTTP/1.1\r\n", b"\r\n"], &templates, &cache);
    assert_eq!(state, ConnectionState::Responding { keep_alive: true });
    assert_eq!(action, Action::Send(&templates.health_complete));
    let (_, action) = run(&[b"HEAD /health HTTP/1.1\r\n", b"\r\n"], &templates, &cache);
    assert_eq!(action, Action::Send(&templates.health_headers_only));
    let (_, action) = run(&[b"GET /ready HTTP/1.0\r\n", b"\r\n"], &templates, &cache);
    assert_eq!(action, Action::Send(&templates.ready_complete));
    let (_, action) = run(&[b"HEAD /ready HTTP/1.1\r\n", b"\r\n"], &templates, &cache);
    assert_eq!(action, Action::Send(&templates.ready_headers_only));
}

#[test]
fn after_a_response_the_next_request_is_read() {
    let templates = HeaderTemplates::new();
    let cache = site();
    let state = ConnectionState::Responding { keep_alive: true };
    assert_eq!(
        state.step(Event::Sent, false, &templates, &cache),
        (ConnectionState::Idle, Action::ReadRequestLine)
    );
}

#[test]
fn after_a_response_without_keep_alive_the_connection_closes() {
    let templates = HeaderTemplates::new();
    let cache = site();
    let state = ConnectionState::Responding { keep_alive: false };
    assert_eq!(
        state.step(Event::Sent, false, &templates, &cache),
        (ConnectionState::Closed, Action::Close)
    );
}

#[test]
fn after_a_response_during_shutdown_the_connection_closes() {
    let templates = HeaderTemplates::new();
    let cache = site();
    let state = ConnectionState::Responding { keep_alive: true };
    assert_eq!(
        state.step(Event::Sent, true, &templates, &cache),
        (ConnectionState::Closed, Action::Close)
    );
}

#[test]
fn shutdown_does_not_cut_a_request_short() {
    let templates = HeaderTemplates::new();
    let cache = site();
    let (state, action) =
        ConnectionState::Idle.step(Event::Line(b"GET /app.js HTTP/1.1\r\n"), true, &templates, &cache);
    assert_eq!(action, Action::ReadHeaderLine);
    let (state, action) = state.step(Event::Line(b"\r\n"), true, &templates, &cache);
    assert_eq!(state, ConnectionState::Responding { keep_alive: true });
    assert_eq!(action, Action::Send(&cache.get("/app.js").unwrap().complete_response));
}

#[test]
fn timeout_is_answered_with_408_and_closes() {
    let templates = HeaderTemplates::new();
    let cache = site();
    for state in [
        ConnectionState::Idle,
        ConnectionState::Headers(pending("/", false, true)),
        ConnectionState::Responding { keep_alive: true },
    ] {
        let (state, action) = state.step(Event::TimedOut, false, &templates, &cache);
        assert_eq!(state, ConnectionState::Closing);
        assert_eq!(action, Action::Send(&templates.request_timeout));
        for event in [Event::Sent, Event::Failed, Event::TimedOut, Event::EndOfInput] {
            assert_eq!(
                state.clone().step(event, false, &templates, &cache),
                (ConnectionState::Closed, Action::Close)
            );
        }
    }
    assert_eq!(status_of(&templates.request_timeout), b"HTTP/1.1 408 Request Timeout");
}

#[test]
fn input_that_ends_in_the_headers_is_400() {
    let templates = HeaderTemplates::new();
    let cache = site();
    let state = ConnectionState::Headers(pending("/app.js", false, true));
    assert_eq!(
        state.step(Event::EndOfInput, false, &templates, &cache),
        (ConnectionState::Closing, Action::Send(&templates.bad_request))
    );
}

#[test]
fn input_that_ends_between_requests_closes_silently() {
    let templates = HeaderTemplates::new();
    let cache = site();
    assert_eq!(
        ConnectionState::Idle.step(Event::EndOfInput, false, &templates, &cache),
        (ConnectionState::Closed, Action::Close)
    );
}

#[test]
fn failure_closes_silently() {
    let templates = HeaderTemplates::new();
    let cache = site();
    for state in [
        ConnectionState::Idle,
        ConnectionState::Headers(pending("/", false, true)),
        ConnectionState::Responding { keep_alive: true },
        ConnectionState::Closing,
        ConnectionState::Closed,
    ] {
        assert_eq!(
            state.step(Event::Failed, false, &templates, &cache),
            (ConnectionState::Closed, Action::Close)
        );
    }
}

#[test]
fn unexpected_events_close() {
    let templates = HeaderTemplates::new();
    let cache = site();
    assert_eq!(
        ConnectionState::Idle.step(Event::Sent, false, &templates, &cache),
        (ConnectionState::Closed, Action::Close)
    );
    assert_eq!(
        ConnectionState::Headers(pending("/", false, true)).step(
            Event::Sent,
            false,
            &templates,
            &cache
        ),
        (ConnectionState::Closed, Action::Close)
    );
    assert_eq!(
        ConnectionState::Responding { keep_alive: true }.step(
            Event::Line(b"GET / HTTP/1.1\r\n"),
            false,
            &templates,
            &cache
        ),
        (ConnectionState::Closed, Action::Close)
    );
    assert_eq!(
        ConnectionState::Closed.step(Event::Line(b"GET / HTTP/1.1\r\n"), false, &templates, &cache),
        (ConnectionState::Closed, Action::Close)
    );
}

#[test]
fn two_requests_on_one_connection() {
    let templates = HeaderTemplates::new();
    let cache = site();
    let (state, action) = run(&[b"GET / HTTP/1.1\r\n", b"\r\n"], &templates, &cache);
    assert_eq!(action, Action::Send(&cache.get("/index.html").unwrap().complete_response));
    let (state, action) = state.step(Event::Sent, false, &templates, &cache);
    assert_eq!(action, Action::ReadRequestLine);
    let (state, action) = state.step(Event::Line(b"\r\n"), false, &templates, &cache);
    assert_eq!(action, Action::ReadRequestLine);
    let (state, action) =
        state.step(Event::Line(b"HEAD /app.js HTTP/1.1\r\n"), false, &templates, &cache);
    assert_eq!(action, Action::ReadHeaderLine);
    let (state, action) =
        state.step(Event::Line(b"Connection: close\r\n"), false, &templates, &cache);
    assert_eq!(action, Action::ReadHeaderLine);
    let (state, action) = state.step(Event::Line(b"\r\n"), false, &templates, &cache);
    assert_eq!(action, Action::Send(&cache.get("/app.js").unwrap().headers_only));
    assert_eq!(
        state.step(Event::Sent, false, &templates, &cache),
        (ConnectionState::Closed, Action::Close)
    );
}
