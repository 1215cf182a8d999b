use http_async::request::parser::error::ParserError;
use http_async::request::parser::Parser;
use http_async::request::Request;
use http_async::method::Method;
use http_async::version::Version;
use http_async::{CloseReason, Configuration, ConnectionAction};

fn configuration() -> Configuration {
    Configuration {
        querySeperator: b'&',
        maxContentLength: 1024,
        maxHeaderEntries: 32,
        maxHeaderLength: 1024,
        maxCookieLength: 1024,
        maxPathLength: 64,
        readTimeOut: 1_000_000_000,
    }
}

fn parse_all(bytes: &[u8]) -> Result<Vec<Request>, ParserError> {
    let mut parser = Parser(configuration());
    parser.feed(bytes, bytes.len())?;
    Ok(parser.take())
}

fn pairs(list: &[http_async::KeyValuePair]) -> Vec<(String, String)> {
    list.iter().map(|pair| (pair.key.clone(), pair.value.clone())).collect()
}

#[test]
fn simple_get_request() {
    let requests = parse_all(b"GET /index.html HTTP/1.1\r\n\r\n").unwrap();
    assert_eq!(requests.len(), 1);
    assert_eq!(requests[0].method, Method::Get);
    assert_eq!(requests[0].path, "/index.html");
    assert_eq!(requests[0].version, Version::HTTP_11);
    assert!(requests[0].query.is_empty());
    assert!(requests[0].content.is_empty());
}

#[test]
fn every_method_is_parsed_by_its_name() {
    let methods = [
        ("CONNECT", Method::Connect),
        ("DELETE", Method::Delete),
        ("GET", Method::Get),
        ("HEAD", Method::Head),
        ("OPTIONS", Method::Options),
        ("PATCH", Method::Patch),
        ("POST", Method::Post),
        ("PUT", Method::Put),
        ("TRACE", Method::Trace),
    ];
    for (name, method) in methods {
        let text = format!("{} / HTTP/1.0\r\n\r\n", name);
        let requests = parse_all(text.as_bytes()).unwrap();
        assert_eq!(requests.len(), 1);
        assert_eq!(requests[0].method, method);
        assert_eq!(requests[0].version, Version::HTTP_10);
    }
}

#[test]
fn trace_is_parsed_by_its_name() {
    let requests = parse_all(b"TRACE / HTTP/1.1\r\n\r\n").unwrap();
    assert_eq!(requests[0].method, Method::Trace);
    assert_eq!(requests[0].path, "/");
    assert_eq!(requests[0].version, Version::HTTP_11);
    assert_eq!(parse_all(b"TACCE / HTTP/1.1\r\n\r\n").unwrap_err(), ParserError::Method);
}

#[test]
fn every_version_is_parsed() {
    let versions = [
        ("HTTP/0.9", Version::HTTP_09),
        ("HTTP/1.0", Version::HTTP_10),
        ("HTTP/1.1", Version::HTTP_11),
        ("HTTP/2.0", Version::HTTP_2),
        ("HTTP/3.0", Version::HTTP_3),
    ];
    for (name, version) in versions {
        let text = format!("GET / {}\r\n\r\n", name);
        let requests = parse_all(text.as_bytes()).unwrap();
        assert_eq!(requests[0].version, version);
    }
}

#[test]
fn unknown_method_is_refused() {
    assert_eq!(parse_all(b"FETCH / HTTP/1.1\r\n\r\n").unwrap_err(), ParserError::Method);
    assert_eq!(parse_all(b"GEX / HTTP/1.1\r\n\r\n").unwrap_err(), ParserError::Method);
}

#[test]
fn unknown_version_is_refused() {
    assert_eq!(parse_all(b"GET / HTTP/1.2\r\n\r\n").unwrap_err(), ParserError::Version);
    assert_eq!(parse_all(b"GET / HTTX/1.1\r\n\r\n").unwrap_err(), ParserError::Version);
}

#[test]
fn missing_line_feed_is_refused() {
    assert_eq!(parse_all(b"GET / HTTP/1.1\r\r\n").unwrap_err(), ParserError::LineFeed);
    assert_eq!(parse_all(b"GET / HTTP/1.1\n").unwrap_err(), ParserError::CarriageReturn);
}

#[test]
fn ordinary_header_fields_are_kept() {
    let requests = parse_all(b"GET / HTTP/1.1\r\nAccept: */*\r\nX-Thing:   value 1\r\n\r\n").unwrap();
    let header = format!("{:?}", requests[0].header);
    assert!(header.contains("key: \"Accept\", value: \"*/*\""), "{}", header);
    assert!(header.contains("key: \"X-Thing\", value: \"value 1\""), "{}", header);
}

#[test]
fn host_and_user_agent_are_set() {
    let requests = parse_all(b"GET / HTTP/1.1\r\nHost: example\r\nUser-Agent: tester\r\n\r\n").unwrap();
    let header = format!("{:?}", requests[0].header);
    assert!(header.contains("host: Some(\"example\")"), "{}", header);
    assert!(header.contains("userAgent: Some(\"tester\")"), "{}", header);
}

#[test]
fn host_twice_is_refused() {
    assert_eq!(
        parse_all(b"GET / HTTP/1.1\r\nHost: a\r\nHost: b\r\n\r\n").unwrap_err(),
        ParserError::HeaderValue
    );
}

#[test]
fn header_names_near_special_ones_are_ordinary() {
    let requests = parse_all(b"GET / HTTP/1.1\r\nConnection: close\r\nCo: x\r\nHostile: y\r\n\r\n").unwrap();
    let header = format!("{:?}", requests[0].header);
    assert!(header.contains("key: \"Connection\", value: \"close\""), "{}", header);
    assert!(header.contains("key: \"Co\", value: \"x\""), "{}", header);
    assert!(header.contains("key: \"Hostile\", value: \"y\""), "{}", header);
}

#[test]
fn prefix_of_special_name_is_refused() {
    assert_eq!(parse_all(b"GET / HTTP/1.1\r\nHo: x\r\n\r\n").unwrap_err(), ParserError::HeaderKey);
}

#[test]
fn body_is_read_by_content_length() {
    let requests = parse_all(b"POST /form HTTP/1.1\r\nContent-Length: 5\r\n\r\nhello").unwrap();
    assert_eq!(requests.len(), 1);
    assert_eq!(requests[0].method, Method::Post);
    assert_eq!(requests[0].content, b"hello".to_vec());
    let header = format!("{:?}", requests[0].header);
    assert!(header.contains("contentLength: Some(5)"), "{}", header);
}

#[test]
fn body_longer_than_allowed_is_refused() {
    let mut parser = Parser(configuration());
    let text = b"POST / HTTP/1.1\r\nContent-Length: 1025\r\n\r\n";
    assert_eq!(parser.feed(text, text.len()), Err(ParserError::Body));
}

#[test]
fn body_as_long_as_allowed_is_accepted() {
    let mut text = b"POST / HTTP/1.1\r\nContent-Length: 1024\r\n\r\n".to_vec();
    text.extend(std::iter::repeat(b'x').take(1024));
    let requests = parse_all(&text).unwrap();
    assert_eq!(requests[0].content.len(), 1024);
}

#[test]
fn query_entries_are_split() {
    let requests = parse_all(b"GET /search?q=rust&page=2&flag HTTP/1.1\r\n\r\n");
    // A key without value is only ended by the separator or the end of the line.
    assert!(requests.is_ok());
    let requests = parse_all(b"GET /search?q=rust&page=2 HTTP/1.1\r\n\r\n").unwrap();
    assert_eq!(requests[0].path, "/search");
    assert_eq!(
        pairs(&requests[0].query),
        vec![("q".to_string(), "rust".to_string()), ("page".to_string(), "2".to_string())]
    );
}

#[test]
fn query_value_longer_than_allowed_is_refused() {
    let mut text = b"GET /?k=".to_vec();
    text.extend(std::iter::repeat(b'v').take(70));
    text.extend(b" HTTP/1.1\r\n\r\n");
    assert_eq!(parse_all(&text).unwrap_err(), ParserError::Query);
}

#[test]
fn escaped_bytes_are_decoded() {
    let requests = parse_all(b"GET /a%20b%2Fc HTTP/1.1\r\n\r\n").unwrap();
    assert_eq!(requests[0].path, "/a b/c");
    assert_eq!(parse_all(b"GET /a%2g HTTP/1.1\r\n\r\n").unwrap_err(), ParserError::Method);
}

#[test]
fn invalid_utf8_path_is_refused() {
    assert_eq!(parse_all(b"GET /%FF HTTP/1.1\r\n\r\n").unwrap_err(), ParserError::Path);
}

#[test]
fn cookies_are_parsed() {
    let requests = parse_all(b"GET / HTTP/1.1\r\nCookie: a=1; b=2\r\n\r\n").unwrap();
    assert_eq!(
        pairs(&requests[0].cookies),
        vec![("a".to_string(), "1".to_string()), ("b".to_string(), "2".to_string())]
    );
}

#[test]
fn feeding_in_pieces_is_feeding_at_once() {
    let text = b"GET /one HTTP/1.1\r\nAccept: x\r\n\r\nPOST /two HTTP/1.0\r\nContent-Length: 3\r\n\r\nabc";
    let mut whole = Parser(configuration());
    assert_eq!(whole.feed(text, text.len()), Ok(2));
    let whole = whole.take();
    let mut pieces = Parser(configuration());
    let mut count = 0;
    for chunk in text.chunks(7) {
        count = pieces.feed(chunk, chunk.len()).unwrap();
    }
    assert_eq!(count, 2);
    let pieces = pieces.take();
    assert_eq!(whole.len(), pieces.len());
    for (a, b) in whole.iter().zip(pieces.iter()) {
        assert_eq!(format!("{:?}", a), format!("{:?}", b));
    }
    assert_eq!(pieces[0].path, "/one");
    assert_eq!(pieces[1].content, b"abc".to_vec());
}

#[test]
fn feed_takes_only_the_given_length() {
    let text = b"GET / HTTP/1.1\r\n\r\nGARBAGE";
    let mut parser = Parser(configuration());
    assert_eq!(parser.feed(text, 18), Ok(1));
}

#[test]
fn take_empties_the_queue() {
    let mut parser = Parser(configuration());
    let text = b"GET / HTTP/1.1\r\n\r\n";
    assert_eq!(parser.feed(text, text.len()), Ok(1));
    assert_eq!(parser.take().len(), 1);
    assert_eq!(parser.take().len(), 0);
    assert_eq!(parser.feed(text, text.len()), Ok(1));
}

#[test]
fn request_is_complete_at_the_carriage_return_of_the_empty_line() {
    let mut parser = Parser(configuration());
    let text = b"GET / HTTP/1.1\r\n\r";
    assert_eq!(parser.feed(text, text.len()), Ok(1));
}

#[test]
fn receive_responds_to_complete_requests() {
    let mut parser = Parser(configuration());
    let text = b"GET / HTTP/1.1\r\n\r\n";
    match parser.receive(Some(text.len()), text, 0) {
        ConnectionAction::Respond(requests) => assert_eq!(requests.len(), 1),
        _ => panic!("expected requests"),
    }
}

#[test]
fn receive_waits_for_more_bytes() {
    let mut parser = Parser(configuration());
    let text = b"GET / HTTP";
    assert!(matches!(parser.receive(Some(text.len()), text, 0), ConnectionAction::Continue));
}

#[test]
fn receive_times_out() {
    let mut parser = Parser(configuration());
    let text = b"GET / HTTP";
    assert!(matches!(
        parser.receive(Some(text.len()), text, 2_000_000_000),
        ConnectionAction::Close(CloseReason::TimedOut)
    ));
}

#[test]
fn receive_closes_on_empty_read_failure_and_bad_request() {
    let mut parser = Parser(configuration());
    assert!(matches!(parser.receive(Some(0), b"", 0), ConnectionAction::Close(CloseReason::ClientClosed)));
    assert!(matches!(parser.receive(None, b"", 0), ConnectionAction::Close(CloseReason::ReadFailed)));
    let text = b"XYZ";
    assert!(matches!(
        parser.receive(Some(3), text, 0),
        ConnectionAction::Close(CloseReason::ParseFailed(ParserError::Method))
    ));
}

#[test]
fn parser_error_messages() {
    assert_eq!(ParserError::Body.to_string(), "Body too long.");
    assert_eq!(ParserError::LineFeed.to_string(), "Line Feed expected.");
    assert_eq!(
        ParserError::Version.to_string(),
        "An Error occured while parsing the Version of the Request."
    );
}

#[test]
fn is_token_accepts_token_bytes_only() {
    assert!(Parser::isToken(b'a'));
    assert!(Parser::isToken(b'~'));
    assert!(!Parser::isToken(b':'));
    assert!(!Parser::isToken(b' '));
}

#[test]
fn single_cookie_is_added() {
    let requests = parse_all(b"GET / HTTP/1.1\r\nCookie: session=abc123\r\n\r\n").unwrap();
    assert_eq!(pairs(&requests[0].cookies), vec![("session".to_string(), "abc123".to_string())]);
}

#[test]
fn user_agent_twice_is_refused() {
    assert_eq!(
        parse_all(b"GET / HTTP/1.1\r\nUser-Agent: a\r\nUser-Agent: b\r\n\r\n").unwrap_err(),
        ParserError::HeaderValue
    );
}

#[test]
fn query_with_other_separator() {
    let mut config = configuration();
    config.querySeperator = b';';
    let mut parser = Parser(config);
    let text = b"GET /p?a=1;b=x%41 HTTP/1.0\r\n\r\n";
    assert_eq!(parser.feed(text, text.len()), Ok(1));
    let requests = parser.take();
    assert_eq!(
        pairs(&requests[0].query),
        vec![("a".to_string(), "1".to_string()), ("b".to_string(), "xA".to_string())]
    );
    assert_eq!(requests[0].version, Version::HTTP_10);
}

#[test]
fn names_that_extend_special_ones_are_ordinary() {
    let requests = parse_all(
        b"GET / HTTP/1.1\r\nContent-Type: text/html\r\nHosts: many\r\nUser-Agents: x\r\nCookies: c\r\n\r\n",
    )
    .unwrap();
    let header = format!("{:?}", requests[0].header);
    assert!(header.contains("key: \"Content-Type\", value: \"text/html\""), "{}", header);
    assert!(header.contains("key: \"Hosts\", value: \"many\""), "{}", header);
    assert!(header.contains("key: \"User-Agents\", value: \"x\""), "{}", header);
    assert!(header.contains("key: \"Cookies\", value: \"c\""), "{}", header);
    assert!(header.contains("host: None"), "{}", header);
    assert!(requests[0].cookies.is_empty());
}

#[test]
fn content_length_must_be_digits() {
    assert_eq!(
        parse_all(b"POST / HTTP/1.1\r\nContent-Length: x5\r\n\r\n").unwrap_err(),
        ParserError::ContentLength
    );
    assert_eq!(
        parse_all(b"POST / HTTP/1.1\r\nContent-Length: 5x\r\n\r\n").unwrap_err(),
        ParserError::HeaderValue
    );
    assert_eq!(
        parse_all(b"POST / HTTP/1.1\r\nContent-Length: -5\r\n\r\n").unwrap_err(),
        ParserError::HeaderValue
    );
}

#[test]
fn invalid_byte_after_special_header_name_is_refused() {
    assert_eq!(parse_all(b"GET / HTTP/1.1\r\nHost : a\r\n\r\n").unwrap_err(), ParserError::HeaderKey);
    assert_eq!(parse_all(b"GET / HTTP/1.1\r\nCookie\x01: a\r\n\r\n").unwrap_err(), ParserError::HeaderKey);
}

#[test]
fn three_cookies_are_three_pairs() {
    let requests = parse_all(b"GET / HTTP/1.1\r\nCookie: a=b; c=d; e=\r\n\r\n").unwrap();
    assert_eq!(
        pairs(&requests[0].cookies),
        vec![
            ("a".to_string(), "b".to_string()),
            ("c".to_string(), "d".to_string()),
            ("e".to_string(), "".to_string())
        ]
    );
}

fn limited() -> Configuration {
    Configuration {
        querySeperator: b'&',
        maxContentLength: 1024,
        maxHeaderEntries: 2,
        maxHeaderLength: 8,
        maxCookieLength: 4,
        maxPathLength: 6,
        readTimeOut: 1_000_000_000,
    }
}

fn parse_limited(bytes: &[u8]) -> Result<Vec<Request>, ParserError> {
    let mut parser = Parser(limited());
    parser.feed(bytes, bytes.len())?;
    Ok(parser.take())
}

#[test]
fn header_lines_up_to_the_limit_are_accepted() {
    let requests = parse_limited(b"GET /abcde HTTP/1.1\r\nA: 12345678\r\nHost: h\r\n\r\n").unwrap();
    assert_eq!(requests[0].path, "/abcde");
}

#[test]
fn one_header_line_too_many_is_refused() {
    assert_eq!(
        parse_limited(b"GET / HTTP/1.1\r\nA: 1\r\nB: 2\r\nC: 3\r\n\r\n").unwrap_err(),
        ParserError::HeaderKey
    );
}

#[test]
fn header_value_too_long_is_refused() {
    assert_eq!(parse_limited(b"GET / HTTP/1.1\r\nA: 123456789\r\n\r\n").unwrap_err(), ParserError::HeaderValue);
    assert_eq!(parse_limited(b"GET / HTTP/1.1\r\nHost: 123456789\r\n\r\n").unwrap_err(), ParserError::HeaderValue);
}

#[test]
fn header_name_too_long_is_refused() {
    assert_eq!(parse_limited(b"GET / HTTP/1.1\r\nAbcdefghi: 1\r\n\r\n").unwrap_err(), ParserError::HeaderKey);
}

#[test]
fn path_too_long_is_refused() {
    assert_eq!(parse_limited(b"GET /abcdef HTTP/1.1\r\n\r\n").unwrap_err(), ParserError::Path);
    assert_eq!(parse_limited(b"GET /ab%41de HTTP/1.1\r\n\r\n").unwrap().len(), 1);
    assert_eq!(parse_limited(b"GET /abc%41de HTTP/1.1\r\n\r\n").unwrap_err(), ParserError::Path);
}

#[test]
fn cookie_too_long_is_refused() {
    assert_eq!(parse_limited(b"GET / HTTP/1.1\r\nCookie: a=1234\r\n\r\n").unwrap().len(), 1);
    assert_eq!(parse_limited(b"GET / HTTP/1.1\r\nCookie: a=12345\r\n\r\n").unwrap_err(), ParserError::CookieValue);
    assert_eq!(parse_limited(b"GET / HTTP/1.1\r\nCookie: abcde=1\r\n\r\n").unwrap_err(), ParserError::CookieKey);
}

#[test]
fn header_line_count_starts_again_with_each_request() {
    let text = b"GET /a HTTP/1.1\r\nA: 1\r\nB: 2\r\n\r\nGET /b HTTP/1.1\r\nA: 1\r\nB: 2\r\n\r\n";
    assert_eq!(parse_limited(text).unwrap().len(), 2);
}
