use http_async::header::Header;
use http_async::method::Method;
use http_async::path::Path;
use http_async::request::{Request, RequestHeader, RequestHeaderError, RequestHeaderField};
use http_async::version::Version;
use http_async::KeyValuePair;

#[test]
fn method_names() {
    assert_eq!(Method::Get.to_string(), "GET");
    assert_eq!(Method::Options.to_string(), "OPTIONS");
    assert_eq!(Method::Trace.to_string(), "TRACE");
    assert_eq!(Method::Dummy.to_string(), "????");
}

#[test]
fn version_texts() {
    assert_eq!(Version::HTTP_09.to_string(), "HTTP/0.9");
    assert_eq!(Version::HTTP_11.to_string(), "HTTP/1.1");
    assert_eq!(Version::HTTP_3.to_string(), "HTTP/3.0");
}

#[test]
fn path_without_query_is_written_alone() {
    let path = Path { path: "/index".to_string(), query: Vec::new() };
    assert_eq!(path.to_string(), "/index");
}

#[test]
fn path_with_query_is_written_with_it() {
    let path = Path {
        path: "/index".to_string(),
        query: vec![
            KeyValuePair { key: "a".to_string(), value: "1".to_string() },
            KeyValuePair { key: "b".to_string(), value: "2".to_string() },
        ],
    };
    assert_eq!(path.to_string(), "/index?a=1&b=2");
}

#[test]
fn dummy_request() {
    let request = Request();
    assert_eq!(request.method, Method::Dummy);
    assert_eq!(request.version, Version::HTTP_09);
    assert!(request.path.is_empty());
    assert!(request.query.is_empty());
    assert!(request.cookies.is_empty());
    assert!(request.content.is_empty());
    assert_eq!(request.header.bodyLength(), 0);
}

#[test]
fn request_header_number_field() {
    let mut header = RequestHeader();
    assert_eq!(header.bodyLength(), 0);
    assert_eq!(header.setNumber(RequestHeaderField::ContentLength, 42), Ok(()));
    assert_eq!(header.bodyLength(), 42);
    assert_eq!(header.setNumber(RequestHeaderField::ContentLength, 7), Err(RequestHeaderError::AlreadySet));
    assert_eq!(header.bodyLength(), 42);
    assert_eq!(header.setNumber(RequestHeaderField::Host, 7), Err(RequestHeaderError::NotANumber));
}

#[test]
fn request_header_string_fields() {
    let mut header = RequestHeader();
    assert_eq!(header.setString(RequestHeaderField::Host, "a".to_string()), Ok(()));
    assert_eq!(header.setString(RequestHeaderField::Host, "b".to_string()), Err(RequestHeaderError::AlreadySet));
    assert_eq!(header.setString(RequestHeaderField::UserAgent, "c".to_string()), Ok(()));
    assert_eq!(
        header.setString(RequestHeaderField::ContentLength, "d".to_string()),
        Err(RequestHeaderError::NotANumber)
    );
    header.push(KeyValuePair { key: "k".to_string(), value: "v".to_string() });
    let text = format!("{:?}", header);
    assert!(text.contains("host: Some(\"a\")"), "{}", text);
    assert!(text.contains("userAgent: Some(\"c\")"), "{}", text);
    assert!(text.contains("key: \"k\", value: \"v\""), "{}", text);
}

#[test]
fn header_line_is_parsed() {
    let (result, read) = Header::parse(b"Key: some value\r\nNext");
    let pair = result.unwrap().unwrap();
    assert_eq!(pair.key, "Key");
    assert_eq!(pair.value, "some value");
    assert_eq!(read, 17);
}

#[test]
fn empty_line_ends_the_header() {
    let (result, read) = Header::parse(b"\r\nBody");
    assert!(result.unwrap().is_none());
    assert_eq!(read, 2);
}

#[test]
fn malformed_header_lines_fail() {
    let (result, read) = Header::parse(b"Key:value\r\n");
    assert!(result.is_err());
    assert_eq!(read, 5);
    let (result, read) = Header::parse(b"Key: value");
    assert!(result.is_err());
    assert_eq!(read, 10);
    let (result, read) = Header::parse(b"Key: value\rX");
    assert!(result.is_err());
    assert_eq!(read, 12);
    let (result, read) = Header::parse(b"\rX");
    assert!(result.is_err());
    assert_eq!(read, 2);
}

#[test]
fn header_bytes_are_characters_of_the_same_number() {
    let (result, _) = Header::parse(b"K: \xe9\r\n");
    assert_eq!(result.unwrap().unwrap().value, "\u{e9}");
}
