use http_async::response::Response;
use http_async::status::Status;
use http_async::version::Version;
use http_async::Content;

#[test]
fn default_response_is_encoded() {
    let bytes = Response().into_vector();
    assert_eq!(bytes, b"HTTP/1.0 200 OK\r\n\r\n".to_vec());
}

#[test]
fn response_with_fields_and_content_is_encoded() {
    let mut response = Response()
        .version(Version::HTTP_11)
        .status(Status::NotFound)
        .addHeader("Server".to_string(), "test".to_string());
    response.content = b"body".to_vec();
    assert_eq!(
        response.into_vector(),
        b"HTTP/1.1 404 Not Found\r\nServer: test\r\n\r\nbody".to_vec()
    );
}

#[test]
fn content_sets_status_type_and_length() {
    let response = Response().content(Content(Status::Created, "text/plain", b"hello world".to_vec()));
    assert_eq!(response.status, Status::Created);
    assert_eq!(response.content, b"hello world".to_vec());
    assert_eq!(response.header.len(), 2);
    assert_eq!(response.header[0].key, "Content-Type");
    assert_eq!(response.header[0].value, "text/plain");
    assert_eq!(response.header[1].key, "Content-Length");
    assert_eq!(response.header[1].value, "11");
    assert_eq!(
        response.into_vector(),
        b"HTTP/1.0 201 Created\r\nContent-Type: text/plain\r\nContent-Length: 11\r\n\r\nhello world".to_vec()
    );
}

#[test]
fn content_length_is_decimal() {
    for length in [0usize, 7, 10, 99, 100, 12345] {
        let response = Response().content(Content(Status::OK, "x", vec![0u8; length]));
        assert_eq!(response.header[1].value, length.to_string());
    }
}

#[test]
fn header_values_keep_utf8() {
    let response = Response().addHeader("X".to_string(), "é".to_string());
    assert_eq!(response.into_vector(), "HTTP/1.0 200 OK\r\nX: é\r\n\r\n".as_bytes().to_vec());
}

#[test]
fn status_texts() {
    assert_eq!(Status::Continue.to_string(), "100 Continue");
    assert_eq!(Status::OK.to_string(), "200 OK");
    assert_eq!(Status::IMUsed.to_string(), "226 IM Used");
    assert_eq!(Status::URITooLong.to_string(), "414 URI Too Long");
    assert_eq!(Status::NetworkAuthenticationRequired.to_string(), "511 Network Authentication Required");
}
