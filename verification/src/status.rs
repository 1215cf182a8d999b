use vstd::prelude::*;

verus! {

/// Status Code of Response.
#[derive(Clone, Copy, Debug, PartialEq, Eq, Structural)]
pub enum Status {
    /// 100 - Continue, see [RFC7231, Section 6.2.1].
    Continue,
    /// 101 - Switching Protocols, see [RFC7231, Section 6.2.2].
    SwitchingProtocols,
    /// 102 - Processing, see [RFC2518].
    Processing,
    /// 103 - Early Hints, see [RFC8297].
    EarlyHints,
    /// 200 - OK, see [RFC7231, Section 6.3.1].
    OK,
    /// 201 - Created, see [RFC7231, Section 6.3.2].
    Created,
    /// 202 - Accepted, see [RFC7231, Section 6.3.3].
    Accepted,
    /// 203 - Non-Authoritative Information, see [RFC7231, Section 6.3.4].
    NonAuthoritativeInformation,
    /// 204 - No Content, see [RFC7231, Section 6.3.5].
    NoContent,
    /// 205 - Reset Content, see [RFC7231, Section 6.3.6].
    ResetContent,
    /// 206 - Partial Content, see [RFC7233, Section 4.1].
    PartialContent,
    /// 207 - Multi-Status, see [RFC4918].
    MultiStatus,
    /// 208 - Already Reported, see [RFC5842].
    AlreadyReported,
    /// 226 - IM Used, see [RFC3229].
    IMUsed,
    /// 300 - Multiple Choices, see [RFC7231, Section 6.4.1].
    MultipleChoices,
    /// 301 - Moved Permanently, see [RFC7231, Section 6.4.2].
    MovedPermanently,
    /// 302 - Found, see [RFC7231, Section 6.4.3].
    Found,
    /// 303 - See Other, see [RFC7231, Section 6.4.4].
    SeeOther,
    /// 304 - Not Modified, see [RFC7232, Section 4.1].
    NotModified,
    /// 305 - Use Proxy, see [RFC7231, Section 6.4.5].
    UseProxy,
    /// 307 - Temporary Redirect, see [RFC7231, Section 6.4.7].
    TemporaryRedirect,
    /// 308 - Permanent Redirect, see [RFC7538].
    PermanentRedirect,
    /// 400 - Bad Request, see [RFC7231, Section 6.5.1].
    BadRequest,
    /// 401 - Unauthorized, see [RFC7235, Section 3.1].
    Unauthorized,
    /// 402 - Payment Required, see [RFC7231, Section 6.5.2].
    PaymentRequired,
    /// 403 - Forbidden, see [RFC7231, Section 6.5.3].
    Forbidden,
    /// 404 - Not Found, see [RFC7231, Section 6.5.4].
    NotFound,
    /// 405 - Method Not Allowed, see [RFC7231, Section 6.5.5].
    MethodNotAllowed,
    /// 406 - Not Acceptable, see [RFC7231, Section 6.5.6].
    NotAcceptable,
    /// 407 - Proxy Authentication Required, see [RFC7235, Section 3.2].
    ProxyAuthenticationRequired,
    /// 408 - Request Timeout, see [RFC7231, Section 6.5.7].
    RequestTimeout,
    /// 409 - Conflict, see [RFC7231, Section 6.5.8].
    Conflict,
    /// 410 - Gone, see [RFC7231, Section 6.5.9].
    Gone,
    /// 411 - Length Required, see [RFC7231, Section 6.5.10].
    LengthRequired,
    /// 412 - Precondition Failed, see [RFC7232, Section 4.2][RFC8144, Section 3.2].
    PreconditionFailed,
    /// 413 - Payload Too Large, see [RFC7231, Section 6.5.11].
    PayloadTooLarge,
    /// 414 - URI Too Long, see [RFC7231, Section 6.5.12].
    URITooLong,
    /// 415 - Unsupported Media Type, see [RFC7231, Section 6.5.13][RFC7694, Section 3].
    UnsupportedMediaType,
    /// 416 - Range Not Satisfiable, see [RFC7233, Section 4.4].
    RangeNotSatisfiable,
    /// 417 - Expectation Failed, see [RFC7231, Section 6.5.14].
    ExpectationFailed,
    /// 421 - Misdirected Request, see [RFC7540, Section 9.1.2].
    MisdirectedRequest,
    /// 422 - Unprocessable Entity, see [RFC4918].
    UnprocessableEntity,
    /// 423 - Locked, see [RFC4918].
    Locked,
    /// 424 - Failed Dependency, see [RFC4918].
    FailedDependency,
    /// 425 - Too Early, see [RFC8470].
    TooEarly,
    /// 426 - Upgrade Required, see [RFC7231, Section 6.5.15].
    UpgradeRequired,
    /// 428 - Precondition Required, see [RFC6585].
    PreconditionRequired,
    /// 429 - Too Many Requests, see [RFC6585].
    TooManyRequests,
    /// 431 - Request Header Fields Too Large, see [RFC6585].
    RequestHeaderFieldsTooLarge,
    /// 451 - Unavailable For Legal Reasons, see [RFC7725].
    UnavailableForLegalReasons,
    /// 500 - Internal Server Error, see [RFC7231, Section 6.6.1].
    InternalServerError,
    /// 501 - Not Implemented, see [RFC7231, Section 6.6.2].
    NotImplemented,
    /// 502 - Bad Gateway, see [RFC7231, Section 6.6.3].
    BadGateway,
    /// 503 - Service Unavailable, see [RFC7231, Section 6.6.4].
    ServiceUnavailable,
    /// 504 - Gateway Timeout, see [RFC7231, Section 6.6.5].
    GatewayTimeout,
    /// 505 - HTTP Version Not Supported, see [RFC7231, Section 6.6.6].
    HTTPVersionNotSupported,
    /// 506 - Variant Also Negotiates, see [RFC2295].
    VariantAlsoNegotiates,
    /// 507 - Insufficient Storage, see [RFC4918].
    InsufficientStorage,
    /// 508 - Loop Detected, see [RFC5842].
    LoopDetected,
    /// 510 - Not Extended, see [RFC2774].
    NotExtended,
    /// 511 - Network Authentication Required, see [RFC6585].
    NetworkAuthenticationRequired,
}

/// The text by which a status is written in the status line of a response.
pub open spec fn status_text(status: Status) -> Seq<char> {
    match status {
        Status::Continue => "100 Continue"@,
        Status::SwitchingProtocols => "101 Switching Protocols"@,
        Status::Processing => "102 Processing"@,
        Status::EarlyHints => "103 Early Hints"@,
        Status::OK => "200 OK"@,
        Status::Created => "201 Created"@,
        Status::Accepted => "202 Accepted"@,
        Status::NonAuthoritativeInformation => "203 Non-Authoritative Information"@,
        Status::NoContent => "204 No Content"@,
        Status::ResetContent => "205 Reset Content"@,
        Status::PartialContent => "206 Partial Content"@,
        Status::MultiStatus => "207 Multi-Status"@,
        Status::AlreadyReported => "208 Already Reported"@,
        Status::IMUsed => "226 IM Used"@,
        Status::MultipleChoices => "300 Multiple Choices"@,
        Status::MovedPermanently => "301 Moved Permanently"@,
        Status::Found => "302 Found"@,
        Status::SeeOther => "303 See Other"@,
        Status::NotModified => "304 Not Modified"@,
        Status::UseProxy => "305 Use Proxy"@,
        Status::TemporaryRedirect => "307 Temporary Redirect"@,
        Status::PermanentRedirect => "308 Permanent Redirect"@,
        Status::BadRequest => "400 Bad Request"@,
        Status::Unauthorized => "401 Unauthorized"@,
        Status::PaymentRequired => "402 Payment Required"@,
        Status::Forbidden => "403 Forbidden"@,
        Status::NotFound => "404 Not Found"@,
        Status::MethodNotAllowed => "405 Method Not Allowed"@,
        Status::NotAcceptable => "406 Not Acceptable"@,
        Status::ProxyAuthenticationRequired => "407 Proxy Authentication Required"@,
        Status::RequestTimeout => "408 Request Timeout"@,
        Status::Conflict => "409 Conflict"@,
        Status::Gone => "410 Gone"@,
        Status::LengthRequired => "411 Length Required"@,
        Status::PreconditionFailed => "412 Precondition Failed"@,
        Status::PayloadTooLarge => "413 Payload Too Large"@,
        Status::URITooLong => "414 URI Too Long"@,
        Status::UnsupportedMediaType => "415 Unsupported Media Type"@,
        Status::RangeNotSatisfiable => "416 Range Not Satisfiable"@,
        Status::ExpectationFailed => "417 Expectation Failed"@,
        Status::MisdirectedRequest => "421 Misdirected Request"@,
        Status::UnprocessableEntity => "422 Unprocessable Entity"@,
        Status::Locked => "423 Locked"@,
        Status::FailedDependency => "424 Failed Dependency"@,
        Status::TooEarly => "425 Too Early"@,
        Status::UpgradeRequired => "426 Upgrade Required"@,
        Status::PreconditionRequired => "428 Precondition Required"@,
        Status::TooManyRequests => "429 Too Many Requests"@,
        Status::RequestHeaderFieldsTooLarge => "431 Request Header Fields Too Large"@,
        Status::UnavailableForLegalReasons => "451 Unavailable For Legal Reasons"@,
        Status::InternalServerError => "500 Internal Server Error"@,
        Status::NotImplemented => "501 Not Implemented"@,
        Status::BadGateway => "502 Bad Gateway"@,
        Status::ServiceUnavailable => "503 Service Unavailable"@,
        Status::GatewayTimeout => "504 Gateway Timeout"@,
        Status::HTTPVersionNotSupported => "505 HTTP Version Not Supported"@,
        Status::VariantAlsoNegotiates => "506 Variant Also Negotiates"@,
        Status::InsufficientStorage => "507 Insufficient Storage"@,
        Status::LoopDetected => "508 Loop Detected"@,
        Status::NotExtended => "510 Not Extended"@,
        Status::NetworkAuthenticationRequired => "511 Network Authentication Required"@,
    }
}

/// The code of a status.
pub open spec fn status_code(status: Status) -> nat {
    match status {
        Status::Continue => 100,
        Status::SwitchingProtocols => 101,
        Status::Processing => 102,
        Status::EarlyHints => 103,
        Status::OK => 200,
        Status::Created => 201,
        Status::Accepted => 202,
        Status::NonAuthoritativeInformation => 203,
        Status::NoContent => 204,
        Status::ResetContent => 205,
        Status::PartialContent => 206,
        Status::MultiStatus => 207,
        Status::AlreadyReported => 208,
        Status::IMUsed => 226,
        Status::MultipleChoices => 300,
        Status::MovedPermanently => 301,
        Status::Found => 302,
        Status::SeeOther => 303,
        Status::NotModified => 304,
        Status::UseProxy => 305,
        Status::TemporaryRedirect => 307,
        Status::PermanentRedirect => 308,
        Status::BadRequest => 400,
        Status::Unauthorized => 401,
        Status::PaymentRequired => 402,
        Status::Forbidden => 403,
        Status::NotFound => 404,
        Status::MethodNotAllowed => 405,
        Status::NotAcceptable => 406,
        Status::ProxyAuthenticationRequired => 407,
        Status::RequestTimeout => 408,
        Status::Conflict => 409,
        Status::Gone => 410,
        Status::LengthRequired => 411,
        Status::PreconditionFailed => 412,
        Status::PayloadTooLarge => 413,
        Status::URITooLong => 414,
        Status::UnsupportedMediaType => 415,
        Status::RangeNotSatisfiable => 416,
        Status::ExpectationFailed => 417,
        Status::MisdirectedRequest => 421,
        Status::UnprocessableEntity => 422,
        Status::Locked => 423,
        Status::FailedDependency => 424,
        Status::TooEarly => 425,
        Status::UpgradeRequired => 426,
        Status::PreconditionRequired => 428,
        Status::TooManyRequests => 429,
        Status::RequestHeaderFieldsTooLarge => 431,
        Status::UnavailableForLegalReasons => 451,
        Status::InternalServerError => 500,
        Status::NotImplemented => 501,
        Status::BadGateway => 502,
        Status::ServiceUnavailable => 503,
        Status::GatewayTimeout => 504,
        Status::HTTPVersionNotSupported => 505,
        Status::VariantAlsoNegotiates => 506,
        Status::InsufficientStorage => 507,
        Status::LoopDetected => 508,
        Status::NotExtended => 510,
        Status::NetworkAuthenticationRequired => 511,
    }
}

/// The status of a code, where there is one.
spec fn status_of_code(code: nat) -> Option<Status> {
    if false {
        None
    } else if code == 100 {
        Some(Status::Continue)
    } else if code == 101 {
        Some(Status::SwitchingProtocols)
    } else if code == 102 {
        Some(Status::Processing)
    } else if code == 103 {
        Some(Status::EarlyHints)
    } else if code == 200 {
        Some(Status::OK)
    } else if code == 201 {
        Some(Status::Created)
    } else if code == 202 {
        Some(Status::Accepted)
    } else if code == 203 {
        Some(Status::NonAuthoritativeInformation)
    } else if code == 204 {
        Some(Status::NoContent)
    } else if code == 205 {
        Some(Status::ResetContent)
    } else if code == 206 {
        Some(Status::PartialContent)
    } else if code == 207 {
        Some(Status::MultiStatus)
    } else if code == 208 {
        Some(Status::AlreadyReported)
    } else if code == 226 {
        Some(Status::IMUsed)
    } else if code == 300 {
        Some(Status::MultipleChoices)
    } else if code == 301 {
        Some(Status::MovedPermanently)
    } else if code == 302 {
        Some(Status::Found)
    } else if code == 303 {
        Some(Status::SeeOther)
    } else if code == 304 {
        Some(Status::NotModified)
    } else if code == 305 {
        Some(Status::UseProxy)
    } else if code == 307 {
        Some(Status::TemporaryRedirect)
    } else if code == 308 {
        Some(Status::PermanentRedirect)
    } else if code == 400 {
        Some(Status::BadRequest)
    } else if code == 401 {
        Some(Status::Unauthorized)
    } else if code == 402 {
        Some(Status::PaymentRequired)
    } else if code == 403 {
        Some(Status::Forbidden)
    } else if code == 404 {
        Some(Status::NotFound)
    } else if code == 405 {
        Some(Status::MethodNotAllowed)
    } else if code == 406 {
        Some(Status::NotAcceptable)
    } else if code == 407 {
        Some(Status::ProxyAuthenticationRequired)
    } else if code == 408 {
        Some(Status::RequestTimeout)
    } else if code == 409 {
        Some(Status::Conflict)
    } else if code == 410 {
        Some(Status::Gone)
    } else if code == 411 {
        Some(Status::LengthRequired)
    } else if code == 412 {
        Some(Status::PreconditionFailed)
    } else if code == 413 {
        Some(Status::PayloadTooLarge)
    } else if code == 414 {
        Some(Status::URITooLong)
    } else if code == 415 {
        Some(Status::UnsupportedMediaType)
    } else if code == 416 {
        Some(Status::RangeNotSatisfiable)
    } else if code == 417 {
        Some(Status::ExpectationFailed)
    } else if code == 421 {
        Some(Status::MisdirectedRequest)
    } else if code == 422 {
        Some(Status::UnprocessableEntity)
    } else if code == 423 {
        Some(Status::Locked)
    } else if code == 424 {
        Some(Status::FailedDependency)
    } else if code == 425 {
        Some(Status::TooEarly)
    } else if code == 426 {
        Some(Status::UpgradeRequired)
    } else if code == 428 {
        Some(Status::PreconditionRequired)
    } else if code == 429 {
        Some(Status::TooManyRequests)
    } else if code == 431 {
        Some(Status::RequestHeaderFieldsTooLarge)
    } else if code == 451 {
        Some(Status::UnavailableForLegalReasons)
    } else if code == 500 {
        Some(Status::InternalServerError)
    } else if code == 501 {
        Some(Status::NotImplemented)
    } else if code == 502 {
        Some(Status::BadGateway)
    } else if code == 503 {
        Some(Status::ServiceUnavailable)
    } else if code == 504 {
        Some(Status::GatewayTimeout)
    } else if code == 505 {
        Some(Status::HTTPVersionNotSupported)
    } else if code == 506 {
        Some(Status::VariantAlsoNegotiates)
    } else if code == 507 {
        Some(Status::InsufficientStorage)
    } else if code == 508 {
        Some(Status::LoopDetected)
    } else if code == 510 {
        Some(Status::NotExtended)
    } else if code == 511 {
        Some(Status::NetworkAuthenticationRequired)
    } else {
        None
    }
}

/// The value of a decimal digit.
pub open spec fn digit_value(c: char) -> int {
    c as int - '0' as int
}

/// A decimal digit.
pub open spec fn is_digit(c: char) -> bool {
    '0' <= c <= '9'
}

/// The text of a status is its code in three decimal digits, a space and its reason phrase;
/// the codes lie between 100 and 599, and no two statuses share one.
pub proof fn law_status_text(status: Status, other: Status)
    ensures
        status_text(status).len() > 4,
        is_digit(status_text(status)[0]),
        is_digit(status_text(status)[1]),
        is_digit(status_text(status)[2]),
        status_text(status)[3] == ' ',
        100 * digit_value(status_text(status)[0]) + 10 * digit_value(status_text(status)[1])
            + digit_value(status_text(status)[2]) == status_code(status),
        100 <= status_code(status) <= 599,
        status != other ==> status_code(status) != status_code(other),
{
    match status {
        Status::Continue => reveal_strlit("100 Continue"),
        Status::SwitchingProtocols => reveal_strlit("101 Switching Protocols"),
        Status::Processing => reveal_strlit("102 Processing"),
        Status::EarlyHints => reveal_strlit("103 Early Hints"),
        Status::OK => reveal_strlit("200 OK"),
        Status::Created => reveal_strlit("201 Created"),
        Status::Accepted => reveal_strlit("202 Accepted"),
        Status::NonAuthoritativeInformation => reveal_strlit("203 Non-Authoritative Information"),
        Status::NoContent => reveal_strlit("204 No Content"),
        Status::ResetContent => reveal_strlit("205 Reset Content"),
        Status::PartialContent => reveal_strlit("206 Partial Content"),
        Status::MultiStatus => reveal_strlit("207 Multi-Status"),
        Status::AlreadyReported => reveal_strlit("208 Already Reported"),
        Status::IMUsed => reveal_strlit("226 IM Used"),
        Status::MultipleChoices => reveal_strlit("300 Multiple Choices"),
        Status::MovedPermanently => reveal_strlit("301 Moved Permanently"),
        Status::Found => reveal_strlit("302 Found"),
        Status::SeeOther => reveal_strlit("303 See Other"),
        Status::NotModified => reveal_strlit("304 Not Modified"),
        Status::UseProxy => reveal_strlit("305 Use Proxy"),
        Status::TemporaryRedirect => reveal_strlit("307 Temporary Redirect"),
        Status::PermanentRedirect => reveal_strlit("308 Permanent Redirect"),
        Status::BadRequest => reveal_strlit("400 Bad Request"),
        Status::Unauthorized => reveal_strlit("401 Unauthorized"),
        Status::PaymentRequired => reveal_strlit("402 Payment Required"),
        Status::Forbidden => reveal_strlit("403 Forbidden"),
        Status::NotFound => reveal_strlit("404 Not Found"),
        Status::MethodNotAllowed => reveal_strlit("405 Method Not Allowed"),
        Status::NotAcceptable => reveal_strlit("406 Not Acceptable"),
        Status::ProxyAuthenticationRequired => reveal_strlit("407 Proxy Authentication Required"),
        Status::RequestTimeout => reveal_strlit("408 Request Timeout"),
        Status::Conflict => reveal_strlit("409 Conflict"),
        Status::Gone => reveal_strlit("410 Gone"),
        Status::LengthRequired => reveal_strlit("411 Length Required"),
        Status::PreconditionFailed => reveal_strlit("412 Precondition Failed"),
        Status::PayloadTooLarge => reveal_strlit("413 Payload Too Large"),
        Status::URITooLong => reveal_strlit("414 URI Too Long"),
        Status::UnsupportedMediaType => reveal_strlit("415 Unsupported Media Type"),
        Status::RangeNotSatisfiable => reveal_strlit("416 Range Not Satisfiable"),
        Status::ExpectationFailed => reveal_strlit("417 Expectation Failed"),
        Status::MisdirectedRequest => reveal_strlit("421 Misdirected Request"),
        Status::UnprocessableEntity => reveal_strlit("422 Unprocessable Entity"),
        Status::Locked => reveal_strlit("423 Locked"),
        Status::FailedDependency => reveal_strlit("424 Failed Dependency"),
        Status::TooEarly => reveal_strlit("425 Too Early"),
        Status::UpgradeRequired => reveal_strlit("426 Upgrade Required"),
        Status::PreconditionRequired => reveal_strlit("428 Precondition Required"),
        Status::TooManyRequests => reveal_strlit("429 Too Many Requests"),
        Status::RequestHeaderFieldsTooLarge => reveal_strlit("431 Request Header Fields Too Large"),
        Status::UnavailableForLegalReasons => reveal_strlit("451 Unavailable For Legal Reasons"),
        Status::InternalServerError => reveal_strlit("500 Internal Server Error"),
        Status::NotImplemented => reveal_strlit("501 Not Implemented"),
        Status::BadGateway => reveal_strlit("502 Bad Gateway"),
        Status::ServiceUnavailable => reveal_strlit("503 Service Unavailable"),
        Status::GatewayTimeout => reveal_strlit("504 Gateway Timeout"),
        Status::HTTPVersionNotSupported => reveal_strlit("505 HTTP Version Not Supported"),
        Status::VariantAlsoNegotiates => reveal_strlit("506 Variant Also Negotiates"),
        Status::InsufficientStorage => reveal_strlit("507 Insufficient Storage"),
        Status::LoopDetected => reveal_strlit("508 Loop Detected"),
        Status::NotExtended => reveal_strlit("510 Not Extended"),
        Status::NetworkAuthenticationRequired => reveal_strlit("511 Network Authentication Required"),
    }
    assert(status_of_code(status_code(status)) == Some(status));
    assert(status_of_code(status_code(other)) == Some(other));
}

/// The reason phrase of a status, as the documentation of each status gives it.
pub open spec fn reason_phrase(status: Status) -> Seq<char> {
    match status {
        Status::Continue => "Continue"@,
        Status::SwitchingProtocols => "Switching Protocols"@,
        Status::Processing => "Processing"@,
        Status::EarlyHints => "Early Hints"@,
        Status::OK => "OK"@,
        Status::Created => "Created"@,
        Status::Accepted => "Accepted"@,
        Status::NonAuthoritativeInformation => "Non-Authoritative Information"@,
        Status::NoContent => "No Content"@,
        Status::ResetContent => "Reset Content"@,
        Status::PartialContent => "Partial Content"@,
        Status::MultiStatus => "Multi-Status"@,
        Status::AlreadyReported => "Already Reported"@,
        Status::IMUsed => "IM Used"@,
        Status::MultipleChoices => "Multiple Choices"@,
        Status::MovedPermanently => "Moved Permanently"@,
        Status::Found => "Found"@,
        Status::SeeOther => "See Other"@,
        Status::NotModified => "Not Modified"@,
        Status::UseProxy => "Use Proxy"@,
        Status::TemporaryRedirect => "Temporary Redirect"@,
        Status::PermanentRedirect => "Permanent Redirect"@,
        Status::BadRequest => "Bad Request"@,
        Status::Unauthorized => "Unauthorized"@,
        Status::PaymentRequired => "Payment Required"@,
        Status::Forbidden => "Forbidden"@,
        Status::NotFound => "Not Found"@,
        Status::MethodNotAllowed => "Method Not Allowed"@,
        Status::NotAcceptable => "Not Acceptable"@,
        Status::ProxyAuthenticationRequired => "Proxy Authentication Required"@,
        Status::RequestTimeout => "Request Timeout"@,
        Status::Conflict => "Conflict"@,
        Status::Gone => "Gone"@,
        Status::LengthRequired => "Length Required"@,
        Status::PreconditionFailed => "Precondition Failed"@,
        Status::PayloadTooLarge => "Payload Too Large"@,
        Status::URITooLong => "URI Too Long"@,
        Status::UnsupportedMediaType => "Unsupported Media Type"@,
        Status::RangeNotSatisfiable => "Range Not Satisfiable"@,
        Status::ExpectationFailed => "Expectation Failed"@,
        Status::MisdirectedRequest => "Misdirected Request"@,
        Status::UnprocessableEntity => "Unprocessable Entity"@,
        Status::Locked => "Locked"@,
        Status::FailedDependency => "Failed Dependency"@,
        Status::TooEarly => "Too Early"@,
        Status::UpgradeRequired => "Upgrade Required"@,
        Status::PreconditionRequired => "Precondition Required"@,
        Status::TooManyRequests => "Too Many Requests"@,
        Status::RequestHeaderFieldsTooLarge => "Request Header Fields Too Large"@,
        Status::UnavailableForLegalReasons => "Unavailable For Legal Reasons"@,
        Status::InternalServerError => "Internal Server Error"@,
        Status::NotImplemented => "Not Implemented"@,
        Status::BadGateway => "Bad Gateway"@,
        Status::ServiceUnavailable => "Service Unavailable"@,
        Status::GatewayTimeout => "Gateway Timeout"@,
        Status::HTTPVersionNotSupported => "HTTP Version Not Supported"@,
        Status::VariantAlsoNegotiates => "Variant Also Negotiates"@,
        Status::InsufficientStorage => "Insufficient Storage"@,
        Status::LoopDetected => "Loop Detected"@,
        Status::NotExtended => "Not Extended"@,
        Status::NetworkAuthenticationRequired => "Network Authentication Required"@,
    }
}

/// The character of a decimal digit.
pub open spec fn digit_char(d: int) -> char {
    (d + '0' as int) as char
}

/// A three-digit code in decimal.
pub open spec fn code_text(code: nat) -> Seq<char> {
    seq![digit_char(code as int / 100), digit_char((code as int / 10) % 10), digit_char(code as int % 10)]
}

/// The text of a status is its code in decimal, a space and its own reason phrase.
#[verifier::rlimit(100)]
pub proof fn law_status_reason(status: Status)
    ensures
        status_text(status) == code_text(status_code(status)) + seq![' '] + reason_phrase(status),
{
    match status {
        Status::Continue => {
            reveal_strlit("100 Continue");
            reveal_strlit("Continue");
        },
        Status::SwitchingProtocols => {
            reveal_strlit("101 Switching Protocols");
            reveal_strlit("Switching Protocols");
        },
        Status::Processing => {
            reveal_strlit("102 Processing");
            reveal_strlit("Processing");
        },
        Status::EarlyHints => {
            reveal_strlit("103 Early Hints");
            reveal_strlit("Early Hints");
        },
        Status::OK => {
            reveal_strlit("200 OK");
            reveal_strlit("OK");
        },
        Status::Created => {
            reveal_strlit("201 Created");
            reveal_strlit("Created");
        },
        Status::Accepted => {
            reveal_strlit("202 Accepted");
            reveal_strlit("Accepted");
        },
        Status::NonAuthoritativeInformation => {
            reveal_strlit("203 Non-Authoritative Information");
            reveal_strlit("Non-Authoritative Information");
        },
        Status::NoContent => {
            reveal_strlit("204 No Content");
            reveal_strlit("No Content");
        },
        Status::ResetContent => {
            reveal_strlit("205 Reset Content");
            reveal_strlit("Reset Content");
        },
        Status::PartialContent => {
            reveal_strlit("206 Partial Content");
            reveal_strlit("Partial Content");
        },
        Status::MultiStatus => {
            reveal_strlit("207 Multi-Status");
            reveal_strlit("Multi-Status");
        },
        Status::AlreadyReported => {
            reveal_strlit("208 Already Reported");
            reveal_strlit("Already Reported");
        },
        Status::IMUsed => {
            reveal_strlit("226 IM Used");
            reveal_strlit("IM Used");
        },
        Status::MultipleChoices => {
            reveal_strlit("300 Multiple Choices");
            reveal_strlit("Multiple Choices");
        },
        Status::MovedPermanently => {
            reveal_strlit("301 Moved Permanently");
            reveal_strlit("Moved Permanently");
        },
        Status::Found => {
            reveal_strlit("302 Found");
            reveal_strlit("Found");
        },
        Status::SeeOther => {
            reveal_strlit("303 See Other");
            reveal_strlit("See Other");
        },
        Status::NotModified => {
            reveal_strlit("304 Not Modified");
            reveal_strlit("Not Modified");
        },
        Status::UseProxy => {
            reveal_strlit("305 Use Proxy");
            reveal_strlit("Use Proxy");
        },
        Status::TemporaryRedirect => {
            reveal_strlit("307 Temporary Redirect");
            reveal_strlit("Temporary Redirect");
        },
        Status::PermanentRedirect => {
            reveal_strlit("308 Permanent Redirect");
            reveal_strlit("Permanent Redirect");
        },
        Status::BadRequest => {
            reveal_strlit("400 Bad Request");
            reveal_strlit("Bad Request");
        },
        Status::Unauthorized => {
            reveal_strlit("401 Unauthorized");
            reveal_strlit("Unauthorized");
        },
        Status::PaymentRequired => {
            reveal_strlit("402 Payment Required");
            reveal_strlit("Payment Required");
        },
        Status::Forbidden => {
            reveal_strlit("403 Forbidden");
            reveal_strlit("Forbidden");
        },
        Status::NotFound => {
            reveal_strlit("404 Not Found");
            reveal_strlit("Not Found");
        },
        Status::MethodNotAllowed => {
            reveal_strlit("405 Method Not Allowed");
            reveal_strlit("Method Not Allowed");
        },
        Status::NotAcceptable => {
            reveal_strlit("406 Not Acceptable");
            reveal_strlit("Not Acceptable");
        },
        Status::ProxyAuthenticationRequired => {
            reveal_strlit("407 Proxy Authentication Required");
            reveal_strlit("Proxy Authentication Required");
        },
        Status::RequestTimeout => {
            reveal_strlit("408 Request Timeout");
            reveal_strlit("Request Timeout");
        },
        Status::Conflict => {
            reveal_strlit("409 Conflict");
            reveal_strlit("Conflict");
        },
        Status::Gone => {
            reveal_strlit("410 Gone");
            reveal_strlit("Gone");
        },
        Status::LengthRequired => {
            reveal_strlit("411 Length Required");
            reveal_strlit("Length Required");
        },
        Status::PreconditionFailed => {
            reveal_strlit("412 Precondition Failed");
            reveal_strlit("Precondition Failed");
        },
        Status::PayloadTooLarge => {
            reveal_strlit("413 Payload Too Large");
            reveal_strlit("Payload Too Large");
        },
        Status::URITooLong => {
            reveal_strlit("414 URI Too Long");
            reveal_strlit("URI Too Long");
        },
        Status::UnsupportedMediaType => {
            reveal_strlit("415 Unsupported Media Type");
            reveal_strlit("Unsupported Media Type");
        },
        Status::RangeNotSatisfiable => {
            reveal_strlit("416 Range Not Satisfiable");
            reveal_strlit("Range Not Satisfiable");
        },
        Status::ExpectationFailed => {
            reveal_strlit("417 Expectation Failed");
            reveal_strlit("Expectation Failed");
        },
        Status::MisdirectedRequest => {
            reveal_strlit("421 Misdirected Request");
            reveal_strlit("Misdirected Request");
        },
        Status::UnprocessableEntity => {
            reveal_strlit("422 Unprocessable Entity");
            reveal_strlit("Unprocessable Entity");
        },
        Status::Locked => {
            reveal_strlit("423 Locked");
            reveal_strlit("Locked");
        },
        Status::FailedDependency => {
            reveal_strlit("424 Failed Dependency");
            reveal_strlit("Failed Dependency");
        },
        Status::TooEarly => {
            reveal_strlit("425 Too Early");
            reveal_strlit("Too Early");
        },
        Status::UpgradeRequired => {
            reveal_strlit("426 Upgrade Required");
            reveal_strlit("Upgrade Required");
        },
        Status::PreconditionRequired => {
            reveal_strlit("428 Precondition Required");
            reveal_strlit("Precondition Required");
        },
        Status::TooManyRequests => {
            reveal_strlit("429 Too Many Requests");
            reveal_strlit("Too Many Requests");
        },
        Status::RequestHeaderFieldsTooLarge => {
            reveal_strlit("431 Request Header Fields Too Large");
            reveal_strlit("Request Header Fields Too Large");
        },
        Status::UnavailableForLegalReasons => {
            reveal_strlit("451 Unavailable For Legal Reasons");
            reveal_strlit("Unavailable For Legal Reasons");
        },
        Status::InternalServerError => {
            reveal_strlit("500 Internal Server Error");
            reveal_strlit("Internal Server Error");
        },
        Status::NotImplemented => {
            reveal_strlit("501 Not Implemented");
            reveal_strlit("Not Implemented");
        },
        Status::BadGateway => {
            reveal_strlit("502 Bad Gateway");
            reveal_strlit("Bad Gateway");
        },
        Status::ServiceUnavailable => {
            reveal_strlit("503 Service Unavailable");
            reveal_strlit("Service Unavailable");
        },
        Status::GatewayTimeout => {
            reveal_strlit("504 Gateway Timeout");
            reveal_strlit("Gateway Timeout");
        },
        Status::HTTPVersionNotSupported => {
            reveal_strlit("505 HTTP Version Not Supported");
            reveal_strlit("HTTP Version Not Supported");
        },
        Status::VariantAlsoNegotiates => {
            reveal_strlit("506 Variant Also Negotiates");
            reveal_strlit("Variant Also Negotiates");
        },
        Status::InsufficientStorage => {
            reveal_strlit("507 Insufficient Storage");
            reveal_strlit("Insufficient Storage");
        },
        Status::LoopDetected => {
            reveal_strlit("508 Loop Detected");
            reveal_strlit("Loop Detected");
        },
        Status::NotExtended => {
            reveal_strlit("510 Not Extended");
            reveal_strlit("Not Extended");
        },
        Status::NetworkAuthenticationRequired => {
            reveal_strlit("511 Network Authentication Required");
            reveal_strlit("Network Authentication Required");
        },
    }
    assert(status_text(status) =~= code_text(status_code(status)) + seq![' '] + reason_phrase(status));
}

impl Status {
    /// The status as it is written in the status line of a response.
    pub fn to_string(&self) -> (text: String)
        ensures
            text@ == status_text(*self),
    {
        let text: &str = match self {
            Status::Continue => "100 Continue",
            Status::SwitchingProtocols => "101 Switching Protocols",
            Status::Processing => "102 Processing",
            Status::EarlyHints => "103 Early Hints",
            Status::OK => "200 OK",
            Status::Created => "201 Created",
            Status::Accepted => "202 Accepted",
            Status::NonAuthoritativeInformation => "203 Non-Authoritative Information",
            Status::NoContent => "204 No Content",
            Status::ResetContent => "205 Reset Content",
            Status::PartialContent => "206 Partial Content",
            Status::MultiStatus => "207 Multi-Status",
            Status::AlreadyReported => "208 Already Reported",
            Status::IMUsed => "226 IM Used",
            Status::MultipleChoices => "300 Multiple Choices",
            Status::MovedPermanently => "301 Moved Permanently",
            Status::Found => "302 Found",
            Status::SeeOther => "303 See Other",
            Status::NotModified => "304 Not Modified",
            Status::UseProxy => "305 Use Proxy",
            Status::TemporaryRedirect => "307 Temporary Redirect",
            Status::PermanentRedirect => "308 Permanent Redirect",
            Status::BadRequest => "400 Bad Request",
            Status::Unauthorized => "401 Unauthorized",
            Status::PaymentRequired => "402 Payment Required",
            Status::Forbidden => "403 Forbidden",
            Status::NotFound => "404 Not Found",
            Status::MethodNotAllowed => "405 Method Not Allowed",
            Status::NotAcceptable => "406 Not Acceptable",
            Status::ProxyAuthenticationRequired => "407 Proxy Authentication Required",
            Status::RequestTimeout => "408 Request Timeout",
            Status::Conflict => "409 Conflict",
            Status::Gone => "410 Gone",
            Status::LengthRequired => "411 Length Required",
            Status::PreconditionFailed => "412 Precondition Failed",
            Status::PayloadTooLarge => "413 Payload Too Large",
            Status::URITooLong => "414 URI Too Long",
            Status::UnsupportedMediaType => "415 Unsupported Media Type",
            Status::RangeNotSatisfiable => "416 Range Not Satisfiable",
            Status::ExpectationFailed => "417 Expectation Failed",
            Status::MisdirectedRequest => "421 Misdirected Request",
            Status::UnprocessableEntity => "422 Unprocessable Entity",
            Status::Locked => "423 Locked",
            Status::FailedDependency => "424 Failed Dependency",
            Status::TooEarly => "425 Too Early",
            Status::UpgradeRequired => "426 Upgrade Required",
            Status::PreconditionRequired => "428 Precondition Required",
            Status::TooManyRequests => "429 Too Many Requests",
            Status::RequestHeaderFieldsTooLarge => "431 Request Header Fields Too Large",
            Status::UnavailableForLegalReasons => "451 Unavailable For Legal Reasons",
            Status::InternalServerError => "500 Internal Server Error",
            Status::NotImplemented => "501 Not Implemented",
            Status::BadGateway => "502 Bad Gateway",
            Status::ServiceUnavailable => "503 Service Unavailable",
            Status::GatewayTimeout => "504 Gateway Timeout",
            Status::HTTPVersionNotSupported => "505 HTTP Version Not Supported",
            Status::VariantAlsoNegotiates => "506 Variant Also Negotiates",
            Status::InsufficientStorage => "507 Insufficient Storage",
            Status::LoopDetected => "508 Loop Detected",
            Status::NotExtended => "510 Not Extended",
            Status::NetworkAuthenticationRequired => "511 Network Authentication Required",
        };
        text.to_owned()
    }
}

} // verus!
