use vstd::prelude::*;

use crate::method::Method;
use crate::version::Version;
use crate::{KeyValuePair, pairs_view};

/// Request-Parser.
pub mod parser;

verus! {

/// Hyper Text Transfer Protocol Request.
#[derive(Debug)]
pub struct Request {
    /// Method to use to get the desired Resource.
    pub method: Method,
    /// Path to the desired Resource.
    pub path: String,
    /// List of Query Key Value Pairs.
    pub query: Vec<KeyValuePair>,
    /// Protocol Version.
    pub version: Version,
    /// List of Unknown Header Key Value Pairs.
    pub header: RequestHeader,
    /// List of Cookie Key Value Pairs.
    pub cookies: Vec<KeyValuePair>,
    /// Content of Request.
    pub content: Vec<u8>,
}

/// What a `Request` holds, as mathematical values.
pub struct RequestView {
    pub method: Method,
    pub path: Seq<char>,
    pub query: Seq<(Seq<char>, Seq<char>)>,
    pub version: Version,
    pub header: RequestHeaderView,
    pub cookies: Seq<(Seq<char>, Seq<char>)>,
    pub content: Seq<u8>,
}

impl View for Request {
    type V = RequestView;

    open spec fn view(&self) -> RequestView {
        RequestView {
            method: self.method,
            path: self.path@,
            query: pairs_view(self.query@),
            version: self.version,
            header: self.header@,
            cookies: pairs_view(self.cookies@),
            content: self.content@,
        }
    }
}

/// The contents of a list of requests.
pub open spec fn requests_view(requests: Seq<Request>) -> Seq<RequestView> {
    requests.map_values(|request: Request| request@)
}

/// Pushing a request onto a list pushes its contents onto the contents of the list.
pub proof fn lemma_requests_push(requests: Seq<Request>, request: Request)
    ensures
        requests_view(requests.push(request)) == requests_view(requests).push(request@),
{
    assert(requests_view(requests.push(request)) =~= requests_view(requests).push(request@));
}

/// The dummy request: what the parser starts to fill for each request.
pub open spec fn empty_request() -> RequestView {
    RequestView {
        method: Method::Dummy,
        path: Seq::empty(),
        query: Seq::empty(),
        version: Version::HTTP_09,
        header: empty_header(),
        cookies: Seq::empty(),
        content: Seq::empty(),
    }
}

/// Constructor for a dummy `Request`.
pub fn Request() -> (request: Request)
    ensures
        request@ == empty_request(),
{
    let request = Request {
        method: Method::Dummy,
        path: String::new(),
        query: Vec::new(),
        version: Version::HTTP_09,
        header: RequestHeader(),
        cookies: Vec::new(),
        content: Vec::new(),
    };
    assert(request@.query =~= Seq::empty());
    assert(request@.cookies =~= Seq::empty());
    request
}

/// Header of a Hyper Text Transfer Protocol Request.
#[derive(Debug)]
pub struct RequestHeader {
    contentLength: Option<usize>,
    host: Option<String>,
    userAgent: Option<String>,
    other: Vec<KeyValuePair>,
}

/// What a `RequestHeader` holds, as mathematical values.
pub struct RequestHeaderView {
    pub contentLength: Option<usize>,
    pub host: Option<Seq<char>>,
    pub userAgent: Option<Seq<char>>,
    pub other: Seq<(Seq<char>, Seq<char>)>,
}

/// The contents of an optional string.
pub open spec fn option_view(s: Option<String>) -> Option<Seq<char>> {
    match s {
        Some(s) => Some(s@),
        None => None,
    }
}

impl View for RequestHeader {
    type V = RequestHeaderView;

    closed spec fn view(&self) -> RequestHeaderView {
        RequestHeaderView {
            contentLength: self.contentLength,
            host: option_view(self.host),
            userAgent: option_view(self.userAgent),
            other: pairs_view(self.other@),
        }
    }
}

/// The header of a request that has none.
pub open spec fn empty_header() -> RequestHeaderView {
    RequestHeaderView { contentLength: None, host: None, userAgent: None, other: Seq::empty() }
}

/// Constructor for a dummy `RequestHeader`.
pub fn RequestHeader() -> (header: RequestHeader)
    ensures
        header@ == empty_header(),
{
    let header = RequestHeader { contentLength: None, host: None, userAgent: None, other: Vec::new() };
    assert(pairs_view(header.other@) =~= Seq::empty());
    header
}

/// The length of the body that a header announces.
pub open spec fn header_body_length(header: RequestHeaderView) -> usize {
    match header.contentLength {
        Some(bytes) => bytes,
        None => 0,
    }
}

/// Setting a numerical header field: the header afterwards, and whether it was accepted.
pub open spec fn header_set_number(
    header: RequestHeaderView,
    field: RequestHeaderField,
    value: usize,
) -> (RequestHeaderView, Result<(), RequestHeaderError>) {
    match field {
        RequestHeaderField::ContentLength => if header.contentLength is None {
            (RequestHeaderView { contentLength: Some(value), ..header }, Ok(()))
        } else {
            (header, Err(RequestHeaderError::AlreadySet))
        },
        _ => (header, Err(RequestHeaderError::NotANumber)),
    }
}

/// Setting a textual header field: the header afterwards, and whether it was accepted.
pub open spec fn header_set_string(
    header: RequestHeaderView,
    field: RequestHeaderField,
    value: Seq<char>,
) -> (RequestHeaderView, Result<(), RequestHeaderError>) {
    match field {
        RequestHeaderField::Host => if header.host is None {
            (RequestHeaderView { host: Some(value), ..header }, Ok(()))
        } else {
            (header, Err(RequestHeaderError::AlreadySet))
        },
        RequestHeaderField::UserAgent => if header.userAgent is None {
            (RequestHeaderView { userAgent: Some(value), ..header }, Ok(()))
        } else {
            (header, Err(RequestHeaderError::AlreadySet))
        },
        _ => (header, Err(RequestHeaderError::NotANumber)),
    }
}

impl RequestHeader {
    /// Push an arbitary key-value-pair to the header.
    pub fn push(&mut self, pair: KeyValuePair)
        ensures
            final(self)@ == (RequestHeaderView { other: old(self)@.other.push(pair@), ..old(self)@ }),
    {
        proof {
            crate::lemma_pairs_push(self.other@, pair);
        }
        self.other.push(pair);
    }

    /// Calculate length of Request Body.
    pub fn bodyLength(&self) -> (length: usize)
        ensures
            length == header_body_length(self@),
    {
        if let Some(bytes) = self.contentLength {
            bytes
        } else {
            0
        }
    }

    /// Try to set a numerical header field.
    pub fn setNumber(&mut self, field: RequestHeaderField, value: usize) -> (result: Result<(), RequestHeaderError>)
        ensures
            (final(self)@, result) == header_set_number(old(self)@, field, value),
    {
        match field {
            RequestHeaderField::ContentLength => if self.contentLength.is_none() {
                self.contentLength = Some(value);
                Ok(())
            } else {
                Err(RequestHeaderError::AlreadySet)
            },
            _ => Err(RequestHeaderError::NotANumber),
        }
    }

    /// Try to set a textual header field.
    pub fn setString(&mut self, field: RequestHeaderField, value: String) -> (result: Result<(), RequestHeaderError>)
        ensures
            (final(self)@, result) == header_set_string(old(self)@, field, value@),
    {
        match field {
            RequestHeaderField::Host => if self.host.is_none() {
                self.host = Some(value);
                Ok(())
            } else {
                Err(RequestHeaderError::AlreadySet)
            },
            RequestHeaderField::UserAgent => if self.userAgent.is_none() {
                self.userAgent = Some(value);
                Ok(())
            } else {
                Err(RequestHeaderError::AlreadySet)
            },
            _ => Err(RequestHeaderError::NotANumber),
        }
    }
}

/// Failures that might occur when setting header fields.
#[derive(Clone, Copy, Debug, PartialEq, Eq, Structural)]
pub enum RequestHeaderError {
    /// Header field was already set and cannot be set twice.
    AlreadySet,
    /// Header field is of type number, but another type was provided.
    NotANumber,
}

/// Request Header Fields.
#[derive(Clone, Copy, Debug, PartialEq, Eq, Structural)]
pub enum RequestHeaderField {
    /// Set the Content Length field.
    ContentLength,
    /// Set the Host field.
    Host,
    /// Set the User Agent field.
    UserAgent,
    /// Placeholder.
    Dummy,
}

/// Setting a textual header field succeeds exactly when that field is not set yet, whatever
/// the other fields hold, and then sets that field alone to the value. Setting it again is
/// refused as already set; a field that is not textual is refused as not a number. A refused
/// setting leaves the header as it was.
pub proof fn law_set_string(header: RequestHeaderView, field: RequestHeaderField, value: Seq<char>)
    ensures
        field == RequestHeaderField::Host ==> (header_set_string(header, field, value).1 is Ok
            <==> header.host is None),
        field == RequestHeaderField::UserAgent ==> (header_set_string(header, field, value).1 is Ok
            <==> header.userAgent is None),
        header_set_string(header, field, value).1 is Ok ==> header_set_string(header, field, value).0
            == (RequestHeaderView {
            host: if field == RequestHeaderField::Host { Some(value) } else { header.host },
            userAgent: if field == RequestHeaderField::UserAgent { Some(value) } else { header.userAgent },
            ..header
        }),
        header_set_string(header, field, value).1 is Err ==> header_set_string(header, field, value).0
            == header,
        (field == RequestHeaderField::Host || field == RequestHeaderField::UserAgent)
            && header_set_string(header, field, value).1 is Err ==> header_set_string(header, field, value).1
            == Err::<(), RequestHeaderError>(RequestHeaderError::AlreadySet),
        field != RequestHeaderField::Host && field != RequestHeaderField::UserAgent ==> header_set_string(
            header,
            field,
            value,
        ).1 == Err::<(), RequestHeaderError>(RequestHeaderError::NotANumber),
{
}

/// Setting the length of the body succeeds exactly when no length is set yet, whatever the
/// other fields hold, and then sets the length alone. Setting it again is refused as already
/// set; another field is refused as not a number. A refused setting leaves the header as it
/// was.
pub proof fn law_set_number(header: RequestHeaderView, field: RequestHeaderField, value: usize)
    ensures
        field == RequestHeaderField::ContentLength ==> (header_set_number(header, field, value).1 is Ok
            <==> header.contentLength is None),
        header_set_number(header, field, value).1 is Ok ==> header_set_number(header, field, value).0
            == (RequestHeaderView { contentLength: Some(value), ..header }),
        header_set_number(header, field, value).1 is Err ==> header_set_number(header, field, value).0
            == header,
        field == RequestHeaderField::ContentLength && header_set_number(header, field, value).1 is Err
            ==> header_set_number(header, field, value).1 == Err::<(), RequestHeaderError>(
            RequestHeaderError::AlreadySet,
        ),
        field != RequestHeaderField::ContentLength ==> header_set_number(header, field, value).1
            == Err::<(), RequestHeaderError>(RequestHeaderError::NotANumber),
        header_body_length(RequestHeaderView { contentLength: Some(value), ..header }) == value,
{
}

} // verus!
