use vstd::prelude::*;

verus! {

/// Type of Failure while Request-Parsing.
#[derive(Clone, Copy, Debug, PartialEq, Eq, Structural)]
pub enum ParserError {
    /// Body is too long.
    Body,
    /// Carriage Return expected.
    CarriageReturn,
    /// Cannot Parse Content Length.
    ContentLength,
    /// An Error occured while parsing a Header Key of the Request.
    HeaderKey,
    /// An Error occured while parsing a Header Value of the Request.
    HeaderValue,
    /// An Error occured while parsing a Cookie Key of the Request.
    CookieKey,
    /// An Error occured while parsing a Cookie Value of the Request.
    CookieValue,
    /// Line Feed expected.
    LineFeed,
    /// An Error occured while parsing the Method of the Request.
    Method,
    /// An Error occured while parsing the Path of the Request.
    Path,
    /// An Error occured while parsing the Query of the Request.
    Query,
    /// An Error occured while parsing the Version of the Request.
    Version,
}

/// The message that describes a parser error.
pub open spec fn error_message(error: ParserError) -> Seq<char> {
    match error {
        ParserError::Body => "Body too long."@,
        ParserError::CarriageReturn => "Carriage Return expected."@,
        ParserError::ContentLength => "Cannot Parse Content Length."@,
        ParserError::HeaderKey => "An Error occured while parsing a Header Key of the Request."@,
        ParserError::HeaderValue => "An Error occured while parsing a Header Value of the Request."@,
        ParserError::CookieKey => "An Error occured while parsing a Cookie Key of the Request."@,
        ParserError::CookieValue => "An Error occured while parsing a Cookie Value of the Request."@,
        ParserError::LineFeed => "Line Feed expected."@,
        ParserError::Method => "An Error occured while parsing the Method of the Request."@,
        ParserError::Path => "An Error occured while parsing the Path of the Request."@,
        ParserError::Query => "An Error occured while parsing the Query of the Request."@,
        ParserError::Version => "An Error occured while parsing the Version of the Request."@,
    }
}

impl ParserError {
    /// The message that describes this error.
    pub fn to_string(&self) -> (text: String)
        ensures
            text@ == error_message(*self),
    {
        let text: &str = match self {
            ParserError::Body => "Body too long.",
            ParserError::CarriageReturn => "Carriage Return expected.",
            ParserError::ContentLength => "Cannot Parse Content Length.",
            ParserError::HeaderKey => "An Error occured while parsing a Header Key of the Request.",
            ParserError::HeaderValue => "An Error occured while parsing a Header Value of the Request.",
            ParserError::CookieKey => "An Error occured while parsing a Cookie Key of the Request.",
            ParserError::CookieValue => "An Error occured while parsing a Cookie Value of the Request.",
            ParserError::LineFeed => "Line Feed expected.",
            ParserError::Method => "An Error occured while parsing the Method of the Request.",
            ParserError::Path => "An Error occured while parsing the Path of the Request.",
            ParserError::Query => "An Error occured while parsing the Query of the Request.",
            ParserError::Version => "An Error occured while parsing the Version of the Request.",
        };
        text.to_owned()
    }
}

} // verus!
