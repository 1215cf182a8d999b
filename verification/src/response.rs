use vstd::prelude::*;
use vstd::utf8::encode_utf8;

use crate::{Content, KeyValuePair, pairs_view, lemma_pairs_push};
use crate::status::{Status, status_text};
use crate::version::{Version, version_text};

verus! {

/// Hyper Text Transfer Protocol Response.
pub struct Response {
    /// Protocol Version.
    pub version: Version,
    /// Status Code.
    pub status: Status,
    /// List of Header Key Value Pairs.
    pub header: Vec<KeyValuePair>,
    /// Content of Response.
    pub content: Vec<u8>,
}

/// What a `Response` holds, as mathematical values.
pub struct ResponseView {
    pub version: Version,
    pub status: Status,
    pub header: Seq<(Seq<char>, Seq<char>)>,
    pub content: Seq<u8>,
}

impl View for Response {
    type V = ResponseView;

    open spec fn view(&self) -> ResponseView {
        ResponseView {
            version: self.version,
            status: self.status,
            header: pairs_view(self.header@),
            content: self.content@,
        }
    }
}

/// The dummy response.
pub open spec fn default_response() -> ResponseView {
    ResponseView { version: Version::HTTP_10, status: Status::OK, header: Seq::empty(), content: Seq::empty() }
}

/// Constructor for a dummy `Response`.
pub fn Response() -> (response: Response)
    ensures
        response@ == default_response(),
{
    let response = Response {
        version: Version::HTTP_10,
        status: Status::OK,
        header: Vec::new(),
        content: Vec::new(),
    };
    assert(response@.header =~= Seq::empty());
    response
}

/// The header fields of a response, each on a line of its own: "key: value".
pub open spec fn header_lines(header: Seq<(Seq<char>, Seq<char>)>) -> Seq<char>
    decreases header.len(),
{
    if header.len() == 0 {
        Seq::empty()
    } else {
        header_lines(header.drop_last()) + header.last().0 + ": "@ + header.last().1 + "\r\n"@
    }
}

/// The head of a response: the status line, the header fields and the empty line.
pub open spec fn response_head(response: ResponseView) -> Seq<char> {
    version_text(response.version) + " "@ + status_text(response.status) + "\r\n"@
        + header_lines(response.header) + "\r\n"@
}

/// The text of a digit.
pub open spec fn digit_text(d: nat) -> Seq<char> {
    if d == 0 {
        "0"@
    } else if d == 1 {
        "1"@
    } else if d == 2 {
        "2"@
    } else if d == 3 {
        "3"@
    } else if d == 4 {
        "4"@
    } else if d == 5 {
        "5"@
    } else if d == 6 {
        "6"@
    } else if d == 7 {
        "7"@
    } else if d == 8 {
        "8"@
    } else {
        "9"@
    }
}

/// The decimal notation of a number, without leading zeros.
pub open spec fn decimal_text(n: nat) -> Seq<char>
    decreases n,
{
    if n < 10 {
        digit_text(n)
    } else {
        decimal_text(n / 10) + digit_text(n % 10)
    }
}

/// The decimal notation of a number.
fn decimal(n: usize) -> (text: String)
    ensures
        text@ == decimal_text(n as nat),
    decreases n,
{
    let digit: &str = match n % 10 {
        0 => "0",
        1 => "1",
        2 => "2",
        3 => "3",
        4 => "4",
        5 => "5",
        6 => "6",
        7 => "7",
        8 => "8",
        _ => "9",
    };
    if n < 10 {
        digit.to_owned()
    } else {
        let mut text = decimal(n / 10);
        text.append(digit);
        text
    }
}

/// Append bytes to a buffer.
fn appendBytes(buffer: &mut Vec<u8>, bytes: &[u8])
    ensures
        final(buffer)@ == old(buffer)@ + bytes@,
{
    let mut index: usize = 0;
    while index < bytes.len()
        invariant
            index <= bytes@.len(),
            buffer@ == old(buffer)@ + bytes@.take(index as int),
        decreases bytes@.len() - index,
    {
        buffer.push(bytes[index]);
        index = index + 1;
        assert(buffer@ =~= old(buffer)@ + bytes@.take(index as int));
    }
    assert(bytes@.take(index as int) =~= bytes@);
}

impl Response {
    /// Consumes `Response` and converts it to `Vec<u8>`: the head in UTF-8, then the content.
    pub fn into_vector(self) -> (bytes: Vec<u8>)
        ensures
            bytes@ == encode_utf8(response_head(self@)) + self@.content,
    {
        let mut head = self.version.to_string();
        head.append(" ");
        let status = self.status.to_string();
        head.append(status.as_str());
        head.append("\r\n");
        let mut index: usize = 0;
        while index < self.header.len()
            invariant
                index <= self.header@.len(),
                head@ == version_text(self.version) + " "@ + status_text(self.status) + "\r\n"@
                    + header_lines(pairs_view(self.header@).take(index as int)),
            decreases self.header@.len() - index,
        {
            let pair = &self.header[index];
            head.append(pair.key.as_str());
            head.append(": ");
            head.append(pair.value.as_str());
            head.append("\r\n");
            proof {
                let pairs = pairs_view(self.header@);
                assert(pairs.take(index + 1).drop_last() =~= pairs.take(index as int));
            }
            index = index + 1;
        }
        assert(pairs_view(self.header@).take(index as int) =~= pairs_view(self.header@));
        head.append("\r\n");
        let mut buffer: Vec<u8> = Vec::new();
        appendBytes(&mut buffer, head.as_str().as_bytes());
        let mut content = self.content;
        buffer.append(&mut content);
        buffer
    }

    /// Add a `header`-value to `Response` in an OOP-Style.
    pub fn addHeader(self, key: String, value: String) -> (response: Self)
        ensures
            response@ == (ResponseView { header: self@.header.push((key@, value@)), ..self@ }),
    {
        let mut response = self;
        let pair = KeyValuePair { key, value };
        proof {
            lemma_pairs_push(response.header@, pair);
        }
        response.header.push(pair);
        response
    }

    /// Set `version` of `Response` in an OOP-Style.
    pub fn version(self, version: Version) -> (response: Self)
        ensures
            response@ == (ResponseView { version, ..self@ }),
    {
        let mut response = self;
        response.version = version;
        response
    }

    /// Set `status` of `Response` in an OOP-Style.
    pub fn status(self, status: Status) -> (response: Self)
        ensures
            response@ == (ResponseView { status, ..self@ }),
    {
        let mut response = self;
        response.status = status;
        response
    }

    /// Set `content` of `Response` in an OOP-Style: its body and status, and the header fields
    /// that give the type and the length of the body.
    pub fn content(self, this: Content) -> (response: Self)
        ensures
            response@ == (ResponseView {
                status: this.statusCode,
                content: this.contentBody@,
                header: self@.header.push(("Content-Type"@, this.contentType@)).push(
                    ("Content-Length"@, decimal_text(this.contentBody@.len())),
                ),
                ..self@
            }),
    {
        let length = this.contentBody.len();
        let mut response = self;
        response.content = this.contentBody;
        response.status = this.statusCode;
        response.addHeader("Content-Type".to_owned(), this.contentType.to_owned()).addHeader(
            "Content-Length".to_owned(),
            decimal(length),
        )
    }
}

} // verus!
