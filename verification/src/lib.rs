//! Simple server that speaks the Hyper Text Transfer Protocol: the request parser,
//! the response encoder and the decisions of a connection.
#![allow(non_snake_case)]

use vstd::prelude::*;

pub mod header;
pub mod method;
pub mod path;
pub mod request;
pub mod response;
pub mod status;
pub mod version;

use crate::request::Request;
use crate::request::parser::error::ParserError;
use crate::status::Status;

verus! {

/// Configuration of the request parser and of the connections of the server.
#[derive(Clone, Copy, Debug)]
pub struct Configuration {
    /// Split Key-Value-Pairs of the Query at this character.
    pub querySeperator: u8,
    /// Maximum Bytes of Request Content.
    /// Prevents DOS by Allocation a large Buffer (Header >Content-Length< could contain any decimal value) without ever filling it.
    pub maxContentLength: usize,
    /// Maximum Numbers of Headers: a request with more header lines is refused.
    /// Prevents Slow Lorris Attacks.
    pub maxHeaderEntries: usize,
    /// Maximum Length of a single Header Entry: of the name and of the value of a header
    /// field, in bytes; longer ones are refused.
    pub maxHeaderLength: usize,
    /// Maximum Length of a single Cookie Field in Header: of the name and of the value of a
    /// cookie, in bytes; longer ones are refused.
    pub maxCookieLength: usize,
    /// Maximum Length of Path, in bytes; a longer path is refused. The value of a query entry
    /// may hold one byte more. Prevents Slow Lorris Attacks.
    pub maxPathLength: usize,
    /// Nanoseconds after which reading from a connection without receiving a `Request` times out.
    pub readTimeOut: u128,
}

/// Content of a Hyper Text Transfer Protocol Response.
pub struct Content {
    /// Status of the response that carries this content.
    pub statusCode: Status,
    /// Media type of the body.
    pub contentType: &'static str,
    /// The body.
    pub contentBody: Vec<u8>,
}

/// Constructor for `Content`.
pub fn Content(statusCode: Status, contentType: &'static str, contentBody: Vec<u8>) -> (content: Content)
    ensures
        content.statusCode == statusCode,
        content.contentType@ == contentType@,
        content.contentBody@ == contentBody@,
{
    Content { statusCode, contentType, contentBody }
}

/// Why the server closes a connection.
#[derive(Clone, Copy, Debug, PartialEq, Eq, Structural)]
pub enum CloseReason {
    /// The client sent an empty packet: it closed the connection.
    ClientClosed,
    /// Reading from the connection failed.
    ReadFailed,
    /// The bytes received are no request.
    ParseFailed(ParserError),
    /// No request was completed for longer than the configured time.
    TimedOut,
}

/// What the server does next with a connection, after reading from it.
pub enum ConnectionAction {
    /// Respond to each of these requests, in order, then read again.
    Respond(Vec<Request>),
    /// Read again.
    Continue,
    /// Close the connection.
    Close(CloseReason),
}

/// Simple Key-Value-Pair. E.g. for header-fields, Queries, etc.
#[derive(Debug)]
pub struct KeyValuePair {
    /// Key.
    pub key: String,
    /// Value.
    pub value: String,
}

impl View for KeyValuePair {
    type V = (Seq<char>, Seq<char>);

    open spec fn view(&self) -> (Seq<char>, Seq<char>) {
        (self.key@, self.value@)
    }
}

/// The contents of a list of key-value-pairs.
pub open spec fn pairs_view(pairs: Seq<KeyValuePair>) -> Seq<(Seq<char>, Seq<char>)> {
    pairs.map_values(|pair: KeyValuePair| pair@)
}

/// std's `String::push`, which its documentation says appends the character to the end
/// of the string.
pub assume_specification[ String::push ](string: &mut String, ch: char)
    ensures
        final(string)@ == old(string)@.push(ch),
;

/// Pushing a pair onto a list pushes its contents onto the contents of the list.
pub proof fn lemma_pairs_push(pairs: Seq<KeyValuePair>, pair: KeyValuePair)
    ensures
        pairs_view(pairs.push(pair)) == pairs_view(pairs).push(pair@),
{
    assert(pairs_view(pairs.push(pair)) =~= pairs_view(pairs).push(pair@));
}

} // verus!
