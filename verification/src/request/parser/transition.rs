use vstd::prelude::*;
use vstd::utf8::*;

use crate::method::Method;
use crate::version::Version;
use crate::Configuration;
use crate::request::{
    RequestView, RequestHeaderView, RequestHeaderField, empty_request, header_body_length,
    header_set_number, header_set_string,
};
use super::error::ParserError;

verus! {

/// State of the state machine that parses requests.
#[derive(Clone, Copy, Debug, PartialEq, Eq, Structural)]
pub enum ParserState {
    Body,
    EscapeX,
    EscapeY,
    HeaderKey,
    HeaderKeyC,
    HeaderKeyCo,
    HeaderKeyCon,
    HeaderKeyCont,
    HeaderKeyConte,
    HeaderKeyConten,
    HeaderKeyContent,
    HeaderKeyContentDash,
    HeaderKeyContentL,
    HeaderKeyContentLe,
    HeaderKeyContentLen,
    HeaderKeyContentLeng,
    HeaderKeyContentLengt,
    HeaderKeyContentLength,
    HeaderKeyCoo,
    HeaderKeyCook,
    HeaderKeyCooki,
    HeaderKeyCookie,
    HeaderKeyH,
    HeaderKeyHo,
    HeaderKeyHos,
    HeaderKeyHost,
    HeaderKeyU,
    HeaderKeyUs,
    HeaderKeyUse,
    HeaderKeyUser,
    HeaderKeyUserDash,
    HeaderKeyUserA,
    HeaderKeyUserAg,
    HeaderKeyUserAge,
    HeaderKeyUserAgen,
    HeaderKeyUserAgent,
    HeaderKeyX,
    HeaderValueAwait,
    HeaderValueParseCookieKey,
    HeaderValueParseCookieQuote,
    HeaderValueParseCookieSemicolon,
    HeaderValueParseCookieSpace,
    HeaderValueParseCookieValue,
    HeaderValueParseNumber,
    HeaderValueParseString,
    HeaderValueX,
    Method,
    MethodC,
    MethodCO,
    MethodCON,
    MethodCONN,
    MethodCONNE,
    MethodCONNEC,
    MethodD,
    MethodDE,
    MethodDEL,
    MethodDELE,
    MethodDELET,
    MethodG,
    MethodGE,
    MethodH,
    MethodHE,
    MethodHEA,
    MethodO,
    MethodOP,
    MethodOPT,
    MethodOPTI,
    MethodOPTIO,
    MethodOPTION,
    MethodP,
    MethodPA,
    MethodPAT,
    MethodPATC,
    MethodPO,
    MethodPOS,
    MethodPU,
    MethodT,
    MethodTR,
    MethodTRA,
    MethodTRAC,
    NewLineCR,
    NewLineLF,
    PathAwait,
    PathConsume,
    QueryKey,
    QueryValue,
    Version,
    VersionH,
    VersionHT,
    VersionHTT,
    VersionHTTP,
    VersionNumber,
    Version0,
    Version0P,
    Version1,
    Version1P,
    Version2,
    Version2P,
    Version3,
    Version3P,
}

/// What a `Parser` holds, as mathematical values.
pub struct ParserView {
    /// Current state of the state machine.
    pub state: ParserState,
    /// State to go to after an escape sequence or a line break.
    pub reset: ParserState,
    /// State to go to after the white space before a header value.
    pub goto: ParserState,
    /// Header field whose value is being parsed.
    pub header: RequestHeaderField,
    /// The request that is being filled.
    pub cache: RequestView,
    /// Requests parsed completely and not yet taken.
    pub requests: Seq<RequestView>,
    /// Bytes of the current token.
    pub auxiliary: Seq<u8>,
    /// Bytes of the request body that are still expected.
    pub remaining: usize,
    /// Key of the key-value-pair being parsed.
    pub key: Seq<char>,
    /// Auxiliary byte: the first byte of a header value, or the high half of an escaped byte.
    pub byte: u8,
    /// Number parsed so far from a numerical header value.
    pub value: u64,
    /// Header lines begun in the request being filled.
    pub entries: usize,
    /// Configuration of the server.
    pub configuration: Configuration,
}

/// What a transition gives: the parser afterwards and the next state, or an error.
pub type Transition = (ParserView, Result<ParserState, ParserError>);

/// The parser that no byte was fed to yet.
pub open spec fn initial(configuration: Configuration) -> ParserView {
    ParserView {
        state: ParserState::Method,
        reset: ParserState::Method,
        goto: ParserState::Method,
        header: RequestHeaderField::Dummy,
        cache: empty_request(),
        requests: Seq::empty(),
        auxiliary: Seq::empty(),
        remaining: 0,
        key: Seq::empty(),
        byte: 0,
        value: 0,
        entries: 0,
        configuration,
    }
}

/// States to which the parser returns after a line break or an escape sequence.
pub open spec fn is_reset_state(s: ParserState) -> bool {
    ||| s == ParserState::Method
    ||| s == ParserState::Body
    ||| s == ParserState::HeaderKey
    ||| s == ParserState::HeaderValueAwait
    ||| s == ParserState::PathConsume
    ||| s == ParserState::QueryKey
    ||| s == ParserState::QueryValue
    ||| s == ParserState::HeaderValueParseCookieValue
    ||| s == ParserState::HeaderValueParseString
}

/// States in which the parser reads a header value, after the white space before it.
pub open spec fn is_goto_state(s: ParserState) -> bool {
    ||| s == ParserState::Method
    ||| s == ParserState::HeaderValueX
    ||| s == ParserState::HeaderValueParseCookieKey
    ||| s == ParserState::HeaderValueParseNumber
    ||| s == ParserState::HeaderValueParseString
}

/// The invariant of a parser: it returns only to states meant for it, the body is expected
/// only when bytes of it remain, and an escaped byte does not overflow.
pub open spec fn wf(p: ParserView) -> bool {
    &&& is_reset_state(p.reset)
    &&& is_goto_state(p.goto)
    &&& p.state == ParserState::Body ==> p.remaining > 0
    &&& (p.reset == ParserState::Body && (p.state == ParserState::NewLineCR
        || p.state == ParserState::NewLineLF || p.state == ParserState::EscapeX
        || p.state == ParserState::EscapeY)) ==> p.remaining > 0
    &&& p.state == ParserState::EscapeY ==> p.byte <= 240
}

/// Bytes allowed in tokens, such as header names.
pub open spec fn is_token(b: u8) -> bool {
    ||| 0x21 <= b <= 0x26
    ||| b == 0x2a
    ||| b == 0x2b
    ||| b == 0x2d
    ||| b == 0x2e
    ||| 0x30 <= b <= 0x39
    ||| 0x41 <= b <= 0x5a
    ||| 0x5e <= b <= 0x7a
    ||| b == 0x7c
    ||| b == 0x7e
}

/// Hexadecimal digits.
pub open spec fn is_hex(b: u8) -> bool {
    ||| 0x30 <= b <= 0x39
    ||| 0x41 <= b <= 0x46
    ||| 0x61 <= b <= 0x66
}

/// The value of a hexadecimal digit.
pub open spec fn hex_value(b: u8) -> u8 {
    if 0x30 <= b <= 0x39 {
        (b - 0x30) as u8
    } else if 0x41 <= b <= 0x46 {
        (b - 0x41 + 10) as u8
    } else {
        (b - 0x61 + 10) as u8
    }
}

/// The text that a sequence of bytes encodes in UTF-8, if it is valid UTF-8.
pub open spec fn decoded(bytes: Seq<u8>) -> Option<Seq<char>> {
    if valid_utf8(bytes) {
        Some(decode_utf8(bytes))
    } else {
        None
    }
}

/// The bytes of the header name that a state of the header-name trie has read.
pub open spec fn key_prefix(s: ParserState) -> Seq<u8> {
    match s {
        ParserState::HeaderKeyC => seq![('C' as u8)],
        ParserState::HeaderKeyCo => seq![('C' as u8), ('o' as u8)],
        ParserState::HeaderKeyCon => seq![('C' as u8), ('o' as u8), ('n' as u8)],
        ParserState::HeaderKeyCont => seq![('C' as u8), ('o' as u8), ('n' as u8), ('t' as u8)],
        ParserState::HeaderKeyConte => seq![('C' as u8), ('o' as u8), ('n' as u8), ('t' as u8), ('e' as u8)],
        ParserState::HeaderKeyConten => seq![('C' as u8), ('o' as u8), ('n' as u8), ('t' as u8), ('e' as u8), ('n' as u8)],
        ParserState::HeaderKeyContent => seq![('C' as u8), ('o' as u8), ('n' as u8), ('t' as u8), ('e' as u8), ('n' as u8), ('t' as u8)],
        ParserState::HeaderKeyContentDash => seq![('C' as u8), ('o' as u8), ('n' as u8), ('t' as u8), ('e' as u8), ('n' as u8), ('t' as u8), ('-' as u8)],
        ParserState::HeaderKeyContentL => seq![('C' as u8), ('o' as u8), ('n' as u8), ('t' as u8), ('e' as u8), ('n' as u8), ('t' as u8), ('-' as u8), ('L' as u8)],
        ParserState::HeaderKeyContentLe => seq![('C' as u8), ('o' as u8), ('n' as u8), ('t' as u8), ('e' as u8), ('n' as u8), ('t' as u8), ('-' as u8), ('L' as u8), ('e' as u8)],
        ParserState::HeaderKeyContentLen => seq![('C' as u8), ('o' as u8), ('n' as u8), ('t' as u8), ('e' as u8), ('n' as u8), ('t' as u8), ('-' as u8), ('L' as u8), ('e' as u8), ('n' as u8)],
        ParserState::HeaderKeyContentLeng => seq![('C' as u8), ('o' as u8), ('n' as u8), ('t' as u8), ('e' as u8), ('n' as u8), ('t' as u8), ('-' as u8), ('L' as u8), ('e' as u8), ('n' as u8), ('g' as u8)],
        ParserState::HeaderKeyContentLengt => seq![('C' as u8), ('o' as u8), ('n' as u8), ('t' as u8), ('e' as u8), ('n' as u8), ('t' as u8), ('-' as u8), ('L' as u8), ('e' as u8), ('n' as u8), ('g' as u8), ('t' as u8)],
        ParserState::HeaderKeyContentLength => seq![('C' as u8), ('o' as u8), ('n' as u8), ('t' as u8), ('e' as u8), ('n' as u8), ('t' as u8), ('-' as u8), ('L' as u8), ('e' as u8), ('n' as u8), ('g' as u8), ('t' as u8), ('h' as u8)],
        ParserState::HeaderKeyCoo => seq![('C' as u8), ('o' as u8), ('o' as u8)],
        ParserState::HeaderKeyCook => seq![('C' as u8), ('o' as u8), ('o' as u8), ('k' as u8)],
        ParserState::HeaderKeyCooki => seq![('C' as u8), ('o' as u8), ('o' as u8), ('k' as u8), ('i' as u8)],
        ParserState::HeaderKeyCookie => seq![('C' as u8), ('o' as u8), ('o' as u8), ('k' as u8), ('i' as u8), ('e' as u8)],
        ParserState::HeaderKeyH => seq![('H' as u8)],
        ParserState::HeaderKeyHo => seq![('H' as u8), ('o' as u8)],
        ParserState::HeaderKeyHos => seq![('H' as u8), ('o' as u8), ('s' as u8)],
        ParserState::HeaderKeyHost => seq![('H' as u8), ('o' as u8), ('s' as u8), ('t' as u8)],
        ParserState::HeaderKeyU => seq![('U' as u8)],
        ParserState::HeaderKeyUs => seq![('U' as u8), ('s' as u8)],
        ParserState::HeaderKeyUse => seq![('U' as u8), ('s' as u8), ('e' as u8)],
        ParserState::HeaderKeyUser => seq![('U' as u8), ('s' as u8), ('e' as u8), ('r' as u8)],
        ParserState::HeaderKeyUserDash => seq![('U' as u8), ('s' as u8), ('e' as u8), ('r' as u8), ('-' as u8)],
        ParserState::HeaderKeyUserA => seq![('U' as u8), ('s' as u8), ('e' as u8), ('r' as u8), ('-' as u8), ('A' as u8)],
        ParserState::HeaderKeyUserAg => seq![('U' as u8), ('s' as u8), ('e' as u8), ('r' as u8), ('-' as u8), ('A' as u8), ('g' as u8)],
        ParserState::HeaderKeyUserAge => seq![('U' as u8), ('s' as u8), ('e' as u8), ('r' as u8), ('-' as u8), ('A' as u8), ('g' as u8), ('e' as u8)],
        ParserState::HeaderKeyUserAgen => seq![('U' as u8), ('s' as u8), ('e' as u8), ('r' as u8), ('-' as u8), ('A' as u8), ('g' as u8), ('e' as u8), ('n' as u8)],
        ParserState::HeaderKeyUserAgent => seq![('U' as u8), ('s' as u8), ('e' as u8), ('r' as u8), ('-' as u8), ('A' as u8), ('g' as u8), ('e' as u8), ('n' as u8), ('t' as u8)],
        _ => Seq::empty(),
    }
}

/// The parser with its token bytes taken away.
pub open spec fn take_aux(p: ParserView) -> ParserView {
    ParserView { auxiliary: Seq::empty(), ..p }
}

/// The parser with one more byte in its token.
pub open spec fn push_aux(p: ParserView, b: u8) -> ParserView {
    ParserView { auxiliary: p.auxiliary.push(b), ..p }
}

/// Go to `state`, and after it to `reset`.
pub open spec fn call(p: ParserView, state: ParserState, reset: ParserState) -> Transition {
    (ParserView { reset, ..p }, Ok(state))
}

/// The parser after the request being filled has been completed: it is queued, and
/// an empty one is filled next.
pub open spec fn done(p: ParserView) -> ParserView {
    ParserView { requests: p.requests.push(p.cache), cache: empty_request(), entries: 0, ..p }
}

/// Collect `byte` in the token and go to `state`, as long as the token stays within `limit`
/// bytes; a byte that would make it longer is refused with `error`.
pub open spec fn collect(
    p: ParserView,
    byte: u8,
    limit: usize,
    state: ParserState,
    error: ParserError,
) -> Transition {
    if p.auxiliary.len() < limit {
        (push_aux(p, byte), Ok(state))
    } else {
        (p, Err(error))
    }
}

/// Begin an escape sequence, after which the parser returns to `reset`, as long as the token
/// has room within `limit` bytes for the byte that the sequence stands for; else fail with
/// `error`.
pub open spec fn escape(p: ParserView, limit: usize, reset: ParserState, error: ParserError) -> Transition {
    if p.auxiliary.len() < limit {
        call(p, ParserState::EscapeX, reset)
    } else {
        (p, Err(error))
    }
}

/// The most bytes of the value that the parser awaits: those of a cookie, where it awaits
/// cookies; else those of a header field.
pub open spec fn value_limit(p: ParserView) -> usize {
    if p.goto == ParserState::HeaderValueParseCookieKey {
        p.configuration.maxCookieLength
    } else {
        p.configuration.maxHeaderLength
    }
}

/// The error of a value longer than `value_limit`.
pub open spec fn value_error(goto: ParserState) -> ParserError {
    if goto == ParserState::HeaderValueParseCookieKey {
        ParserError::CookieKey
    } else {
        ParserError::HeaderValue
    }
}

/// Go to `success` on `expected`, else fail with `failure`.
pub open spec fn expect(
    p: ParserView,
    input: u8,
    expected: u8,
    success: ParserState,
    failure: ParserError,
) -> Transition {
    if input == expected {
        (p, Ok(success))
    } else {
        (p, Err(failure))
    }
}

/// A step in the trie of the header names that are parsed specially: on `expected` go to
/// `success`; on another token byte, the name is an ordinary one.
pub open spec fn header(p: ParserView, input: u8, expected: u8, success: ParserState) -> Transition {
    if input == expected {
        (p, Ok(success))
    } else if is_token(input) && key_prefix(p.state).len() < p.configuration.maxHeaderLength {
        (ParserView { auxiliary: key_prefix(p.state).push(input), ..p }, Ok(ParserState::HeaderKeyX))
    } else {
        (p, Err(ParserError::HeaderKey))
    }
}

/// The last byte of a method name.
pub open spec fn method(p: ParserView, input: u8, expected: u8, m: Method) -> Transition {
    if input == expected {
        (ParserView { cache: RequestView { method: m, ..p.cache }, ..p }, Ok(ParserState::PathAwait))
    } else {
        (p, Err(ParserError::Method))
    }
}

/// After a header name of the trie: on ':' await the value and then go to `goto`; on
/// another token byte, the name is an ordinary one; any other byte is refused.
pub open spec fn parse(p: ParserView, byte: u8, goto: ParserState) -> Transition {
    if byte == (':' as u8) {
        (ParserView { goto, ..p }, Ok(ParserState::HeaderValueAwait))
    } else if is_token(byte) && key_prefix(p.state).len() < p.configuration.maxHeaderLength {
        (ParserView { auxiliary: key_prefix(p.state).push(byte), ..p }, Ok(ParserState::HeaderKeyX))
    } else {
        (p, Err(ParserError::HeaderKey))
    }
}

/// After the name of a numerical header field.
pub open spec fn parse_num(p: ParserView, byte: u8, field: RequestHeaderField) -> Transition {
    parse(ParserView { header: field, ..p }, byte, ParserState::HeaderValueParseNumber)
}

/// After the name of a textual header field.
pub open spec fn parse_str(p: ParserView, byte: u8, field: RequestHeaderField) -> Transition {
    parse(ParserView { header: field, ..p }, byte, ParserState::HeaderValueParseString)
}

/// The last byte of a version.
pub open spec fn version(p: ParserView, input: u8, expected: u8, v: Version) -> Transition {
    if input == expected {
        (
            ParserView { cache: RequestView { version: v, ..p.cache }, reset: ParserState::HeaderKey, ..p },
            Ok(ParserState::NewLineCR),
        )
    } else {
        (p, Err(ParserError::Version))
    }
}

/// A byte of the request body.
pub open spec fn body(p: ParserView, byte: u8) -> Transition {
    let auxiliary = p.auxiliary.push(byte);
    let remaining = (p.remaining - 1) as usize;
    if remaining > 0 {
        (ParserView { auxiliary, remaining, ..p }, Ok(ParserState::Body))
    } else {
        (
            done(ParserView {
                auxiliary: p.cache.content,
                remaining,
                cache: RequestView { content: auxiliary, ..p.cache },
                ..p
            }),
            Ok(ParserState::Method),
        )
    }
}

/// The high digit of an escaped byte.
pub open spec fn escape_x(p: ParserView, byte: u8) -> Transition {
    if is_hex(byte) {
        (ParserView { byte: (hex_value(byte) * 16) as u8, ..p }, Ok(ParserState::EscapeY))
    } else {
        (p, Err(ParserError::Method))
    }
}

/// The low digit of an escaped byte.
pub open spec fn escape_y(p: ParserView, byte: u8) -> Transition {
    if is_hex(byte) {
        (push_aux(p, (p.byte + hex_value(byte)) as u8), Ok(p.reset))
    } else {
        (p, Err(ParserError::Method))
    }
}

/// The first byte of a header line.
pub open spec fn header_key(p: ParserView, byte: u8) -> Transition {
    if byte == ('\r' as u8) {
        let remaining = header_body_length(p.cache.header);
        if remaining <= p.configuration.maxContentLength {
            if remaining > 0 {
                (ParserView { remaining, reset: ParserState::Body, ..p }, Ok(ParserState::NewLineLF))
            } else {
                (
                    ParserView { reset: ParserState::Method, ..done(ParserView { remaining, ..p }) },
                    Ok(ParserState::NewLineLF),
                )
            }
        } else {
            (ParserView { remaining, ..p }, Err(ParserError::Body))
        }
    } else if p.entries >= p.configuration.maxHeaderEntries {
        (p, Err(ParserError::HeaderKey))
    } else {
        let q = ParserView { entries: (p.entries + 1) as usize, ..p };
        if byte == ('C' as u8) {
            (q, Ok(ParserState::HeaderKeyC))
        } else if byte == ('H' as u8) {
            (q, Ok(ParserState::HeaderKeyH))
        } else if byte == ('U' as u8) {
            (q, Ok(ParserState::HeaderKeyU))
        } else if is_token(byte) {
            collect(q, byte, q.configuration.maxHeaderLength, ParserState::HeaderKeyX, ParserError::HeaderKey)
        } else {
            (q, Err(ParserError::HeaderKey))
        }
    }
}

/// After "Co" in a header name.
pub open spec fn header_key_co(p: ParserView, byte: u8) -> Transition {
    if byte == ('n' as u8) {
        (p, Ok(ParserState::HeaderKeyCon))
    } else if byte == ('o' as u8) {
        (p, Ok(ParserState::HeaderKeyCoo))
    } else if is_token(byte) && 2 < p.configuration.maxHeaderLength {
        (ParserView { auxiliary: seq![('C' as u8), ('o' as u8), byte], ..p }, Ok(ParserState::HeaderKeyX))
    } else if byte == (':' as u8) && 2 <= p.configuration.maxHeaderLength {
        (
            ParserView { key: seq!['C', 'o'], goto: ParserState::HeaderValueX, ..p },
            Ok(ParserState::HeaderValueAwait),
        )
    } else {
        (p, Err(ParserError::HeaderKey))
    }
}

/// In an ordinary header name.
pub open spec fn header_key_x(p: ParserView, byte: u8) -> Transition {
    if byte == (':' as u8) {
        match decoded(p.auxiliary) {
            Some(key) => (
                ParserView { key, goto: ParserState::HeaderValueX, ..take_aux(p) },
                Ok(ParserState::HeaderValueAwait),
            ),
            None => (take_aux(p), Err(ParserError::HeaderKey)),
        }
    } else if is_token(byte) {
        collect(p, byte, p.configuration.maxHeaderLength, ParserState::HeaderKeyX, ParserError::HeaderKey)
    } else {
        (p, Err(ParserError::HeaderKey))
    }
}

/// Decimal digits.
pub open spec fn is_digit(b: u8) -> bool {
    0x30 <= b <= 0x39
}

/// Bytes that may start a header value.
pub open spec fn starts_value(b: u8) -> bool {
    ||| 0x30 <= b <= 0x39
    ||| 0x41 <= b <= 0x5a
    ||| 0x61 <= b <= 0x7a
    ||| b == ('"' as u8)
    ||| b == ('*' as u8)
}

/// White space before a header value.
pub open spec fn header_value_await(p: ParserView, byte: u8) -> Transition {
    if byte == ('\r' as u8) {
        call(p, ParserState::NewLineLF, ParserState::HeaderValueAwait)
    } else if byte == (' ' as u8) || byte == ('\t' as u8) {
        (p, Ok(ParserState::HeaderValueAwait))
    } else if starts_value(byte) && p.goto == ParserState::HeaderValueParseNumber && !is_digit(byte) {
        (p, Err(ParserError::ContentLength))
    } else if starts_value(byte) {
        if p.auxiliary.len() < value_limit(p) {
            (ParserView { byte, ..push_aux(p, byte) }, Ok(p.goto))
        } else {
            (p, Err(value_error(p.goto)))
        }
    } else {
        (p, Err(ParserError::HeaderValue))
    }
}

/// A cookie's name.
pub open spec fn cookie_key(p: ParserView, byte: u8) -> Transition {
    if byte == ('=' as u8) {
        match decoded(p.auxiliary) {
            Some(key) => (ParserView { key, ..take_aux(p) }, Ok(ParserState::HeaderValueParseCookieValue)),
            None => (take_aux(p), Err(ParserError::CookieKey)),
        }
    } else if is_token(byte) {
        collect(
            p,
            byte,
            p.configuration.maxCookieLength,
            ParserState::HeaderValueParseCookieKey,
            ParserError::CookieKey,
        )
    } else {
        (p, Err(ParserError::CookieKey))
    }
}

/// A quoted cookie value.
pub open spec fn cookie_quote(p: ParserView, byte: u8) -> Transition {
    if byte == ('"' as u8) {
        (p, Ok(ParserState::HeaderValueParseCookieSemicolon))
    } else {
        collect(
            p,
            byte,
            p.configuration.maxCookieLength,
            ParserState::HeaderValueParseCookieQuote,
            ParserError::CookieValue,
        )
    }
}

/// The parser with the pair of the current key and `value` added to the cookies.
pub open spec fn add_cookie(p: ParserView, value: Seq<char>) -> ParserView {
    ParserView {
        cache: RequestView { cookies: p.cache.cookies.push((p.key, value)), ..p.cache },
        key: Seq::empty(),
        ..p
    }
}

/// The space after the semicolon that ends a cookie.
pub open spec fn cookie_space(p: ParserView, byte: u8) -> Transition {
    if byte == (' ' as u8) {
        match decoded(p.auxiliary) {
            Some(value) => (add_cookie(take_aux(p), value), Ok(ParserState::HeaderValueParseCookieKey)),
            None => (take_aux(p), Err(ParserError::CookieValue)),
        }
    } else {
        (p, Err(ParserError::CookieValue))
    }
}

/// A cookie's value.
pub open spec fn cookie_value(p: ParserView, byte: u8) -> Transition {
    if byte == ('\r' as u8) {
        match decoded(p.auxiliary) {
            Some(value) => call(add_cookie(take_aux(p), value), ParserState::NewLineLF, ParserState::HeaderKey),
            None => (take_aux(p), Err(ParserError::CookieValue)),
        }
    } else if byte == ('"' as u8) && p.auxiliary.len() == 0 {
        (p, Ok(ParserState::HeaderValueParseCookieQuote))
    } else if byte == ('%' as u8) {
        escape(
            p,
            p.configuration.maxCookieLength,
            ParserState::HeaderValueParseCookieValue,
            ParserError::CookieValue,
        )
    } else if byte == (';' as u8) {
        (p, Ok(ParserState::HeaderValueParseCookieSpace))
    } else if byte <= (' ' as u8) || byte == ('"' as u8) || byte == (',' as u8) || byte == ('\\' as u8) {
        (p, Err(ParserError::CookieValue))
    } else {
        collect(
            p,
            byte,
            p.configuration.maxCookieLength,
            ParserState::HeaderValueParseCookieValue,
            ParserError::CookieValue,
        )
    }
}

/// The number whose decimal digits were read so far, with `last` as the last digit read;
/// computed with the wrap-around of unsigned machine arithmetic.
pub open spec fn shift_digit(value: u64, last: u8) -> u64 {
    vstd::wrapping::u64_specs::wrapping_add(
        vstd::wrapping::u64_specs::wrapping_mul(10, value),
        vstd::wrapping::u8_specs::wrapping_sub(last, ('0' as u8)) as u64,
    )
}

/// A numerical header value.
pub open spec fn header_value_number(p: ParserView, byte: u8) -> Transition {
    if 0x30 <= byte <= 0x39 {
        (ParserView { value: shift_digit(p.value, p.byte), byte, ..p }, Ok(ParserState::HeaderValueParseNumber))
    } else if byte == ('\r' as u8) {
        let number = shift_digit(p.value, p.byte);
        let q = ParserView { auxiliary: Seq::empty(), value: 0, ..p };
        let (header, result) = header_set_number(p.cache.header, p.header, number as usize);
        match result {
            Ok(()) => call(
                ParserView { cache: RequestView { header, ..p.cache }, ..q },
                ParserState::NewLineLF,
                ParserState::HeaderKey,
            ),
            Err(_) => (q, Err(ParserError::HeaderValue)),
        }
    } else {
        (p, Err(ParserError::HeaderValue))
    }
}

/// A textual header value.
pub open spec fn header_value_string(p: ParserView, byte: u8) -> Transition {
    if byte == ('%' as u8) {
        escape(
            p,
            p.configuration.maxHeaderLength,
            ParserState::HeaderValueParseString,
            ParserError::HeaderValue,
        )
    } else if byte == ('\r' as u8) {
        match decoded(p.auxiliary) {
            Some(value) => {
                let (header, result) = header_set_string(p.cache.header, p.header, value);
                match result {
                    Ok(()) => call(
                        ParserView { cache: RequestView { header, ..p.cache }, ..take_aux(p) },
                        ParserState::NewLineLF,
                        ParserState::HeaderKey,
                    ),
                    Err(_) => (take_aux(p), Err(ParserError::HeaderValue)),
                }
            },
            None => (take_aux(p), Err(ParserError::HeaderValue)),
        }
    } else {
        collect(
            p,
            byte,
            p.configuration.maxHeaderLength,
            ParserState::HeaderValueParseString,
            ParserError::HeaderValue,
        )
    }
}

/// The value of an ordinary header field.
pub open spec fn header_value_x(p: ParserView, byte: u8) -> Transition {
    if byte == ('\r' as u8) {
        match decoded(p.auxiliary) {
            Some(value) => call(
                ParserView {
                    cache: RequestView {
                        header: RequestHeaderView {
                            other: p.cache.header.other.push((p.key, value)),
                            ..p.cache.header
                        },
                        ..p.cache
                    },
                    key: Seq::empty(),
                    ..take_aux(p)
                },
                ParserState::NewLineLF,
                ParserState::HeaderKey,
            ),
            None => (take_aux(p), Err(ParserError::HeaderValue)),
        }
    } else {
        collect(p, byte, p.configuration.maxHeaderLength, ParserState::HeaderValueX, ParserError::HeaderValue)
    }
}

/// The first byte of a request.
pub open spec fn method_start(p: ParserView, byte: u8) -> Transition {
    if byte == ('C' as u8) {
        (p, Ok(ParserState::MethodC))
    } else if byte == ('D' as u8) {
        (p, Ok(ParserState::MethodD))
    } else if byte == ('G' as u8) {
        (p, Ok(ParserState::MethodG))
    } else if byte == ('H' as u8) {
        (p, Ok(ParserState::MethodH))
    } else if byte == ('O' as u8) {
        (p, Ok(ParserState::MethodO))
    } else if byte == ('P' as u8) {
        (p, Ok(ParserState::MethodP))
    } else if byte == ('T' as u8) {
        (p, Ok(ParserState::MethodT))
    } else {
        (p, Err(ParserError::Method))
    }
}

/// After "P" at the start of a request.
pub open spec fn method_p(p: ParserView, byte: u8) -> Transition {
    if byte == ('A' as u8) {
        (p, Ok(ParserState::MethodPA))
    } else if byte == ('O' as u8) {
        (p, Ok(ParserState::MethodPO))
    } else if byte == ('U' as u8) {
        (p, Ok(ParserState::MethodPU))
    } else {
        (p, Err(ParserError::Method))
    }
}

/// The path of the requested resource.
pub open spec fn path_consume(p: ParserView, byte: u8) -> Transition {
    if byte == ('%' as u8) {
        escape(p, p.configuration.maxPathLength, ParserState::PathConsume, ParserError::Path)
    } else if byte == ('\r' as u8) || byte == (' ' as u8) || byte == ('?' as u8) {
        match decoded(p.auxiliary) {
            Some(path) => if byte == ('\r' as u8) {
                call(take_aux(p), ParserState::NewLineLF, ParserState::HeaderKey)
            } else if byte == (' ' as u8) {
                (ParserView { cache: RequestView { path, ..p.cache }, ..take_aux(p) }, Ok(ParserState::Version))
            } else {
                (ParserView { cache: RequestView { path, ..p.cache }, ..take_aux(p) }, Ok(ParserState::QueryKey))
            },
            None => (take_aux(p), Err(ParserError::Path)),
        }
    } else if byte == 0 || byte == ('\n' as u8) {
        (p, Err(ParserError::Path))
    } else {
        collect(p, byte, p.configuration.maxPathLength, ParserState::PathConsume, ParserError::Path)
    }
}

/// The parser with the pair `(key, value)` added to the query.
pub open spec fn add_query(p: ParserView, key: Seq<char>, value: Seq<char>) -> ParserView {
    ParserView { cache: RequestView { query: p.cache.query.push((key, value)), ..p.cache }, ..p }
}

/// The key of a query entry.
pub open spec fn query_key(p: ParserView, byte: u8) -> Transition {
    if byte == ('%' as u8) {
        call(p, ParserState::EscapeX, ParserState::QueryKey)
    } else if byte == 0 || byte == ('\n' as u8) {
        (p, Err(ParserError::Query))
    } else if byte == p.configuration.querySeperator || byte == ('\r' as u8) || byte == ('=' as u8) {
        match decoded(p.auxiliary) {
            Some(key) => if byte == ('\r' as u8) {
                call(add_query(take_aux(p), key, Seq::empty()), ParserState::NewLineLF, ParserState::HeaderKey)
            } else if byte == ('=' as u8) {
                (ParserView { key, ..take_aux(p) }, Ok(ParserState::QueryValue))
            } else {
                (add_query(take_aux(p), key, Seq::empty()), Ok(ParserState::QueryKey))
            },
            None => (take_aux(p), Err(ParserError::Query)),
        }
    } else {
        (push_aux(p, byte), Ok(ParserState::QueryKey))
    }
}

/// The value of a query entry.
pub open spec fn query_value(p: ParserView, byte: u8) -> Transition {
    if byte == ('%' as u8) {
        call(p, ParserState::EscapeX, ParserState::QueryValue)
    } else if byte == 0 || byte == ('\n' as u8) {
        (p, Err(ParserError::Query))
    } else if byte == p.configuration.querySeperator || byte == (' ' as u8) || byte == ('\r' as u8) {
        match decoded(p.auxiliary) {
            Some(value) => {
                let q = ParserView { key: Seq::empty(), ..add_query(take_aux(p), p.key, value) };
                if byte == ('\r' as u8) {
                    call(q, ParserState::NewLineLF, ParserState::HeaderKey)
                } else if byte == (' ' as u8) {
                    (q, Ok(ParserState::Version))
                } else {
                    (q, Ok(ParserState::QueryKey))
                }
            },
            None => (take_aux(p), Err(ParserError::Query)),
        }
    } else if p.auxiliary.len() <= p.configuration.maxPathLength {
        (push_aux(p, byte), Ok(ParserState::QueryValue))
    } else {
        (p, Err(ParserError::Query))
    }
}

/// The major number of the version.
pub open spec fn version_number(p: ParserView, byte: u8) -> Transition {
    if byte == ('0' as u8) {
        (p, Ok(ParserState::Version0))
    } else if byte == ('1' as u8) {
        (p, Ok(ParserState::Version1))
    } else if byte == ('2' as u8) {
        (p, Ok(ParserState::Version2))
    } else if byte == ('3' as u8) {
        (p, Ok(ParserState::Version3))
    } else {
        (p, Err(ParserError::Version))
    }
}

/// The minor number of version 1.
pub open spec fn version_1p(p: ParserView, byte: u8) -> Transition {
    if byte == ('0' as u8) {
        call(
            ParserView { cache: RequestView { version: Version::HTTP_10, ..p.cache }, ..p },
            ParserState::NewLineCR,
            ParserState::HeaderKey,
        )
    } else if byte == ('1' as u8) {
        call(
            ParserView { cache: RequestView { version: Version::HTTP_11, ..p.cache }, ..p },
            ParserState::NewLineCR,
            ParserState::HeaderKey,
        )
    } else {
        (p, Err(ParserError::Version))
    }
}

/// The transition of the state machine on one byte: the parser afterwards (whose `state`
/// is not yet changed) and the next state, or the error that the byte causes.
pub open spec fn transition(p: ParserView, byte: u8) -> Transition {
    match p.state {
        ParserState::Body => body(p, byte),
        ParserState::EscapeX => escape_x(p, byte),
        ParserState::EscapeY => escape_y(p, byte),
        ParserState::HeaderKey => header_key(p, byte),
        ParserState::HeaderKeyC => header(p, byte, ('o' as u8), ParserState::HeaderKeyCo),
        ParserState::HeaderKeyCo => header_key_co(p, byte),
        ParserState::HeaderKeyCon => header(p, byte, ('t' as u8), ParserState::HeaderKeyCont),
        ParserState::HeaderKeyCont => header(p, byte, ('e' as u8), ParserState::HeaderKeyConte),
        ParserState::HeaderKeyConte => header(p, byte, ('n' as u8), ParserState::HeaderKeyConten),
        ParserState::HeaderKeyConten => header(p, byte, ('t' as u8), ParserState::HeaderKeyContent),
        ParserState::HeaderKeyContent => header(p, byte, ('-' as u8), ParserState::HeaderKeyContentDash),
        ParserState::HeaderKeyContentDash => header(p, byte, ('L' as u8), ParserState::HeaderKeyContentL),
        ParserState::HeaderKeyContentL => header(p, byte, ('e' as u8), ParserState::HeaderKeyContentLe),
        ParserState::HeaderKeyContentLe => header(p, byte, ('n' as u8), ParserState::HeaderKeyContentLen),
        ParserState::HeaderKeyContentLen => header(p, byte, ('g' as u8), ParserState::HeaderKeyContentLeng),
        ParserState::HeaderKeyContentLeng => header(p, byte, ('t' as u8), ParserState::HeaderKeyContentLengt),
        ParserState::HeaderKeyContentLengt => header(p, byte, ('h' as u8), ParserState::HeaderKeyContentLength),
        ParserState::HeaderKeyContentLength => parse_num(p, byte, RequestHeaderField::ContentLength),
        ParserState::HeaderKeyCoo => header(p, byte, ('k' as u8), ParserState::HeaderKeyCook),
        ParserState::HeaderKeyCook => header(p, byte, ('i' as u8), ParserState::HeaderKeyCooki),
        ParserState::HeaderKeyCooki => header(p, byte, ('e' as u8), ParserState::HeaderKeyCookie),
        ParserState::HeaderKeyCookie => parse(p, byte, ParserState::HeaderValueParseCookieKey),
        ParserState::HeaderKeyH => header(p, byte, ('o' as u8), ParserState::HeaderKeyHo),
        ParserState::HeaderKeyHo => header(p, byte, ('s' as u8), ParserState::HeaderKeyHos),
        ParserState::HeaderKeyHos => header(p, byte, ('t' as u8), ParserState::HeaderKeyHost),
        ParserState::HeaderKeyHost => parse_str(p, byte, RequestHeaderField::Host),
        ParserState::HeaderKeyU => header(p, byte, ('s' as u8), ParserState::HeaderKeyUs),
        ParserState::HeaderKeyUs => header(p, byte, ('e' as u8), ParserState::HeaderKeyUse),
        ParserState::HeaderKeyUse => header(p, byte, ('r' as u8), ParserState::HeaderKeyUser),
        ParserState::HeaderKeyUser => header(p, byte, ('-' as u8), ParserState::HeaderKeyUserDash),
        ParserState::HeaderKeyUserDash => header(p, byte, ('A' as u8), ParserState::HeaderKeyUserA),
        ParserState::HeaderKeyUserA => header(p, byte, ('g' as u8), ParserState::HeaderKeyUserAg),
        ParserState::HeaderKeyUserAg => header(p, byte, ('e' as u8), ParserState::HeaderKeyUserAge),
        ParserState::HeaderKeyUserAge => header(p, byte, ('n' as u8), ParserState::HeaderKeyUserAgen),
        ParserState::HeaderKeyUserAgen => header(p, byte, ('t' as u8), ParserState::HeaderKeyUserAgent),
        ParserState::HeaderKeyUserAgent => parse_str(p, byte, RequestHeaderField::UserAgent),
        ParserState::HeaderKeyX => header_key_x(p, byte),
        ParserState::HeaderValueAwait => header_value_await(p, byte),
        ParserState::HeaderValueParseCookieKey => cookie_key(p, byte),
        ParserState::HeaderValueParseCookieQuote => cookie_quote(p, byte),
        ParserState::HeaderValueParseCookieSemicolon => expect(
            p,
            byte,
            (';' as u8),
            ParserState::HeaderValueParseCookieSpace,
            ParserError::CookieValue,
        ),
        ParserState::HeaderValueParseCookieSpace => cookie_space(p, byte),
        ParserState::HeaderValueParseCookieValue => cookie_value(p, byte),
        ParserState::HeaderValueParseNumber => header_value_number(p, byte),
        ParserState::HeaderValueParseString => header_value_string(p, byte),
        ParserState::HeaderValueX => header_value_x(p, byte),
        ParserState::Method => method_start(p, byte),
        ParserState::MethodC => expect(p, byte, ('O' as u8), ParserState::MethodCO, ParserError::Method),
        ParserState::MethodCO => expect(p, byte, ('N' as u8), ParserState::MethodCON, ParserError::Method),
        ParserState::MethodCON => expect(p, byte, ('N' as u8), ParserState::MethodCONN, ParserError::Method),
        ParserState::MethodCONN => expect(p, byte, ('E' as u8), ParserState::MethodCONNE, ParserError::Method),
        ParserState::MethodCONNE => expect(p, byte, ('C' as u8), ParserState::MethodCONNEC, ParserError::Method),
        ParserState::MethodCONNEC => method(p, byte, ('T' as u8), Method::Connect),
        ParserState::MethodD => expect(p, byte, ('E' as u8), ParserState::MethodDE, ParserError::Method),
        ParserState::MethodDE => expect(p, byte, ('L' as u8), ParserState::MethodDEL, ParserError::Method),
        ParserState::MethodDEL => expect(p, byte, ('E' as u8), ParserState::MethodDELE, ParserError::Method),
        ParserState::MethodDELE => expect(p, byte, ('T' as u8), ParserState::MethodDELET, ParserError::Method),
        ParserState::MethodDELET => method(p, byte, ('E' as u8), Method::Delete),
        ParserState::MethodG => expect(p, byte, ('E' as u8), ParserState::MethodGE, ParserError::Method),
        ParserState::MethodGE => method(p, byte, ('T' as u8), Method::Get),
        ParserState::MethodH => expect(p, byte, ('E' as u8), ParserState::MethodHE, ParserError::Method),
        ParserState::MethodHE => expect(p, byte, ('A' as u8), ParserState::MethodHEA, ParserError::Method),
        ParserState::MethodHEA => method(p, byte, ('D' as u8), Method::Head),
        ParserState::MethodO => expect(p, byte, ('P' as u8), ParserState::MethodOP, ParserError::Method),
        ParserState::MethodOP => expect(p, byte, ('T' as u8), ParserState::MethodOPT, ParserError::Method),
        ParserState::MethodOPT => expect(p, byte, ('I' as u8), ParserState::MethodOPTI, ParserError::Method),
        ParserState::MethodOPTI => expect(p, byte, ('O' as u8), ParserState::MethodOPTIO, ParserError::Method),
        ParserState::MethodOPTIO => expect(p, byte, ('N' as u8), ParserState::MethodOPTION, ParserError::Method),
        ParserState::MethodOPTION => method(p, byte, ('S' as u8), Method::Options),
        ParserState::MethodP => method_p(p, byte),
        ParserState::MethodPA => expect(p, byte, ('T' as u8), ParserState::MethodPAT, ParserError::Method),
        ParserState::MethodPAT => expect(p, byte, ('C' as u8), ParserState::MethodPATC, ParserError::Method),
        ParserState::MethodPATC => method(p, byte, ('H' as u8), Method::Patch),
        ParserState::MethodPO => expect(p, byte, ('S' as u8), ParserState::MethodPOS, ParserError::Method),
        ParserState::MethodPOS => method(p, byte, ('T' as u8), Method::Post),
        ParserState::MethodPU => method(p, byte, ('T' as u8), Method::Put),
        ParserState::MethodT => expect(p, byte, ('R' as u8), ParserState::MethodTR, ParserError::Method),
        ParserState::MethodTR => expect(p, byte, ('A' as u8), ParserState::MethodTRA, ParserError::Method),
        ParserState::MethodTRA => expect(p, byte, ('C' as u8), ParserState::MethodTRAC, ParserError::Method),
        ParserState::MethodTRAC => method(p, byte, ('E' as u8), Method::Trace),
        ParserState::NewLineCR => expect(p, byte, ('\r' as u8), ParserState::NewLineLF, ParserError::CarriageReturn),
        ParserState::NewLineLF => expect(p, byte, ('\n' as u8), p.reset, ParserError::LineFeed),
        ParserState::PathAwait => expect(p, byte, (' ' as u8), ParserState::PathConsume, ParserError::Method),
        ParserState::PathConsume => path_consume(p, byte),
        ParserState::QueryKey => query_key(p, byte),
        ParserState::QueryValue => query_value(p, byte),
        ParserState::Version => expect(p, byte, ('H' as u8), ParserState::VersionH, ParserError::Version),
        ParserState::VersionH => expect(p, byte, ('T' as u8), ParserState::VersionHT, ParserError::Version),
        ParserState::VersionHT => expect(p, byte, ('T' as u8), ParserState::VersionHTT, ParserError::Version),
        ParserState::VersionHTT => expect(p, byte, ('P' as u8), ParserState::VersionHTTP, ParserError::Version),
        ParserState::VersionHTTP => expect(p, byte, ('/' as u8), ParserState::VersionNumber, ParserError::Version),
        ParserState::VersionNumber => version_number(p, byte),
        ParserState::Version0 => expect(p, byte, ('.' as u8), ParserState::Version0P, ParserError::Version),
        ParserState::Version0P => version(p, byte, ('9' as u8), Version::HTTP_09),
        ParserState::Version1 => expect(p, byte, ('.' as u8), ParserState::Version1P, ParserError::Version),
        ParserState::Version1P => version_1p(p, byte),
        ParserState::Version2 => expect(p, byte, ('.' as u8), ParserState::Version2P, ParserError::Version),
        ParserState::Version2P => version(p, byte, ('0' as u8), Version::HTTP_2),
        ParserState::Version3 => expect(p, byte, ('.' as u8), ParserState::Version3P, ParserError::Version),
        ParserState::Version3P => version(p, byte, ('0' as u8), Version::HTTP_3),
    }
}

/// Feeding one byte: the parser afterwards, in the next state, or the error, after which
/// the state is unchanged.
pub open spec fn step(p: ParserView, byte: u8) -> (ParserView, Option<ParserError>) {
    let (q, result) = transition(p, byte);
    match result {
        Ok(state) => (ParserView { state, ..q }, None),
        Err(error) => (q, Some(error)),
    }
}

/// Feeding a sequence of bytes, up to the first that causes an error.
pub open spec fn run(p: ParserView, bytes: Seq<u8>) -> (ParserView, Option<ParserError>)
    decreases bytes.len(),
{
    if bytes.len() == 0 {
        (p, None)
    } else {
        let (q, error) = step(p, bytes[0]);
        if error is Some {
            (q, error)
        } else {
            run(q, bytes.drop_first())
        }
    }
}


/// What a step keeps: the invariant, the configuration, and the requests completed
/// before, to which it adds at most the one that was being filled.
pub open spec fn step_keeps(p: ParserView, q: ParserView) -> bool {
    &&& wf(q)
    &&& q.configuration == p.configuration
    &&& (q.requests == p.requests || (q.requests.len() == p.requests.len() + 1
        && q.requests.drop_last() == p.requests))
}

proof fn lemma_keeps_key(p: ParserView, byte: u8)
    requires
        wf(p),
        p.state == ParserState::HeaderKeyC || p.state == ParserState::HeaderKeyCon || p.state == ParserState::HeaderKeyCont || p.state == ParserState::HeaderKeyConte || p.state == ParserState::HeaderKeyConten || p.state == ParserState::HeaderKeyContent || p.state == ParserState::HeaderKeyContentDash || p.state == ParserState::HeaderKeyContentL || p.state == ParserState::HeaderKeyContentLe || p.state == ParserState::HeaderKeyContentLen || p.state == ParserState::HeaderKeyContentLeng || p.state == ParserState::HeaderKeyContentLengt || p.state == ParserState::HeaderKeyContentLength || p.state == ParserState::HeaderKeyCoo || p.state == ParserState::HeaderKeyCook || p.state == ParserState::HeaderKeyCooki || p.state == ParserState::HeaderKeyCookie || p.state == ParserState::HeaderKeyH || p.state == ParserState::HeaderKeyHo || p.state == ParserState::HeaderKeyHos || p.state == ParserState::HeaderKeyHost || p.state == ParserState::HeaderKeyU || p.state == ParserState::HeaderKeyUs || p.state == ParserState::HeaderKeyUse || p.state == ParserState::HeaderKeyUser || p.state == ParserState::HeaderKeyUserDash || p.state == ParserState::HeaderKeyUserA || p.state == ParserState::HeaderKeyUserAg || p.state == ParserState::HeaderKeyUserAge || p.state == ParserState::HeaderKeyUserAgen || p.state == ParserState::HeaderKeyUserAgent,
    ensures
        step_keeps(p, step(p, byte).0),
{
}

proof fn lemma_keeps_method(p: ParserView, byte: u8)
    requires
        wf(p),
        p.state == ParserState::Method || p.state == ParserState::MethodC || p.state == ParserState::MethodCO || p.state == ParserState::MethodCON || p.state == ParserState::MethodCONN || p.state == ParserState::MethodCONNE || p.state == ParserState::MethodCONNEC || p.state == ParserState::MethodD || p.state == ParserState::MethodDE || p.state == ParserState::MethodDEL || p.state == ParserState::MethodDELE || p.state == ParserState::MethodDELET || p.state == ParserState::MethodG || p.state == ParserState::MethodGE || p.state == ParserState::MethodH || p.state == ParserState::MethodHE || p.state == ParserState::MethodHEA || p.state == ParserState::MethodO || p.state == ParserState::MethodOP || p.state == ParserState::MethodOPT || p.state == ParserState::MethodOPTI || p.state == ParserState::MethodOPTIO || p.state == ParserState::MethodOPTION || p.state == ParserState::MethodP || p.state == ParserState::MethodPA || p.state == ParserState::MethodPAT || p.state == ParserState::MethodPATC || p.state == ParserState::MethodPO || p.state == ParserState::MethodPOS || p.state == ParserState::MethodPU || p.state == ParserState::MethodT || p.state == ParserState::MethodTR || p.state == ParserState::MethodTRA || p.state == ParserState::MethodTRAC,
    ensures
        step_keeps(p, step(p, byte).0),
{
}

proof fn lemma_keeps_version(p: ParserView, byte: u8)
    requires
        wf(p),
        p.state == ParserState::Version || p.state == ParserState::VersionH || p.state == ParserState::VersionHT || p.state == ParserState::VersionHTT || p.state == ParserState::VersionHTTP || p.state == ParserState::VersionNumber || p.state == ParserState::Version0 || p.state == ParserState::Version0P || p.state == ParserState::Version1 || p.state == ParserState::Version2 || p.state == ParserState::Version2P || p.state == ParserState::Version3 || p.state == ParserState::Version3P,
    ensures
        step_keeps(p, step(p, byte).0),
{
}

proof fn lemma_keeps_other(p: ParserView, byte: u8)
    requires
        wf(p),
        p.state == ParserState::HeaderValueParseCookieQuote || p.state == ParserState::HeaderValueParseCookieSemicolon || p.state == ParserState::PathAwait,
    ensures
        step_keeps(p, step(p, byte).0),
{
}

proof fn lemma_keeps_Body(p: ParserView, byte: u8)
    requires
        wf(p),
        p.state == ParserState::Body,
    ensures
        step_keeps(p, step(p, byte).0),
{
    let q = step(p, byte).0;
    if q.requests != p.requests {
        assert(q.requests.drop_last() =~= p.requests);
    }
}

proof fn lemma_keeps_EscapeX(p: ParserView, byte: u8)
    requires
        wf(p),
        p.state == ParserState::EscapeX,
    ensures
        step_keeps(p, step(p, byte).0),
{
}

proof fn lemma_keeps_EscapeY(p: ParserView, byte: u8)
    requires
        wf(p),
        p.state == ParserState::EscapeY,
    ensures
        step_keeps(p, step(p, byte).0),
{
}

proof fn lemma_keeps_HeaderKey(p: ParserView, byte: u8)
    requires
        wf(p),
        p.state == ParserState::HeaderKey,
    ensures
        step_keeps(p, step(p, byte).0),
{
    let q = step(p, byte).0;
    if q.requests != p.requests {
        assert(q.requests.drop_last() =~= p.requests);
    }
}

proof fn lemma_keeps_NewLineCR(p: ParserView, byte: u8)
    requires
        wf(p),
        p.state == ParserState::NewLineCR,
    ensures
        step_keeps(p, step(p, byte).0),
{
}

proof fn lemma_keeps_NewLineLF(p: ParserView, byte: u8)
    requires
        wf(p),
        p.state == ParserState::NewLineLF,
    ensures
        step_keeps(p, step(p, byte).0),
{
}

proof fn lemma_keeps_HeaderValueAwait(p: ParserView, byte: u8)
    requires
        wf(p),
        p.state == ParserState::HeaderValueAwait,
    ensures
        step_keeps(p, step(p, byte).0),
{
}

proof fn lemma_keeps_HeaderValueParseCookieValue(p: ParserView, byte: u8)
    requires
        wf(p),
        p.state == ParserState::HeaderValueParseCookieValue,
    ensures
        step_keeps(p, step(p, byte).0),
{
}

proof fn lemma_keeps_HeaderValueParseNumber(p: ParserView, byte: u8)
    requires
        wf(p),
        p.state == ParserState::HeaderValueParseNumber,
    ensures
        step_keeps(p, step(p, byte).0),
{
}

proof fn lemma_keeps_HeaderValueParseString(p: ParserView, byte: u8)
    requires
        wf(p),
        p.state == ParserState::HeaderValueParseString,
    ensures
        step_keeps(p, step(p, byte).0),
{
}

proof fn lemma_keeps_HeaderValueX(p: ParserView, byte: u8)
    requires
        wf(p),
        p.state == ParserState::HeaderValueX,
    ensures
        step_keeps(p, step(p, byte).0),
{
}

proof fn lemma_keeps_PathConsume(p: ParserView, byte: u8)
    requires
        wf(p),
        p.state == ParserState::PathConsume,
    ensures
        step_keeps(p, step(p, byte).0),
{
}

proof fn lemma_keeps_QueryKey(p: ParserView, byte: u8)
    requires
        wf(p),
        p.state == ParserState::QueryKey,
    ensures
        step_keeps(p, step(p, byte).0),
{
}

proof fn lemma_keeps_QueryValue(p: ParserView, byte: u8)
    requires
        wf(p),
        p.state == ParserState::QueryValue,
    ensures
        step_keeps(p, step(p, byte).0),
{
}

proof fn lemma_keeps_HeaderKeyX(p: ParserView, byte: u8)
    requires
        wf(p),
        p.state == ParserState::HeaderKeyX,
    ensures
        step_keeps(p, step(p, byte).0),
{
}

proof fn lemma_keeps_HeaderKeyCo(p: ParserView, byte: u8)
    requires
        wf(p),
        p.state == ParserState::HeaderKeyCo,
    ensures
        step_keeps(p, step(p, byte).0),
{
}

proof fn lemma_keeps_HeaderValueParseCookieKey(p: ParserView, byte: u8)
    requires
        wf(p),
        p.state == ParserState::HeaderValueParseCookieKey,
    ensures
        step_keeps(p, step(p, byte).0),
{
}

proof fn lemma_keeps_HeaderValueParseCookieSpace(p: ParserView, byte: u8)
    requires
        wf(p),
        p.state == ParserState::HeaderValueParseCookieSpace,
    ensures
        step_keeps(p, step(p, byte).0),
{
}

proof fn lemma_keeps_Version1P(p: ParserView, byte: u8)
    requires
        wf(p),
        p.state == ParserState::Version1P,
    ensures
        step_keeps(p, step(p, byte).0),
{
}

/// Every byte keeps the invariant of the parser, whether it is accepted or not; it keeps
/// the configuration and completes at most one request, which it queues after the others.
pub proof fn lemma_step_keeps(p: ParserView, byte: u8)
    requires
        wf(p),
    ensures
        step_keeps(p, step(p, byte).0),
{
    match p.state {
        ParserState::Body => lemma_keeps_Body(p, byte),
        ParserState::EscapeX => lemma_keeps_EscapeX(p, byte),
        ParserState::EscapeY => lemma_keeps_EscapeY(p, byte),
        ParserState::HeaderKey => lemma_keeps_HeaderKey(p, byte),
        ParserState::NewLineCR => lemma_keeps_NewLineCR(p, byte),
        ParserState::NewLineLF => lemma_keeps_NewLineLF(p, byte),
        ParserState::HeaderValueAwait => lemma_keeps_HeaderValueAwait(p, byte),
        ParserState::HeaderValueParseCookieValue => lemma_keeps_HeaderValueParseCookieValue(p, byte),
        ParserState::HeaderValueParseNumber => lemma_keeps_HeaderValueParseNumber(p, byte),
        ParserState::HeaderValueParseString => lemma_keeps_HeaderValueParseString(p, byte),
        ParserState::HeaderValueX => lemma_keeps_HeaderValueX(p, byte),
        ParserState::PathConsume => lemma_keeps_PathConsume(p, byte),
        ParserState::QueryKey => lemma_keeps_QueryKey(p, byte),
        ParserState::QueryValue => lemma_keeps_QueryValue(p, byte),
        ParserState::HeaderKeyX => lemma_keeps_HeaderKeyX(p, byte),
        ParserState::HeaderKeyCo => lemma_keeps_HeaderKeyCo(p, byte),
        ParserState::HeaderValueParseCookieKey => lemma_keeps_HeaderValueParseCookieKey(p, byte),
        ParserState::HeaderValueParseCookieSpace => lemma_keeps_HeaderValueParseCookieSpace(p, byte),
        ParserState::Version1P => lemma_keeps_Version1P(p, byte),
        ParserState::HeaderKeyC | ParserState::HeaderKeyCon | ParserState::HeaderKeyCont | ParserState::HeaderKeyConte | ParserState::HeaderKeyConten | ParserState::HeaderKeyContent | ParserState::HeaderKeyContentDash | ParserState::HeaderKeyContentL | ParserState::HeaderKeyContentLe | ParserState::HeaderKeyContentLen | ParserState::HeaderKeyContentLeng | ParserState::HeaderKeyContentLengt | ParserState::HeaderKeyContentLength | ParserState::HeaderKeyCoo | ParserState::HeaderKeyCook | ParserState::HeaderKeyCooki | ParserState::HeaderKeyCookie | ParserState::HeaderKeyH | ParserState::HeaderKeyHo | ParserState::HeaderKeyHos | ParserState::HeaderKeyHost | ParserState::HeaderKeyU | ParserState::HeaderKeyUs | ParserState::HeaderKeyUse | ParserState::HeaderKeyUser | ParserState::HeaderKeyUserDash | ParserState::HeaderKeyUserA | ParserState::HeaderKeyUserAg | ParserState::HeaderKeyUserAge | ParserState::HeaderKeyUserAgen | ParserState::HeaderKeyUserAgent => lemma_keeps_key(p, byte),
        ParserState::Method | ParserState::MethodC | ParserState::MethodCO | ParserState::MethodCON | ParserState::MethodCONN | ParserState::MethodCONNE | ParserState::MethodCONNEC | ParserState::MethodD | ParserState::MethodDE | ParserState::MethodDEL | ParserState::MethodDELE | ParserState::MethodDELET | ParserState::MethodG | ParserState::MethodGE | ParserState::MethodH | ParserState::MethodHE | ParserState::MethodHEA | ParserState::MethodO | ParserState::MethodOP | ParserState::MethodOPT | ParserState::MethodOPTI | ParserState::MethodOPTIO | ParserState::MethodOPTION | ParserState::MethodP | ParserState::MethodPA | ParserState::MethodPAT | ParserState::MethodPATC | ParserState::MethodPO | ParserState::MethodPOS | ParserState::MethodPU | ParserState::MethodT | ParserState::MethodTR | ParserState::MethodTRA | ParserState::MethodTRAC => lemma_keeps_method(p, byte),
        ParserState::Version | ParserState::VersionH | ParserState::VersionHT | ParserState::VersionHTT | ParserState::VersionHTTP | ParserState::VersionNumber | ParserState::Version0 | ParserState::Version0P | ParserState::Version1 | ParserState::Version2 | ParserState::Version2P | ParserState::Version3 | ParserState::Version3P => lemma_keeps_version(p, byte),
        ParserState::HeaderValueParseCookieQuote | ParserState::HeaderValueParseCookieSemicolon | ParserState::PathAwait => lemma_keeps_other(p, byte),
    }
}

/// A transition only computes the next state: the parser it gives back is still in the
/// state it was in, whether the byte is taken or refused. Entering the next state is left to
/// the caller (`step`).
pub proof fn law_transition_keeps_state(p: ParserView, byte: u8)
    ensures
        transition(p, byte).0.state == p.state,
{
}

} // verus!
