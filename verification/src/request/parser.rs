use vstd::prelude::*;
use vstd::utf8::{valid_utf8, decode_utf8};

use crate::{CloseReason, Configuration, ConnectionAction, KeyValuePair, lemma_pairs_push};
use crate::method::Method;
use crate::version::Version;
use crate::request::{Request, RequestHeaderField, requests_view, lemma_requests_push};

/// Request-Parser Errors.
pub mod error;
/// States and transitions of the state machine, as mathematical functions.
pub mod transition;
/// What the state machine guarantees over whole sequences of bytes.
pub mod laws;

use self::error::ParserError;
use self::transition::{ParserState, ParserView, Transition, decoded, is_token, wf, run};

verus! {

/// Builds a string from bytes that hold its UTF-8 encoding: std's `String::from_utf8`,
/// whose documentation says that it succeeds exactly on valid UTF-8, and then holds the
/// characters that the bytes encode. The error, which only says why the bytes were invalid,
/// is dropped.
#[verifier::external_body]
fn string_from_utf8(bytes: Vec<u8>) -> (text: Option<String>)
    ensures
        text is Some <==> valid_utf8(bytes@),
        text matches Some(t) ==> t@ == decode_utf8(bytes@),
{
    String::from_utf8(bytes).ok()
}

/// The state machine of the parser and what it has read so far.
#[derive(Debug)]
struct Machine {
    /// Current State of the State Machine.
    state: ParserState,
    /// Reset State of the State Machine, for `EscapeX`/`EscapeY` and `NewLineCR`/`NewLineLF`.
    reset: ParserState,
    /// Auxiliary State of the State Machine, for `HeadValueAwait`.
    goto: ParserState,
    /// Header Field.
    header: RequestHeaderField,
    /// One Request Blueprint, which will be filled over time.
    cache: Request,
    /// Buffer of Requests.
    requests: Vec<Request>,
    /// Auxiliary buffer, cleared after use.
    auxiliary: Vec<u8>,
    /// Auxiliary number of remaining bytes of request body.
    remaining: usize,
    /// Auxiliary key for key-value-pairs.
    key: String,
    /// Auxiliary byte for escape parsing (%xy).
    byte: u8,
    /// Auxiliary unsigned integer for parsing request header value.
    value: u64,
    /// Header lines begun in the request being filled.
    entries: usize,
    /// Configuration of the Web Server.
    configuration: Configuration,
}

impl View for Machine {
    type V = ParserView;

    closed spec fn view(&self) -> ParserView {
        ParserView {
            state: self.state,
            reset: self.reset,
            goto: self.goto,
            header: self.header,
            cache: self.cache@,
            requests: requests_view(self.requests@),
            auxiliary: self.auxiliary@,
            remaining: self.remaining,
            key: self.key@,
            byte: self.byte,
            value: self.value,
            entries: self.entries,
            configuration: self.configuration,
        }
    }
}

/// A state machine that no byte was fed to yet.
fn machine(configuration: Configuration) -> (machine: Machine)
    ensures
        machine@ == transition::initial(configuration),
        wf(machine@),
{
    let parser = Machine {
        state: ParserState::Method,
        reset: ParserState::Method,
        goto: ParserState::Method,
        header: RequestHeaderField::Dummy,
        cache: Request(),
        requests: Vec::new(),
        auxiliary: Vec::new(),
        remaining: 0,
        key: String::new(),
        byte: 0,
        value: 0,
        entries: 0,
        configuration,
    };
    assert(requests_view(parser.requests@) =~= Seq::empty());
    parser
}

//  ==  Helpers  ==
impl Machine {
    /// Try to convert auxiliary bytes to utf8-String.
    fn aux2utf8(&mut self) -> (text: Option<String>)
        ensures
            final(self)@ == transition::take_aux(old(self)@),
            match text {
                Some(t) => decoded(old(self)@.auxiliary) == Some(t@),
                None => decoded(old(self)@.auxiliary) is None,
            },
    {
        let mut auxiliary = Vec::new();
        std::mem::swap(&mut auxiliary, &mut self.auxiliary);
        string_from_utf8(auxiliary)
    }

    /// Push a byte to the auxiliary buffer.
    fn pushAux(&mut self, byte: u8)
        ensures
            final(self)@ == transition::push_aux(old(self)@, byte),
    {
        self.auxiliary.push(byte);
    }

    /// Collect `byte` in the token and go to `state`, as long as the token stays within
    /// `limit` bytes; else fail with `error`.
    fn collect(&mut self, byte: u8, limit: usize, state: ParserState, error: ParserError) -> (result: Result<
        ParserState,
        ParserError,
    >)
        ensures
            (final(self)@, result) == transition::collect(old(self)@, byte, limit, state, error),
    {
        if self.auxiliary.len() < limit {
            self.pushAux(byte);
            Ok(state)
        } else {
            Err(error)
        }
    }

    /// Begin an escape sequence that returns to `reset`, as long as the token has room
    /// within `limit` bytes for the byte that it stands for; else fail with `error`.
    fn escape(&mut self, limit: usize, reset: ParserState, error: ParserError) -> (result: Result<
        ParserState,
        ParserError,
    >)
        ensures
            (final(self)@, result) == transition::escape(old(self)@, limit, reset, error),
    {
        if self.auxiliary.len() < limit {
            self.call(ParserState::EscapeX, reset)
        } else {
            Err(error)
        }
    }

    /// Take the auxiliary key, leaving it empty.
    fn takeKey(&mut self) -> (key: String)
        ensures
            key@ == old(self)@.key,
            final(self)@ == (ParserView { key: Seq::empty(), ..old(self)@ }),
    {
        let mut key = String::new();
        std::mem::swap(&mut key, &mut self.key);
        key
    }

    /// Go to `state` and then to `reset`.
    fn call(&mut self, state: ParserState, reset: ParserState) -> (result: Result<ParserState, ParserError>)
        ensures
            (final(self)@, result) == transition::call(old(self)@, state, reset),
    {
        self.reset = reset;
        Ok(state)
    }

    /// Enque `Request` and prepare parsing of next `Request`.
    fn done(&mut self) -> (state: ParserState)
        ensures
            final(self)@ == transition::done(old(self)@),
            state == ParserState::Method,
    {
        let mut request = Request();
        std::mem::swap(&mut request, &mut self.cache);
        proof {
            lemma_requests_push(self.requests@, request);
        }
        self.requests.push(request);
        self.entries = 0;
        ParserState::Method
    }

    /// Helper for Simple State Transitions.
    fn expect(input: u8, expected: u8, success: ParserState, failure: ParserError) -> (result: Result<
        ParserState,
        ParserError,
    >)
        ensures
            result == if input == expected {
                Ok::<ParserState, ParserError>(success)
            } else {
                Err(failure)
            },
    {
        if input == expected {
            Ok(success)
        } else {
            Err(failure)
        }
    }

    /// The bytes of the header name that a state of the header-name trie has read.
    fn keyPrefix(state: ParserState) -> (key: Vec<u8>)
        ensures
            key@ == transition::key_prefix(state),
    {
        let key = match state {
            ParserState::HeaderKeyC => vec!['C' as u8],
            ParserState::HeaderKeyCo => vec!['C' as u8, 'o' as u8],
            ParserState::HeaderKeyCon => vec!['C' as u8, 'o' as u8, 'n' as u8],
            ParserState::HeaderKeyCont => vec!['C' as u8, 'o' as u8, 'n' as u8, 't' as u8],
            ParserState::HeaderKeyConte => vec!['C' as u8, 'o' as u8, 'n' as u8, 't' as u8, 'e' as u8],
            ParserState::HeaderKeyConten => vec!['C' as u8, 'o' as u8, 'n' as u8, 't' as u8, 'e' as u8, 'n' as u8],
            ParserState::HeaderKeyContent => vec!['C' as u8, 'o' as u8, 'n' as u8, 't' as u8, 'e' as u8, 'n' as u8, 't' as u8],
            ParserState::HeaderKeyContentDash => vec!['C' as u8, 'o' as u8, 'n' as u8, 't' as u8, 'e' as u8, 'n' as u8, 't' as u8, '-' as u8],
            ParserState::HeaderKeyContentL => vec!['C' as u8, 'o' as u8, 'n' as u8, 't' as u8, 'e' as u8, 'n' as u8, 't' as u8, '-' as u8, 'L' as u8],
            ParserState::HeaderKeyContentLe => vec!['C' as u8, 'o' as u8, 'n' as u8, 't' as u8, 'e' as u8, 'n' as u8, 't' as u8, '-' as u8, 'L' as u8, 'e' as u8],
            ParserState::HeaderKeyContentLen => vec!['C' as u8, 'o' as u8, 'n' as u8, 't' as u8, 'e' as u8, 'n' as u8, 't' as u8, '-' as u8, 'L' as u8, 'e' as u8, 'n' as u8],
            ParserState::HeaderKeyContentLeng => vec!['C' as u8, 'o' as u8, 'n' as u8, 't' as u8, 'e' as u8, 'n' as u8, 't' as u8, '-' as u8, 'L' as u8, 'e' as u8, 'n' as u8, 'g' as u8],
            ParserState::HeaderKeyContentLengt => vec!['C' as u8, 'o' as u8, 'n' as u8, 't' as u8, 'e' as u8, 'n' as u8, 't' as u8, '-' as u8, 'L' as u8, 'e' as u8, 'n' as u8, 'g' as u8, 't' as u8],
            ParserState::HeaderKeyContentLength => vec!['C' as u8, 'o' as u8, 'n' as u8, 't' as u8, 'e' as u8, 'n' as u8, 't' as u8, '-' as u8, 'L' as u8, 'e' as u8, 'n' as u8, 'g' as u8, 't' as u8, 'h' as u8],
            ParserState::HeaderKeyCoo => vec!['C' as u8, 'o' as u8, 'o' as u8],
            ParserState::HeaderKeyCook => vec!['C' as u8, 'o' as u8, 'o' as u8, 'k' as u8],
            ParserState::HeaderKeyCooki => vec!['C' as u8, 'o' as u8, 'o' as u8, 'k' as u8, 'i' as u8],
            ParserState::HeaderKeyCookie => vec!['C' as u8, 'o' as u8, 'o' as u8, 'k' as u8, 'i' as u8, 'e' as u8],
            ParserState::HeaderKeyH => vec!['H' as u8],
            ParserState::HeaderKeyHo => vec!['H' as u8, 'o' as u8],
            ParserState::HeaderKeyHos => vec!['H' as u8, 'o' as u8, 's' as u8],
            ParserState::HeaderKeyHost => vec!['H' as u8, 'o' as u8, 's' as u8, 't' as u8],
            ParserState::HeaderKeyU => vec!['U' as u8],
            ParserState::HeaderKeyUs => vec!['U' as u8, 's' as u8],
            ParserState::HeaderKeyUse => vec!['U' as u8, 's' as u8, 'e' as u8],
            ParserState::HeaderKeyUser => vec!['U' as u8, 's' as u8, 'e' as u8, 'r' as u8],
            ParserState::HeaderKeyUserDash => vec!['U' as u8, 's' as u8, 'e' as u8, 'r' as u8, '-' as u8],
            ParserState::HeaderKeyUserA => vec!['U' as u8, 's' as u8, 'e' as u8, 'r' as u8, '-' as u8, 'A' as u8],
            ParserState::HeaderKeyUserAg => vec!['U' as u8, 's' as u8, 'e' as u8, 'r' as u8, '-' as u8, 'A' as u8, 'g' as u8],
            ParserState::HeaderKeyUserAge => vec!['U' as u8, 's' as u8, 'e' as u8, 'r' as u8, '-' as u8, 'A' as u8, 'g' as u8, 'e' as u8],
            ParserState::HeaderKeyUserAgen => vec!['U' as u8, 's' as u8, 'e' as u8, 'r' as u8, '-' as u8, 'A' as u8, 'g' as u8, 'e' as u8, 'n' as u8],
            ParserState::HeaderKeyUserAgent => vec!['U' as u8, 's' as u8, 'e' as u8, 'r' as u8, '-' as u8, 'A' as u8, 'g' as u8, 'e' as u8, 'n' as u8, 't' as u8],
            _ => Vec::new(),
        };
        assert(key@ =~= transition::key_prefix(state));
        key
    }

    /// Helper to Parse Header Key.
    /// Fails, if `input` and `expected` are not equal and `input` is invalid in header key.
    /// If `input` and `expected` are just not equal, but valid, this function sets the
    /// `auxiliary`-buffer to the key read so far and returns ParserState::HeaderKeyX successfully.
    fn header(&mut self, input: u8, expected: u8, success: ParserState) -> (result: Result<
        ParserState,
        ParserError,
    >)
        ensures
            (final(self)@, result) == transition::header(old(self)@, input, expected, success),
    {
        if input == expected {
            Ok(success)
        } else if Parser::isToken(input) && Self::keyPrefix(self.state).len() < self.configuration.maxHeaderLength {
            let mut key = Self::keyPrefix(self.state);
            key.push(input);
            self.auxiliary = key;
            Ok(ParserState::HeaderKeyX)
        } else {
            Err(ParserError::HeaderKey)
        }
    }

    /// Helper to Parse the Request Method.
    fn method(&mut self, input: u8, expected: u8, method: Method) -> (result: Result<
        ParserState,
        ParserError,
    >)
        ensures
            (final(self)@, result) == transition::method(old(self)@, input, expected, method),
    {
        if input == expected {
            self.cache.method = method;
            Ok(ParserState::PathAwait)
        } else {
            Err(ParserError::Method)
        }
    }

    /// Helper to Parse Header Value: after the name, a ':' awaits the value.
    fn parse(&mut self, byte: u8, goto: ParserState) -> (result: Result<ParserState, ParserError>)
        ensures
            (final(self)@, result) == transition::parse(old(self)@, byte, goto),
    {
        if byte == ':' as u8 {
            self.goto = goto;
            Ok(ParserState::HeaderValueAwait)
        } else if Parser::isToken(byte) && Self::keyPrefix(self.state).len() < self.configuration.maxHeaderLength {
            let mut key = Self::keyPrefix(self.state);
            key.push(byte);
            self.auxiliary = key;
            Ok(ParserState::HeaderKeyX)
        } else {
            Err(ParserError::HeaderKey)
        }
    }

    /// Helper to Parse Header Value of type Number.
    fn parseNum(&mut self, byte: u8, field: RequestHeaderField) -> (result: Result<
        ParserState,
        ParserError,
    >)
        ensures
            (final(self)@, result) == transition::parse_num(old(self)@, byte, field),
    {
        self.header = field;
        self.parse(byte, ParserState::HeaderValueParseNumber)
    }

    /// Helper to Parse Header Value of type String.
    fn parseStr(&mut self, byte: u8, field: RequestHeaderField) -> (result: Result<
        ParserState,
        ParserError,
    >)
        ensures
            (final(self)@, result) == transition::parse_str(old(self)@, byte, field),
    {
        self.header = field;
        self.parse(byte, ParserState::HeaderValueParseString)
    }

    /// Helper to Parse the Request Version.
    fn version(&mut self, input: u8, expected: u8, version: Version) -> (result: Result<
        ParserState,
        ParserError,
    >)
        ensures
            (final(self)@, result) == transition::version(old(self)@, input, expected, version),
    {
        if input == expected {
            self.cache.version = version;
            self.reset = ParserState::HeaderKey;
            Ok(ParserState::NewLineCR)
        } else {
            Err(ParserError::Version)
        }
    }
}


//  ==  Transitions of the states with more than one way out  ==
impl Machine {
    /// A byte of the request body.
    fn onBody(&mut self, byte: u8) -> (result: Result<ParserState, ParserError>)
        requires
            old(self)@.remaining > 0,
        ensures
            (final(self)@, result) == transition::body(old(self)@, byte),
    {
        self.auxiliary.push(byte);
        self.remaining = self.remaining - 1;
        if self.remaining > 0 {
            Ok(ParserState::Body)
        } else {
            std::mem::swap(&mut self.auxiliary, &mut self.cache.content);
            Ok(self.done())
        }
    }

    /// The value of a hexadecimal digit.
    fn hexValue(byte: u8) -> (value: u8)
        requires
            transition::is_hex(byte),
        ensures
            value == transition::hex_value(byte),
            value < 16,
    {
        if '0' as u8 <= byte && byte <= '9' as u8 {
            byte - '0' as u8
        } else if 'A' as u8 <= byte && byte <= 'F' as u8 {
            byte - 'A' as u8 + 10
        } else {
            byte - 'a' as u8 + 10
        }
    }

    /// Whether a byte is a hexadecimal digit.
    fn isHex(byte: u8) -> (hex: bool)
        ensures
            hex == transition::is_hex(byte),
    {
        ('0' as u8 <= byte && byte <= '9' as u8) || ('A' as u8 <= byte && byte <= 'F' as u8) || (
        'a' as u8 <= byte && byte <= 'f' as u8)
    }

    /// The high digit of an escaped byte.
    fn onEscapeX(&mut self, byte: u8) -> (result: Result<ParserState, ParserError>)
        ensures
            (final(self)@, result) == transition::escape_x(old(self)@, byte),
            result is Ok ==> final(self)@.byte <= 240,
    {
        if Self::isHex(byte) {
            self.byte = Self::hexValue(byte) * 16;
            Ok(ParserState::EscapeY)
        } else {
            Err(ParserError::Method)
        }
    }

    /// The low digit of an escaped byte.
    fn onEscapeY(&mut self, byte: u8) -> (result: Result<ParserState, ParserError>)
        requires
            old(self)@.byte <= 240,
        ensures
            (final(self)@, result) == transition::escape_y(old(self)@, byte),
    {
        if Self::isHex(byte) {
            let value = self.byte + Self::hexValue(byte);
            self.pushAux(value);
            Ok(self.reset)
        } else {
            Err(ParserError::Method)
        }
    }

    /// The first byte of a header line.
    fn onHeaderKey(&mut self, byte: u8) -> (result: Result<ParserState, ParserError>)
        ensures
            (final(self)@, result) == transition::header_key(old(self)@, byte),
    {
        if byte == '\r' as u8 {
            self.remaining = self.cache.header.bodyLength();
            if self.remaining <= self.configuration.maxContentLength {
                self.reset = if self.remaining > 0 {
                    ParserState::Body
                } else {
                    self.done()
                };
                Ok(ParserState::NewLineLF)
            } else {
                Err(ParserError::Body)
            }
        } else if self.entries >= self.configuration.maxHeaderEntries {
            Err(ParserError::HeaderKey)
        } else {
            self.entries = self.entries + 1;
            if byte == 'C' as u8 {
                Ok(ParserState::HeaderKeyC)
            } else if byte == 'H' as u8 {
                Ok(ParserState::HeaderKeyH)
            } else if byte == 'U' as u8 {
                Ok(ParserState::HeaderKeyU)
            } else if Parser::isToken(byte) {
                let limit = self.configuration.maxHeaderLength;
                self.collect(byte, limit, ParserState::HeaderKeyX, ParserError::HeaderKey)
            } else {
                Err(ParserError::HeaderKey)
            }
        }
    }

    /// After "Co" in a header name.
    fn onHeaderKeyCo(&mut self, byte: u8) -> (result: Result<ParserState, ParserError>)
        ensures
            (final(self)@, result) == transition::header_key_co(old(self)@, byte),
    {
        if byte == 'n' as u8 {
            Ok(ParserState::HeaderKeyCon)
        } else if byte == 'o' as u8 {
            Ok(ParserState::HeaderKeyCoo)
        } else if Parser::isToken(byte) && 2 < self.configuration.maxHeaderLength {
            self.auxiliary = vec!['C' as u8, 'o' as u8, byte];
            assert(self.auxiliary@ =~= seq!['C' as u8, 'o' as u8, byte]);
            Ok(ParserState::HeaderKeyX)
        } else if byte == ':' as u8 && 2 <= self.configuration.maxHeaderLength {
            self.key = "Co".to_owned();
            proof {
                reveal_strlit("Co");
                assert(self.key@ =~= seq!['C', 'o']);
            }
            self.goto = ParserState::HeaderValueX;
            Ok(ParserState::HeaderValueAwait)
        } else {
            Err(ParserError::HeaderKey)
        }
    }

    /// In an ordinary header name.
    fn onHeaderKeyX(&mut self, byte: u8) -> (result: Result<ParserState, ParserError>)
        ensures
            (final(self)@, result) == transition::header_key_x(old(self)@, byte),
    {
        if byte == ':' as u8 {
            match self.aux2utf8() {
                Some(key) => {
                    self.key = key;
                    self.goto = ParserState::HeaderValueX;
                    Ok(ParserState::HeaderValueAwait)
                },
                None => Err(ParserError::HeaderKey),
            }
        } else if Parser::isToken(byte) {
            let limit = self.configuration.maxHeaderLength;
            self.collect(byte, limit, ParserState::HeaderKeyX, ParserError::HeaderKey)
        } else {
            Err(ParserError::HeaderKey)
        }
    }

    /// White space before a header value.
    fn onHeaderValueAwait(&mut self, byte: u8) -> (result: Result<ParserState, ParserError>)
        ensures
            (final(self)@, result) == transition::header_value_await(old(self)@, byte),
    {
        if byte == '\r' as u8 {
            self.call(ParserState::NewLineLF, ParserState::HeaderValueAwait)
        } else if byte == ' ' as u8 || byte == '\t' as u8 {
            Ok(ParserState::HeaderValueAwait)
        } else if ('0' as u8 <= byte && byte <= '9' as u8) || ('A' as u8 <= byte && byte <= 'Z' as u8)
            || ('a' as u8 <= byte && byte <= 'z' as u8) || byte == '"' as u8 || byte == '*' as u8 {
            let cookies = self.goto == ParserState::HeaderValueParseCookieKey;
            let limit = if cookies {
                self.configuration.maxCookieLength
            } else {
                self.configuration.maxHeaderLength
            };
            if self.goto == ParserState::HeaderValueParseNumber && !('0' as u8 <= byte && byte <= '9' as u8) {
                Err(ParserError::ContentLength)
            } else if self.auxiliary.len() < limit {
                self.byte = byte;
                self.pushAux(byte);
                Ok(self.goto)
            } else if cookies {
                Err(ParserError::CookieKey)
            } else {
                Err(ParserError::HeaderValue)
            }
        } else {
            Err(ParserError::HeaderValue)
        }
    }

    /// A cookie's name.
    fn onCookieKey(&mut self, byte: u8) -> (result: Result<ParserState, ParserError>)
        ensures
            (final(self)@, result) == transition::cookie_key(old(self)@, byte),
    {
        if byte == '=' as u8 {
            match self.aux2utf8() {
                Some(key) => {
                    self.key = key;
                    Ok(ParserState::HeaderValueParseCookieValue)
                },
                None => Err(ParserError::CookieKey),
            }
        } else if Parser::isToken(byte) {
            let limit = self.configuration.maxCookieLength;
            self.collect(byte, limit, ParserState::HeaderValueParseCookieKey, ParserError::CookieKey)
        } else {
            Err(ParserError::CookieKey)
        }
    }

    /// A quoted cookie value.
    fn onCookieQuote(&mut self, byte: u8) -> (result: Result<ParserState, ParserError>)
        ensures
            (final(self)@, result) == transition::cookie_quote(old(self)@, byte),
    {
        if byte == '"' as u8 {
            Ok(ParserState::HeaderValueParseCookieSemicolon)
        } else {
            let limit = self.configuration.maxCookieLength;
            self.collect(byte, limit, ParserState::HeaderValueParseCookieQuote, ParserError::CookieValue)
        }
    }

    /// Add the pair of the current key and `value` to the cookies.
    fn addCookie(&mut self, value: String)
        ensures
            final(self)@ == transition::add_cookie(old(self)@, value@),
    {
        let key = self.takeKey();
        let pair = KeyValuePair { key, value };
        proof {
            lemma_pairs_push(self.cache.cookies@, pair);
        }
        self.cache.cookies.push(pair);
    }

    /// The space after the semicolon that ends a cookie.
    fn onCookieSpace(&mut self, byte: u8) -> (result: Result<ParserState, ParserError>)
        ensures
            (final(self)@, result) == transition::cookie_space(old(self)@, byte),
    {
        if byte == ' ' as u8 {
            match self.aux2utf8() {
                Some(value) => {
                    self.addCookie(value);
                    Ok(ParserState::HeaderValueParseCookieKey)
                },
                None => Err(ParserError::CookieValue),
            }
        } else {
            Err(ParserError::CookieValue)
        }
    }

    /// A cookie's value.
    fn onCookieValue(&mut self, byte: u8) -> (result: Result<ParserState, ParserError>)
        ensures
            (final(self)@, result) == transition::cookie_value(old(self)@, byte),
    {
        if byte == '\r' as u8 {
            match self.aux2utf8() {
                Some(value) => {
                    self.addCookie(value);
                    self.call(ParserState::NewLineLF, ParserState::HeaderKey)
                },
                None => Err(ParserError::CookieValue),
            }
        } else if byte == '"' as u8 && self.auxiliary.len() == 0 {
            Ok(ParserState::HeaderValueParseCookieQuote)
        } else if byte == '%' as u8 {
            let limit = self.configuration.maxCookieLength;
            self.escape(limit, ParserState::HeaderValueParseCookieValue, ParserError::CookieValue)
        } else if byte == ';' as u8 {
            Ok(ParserState::HeaderValueParseCookieSpace)
        } else if byte <= ' ' as u8 || byte == '"' as u8 || byte == ',' as u8 || byte == '\\' as u8 {
            Err(ParserError::CookieValue)
        } else {
            let limit = self.configuration.maxCookieLength;
            self.collect(byte, limit, ParserState::HeaderValueParseCookieValue, ParserError::CookieValue)
        }
    }

    /// The number whose decimal digits were read so far.
    fn shiftDigit(value: u64, last: u8) -> (number: u64)
        ensures
            number == transition::shift_digit(value, last),
    {
        10u64.wrapping_mul(value).wrapping_add(last.wrapping_sub('0' as u8) as u64)
    }

    /// A numerical header value.
    fn onHeaderValueNumber(&mut self, byte: u8) -> (result: Result<ParserState, ParserError>)
        ensures
            (final(self)@, result) == transition::header_value_number(old(self)@, byte),
    {
        if '0' as u8 <= byte && byte <= '9' as u8 {
            self.value = Self::shiftDigit(self.value, self.byte);
            self.byte = byte;
            Ok(ParserState::HeaderValueParseNumber)
        } else if byte == '\r' as u8 {
            let value = Self::shiftDigit(self.value, self.byte);
            self.auxiliary.clear();
            self.value = 0;
            match self.cache.header.setNumber(self.header, value as usize) {
                Ok(()) => self.call(ParserState::NewLineLF, ParserState::HeaderKey),
                Err(_) => Err(ParserError::HeaderValue),
            }
        } else {
            Err(ParserError::HeaderValue)
        }
    }

    /// A textual header value.
    fn onHeaderValueString(&mut self, byte: u8) -> (result: Result<ParserState, ParserError>)
        ensures
            (final(self)@, result) == transition::header_value_string(old(self)@, byte),
    {
        if byte == '%' as u8 {
            let limit = self.configuration.maxHeaderLength;
            self.escape(limit, ParserState::HeaderValueParseString, ParserError::HeaderValue)
        } else if byte == '\r' as u8 {
            match self.aux2utf8() {
                Some(value) => match self.cache.header.setString(self.header, value) {
                    Ok(()) => self.call(ParserState::NewLineLF, ParserState::HeaderKey),
                    Err(_) => Err(ParserError::HeaderValue),
                },
                None => Err(ParserError::HeaderValue),
            }
        } else {
            let limit = self.configuration.maxHeaderLength;
            self.collect(byte, limit, ParserState::HeaderValueParseString, ParserError::HeaderValue)
        }
    }

    /// The value of an ordinary header field.
    fn onHeaderValueX(&mut self, byte: u8) -> (result: Result<ParserState, ParserError>)
        ensures
            (final(self)@, result) == transition::header_value_x(old(self)@, byte),
    {
        if byte == '\r' as u8 {
            match self.aux2utf8() {
                Some(value) => {
                    let key = self.takeKey();
                    self.cache.header.push(KeyValuePair { key, value });
                    self.call(ParserState::NewLineLF, ParserState::HeaderKey)
                },
                None => Err(ParserError::HeaderValue),
            }
        } else {
            let limit = self.configuration.maxHeaderLength;
            self.collect(byte, limit, ParserState::HeaderValueX, ParserError::HeaderValue)
        }
    }
}


impl Machine {
    /// The first byte of a request.
    fn onMethod(byte: u8) -> (result: Result<ParserState, ParserError>)
        ensures
            forall|p: ParserView| transition::method_start(p, byte) == (p, result),
    {
        if byte == 'C' as u8 {
            Ok(ParserState::MethodC)
        } else if byte == 'D' as u8 {
            Ok(ParserState::MethodD)
        } else if byte == 'G' as u8 {
            Ok(ParserState::MethodG)
        } else if byte == 'H' as u8 {
            Ok(ParserState::MethodH)
        } else if byte == 'O' as u8 {
            Ok(ParserState::MethodO)
        } else if byte == 'P' as u8 {
            Ok(ParserState::MethodP)
        } else if byte == 'T' as u8 {
            Ok(ParserState::MethodT)
        } else {
            Err(ParserError::Method)
        }
    }

    /// After "P" at the start of a request.
    fn onMethodP(byte: u8) -> (result: Result<ParserState, ParserError>)
        ensures
            forall|p: ParserView| transition::method_p(p, byte) == (p, result),
    {
        if byte == 'A' as u8 {
            Ok(ParserState::MethodPA)
        } else if byte == 'O' as u8 {
            Ok(ParserState::MethodPO)
        } else if byte == 'U' as u8 {
            Ok(ParserState::MethodPU)
        } else {
            Err(ParserError::Method)
        }
    }

    /// The path of the requested resource.
    fn onPathConsume(&mut self, byte: u8) -> (result: Result<ParserState, ParserError>)
        ensures
            (final(self)@, result) == transition::path_consume(old(self)@, byte),
    {
        if byte == '%' as u8 {
            let limit = self.configuration.maxPathLength;
            self.escape(limit, ParserState::PathConsume, ParserError::Path)
        } else if byte == '\r' as u8 || byte == ' ' as u8 || byte == '?' as u8 {
            match self.aux2utf8() {
                Some(path) => if byte == '\r' as u8 {
                    self.call(ParserState::NewLineLF, ParserState::HeaderKey)
                } else if byte == ' ' as u8 {
                    self.cache.path = path;
                    Ok(ParserState::Version)
                } else {
                    self.cache.path = path;
                    Ok(ParserState::QueryKey)
                },
                None => Err(ParserError::Path),
            }
        } else if byte == 0 || byte == '\n' as u8 {
            Err(ParserError::Path)
        } else {
            let limit = self.configuration.maxPathLength;
            self.collect(byte, limit, ParserState::PathConsume, ParserError::Path)
        }
    }

    /// Add the pair `(key, value)` to the query.
    fn addQuery(&mut self, key: String, value: String)
        ensures
            final(self)@ == transition::add_query(old(self)@, key@, value@),
    {
        let pair = KeyValuePair { key, value };
        proof {
            lemma_pairs_push(self.cache.query@, pair);
        }
        self.cache.query.push(pair);
    }

    /// The key of a query entry.
    fn onQueryKey(&mut self, byte: u8) -> (result: Result<ParserState, ParserError>)
        ensures
            (final(self)@, result) == transition::query_key(old(self)@, byte),
    {
        if byte == '%' as u8 {
            self.call(ParserState::EscapeX, ParserState::QueryKey)
        } else if byte == 0 || byte == '\n' as u8 {
            Err(ParserError::Query)
        } else if byte == self.configuration.querySeperator || byte == '\r' as u8 || byte == '=' as u8 {
            match self.aux2utf8() {
                Some(key) => if byte == '\r' as u8 {
                    self.addQuery(key, String::new());
                    self.call(ParserState::NewLineLF, ParserState::HeaderKey)
                } else if byte == '=' as u8 {
                    self.key = key;
                    Ok(ParserState::QueryValue)
                } else {
                    self.addQuery(key, String::new());
                    Ok(ParserState::QueryKey)
                },
                None => Err(ParserError::Query),
            }
        } else {
            self.pushAux(byte);
            Ok(ParserState::QueryKey)
        }
    }

    /// The value of a query entry.
    fn onQueryValue(&mut self, byte: u8) -> (result: Result<ParserState, ParserError>)
        ensures
            (final(self)@, result) == transition::query_value(old(self)@, byte),
    {
        if byte == '%' as u8 {
            self.call(ParserState::EscapeX, ParserState::QueryValue)
        } else if byte == 0 || byte == '\n' as u8 {
            Err(ParserError::Query)
        } else if byte == self.configuration.querySeperator || byte == ' ' as u8 || byte == '\r' as u8 {
            match self.aux2utf8() {
                Some(value) => {
                    let key = self.takeKey();
                    self.addQuery(key, value);
                    if byte == '\r' as u8 {
                        self.call(ParserState::NewLineLF, ParserState::HeaderKey)
                    } else if byte == ' ' as u8 {
                        Ok(ParserState::Version)
                    } else {
                        Ok(ParserState::QueryKey)
                    }
                },
                None => Err(ParserError::Query),
            }
        } else if self.auxiliary.len() <= self.configuration.maxPathLength {
            self.pushAux(byte);
            Ok(ParserState::QueryValue)
        } else {
            Err(ParserError::Query)
        }
    }

    /// The major number of the version.
    fn onVersionNumber(byte: u8) -> (result: Result<ParserState, ParserError>)
        ensures
            forall|p: ParserView| transition::version_number(p, byte) == (p, result),
    {
        if byte == '0' as u8 {
            Ok(ParserState::Version0)
        } else if byte == '1' as u8 {
            Ok(ParserState::Version1)
        } else if byte == '2' as u8 {
            Ok(ParserState::Version2)
        } else if byte == '3' as u8 {
            Ok(ParserState::Version3)
        } else {
            Err(ParserError::Version)
        }
    }

    /// The minor number of version 1.
    fn onVersion1P(&mut self, byte: u8) -> (result: Result<ParserState, ParserError>)
        ensures
            (final(self)@, result) == transition::version_1p(old(self)@, byte),
    {
        if byte == '0' as u8 {
            self.cache.version = Version::HTTP_10;
            self.call(ParserState::NewLineCR, ParserState::HeaderKey)
        } else if byte == '1' as u8 {
            self.cache.version = Version::HTTP_11;
            self.call(ParserState::NewLineCR, ParserState::HeaderKey)
        } else {
            Err(ParserError::Version)
        }
    }
}


impl Machine {
    /// Make State Transition.
    fn next(&mut self, byte: u8) -> (result: Result<ParserState, ParserError>)
        requires
            wf(old(self)@),
        ensures
            (final(self)@, result) == transition::transition(old(self)@, byte),
            final(self)@.state == old(self)@.state,
    {
        proof {
            transition::law_transition_keeps_state(self@, byte);
        }
        match self.state {
            ParserState::Body => self.onBody(byte),
            ParserState::EscapeX => self.onEscapeX(byte),
            ParserState::EscapeY => self.onEscapeY(byte),
            ParserState::HeaderKey => self.onHeaderKey(byte),
            ParserState::HeaderKeyC => self.header(byte, 'o' as u8, ParserState::HeaderKeyCo),
            ParserState::HeaderKeyCo => self.onHeaderKeyCo(byte),
            ParserState::HeaderKeyCon => self.header(byte, 't' as u8, ParserState::HeaderKeyCont),
            ParserState::HeaderKeyCont => self.header(byte, 'e' as u8, ParserState::HeaderKeyConte),
            ParserState::HeaderKeyConte => self.header(byte, 'n' as u8, ParserState::HeaderKeyConten),
            ParserState::HeaderKeyConten => self.header(byte, 't' as u8, ParserState::HeaderKeyContent),
            ParserState::HeaderKeyContent => self.header(byte, '-' as u8, ParserState::HeaderKeyContentDash),
            ParserState::HeaderKeyContentDash => self.header(byte, 'L' as u8, ParserState::HeaderKeyContentL),
            ParserState::HeaderKeyContentL => self.header(byte, 'e' as u8, ParserState::HeaderKeyContentLe),
            ParserState::HeaderKeyContentLe => self.header(byte, 'n' as u8, ParserState::HeaderKeyContentLen),
            ParserState::HeaderKeyContentLen => self.header(byte, 'g' as u8, ParserState::HeaderKeyContentLeng),
            ParserState::HeaderKeyContentLeng => self.header(byte, 't' as u8, ParserState::HeaderKeyContentLengt),
            ParserState::HeaderKeyContentLengt => self.header(byte, 'h' as u8, ParserState::HeaderKeyContentLength),
            ParserState::HeaderKeyContentLength => self.parseNum(byte, RequestHeaderField::ContentLength),
            ParserState::HeaderKeyCoo => self.header(byte, 'k' as u8, ParserState::HeaderKeyCook),
            ParserState::HeaderKeyCook => self.header(byte, 'i' as u8, ParserState::HeaderKeyCooki),
            ParserState::HeaderKeyCooki => self.header(byte, 'e' as u8, ParserState::HeaderKeyCookie),
            ParserState::HeaderKeyCookie => self.parse(byte, ParserState::HeaderValueParseCookieKey),
            ParserState::HeaderKeyH => self.header(byte, 'o' as u8, ParserState::HeaderKeyHo),
            ParserState::HeaderKeyHo => self.header(byte, 's' as u8, ParserState::HeaderKeyHos),
            ParserState::HeaderKeyHos => self.header(byte, 't' as u8, ParserState::HeaderKeyHost),
            ParserState::HeaderKeyHost => self.parseStr(byte, RequestHeaderField::Host),
            ParserState::HeaderKeyU => self.header(byte, 's' as u8, ParserState::HeaderKeyUs),
            ParserState::HeaderKeyUs => self.header(byte, 'e' as u8, ParserState::HeaderKeyUse),
            ParserState::HeaderKeyUse => self.header(byte, 'r' as u8, ParserState::HeaderKeyUser),
            ParserState::HeaderKeyUser => self.header(byte, '-' as u8, ParserState::HeaderKeyUserDash),
            ParserState::HeaderKeyUserDash => self.header(byte, 'A' as u8, ParserState::HeaderKeyUserA),
            ParserState::HeaderKeyUserA => self.header(byte, 'g' as u8, ParserState::HeaderKeyUserAg),
            ParserState::HeaderKeyUserAg => self.header(byte, 'e' as u8, ParserState::HeaderKeyUserAge),
            ParserState::HeaderKeyUserAge => self.header(byte, 'n' as u8, ParserState::HeaderKeyUserAgen),
            ParserState::HeaderKeyUserAgen => self.header(byte, 't' as u8, ParserState::HeaderKeyUserAgent),
            ParserState::HeaderKeyUserAgent => self.parseStr(byte, RequestHeaderField::UserAgent),
            ParserState::HeaderKeyX => self.onHeaderKeyX(byte),
            ParserState::HeaderValueAwait => self.onHeaderValueAwait(byte),
            ParserState::HeaderValueParseCookieKey => self.onCookieKey(byte),
            ParserState::HeaderValueParseCookieQuote => self.onCookieQuote(byte),
            ParserState::HeaderValueParseCookieSemicolon => Self::expect(
                byte,
                ';' as u8,
                ParserState::HeaderValueParseCookieSpace,
                ParserError::CookieValue,
            ),
            ParserState::HeaderValueParseCookieSpace => self.onCookieSpace(byte),
            ParserState::HeaderValueParseCookieValue => self.onCookieValue(byte),
            ParserState::HeaderValueParseNumber => self.onHeaderValueNumber(byte),
            ParserState::HeaderValueParseString => self.onHeaderValueString(byte),
            ParserState::HeaderValueX => self.onHeaderValueX(byte),
            ParserState::Method => Self::onMethod(byte),
            ParserState::MethodC => Self::expect(byte, 'O' as u8, ParserState::MethodCO, ParserError::Method),
            ParserState::MethodCO => Self::expect(byte, 'N' as u8, ParserState::MethodCON, ParserError::Method),
            ParserState::MethodCON => Self::expect(byte, 'N' as u8, ParserState::MethodCONN, ParserError::Method),
            ParserState::MethodCONN => Self::expect(byte, 'E' as u8, ParserState::MethodCONNE, ParserError::Method),
            ParserState::MethodCONNE => Self::expect(byte, 'C' as u8, ParserState::MethodCONNEC, ParserError::Method),
            ParserState::MethodCONNEC => self.method(byte, 'T' as u8, Method::Connect),
            ParserState::MethodD => Self::expect(byte, 'E' as u8, ParserState::MethodDE, ParserError::Method),
            ParserState::MethodDE => Self::expect(byte, 'L' as u8, ParserState::MethodDEL, ParserError::Method),
            ParserState::MethodDEL => Self::expect(byte, 'E' as u8, ParserState::MethodDELE, ParserError::Method),
            ParserState::MethodDELE => Self::expect(byte, 'T' as u8, ParserState::MethodDELET, ParserError::Method),
            ParserState::MethodDELET => self.method(byte, 'E' as u8, Method::Delete),
            ParserState::MethodG => Self::expect(byte, 'E' as u8, ParserState::MethodGE, ParserError::Method),
            ParserState::MethodGE => self.method(byte, 'T' as u8, Method::Get),
            ParserState::MethodH => Self::expect(byte, 'E' as u8, ParserState::MethodHE, ParserError::Method),
            ParserState::MethodHE => Self::expect(byte, 'A' as u8, ParserState::MethodHEA, ParserError::Method),
            ParserState::MethodHEA => self.method(byte, 'D' as u8, Method::Head),
            ParserState::MethodO => Self::expect(byte, 'P' as u8, ParserState::MethodOP, ParserError::Method),
            ParserState::MethodOP => Self::expect(byte, 'T' as u8, ParserState::MethodOPT, ParserError::Method),
            ParserState::MethodOPT => Self::expect(byte, 'I' as u8, ParserState::MethodOPTI, ParserError::Method),
            ParserState::MethodOPTI => Self::expect(byte, 'O' as u8, ParserState::MethodOPTIO, ParserError::Method),
            ParserState::MethodOPTIO => Self::expect(byte, 'N' as u8, ParserState::MethodOPTION, ParserError::Method),
            ParserState::MethodOPTION => self.method(byte, 'S' as u8, Method::Options),
            ParserState::MethodP => Self::onMethodP(byte),
            ParserState::MethodPA => Self::expect(byte, 'T' as u8, ParserState::MethodPAT, ParserError::Method),
            ParserState::MethodPAT => Self::expect(byte, 'C' as u8, ParserState::MethodPATC, ParserError::Method),
            ParserState::MethodPATC => self.method(byte, 'H' as u8, Method::Patch),
            ParserState::MethodPO => Self::expect(byte, 'S' as u8, ParserState::MethodPOS, ParserError::Method),
            ParserState::MethodPOS => self.method(byte, 'T' as u8, Method::Post),
            ParserState::MethodPU => self.method(byte, 'T' as u8, Method::Put),
            ParserState::MethodT => Self::expect(byte, 'R' as u8, ParserState::MethodTR, ParserError::Method),
            ParserState::MethodTR => Self::expect(byte, 'A' as u8, ParserState::MethodTRA, ParserError::Method),
            ParserState::MethodTRA => Self::expect(byte, 'C' as u8, ParserState::MethodTRAC, ParserError::Method),
            ParserState::MethodTRAC => self.method(byte, 'E' as u8, Method::Trace),
            ParserState::NewLineCR => Self::expect(byte, '\r' as u8, ParserState::NewLineLF, ParserError::CarriageReturn),
            ParserState::NewLineLF => Self::expect(byte, '\n' as u8, self.reset, ParserError::LineFeed),
            ParserState::PathAwait => Self::expect(byte, ' ' as u8, ParserState::PathConsume, ParserError::Method),
            ParserState::PathConsume => self.onPathConsume(byte),
            ParserState::QueryKey => self.onQueryKey(byte),
            ParserState::QueryValue => self.onQueryValue(byte),
            ParserState::Version => Self::expect(byte, 'H' as u8, ParserState::VersionH, ParserError::Version),
            ParserState::VersionH => Self::expect(byte, 'T' as u8, ParserState::VersionHT, ParserError::Version),
            ParserState::VersionHT => Self::expect(byte, 'T' as u8, ParserState::VersionHTT, ParserError::Version),
            ParserState::VersionHTT => Self::expect(byte, 'P' as u8, ParserState::VersionHTTP, ParserError::Version),
            ParserState::VersionHTTP => Self::expect(byte, '/' as u8, ParserState::VersionNumber, ParserError::Version),
            ParserState::VersionNumber => Self::onVersionNumber(byte),
            ParserState::Version0 => Self::expect(byte, '.' as u8, ParserState::Version0P, ParserError::Version),
            ParserState::Version0P => self.version(byte, '9' as u8, Version::HTTP_09),
            ParserState::Version1 => Self::expect(byte, '.' as u8, ParserState::Version1P, ParserError::Version),
            ParserState::Version1P => self.onVersion1P(byte),
            ParserState::Version2 => Self::expect(byte, '.' as u8, ParserState::Version2P, ParserError::Version),
            ParserState::Version2P => self.version(byte, '0' as u8, Version::HTTP_2),
            ParserState::Version3 => Self::expect(byte, '.' as u8, ParserState::Version3P, ParserError::Version),
            ParserState::Version3P => self.version(byte, '0' as u8, Version::HTTP_3),
        }
    }
}


/// How many bytes `feed` takes from a slice of `available` bytes when asked for `length`.
pub open spec fn fed_length(available: nat, length: usize) -> int {
    if length < available {
        length as int
    } else {
        available as int
    }
}

//  ==  Feeding  ==
impl Machine {
    /// Run the machine over the first `length` bytes of `bytes` (all of them, if there are
    /// fewer), up to the first it refuses.
    fn feed(&mut self, bytes: &[u8], length: usize) -> (result: Result<usize, ParserError>)
        requires
            wf(old(self)@),
        ensures
            wf(final(self)@),
            final(self)@.requests.len() <= usize::MAX,
            final(self)@ == run(old(self)@, bytes@.take(fed_length(bytes@.len(), length))).0,
            result == match run(old(self)@, bytes@.take(fed_length(bytes@.len(), length))).1 {
                None => Ok::<usize, ParserError>(#[verifier::truncate] (final(self)@.requests.len() as usize)),
                Some(e) => Err(e),
            },
    {
        let count = if length < bytes.len() {
            length
        } else {
            bytes.len()
        };
        let ghost fed = bytes@.take(count as int);
        let ghost start = self@;
        assert(fed.skip(0) =~= fed);
        let mut index: usize = 0;
        while index < count
            invariant
                0 <= index <= count <= bytes@.len(),
                fed == bytes@.take(count as int),
                fed == bytes@.take(fed_length(bytes@.len(), length)),
                start == old(self)@,
                wf(self@),
                run(start, fed) == run(self@, fed.skip(index as int)),
            decreases count - index,
        {
            let byte = bytes[index];
            proof {
                transition::lemma_step_keeps(self@, byte);
                assert(fed.skip(index as int)[0] == byte);
                assert(fed.skip(index as int).drop_first() =~= fed.skip(index + 1));
            }
            match self.next(byte) {
                Ok(state) => {
                    self.state = state;
                },
                Err(error) => {
                    assert(run(start, fed) == (self@, Some(error)));
                    let queued = self.requests.len();
                    assert(self@.requests.len() == queued);
                    return Err(error);
                },
            }
            index = index + 1;
        }
        assert(fed.skip(count as int) =~= Seq::<u8>::empty());
        Ok(self.requests.len())
    }
}

/// Parser for Hyper Text Transfer Protocol Requests.
#[derive(Debug)]
pub struct Parser {
    /// The state machine and what it has read so far.
    machine: Machine,
}

impl Parser {
    /// The invariant of the state machine holds of every parser.
    #[verifier::type_invariant]
    closed spec fn machine_wf(self) -> bool {
        wf(self.machine@)
    }
}

impl View for Parser {
    type V = ParserView;

    closed spec fn view(&self) -> ParserView {
        self.machine@
    }
}

/// Constructor for `Parser`.
pub fn Parser(configuration: Configuration) -> (parser: Parser)
    ensures
        parser@ == transition::initial(configuration),
        wf(parser@),
{
    Parser { machine: machine(configuration) }
}

//  ==  Frontend  ==
impl Parser {
    /// Helper to check if byte is allowed in tokens.
    pub fn isToken(input: u8) -> (token: bool)
        ensures
            token == is_token(input),
    {
        (0x21 <= input && input <= 0x26) || input == 0x2a || input == 0x2b || input == 0x2d
            || input == 0x2e || (0x30 <= input && input <= 0x39) || (0x41 <= input && input
            <= 0x5a) || (0x5e <= input && input <= 0x7a) || input == 0x7c || input == 0x7e
    }

    /// Feed parser with the first `length` bytes of `bytes` (all of them, if there are fewer).
    /// On success, the result is the number of requests parsed completely and not yet taken.
    pub fn feed(&mut self, bytes: &[u8], length: usize) -> (result: Result<usize, ParserError>)
        ensures
            wf(final(self)@),
            final(self)@.requests.len() <= usize::MAX,
            final(self)@ == run(old(self)@, bytes@.take(fed_length(bytes@.len(), length))).0,
            result == match run(old(self)@, bytes@.take(fed_length(bytes@.len(), length))).1 {
                None => Ok::<usize, ParserError>(#[verifier::truncate] (final(self)@.requests.len() as usize)),
                Some(e) => Err(e),
            },
    {
        proof {
            use_type_invariant(&*self);
        }
        let mut machine = machine(self.machine.configuration);
        std::mem::swap(&mut machine, &mut self.machine);
        let result = machine.feed(bytes, length);
        self.machine = machine;
        result
    }

    /// Take requests out of parsers.
    pub fn take(&mut self) -> (requests: Vec<Request>)
        ensures
            requests_view(requests@) == old(self)@.requests,
            final(self)@ == (ParserView { requests: Seq::empty(), ..old(self)@ }),
    {
        proof {
            use_type_invariant(&*self);
        }
        let mut machine = machine(self.machine.configuration);
        std::mem::swap(&mut machine, &mut self.machine);
        let mut requests = Vec::new();
        std::mem::swap(&mut requests, &mut machine.requests);
        assert(requests_view(machine.requests@) =~= Seq::empty());
        self.machine = machine;
        requests
    }
}

//  ==  Connection  ==
impl Parser {
    /// What the server does after reading from a connection: `read` is the number of bytes
    /// read into `buffer`, or `None` where reading failed, and `elapsed` the nanoseconds since the
    /// connection was opened or last answered. Bytes read are fed to the parser; completed
    /// requests are taken out of it, to be answered.
    pub fn receive(&mut self, read: Option<usize>, buffer: &[u8], elapsed: u128) -> (action: ConnectionAction)
        ensures
            wf(final(self)@),
            read is None ==> final(self)@ == old(self)@ && action == ConnectionAction::Close(
                CloseReason::ReadFailed,
            ),
            read == Some(0usize) ==> final(self)@ == old(self)@ && action == ConnectionAction::Close(
                CloseReason::ClientClosed,
            ),
            ({
                let length = read.unwrap();
                let (parser, error) = run(old(self)@, buffer@.take(fed_length(buffer@.len(), length)));
                read is Some && length > 0 ==> match error {
                    Some(e) => final(self)@ == parser && action == ConnectionAction::Close(
                        CloseReason::ParseFailed(e),
                    ),
                    None => if parser.requests.len() > 0 {
                        &&& final(self)@ == (ParserView { requests: Seq::empty(), ..parser })
                        &&& action matches ConnectionAction::Respond(requests)
                        &&& requests_view(requests@) == parser.requests
                    } else {
                        &&& final(self)@ == parser
                        &&& action == if elapsed > parser.configuration.readTimeOut {
                            ConnectionAction::Close(CloseReason::TimedOut)
                        } else {
                            ConnectionAction::Continue
                        }
                    },
                }
            }),
    {
        proof {
            use_type_invariant(&*self);
        }
        match read {
            None => ConnectionAction::Close(CloseReason::ReadFailed),
            Some(length) => if length > 0 {
                match self.feed(buffer, length) {
                    Ok(requests) => if requests > 0 {
                        ConnectionAction::Respond(self.take())
                    } else if elapsed > self.machine.configuration.readTimeOut {
                        ConnectionAction::Close(CloseReason::TimedOut)
                    } else {
                        ConnectionAction::Continue
                    },
                    Err(error) => ConnectionAction::Close(CloseReason::ParseFailed(error)),
                }
            } else {
                ConnectionAction::Close(CloseReason::ClientClosed)
            },
        }
    }
}

} // verus!
