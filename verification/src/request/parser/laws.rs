use vstd::prelude::*;

use vstd::utf8::{valid_utf8, decode_utf8};

use crate::method::{Method, method_name};
use crate::version::{Version, version_text};
use crate::request::{
    RequestView, RequestHeaderView, RequestHeaderField, empty_request, empty_header, header_set_string,
};
use super::error::ParserError;
use super::transition::{
    ParserState, ParserView, run, step, wf, initial, is_token, is_hex, hex_value, starts_value,
    shift_digit, lemma_step_keeps,
};
use crate::response::decimal_text;

/// How the parser reads the parts of a request.
mod steps;
/// How the parser reads the length of the body and the body.
mod body;
/// How the parser reads the query of a request.
mod query;
/// How the parser reads the header fields Host and User-Agent, and cookies.
mod fields;
/// How the parser tells ordinary header names from those it reads specially.
mod names;

verus! {

/// Feeding one more byte after a sequence: nothing more happens after an error, else the
/// byte makes one step.
pub broadcast proof fn lemma_run_push(p: ParserView, bytes: Seq<u8>, byte: u8)
    ensures
        #[trigger] run(p, bytes.push(byte)) == if run(p, bytes).1 is Some {
            run(p, bytes)
        } else {
            step(run(p, bytes).0, byte)
        },
    decreases bytes.len(),
{
    if bytes.len() == 0 {
        assert(bytes.push(byte).drop_first() =~= Seq::<u8>::empty());
        let q = step(p, byte).0;
        assert(run(q, Seq::<u8>::empty()) == (q, None::<ParserError>));
    } else {
        assert(bytes.push(byte).drop_first() =~= bytes.drop_first().push(byte));
        assert(bytes.push(byte)[0] == bytes[0]);
        let q = step(p, bytes[0]).0;
        lemma_run_push(q, bytes.drop_first(), byte);
    }
}

/// Feeding bytes in two pieces, one after the other, is feeding them at once: the second
/// piece is fed to the parser that the first left, unless the first ended in an error.
pub proof fn lemma_run_concat(p: ParserView, first: Seq<u8>, second: Seq<u8>)
    ensures
        run(p, first + second) == if run(p, first).1 is Some {
            run(p, first)
        } else {
            run(run(p, first).0, second)
        },
    decreases first.len(),
{
    if first.len() == 0 {
        assert(first + second =~= second);
    } else {
        assert((first + second).drop_first() =~= first.drop_first() + second);
        let q = step(p, first[0]).0;
        lemma_run_concat(q, first.drop_first(), second);
    }
}

/// Whatever is fed to a parser, it keeps its invariant and its configuration, and the
/// requests completed before are still there, first in the queue.
pub proof fn lemma_run_keeps(p: ParserView, bytes: Seq<u8>)
    requires
        wf(p),
    ensures
        wf(run(p, bytes).0),
        run(p, bytes).0.configuration == p.configuration,
        run(p, bytes).0.requests.len() >= p.requests.len(),
        run(p, bytes).0.requests.take(p.requests.len() as int) == p.requests,
    decreases bytes.len(),
{
    if bytes.len() > 0 {
        let q = step(p, bytes[0]).0;
        lemma_step_keeps(p, bytes[0]);
        assert(q.requests.take(p.requests.len() as int) =~= p.requests);
        if step(p, bytes[0]).1 is None {
            lemma_run_keeps(q, bytes.drop_first());
            let r = run(q, bytes.drop_first()).0;
            assert(r.requests.take(p.requests.len() as int) =~= q.requests.take(q.requests.len() as int).take(p.requests.len() as int));
        }
    } else {
        assert(p.requests.take(p.requests.len() as int) =~= p.requests);
    }
}


/// Feeding bytes that the parser, in the state it is in, collects as long as its token
/// stays within `limit` bytes, and that fit: they are appended to its token bytes.
pub proof fn lemma_collect(p: ParserView, bytes: Seq<u8>, limit: int)
    requires
        p.auxiliary.len() + bytes.len() <= limit,
        forall|q: ParserView, i: int|
            #![trigger step(q, bytes[i])]
            q.state == p.state && q.configuration == p.configuration && 0 <= i < bytes.len()
                && q.auxiliary.len() < limit ==> step(q, bytes[i]) == (
                ParserView { auxiliary: q.auxiliary.push(bytes[i]), ..q },
                None::<ParserError>,
            ),
    ensures
        run(p, bytes) == (ParserView { auxiliary: p.auxiliary + bytes, ..p }, None::<ParserError>),
    decreases bytes.len(),
{
    if bytes.len() == 0 {
        assert(p.auxiliary + bytes =~= p.auxiliary);
    } else {
        let init = bytes.drop_last();
        assert(init.push(bytes.last()) =~= bytes);
        assert forall|q: ParserView, i: int|
            #![trigger step(q, init[i])]
            q.state == p.state && q.configuration == p.configuration && 0 <= i < init.len()
                && q.auxiliary.len() < limit implies step(q, init[i]) == (
                ParserView { auxiliary: q.auxiliary.push(init[i]), ..q },
                None::<ParserError>,
            ) by {
            assert(init[i] == bytes[i]);
        }
        lemma_collect(p, init, limit);
        lemma_run_push(p, init, bytes.last());
        let q = ParserView { auxiliary: p.auxiliary + init, ..p };
        assert(step(q, bytes[bytes.len() - 1]) == (
            ParserView { auxiliary: q.auxiliary.push(bytes[bytes.len() - 1]), ..q },
            None::<ParserError>,
        ));
        assert((p.auxiliary + init).push(bytes.last()) =~= p.auxiliary + bytes);
    }
}

/// The bytes of a text of ASCII characters.
pub open spec fn ascii_bytes(text: Seq<char>) -> Seq<u8> {
    text.map_values(|c: char| c as u8)
}

/// Carriage return and line feed: the end of a line.
pub open spec fn crlf() -> Seq<u8> {
    seq!['\r' as u8, '\n' as u8]
}

/// Bytes that end the path of a resource or start an escape sequence in it, or that are
/// forbidden in it.
pub open spec fn ends_path(b: u8) -> bool {
    b == '%' as u8 || b == '\r' as u8 || b == ' ' as u8 || b == '?' as u8 || b == 0 || b == '\n' as u8
}

/// A path that the parser takes as it is: valid UTF-8 without escape sequences, query,
/// spaces or line breaks.
pub open spec fn plain_path(path: Seq<u8>) -> bool {
    &&& valid_utf8(path)
    &&& forall|i: int| 0 <= i < path.len() ==> !ends_path(#[trigger] path[i])
}

/// The name of the header field that gives the length of the body.
pub open spec fn content_length_name() -> Seq<u8> {
    seq![
        'C' as u8, 'o' as u8, 'n' as u8, 't' as u8, 'e' as u8, 'n' as u8, 't' as u8,
        '-' as u8, 'L' as u8, 'e' as u8, 'n' as u8, 'g' as u8, 't' as u8, 'h' as u8,
    ]
}

/// A beginning of one of the header names that the parser reads specially: Content-Length,
/// Cookie, Host and User-Agent.
pub open spec fn special_prefix(name: Seq<u8>) -> bool {
    ||| name.is_prefix_of(content_length_name())
    ||| name.is_prefix_of(cookie_name())
    ||| name.is_prefix_of(text_field_name(RequestHeaderField::Host))
    ||| name.is_prefix_of(text_field_name(RequestHeaderField::UserAgent))
}

/// A header name that the parser takes as an ordinary one: a token in UTF-8 that is no
/// beginning of a name that it reads specially, or is "Co" (which it reads as ordinary).
pub open spec fn ordinary_name(name: Seq<u8>) -> bool {
    &&& name.len() > 0
    &&& forall|i: int| 0 <= i < name.len() ==> is_token(#[trigger] name[i])
    &&& valid_utf8(name)
    &&& (!special_prefix(name) || name == seq!['C' as u8, 'o' as u8])
}

/// A header value that the parser takes as it is: valid UTF-8 on one line, which starts with
/// a letter, a digit, a quotation mark or an asterisk.
pub open spec fn plain_value(value: Seq<u8>) -> bool {
    value_bytes(value) && valid_utf8(value)
}

/// Bytes that the parser collects as a header value: a first byte that may start one, and
/// no carriage return.
pub open spec fn value_bytes(value: Seq<u8>) -> bool {
    &&& value.len() > 0
    &&& starts_value(value[0])
    &&& forall|i: int| 0 <= i < value.len() ==> #[trigger] value[i] != '\r' as u8
}

/// A header field that the parser takes as it is: an ordinary name and a plain value.
pub open spec fn plain_field(field: (Seq<u8>, Seq<u8>)) -> bool {
    ordinary_name(field.0) && plain_value(field.1)
}

/// A header line: the name, a colon, a space, the value and a line break.
pub open spec fn header_line(name: Seq<u8>, value: Seq<u8>) -> Seq<u8> {
    name + seq![':' as u8, ' ' as u8] + value + crlf()
}

/// A header field whose name and value are each no longer than the configuration allows.
pub open spec fn field_fits(field: (Seq<u8>, Seq<u8>), configuration: crate::Configuration) -> bool {
    field.0.len() <= configuration.maxHeaderLength && field.1.len() <= configuration.maxHeaderLength
}

/// Header fields that the configuration allows: no more of them than it allows, each
/// fitting.
pub open spec fn fields_fit(fields: Seq<(Seq<u8>, Seq<u8>)>, configuration: crate::Configuration) -> bool {
    &&& fields.len() <= configuration.maxHeaderEntries
    &&& forall|i: int| 0 <= i < fields.len() ==> field_fits(#[trigger] fields[i], configuration)
}

/// The header lines of a list of fields, in order.
pub open spec fn header_lines(fields: Seq<(Seq<u8>, Seq<u8>)>) -> Seq<u8>
    decreases fields.len(),
{
    if fields.len() == 0 {
        Seq::empty()
    } else {
        header_lines(fields.drop_last()) + header_line(fields.last().0, fields.last().1)
    }
}

/// The fields of a header as the parser reads them.
pub open spec fn decoded_fields(fields: Seq<(Seq<u8>, Seq<u8>)>) -> Seq<(Seq<char>, Seq<char>)> {
    fields.map_values(|field: (Seq<u8>, Seq<u8>)| (decode_utf8(field.0), decode_utf8(field.1)))
}

/// A parser between two requests: it awaits a method, and the request that it fills is
/// still empty.
pub open spec fn at_request_start(p: ParserView) -> bool {
    &&& wf(p)
    &&& p.state == ParserState::Method
    &&& p.auxiliary.len() == 0
    &&& p.cache == empty_request()
    &&& p.value == 0
    &&& p.entries == 0
}

/// The request line: the method, a space, the path, a space, the version, a line break.
pub open spec fn request_line(m: Method, path: Seq<u8>, v: Version) -> Seq<u8> {
    ascii_bytes(method_name(m)).push(' ' as u8) + path + (seq![' ' as u8] + ascii_bytes(version_text(v))
        + crlf())
}

/// A request with neither query nor body: the request line, the header lines, an empty line.
pub open spec fn request(m: Method, path: Seq<u8>, v: Version, fields: Seq<(Seq<u8>, Seq<u8>)>) -> Seq<u8> {
    request_line(m, path, v) + header_lines(fields) + crlf()
}

/// A request without query, header fields and body.
pub open spec fn simple_request(m: Method, path: Seq<u8>, v: Version) -> Seq<u8> {
    request(m, path, v, Seq::empty())
}

/// The request that the parser makes of a request with neither query nor body.
pub open spec fn request_view(
    m: Method,
    path: Seq<u8>,
    v: Version,
    fields: Seq<(Seq<u8>, Seq<u8>)>,
) -> RequestView {
    RequestView {
        method: m,
        path: decode_utf8(path),
        version: v,
        header: RequestHeaderView { other: decoded_fields(fields), ..empty_header() },
        ..empty_request()
    }
}

/// The number that the parser reads from decimal digits, with the wrap-around of unsigned
/// 64-bit machine arithmetic.
pub open spec fn number_value(digits: Seq<u8>) -> u64
    decreases digits.len(),
{
    if digits.len() == 0 {
        0
    } else {
        shift_digit(number_value(digits.drop_last()), digits.last())
    }
}

/// Decimal digits.
pub open spec fn is_digit(b: u8) -> bool {
    '0' as u8 <= b <= '9' as u8
}

/// The header line that announces the length of the body.
pub open spec fn content_length_line(length: nat) -> Seq<u8> {
    ascii_bytes("Content-Length: "@) + ascii_bytes(decimal_text(length)) + crlf()
}

/// A request with a body and no query: the request line, the header line that gives the
/// length of the body, an empty line and the body.
pub open spec fn request_with_body(m: Method, path: Seq<u8>, v: Version, body: Seq<u8>) -> Seq<u8> {
    request_line(m, path, v) + content_length_line(body.len()) + crlf() + body
}

/// The request that the parser makes of a request with a body and no query.
pub open spec fn request_with_body_view(m: Method, path: Seq<u8>, v: Version, body: Seq<u8>) -> RequestView {
    RequestView {
        method: m,
        path: decode_utf8(path),
        version: v,
        header: RequestHeaderView { contentLength: Some(body.len() as usize), ..empty_header() },
        content: body,
        ..empty_request()
    }
}

/// A header value that the parser takes as it is in a textual field: a plain value without
/// escape sequences.
pub open spec fn plain_text(value: Seq<u8>) -> bool {
    &&& plain_value(value)
    &&& forall|i: int| 0 <= i < value.len() ==> #[trigger] value[i] != '%' as u8
}

/// The name of a textual header field that the parser reads specially.
pub open spec fn text_field_name(field: RequestHeaderField) -> Seq<u8> {
    match field {
        RequestHeaderField::Host => seq!['H' as u8, 'o' as u8, 's' as u8, 't' as u8],
        RequestHeaderField::UserAgent => seq![
            'U' as u8, 's' as u8, 'e' as u8, 'r' as u8, '-' as u8,
            'A' as u8, 'g' as u8, 'e' as u8, 'n' as u8, 't' as u8,
        ],
        _ => Seq::empty(),
    }
}

/// The name of the Cookie header field.
pub open spec fn cookie_name() -> Seq<u8> {
    seq!['C' as u8, 'o' as u8, 'o' as u8, 'k' as u8, 'i' as u8, 'e' as u8]
}

/// A cookie name that the parser takes as it is: a token in UTF-8 that starts with a letter,
/// a digit or an asterisk.
pub open spec fn plain_cookie_name(name: Seq<u8>) -> bool {
    &&& name.len() > 0
    &&& starts_value(name[0])
    &&& forall|i: int| 0 <= i < name.len() ==> is_token(#[trigger] name[i])
    &&& valid_utf8(name)
}

/// A cookie name that the parser takes as it is after the separator of two cookies: token
/// bytes in UTF-8.
pub open spec fn token_cookie_name(name: Seq<u8>) -> bool {
    &&& forall|i: int| 0 <= i < name.len() ==> is_token(#[trigger] name[i])
    &&& valid_utf8(name)
}

/// A cookie: the name, an equals sign and the value.
pub open spec fn cookie_pair(cookie: (Seq<u8>, Seq<u8>)) -> Seq<u8> {
    cookie.0 + seq!['=' as u8] + cookie.1
}

/// A cookie whose name and value are each no longer than the configuration allows.
pub open spec fn cookie_fits(cookie: (Seq<u8>, Seq<u8>), configuration: crate::Configuration) -> bool {
    cookie.0.len() <= configuration.maxCookieLength && cookie.1.len() <= configuration.maxCookieLength
}

/// Cookies, separated by a semicolon and a space.
pub open spec fn cookie_list(cookies: Seq<(Seq<u8>, Seq<u8>)>) -> Seq<u8>
    decreases cookies.len(),
{
    if cookies.len() == 0 {
        Seq::empty()
    } else if cookies.len() == 1 {
        cookie_pair(cookies[0])
    } else {
        cookie_list(cookies.drop_last()) + seq![';' as u8, ' ' as u8] + cookie_pair(cookies.last())
    }
}

/// Bytes that end, quote or escape a cookie value, or that are forbidden in it.
pub open spec fn ends_cookie_value(b: u8) -> bool {
    b <= ' ' as u8 || b == '"' as u8 || b == ',' as u8 || b == '\\' as u8 || b == ';' as u8
        || b == '%' as u8
}

/// A cookie value that the parser takes as it is: UTF-8 without the bytes that end, quote or
/// escape it.
pub open spec fn plain_cookie_value(value: Seq<u8>) -> bool {
    cookie_value_bytes(value) && valid_utf8(value)
}

/// Bytes that the parser collects as a cookie value: none that ends, quotes or escapes it.
pub open spec fn cookie_value_bytes(value: Seq<u8>) -> bool {
    forall|i: int| 0 <= i < value.len() ==> !ends_cookie_value(#[trigger] value[i])
}

/// Bytes that end or escape the key of a query entry, or that are forbidden in it.
pub open spec fn ends_query_key(b: u8, separator: u8) -> bool {
    b == '%' as u8 || b == 0 || b == '\n' as u8 || b == separator || b == '\r' as u8 || b == '=' as u8
}

/// Bytes that end or escape the value of a query entry, or that are forbidden in it.
pub open spec fn ends_query_value(b: u8, separator: u8) -> bool {
    b == '%' as u8 || b == 0 || b == '\n' as u8 || b == separator || b == ' ' as u8 || b == '\r' as u8
}

/// A separator of query entries that is no byte the query gives another meaning.
pub open spec fn plain_separator(separator: u8) -> bool {
    !(separator == '%' as u8 || separator == 0 || separator == '\n' as u8 || separator == '\r' as u8
        || separator == '=' as u8 || separator == ' ' as u8)
}

/// A query entry that the parser takes as it is: key and value in UTF-8 without escape
/// sequences, the value no longer than the configuration allows.
pub open spec fn plain_entry(entry: (Seq<u8>, Seq<u8>), configuration: crate::Configuration) -> bool {
    &&& valid_utf8(entry.0)
    &&& valid_utf8(entry.1)
    &&& forall|i: int| 0 <= i < entry.0.len() ==> !ends_query_key(#[trigger] entry.0[i], configuration.querySeperator)
    &&& forall|i: int| 0 <= i < entry.1.len() ==> !ends_query_value(#[trigger] entry.1[i], configuration.querySeperator)
    &&& entry.1.len() <= configuration.maxPathLength + 1
}

/// A query entry: the key, an equals sign and the value.
pub open spec fn query_entry(entry: (Seq<u8>, Seq<u8>)) -> Seq<u8> {
    entry.0 + seq!['=' as u8] + entry.1
}

/// Query entries, between separators.
pub open spec fn query_bytes(entries: Seq<(Seq<u8>, Seq<u8>)>, separator: u8) -> Seq<u8>
    decreases entries.len(),
{
    if entries.len() == 0 {
        Seq::empty()
    } else if entries.len() == 1 {
        query_entry(entries[0])
    } else {
        query_bytes(entries.drop_last(), separator) + seq![separator] + query_entry(entries.last())
    }
}

/// A query entry: a key alone, or a key, an equals sign and a value.
pub open spec fn query_item(item: (Seq<u8>, Option<Seq<u8>>)) -> Seq<u8> {
    match item.1 {
        Some(value) => item.0 + seq!['=' as u8] + value,
        None => item.0,
    }
}

/// What a request holds of a query entry: the key and the value, empty for a key alone.
pub open spec fn decoded_item(item: (Seq<u8>, Option<Seq<u8>>)) -> (Seq<char>, Seq<char>) {
    (
        decode_utf8(item.0),
        match item.1 {
            Some(value) => decode_utf8(value),
            None => Seq::empty(),
        },
    )
}

/// A query entry that the parser takes as it is: a key alone in UTF-8 without escape
/// sequences, or a key and a value as `plain_entry` says.
pub open spec fn plain_item(item: (Seq<u8>, Option<Seq<u8>>), configuration: crate::Configuration) -> bool {
    match item.1 {
        Some(value) => plain_entry((item.0, value), configuration),
        None => {
            &&& valid_utf8(item.0)
            &&& forall|i: int| 0 <= i < item.0.len() ==> !ends_query_key(#[trigger] item.0[i], configuration.querySeperator)
        },
    }
}

/// Query entries, each ended by the separator.
pub open spec fn items_bytes(items: Seq<(Seq<u8>, Option<Seq<u8>>)>, separator: u8) -> Seq<u8>
    decreases items.len(),
{
    if items.len() == 0 {
        Seq::empty()
    } else {
        items_bytes(items.drop_last(), separator) + query_item(items.last()) + seq![separator]
    }
}

/// A request with a query and neither header fields nor body: the method, a space, the
/// path, a question mark, entries each ended by the separator, a last entry "key=value", a
/// space, the version, a line break and an empty line.
pub open spec fn request_with_items(
    m: Method,
    path: Seq<u8>,
    items: Seq<(Seq<u8>, Option<Seq<u8>>)>,
    last: (Seq<u8>, Seq<u8>),
    separator: u8,
    v: Version,
) -> Seq<u8> {
    ascii_bytes(method_name(m)).push(' ' as u8) + path + (seq!['?' as u8] + (items_bytes(items, separator)
        + query_entry(last))) + (seq![' ' as u8] + ascii_bytes(version_text(v)) + crlf()) + crlf()
}

/// The request that the parser makes of such a request: every entry in order.
pub open spec fn request_with_items_view(
    m: Method,
    path: Seq<u8>,
    items: Seq<(Seq<u8>, Option<Seq<u8>>)>,
    last: (Seq<u8>, Seq<u8>),
    v: Version,
) -> RequestView {
    RequestView {
        method: m,
        path: decode_utf8(path),
        query: items.map_values(|item: (Seq<u8>, Option<Seq<u8>>)| decoded_item(item)).push(
            (decode_utf8(last.0), decode_utf8(last.1)),
        ),
        version: v,
        ..empty_request()
    }
}

/// A request with a query and neither header fields nor body: the method, a space, the
/// path, a question mark, the query entries, a space, the version, a line break and an
/// empty line.
pub open spec fn request_with_query(
    m: Method,
    path: Seq<u8>,
    entries: Seq<(Seq<u8>, Seq<u8>)>,
    separator: u8,
    v: Version,
) -> Seq<u8> {
    ascii_bytes(method_name(m)).push(' ' as u8) + path + (seq!['?' as u8] + query_bytes(entries, separator))
        + (seq![' ' as u8] + ascii_bytes(version_text(v)) + crlf()) + crlf()
}

/// The request that the parser makes of a request with a query.
pub open spec fn request_with_query_view(
    m: Method,
    path: Seq<u8>,
    entries: Seq<(Seq<u8>, Seq<u8>)>,
    v: Version,
) -> RequestView {
    RequestView {
        method: m,
        path: decode_utf8(path),
        query: decoded_fields(entries),
        version: v,
        ..empty_request()
    }
}

/// A parser that no byte was fed to is between two requests.
pub proof fn law_initial(configuration: crate::Configuration)
    ensures
        at_request_start(initial(configuration)),
{
}

/// Header lines of ordinary fields, from the start of a header line: each adds its field.
proof fn lemma_header_lines(p: ParserView, fields: Seq<(Seq<u8>, Seq<u8>)>)
    requires
        p.state == ParserState::HeaderKey,
        p.auxiliary.len() == 0,
        forall|i: int| 0 <= i < fields.len() ==> plain_field(#[trigger] fields[i]),
        p.entries + fields.len() <= p.configuration.maxHeaderEntries,
        forall|i: int| 0 <= i < fields.len() ==> field_fits(#[trigger] fields[i], p.configuration),
    ensures
        run(p, header_lines(fields)).1 is None,
        run(p, header_lines(fields)).0.state == ParserState::HeaderKey,
        run(p, header_lines(fields)).0.entries == p.entries + fields.len(),
        run(p, header_lines(fields)).0.configuration == p.configuration,
        run(p, header_lines(fields)).0.auxiliary.len() == 0,
        run(p, header_lines(fields)).0.requests == p.requests,
        run(p, header_lines(fields)).0.value == p.value,
        run(p, header_lines(fields)).0.cache == (RequestView {
            header: RequestHeaderView {
                other: p.cache.header.other + decoded_fields(fields),
                ..p.cache.header
            },
            ..p.cache
        }),
    decreases fields.len(),
{
    if fields.len() == 0 {
        assert(p.cache.header.other + decoded_fields(fields) =~= p.cache.header.other);
        assert(header_lines(fields) =~= Seq::<u8>::empty());
    } else {
        let init = fields.drop_last();
        let last = fields.last();
        assert forall|i: int| 0 <= i < init.len() implies plain_field(#[trigger] init[i]) by {
            assert(init[i] == fields[i]);
        }
        assert forall|i: int| 0 <= i < init.len() implies field_fits(#[trigger] init[i], p.configuration) by {
            assert(init[i] == fields[i]);
        }
        lemma_header_lines(p, init);
        lemma_run_concat(p, header_lines(init), header_line(last.0, last.1));
        let q = run(p, header_lines(init)).0;
        assert(last == fields[fields.len() - 1]);
        assert(plain_field(fields[fields.len() - 1]));
        assert(field_fits(fields[fields.len() - 1], p.configuration));
        steps::lemma_header_line(q, last.0, last.1);
        assert(decoded_fields(fields) =~= decoded_fields(init).push(
            (decode_utf8(last.0), decode_utf8(last.1)),
        ));
        assert(p.cache.header.other + decoded_fields(fields) =~= (p.cache.header.other
            + decoded_fields(init)).push((decode_utf8(last.0), decode_utf8(last.1))));
    }
}

/// The end of a request line after a plain path: a space, the version and a line break.
proof fn lemma_version_part(p: ParserView, v: Version)
    requires
        p.state == ParserState::PathConsume,
        valid_utf8(p.auxiliary),
    ensures
        run(p, seq![' ' as u8] + ascii_bytes(version_text(v)) + crlf()) == (
            ParserView {
                state: ParserState::HeaderKey,
                reset: ParserState::HeaderKey,
                auxiliary: Seq::empty(),
                cache: RequestView { path: decode_utf8(p.auxiliary), version: v, ..p.cache },
                ..p
            },
            None::<ParserError>,
        ),
{
    let rest = ascii_bytes(version_text(v)) + crlf();
    assert(seq![' ' as u8] + ascii_bytes(version_text(v)) + crlf() =~= seq![' ' as u8] + rest);
    lemma_run_concat(p, seq![' ' as u8], rest);
    steps::lemma_path_end(p);
    steps::lemma_version(run(p, seq![' ' as u8]).0, v);
}

/// A request with neither query nor body: a method, a space, a path that needs no decoding,
/// a space, a version, a line break, header lines of ordinary fields and an empty line. Fed to a parser between
/// two requests, it completes the request that it states, which is queued after the
/// others, and leaves the parser between two requests.
pub proof fn law_request(
    p: ParserView,
    m: Method,
    path: Seq<u8>,
    v: Version,
    fields: Seq<(Seq<u8>, Seq<u8>)>,
)
    requires
        at_request_start(p),
        m != Method::Dummy,
        plain_path(path),
        path.len() <= p.configuration.maxPathLength,
        forall|i: int| 0 <= i < fields.len() ==> plain_field(#[trigger] fields[i]),
        fields_fit(fields, p.configuration),
    ensures
        run(p, request(m, path, v, fields)).1 is None,
        run(p, request(m, path, v, fields)).0.requests == p.requests.push(request_view(m, path, v, fields)),
        run(p, request(m, path, v, fields)).0.configuration == p.configuration,
        at_request_start(run(p, request(m, path, v, fields)).0),
{
    let method_part = ascii_bytes(method_name(m)).push(' ' as u8);
    let version_part = seq![' ' as u8] + ascii_bytes(version_text(v)) + crlf();
    let line = request_line(m, path, v);
    lemma_run_concat(p, line + header_lines(fields), crlf());
    lemma_run_concat(p, line, header_lines(fields));
    lemma_run_concat(p, method_part + path, version_part);
    lemma_run_concat(p, method_part, path);
    steps::lemma_method(p, m);
    let p1 = run(p, method_part).0;
    steps::lemma_path(p1, path);
    let p2 = run(p1, path).0;
    assert(p2.auxiliary =~= path);
    lemma_version_part(p2, v);
    let p3 = run(p2, version_part).0;
    lemma_header_lines(p3, fields);
    let p4 = run(p3, header_lines(fields)).0;
    assert(Seq::<(Seq<char>, Seq<char>)>::empty() + decoded_fields(fields) =~= decoded_fields(fields));
    steps::lemma_end(p4);
    assert(p4.cache == request_view(m, path, v, fields));
    lemma_run_keeps(p, request(m, path, v, fields));
}

/// A request without query, header fields and body, fed to a parser between two requests,
/// completes the request that it states, and leaves the parser between two requests, and
/// otherwise as it was.
pub proof fn law_simple_request(p: ParserView, m: Method, path: Seq<u8>, v: Version)
    requires
        at_request_start(p),
        m != Method::Dummy,
        plain_path(path),
        path.len() <= p.configuration.maxPathLength,
    ensures
        run(p, simple_request(m, path, v)) == (
            ParserView {
                state: ParserState::Method,
                reset: ParserState::Method,
                remaining: 0,
                requests: p.requests.push(request_view(m, path, v, Seq::empty())),
                ..p
            },
            None::<ParserError>,
        ),
{
    let method_part = ascii_bytes(method_name(m)).push(' ' as u8);
    let version_part = seq![' ' as u8] + ascii_bytes(version_text(v)) + crlf();
    let line = request_line(m, path, v);
    let fields = Seq::<(Seq<u8>, Seq<u8>)>::empty();
    assert(header_lines(fields) =~= Seq::<u8>::empty());
    assert(line + header_lines(fields) =~= line);
    lemma_run_concat(p, line, crlf());
    lemma_run_concat(p, method_part + path, version_part);
    lemma_run_concat(p, method_part, path);
    steps::lemma_method(p, m);
    let p1 = run(p, method_part).0;
    steps::lemma_path(p1, path);
    let p2 = run(p1, path).0;
    assert(p2.auxiliary =~= path);
    lemma_version_part(p2, v);
    let p3 = run(p2, version_part).0;
    steps::lemma_end(p3);
    assert(decoded_fields(fields) =~= Seq::empty());
    assert(p3.cache == request_view(m, path, v, fields));
    assert(p.auxiliary =~= Seq::<u8>::empty());
}

/// Requests sent one after the other are completed in the order in which they were sent.
pub proof fn law_pipelined_requests(
    p: ParserView,
    m1: Method,
    path1: Seq<u8>,
    v1: Version,
    fields1: Seq<(Seq<u8>, Seq<u8>)>,
    m2: Method,
    path2: Seq<u8>,
    v2: Version,
    fields2: Seq<(Seq<u8>, Seq<u8>)>,
)
    requires
        at_request_start(p),
        m1 != Method::Dummy,
        plain_path(path1),
        path1.len() <= p.configuration.maxPathLength,
        forall|i: int| 0 <= i < fields1.len() ==> plain_field(#[trigger] fields1[i]),
        fields_fit(fields1, p.configuration),
        m2 != Method::Dummy,
        plain_path(path2),
        path2.len() <= p.configuration.maxPathLength,
        forall|i: int| 0 <= i < fields2.len() ==> plain_field(#[trigger] fields2[i]),
        fields_fit(fields2, p.configuration),
    ensures
        run(p, request(m1, path1, v1, fields1) + request(m2, path2, v2, fields2)).1 is None,
        run(p, request(m1, path1, v1, fields1) + request(m2, path2, v2, fields2)).0.requests
            == p.requests.push(request_view(m1, path1, v1, fields1)).push(request_view(m2, path2, v2, fields2)),
        at_request_start(run(p, request(m1, path1, v1, fields1) + request(m2, path2, v2, fields2)).0),
{
    lemma_run_concat(p, request(m1, path1, v1, fields1), request(m2, path2, v2, fields2));
    law_request(p, m1, path1, v1, fields1);
    law_request(run(p, request(m1, path1, v1, fields1)).0, m2, path2, v2, fields2);
}

/// From a parser between two requests: the request line and the header line that gives the
/// length of a body, up to the end of that header line.
proof fn lemma_announced(p: ParserView, m: Method, path: Seq<u8>, v: Version, length: nat)
    requires
        at_request_start(p),
        m != Method::Dummy,
        plain_path(path),
        path.len() <= p.configuration.maxPathLength,
        length <= usize::MAX,
        p.configuration.maxHeaderEntries > 0,
        p.configuration.maxHeaderLength > 0,
    ensures
        run(p, request_line(m, path, v) + content_length_line(length)) == (
            ParserView {
                state: ParserState::HeaderKey,
                reset: ParserState::HeaderKey,
                entries: 1,
                goto: ParserState::HeaderValueParseNumber,
                header: crate::request::RequestHeaderField::ContentLength,
                byte: ascii_bytes(decimal_text(length)).last(),
                cache: RequestView {
                    method: m,
                    path: decode_utf8(path),
                    version: v,
                    header: RequestHeaderView { contentLength: Some(length as usize), ..empty_header() },
                    ..empty_request()
                },
                ..p
            },
            None::<ParserError>,
        ),
{
    let method_part = ascii_bytes(method_name(m)).push(' ' as u8);
    let version_part = seq![' ' as u8] + ascii_bytes(version_text(v)) + crlf();
    let line = request_line(m, path, v);
    let name = ascii_bytes("Content-Length: "@);
    let digits = ascii_bytes(decimal_text(length));
    lemma_run_concat(p, line, content_length_line(length));
    lemma_run_concat(p, method_part + path, version_part);
    lemma_run_concat(p, method_part, path);
    steps::lemma_method(p, m);
    let p1 = run(p, method_part).0;
    steps::lemma_path(p1, path);
    let p2 = run(p1, path).0;
    assert(p2.auxiliary =~= path);
    lemma_version_part(p2, v);
    let p3 = run(p2, version_part).0;
    lemma_run_concat(p3, name + digits, crlf());
    lemma_run_concat(p3, name, digits);
    body::lemma_content_length_name(p3);
    let q1 = run(p3, name).0;
    body::lemma_decimal_digits(length);
    body::lemma_digits(q1, digits);
    let q2 = run(q1, digits).0;
    body::lemma_number_end(q2);
    assert(shift_digit(q2.value, q2.byte) == number_value(digits));
    assert(p.auxiliary =~= Seq::<u8>::empty());
}

/// A request with a body: a method, a path that needs no decoding, a version, the header
/// line that gives the length of the body in decimal, an empty line, and a body of that length, which the
/// configuration allows. Fed to a parser between two requests, it completes the request
/// that it states, with the body as content, and leaves the parser between two requests.
pub proof fn law_request_with_body(p: ParserView, m: Method, path: Seq<u8>, v: Version, body: Seq<u8>)
    requires
        at_request_start(p),
        m != Method::Dummy,
        plain_path(path),
        path.len() <= p.configuration.maxPathLength,
        body.len() <= p.configuration.maxContentLength,
        p.configuration.maxHeaderEntries > 0,
        p.configuration.maxHeaderLength > 0,
    ensures
        run(p, request_with_body(m, path, v, body)).1 is None,
        run(p, request_with_body(m, path, v, body)).0.requests == p.requests.push(
            request_with_body_view(m, path, v, body),
        ),
        run(p, request_with_body(m, path, v, body)).0.configuration == p.configuration,
        at_request_start(run(p, request_with_body(m, path, v, body)).0),
{
    let head = request_line(m, path, v) + content_length_line(body.len());
    lemma_announced(p, m, path, v, body.len());
    lemma_run_concat(p, head + crlf(), body);
    lemma_run_concat(p, head, crlf());
    let q = run(p, head).0;
    if body.len() > 0 {
        body::lemma_body_start(q);
        let r = run(q, crlf()).0;
        body::lemma_body(r, body);
        assert(r.auxiliary + body =~= body);
    } else {
        steps::lemma_end(q);
        assert(body =~= Seq::<u8>::empty());
        assert(run(run(q, crlf()).0, body) == (run(q, crlf()).0, None::<ParserError>));
    }
    lemma_run_keeps(p, request_with_body(m, path, v, body));
}

/// A request whose header announces a body longer than the configuration allows is refused
/// at the empty line that ends its header, before any byte of the body is awaited.
pub proof fn law_body_too_long(p: ParserView, m: Method, path: Seq<u8>, v: Version, length: nat)
    requires
        at_request_start(p),
        m != Method::Dummy,
        plain_path(path),
        path.len() <= p.configuration.maxPathLength,
        p.configuration.maxContentLength < length <= usize::MAX,
        p.configuration.maxHeaderEntries > 0,
        p.configuration.maxHeaderLength > 0,
    ensures
        run(p, request_line(m, path, v) + content_length_line(length) + crlf()).1 == Some(ParserError::Body),
{
    broadcast use lemma_run_push;
    let head = request_line(m, path, v) + content_length_line(length);
    lemma_announced(p, m, path, v, length);
    lemma_run_concat(p, head, crlf());
    let q = run(p, head).0;
    let s0 = Seq::<u8>::empty();
    assert(run(q, s0) == (q, None::<ParserError>));
    let s1 = s0.push('\r' as u8);
    assert(run(q, s1).1 == Some(ParserError::Body));
    let s2 = s1.push('\n' as u8);
    assert(s2 =~= crlf());
}

/// Where the token that the parser collects has room for one more byte, within the limit
/// that the configuration sets on it in the state the parser is in.
pub open spec fn has_room(p: ParserView) -> bool {
    match p.state {
        ParserState::PathConsume => p.auxiliary.len() < p.configuration.maxPathLength,
        ParserState::HeaderValueParseCookieValue => p.auxiliary.len() < p.configuration.maxCookieLength,
        ParserState::HeaderValueParseString => p.auxiliary.len() < p.configuration.maxHeaderLength,
        _ => true,
    }
}

/// States in which a percent sign starts an escaped byte.
pub open spec fn escapes(s: ParserState) -> bool {
    ||| s == ParserState::PathConsume
    ||| s == ParserState::QueryKey
    ||| s == ParserState::QueryValue
    ||| s == ParserState::HeaderValueParseCookieValue
    ||| s == ParserState::HeaderValueParseString
}

/// In a path, a query, a cookie value or the value of the Host or User-Agent field, a
/// percent sign and two hexadecimal digits stand for the byte of that number, which is
/// collected in place of the three; the parser goes on where it was.
pub proof fn law_escape(p: ParserView, high: u8, low: u8)
    requires
        escapes(p.state),
        is_hex(high),
        is_hex(low),
        has_room(p),
    ensures
        run(p, seq!['%' as u8, high, low]) == (
            ParserView {
                auxiliary: p.auxiliary.push((hex_value(high) * 16 + hex_value(low)) as u8),
                byte: (hex_value(high) * 16) as u8,
                reset: p.state,
                ..p
            },
            None::<ParserError>,
        ),
{
    broadcast use lemma_run_push;
    let s0 = Seq::<u8>::empty();
    assert(run(p, s0) == (p, None::<ParserError>));
    let s1 = s0.push('%' as u8);
    assert(run(p, s1).0.state == ParserState::EscapeX);
    assert(run(p, s1).0.reset == p.state);
    let s2 = s1.push(high);
    assert(run(p, s2).0.state == ParserState::EscapeY);
    let s3 = s2.push(low);
    assert(s3 =~= seq!['%' as u8, high, low]);
    assert(run(p, s3).0.state == p.state);
}

/// A request with a query of entries "key=value" between separators: a method, a path that
/// needs no decoding, a question mark, the entries, a space, a version, a line break and an empty line. Fed to a
/// parser between two requests, it completes the request that it states, whose query holds
/// the entries in order, and leaves the parser between two requests.
pub proof fn law_request_with_query(
    p: ParserView,
    m: Method,
    path: Seq<u8>,
    entries: Seq<(Seq<u8>, Seq<u8>)>,
    v: Version,
)
    requires
        at_request_start(p),
        m != Method::Dummy,
        plain_path(path),
        path.len() <= p.configuration.maxPathLength,
        entries.len() > 0,
        plain_separator(p.configuration.querySeperator),
        forall|i: int| 0 <= i < entries.len() ==> plain_entry(#[trigger] entries[i], p.configuration),
    ensures
        run(p, request_with_query(m, path, entries, p.configuration.querySeperator, v)).1 is None,
        run(p, request_with_query(m, path, entries, p.configuration.querySeperator, v)).0.requests
            == p.requests.push(request_with_query_view(m, path, entries, v)),
        at_request_start(run(p, request_with_query(m, path, entries, p.configuration.querySeperator, v)).0),
{
    let separator = p.configuration.querySeperator;
    let method_part = ascii_bytes(method_name(m)).push(' ' as u8);
    let query_part = seq!['?' as u8] + query_bytes(entries, separator);
    let version_part = seq![' ' as u8] + ascii_bytes(version_text(v)) + crlf();
    let all = request_with_query(m, path, entries, separator, v);
    lemma_run_concat(p, method_part + path + query_part + version_part, crlf());
    lemma_run_concat(p, method_part + path + query_part, version_part);
    lemma_run_concat(p, method_part + path, query_part);
    lemma_run_concat(p, method_part, path);
    steps::lemma_method(p, m);
    let p1 = run(p, method_part).0;
    steps::lemma_path(p1, path);
    let p2 = run(p1, path).0;
    assert(p2.auxiliary =~= path);
    lemma_run_concat(p2, seq!['?' as u8], query_bytes(entries, separator));
    query::lemma_query_start(p2);
    let p3 = run(p2, seq!['?' as u8]).0;
    query::lemma_entries(p3, entries);
    let p4 = run(p2, query_part).0;
    let rest = ascii_bytes(version_text(v)) + crlf();
    assert(version_part =~= seq![' ' as u8] + rest);
    lemma_run_concat(p4, seq![' ' as u8], rest);
    assert(plain_entry(entries[entries.len() - 1], p.configuration));
    query::lemma_query_end(p4);
    let p5 = run(p4, seq![' ' as u8]).0;
    steps::lemma_version(p5, v);
    let p6 = run(p5, rest).0;
    assert(decoded_fields(entries) =~= decoded_fields(entries.drop_last()).push(
        (decode_utf8(entries.last().0), decode_utf8(entries.last().1)),
    ));
    assert(Seq::<(Seq<char>, Seq<char>)>::empty() + decoded_fields(entries.drop_last()) =~= decoded_fields(
        entries.drop_last(),
    ));
    assert(p6.cache.header == empty_header());
    steps::lemma_end(p6);
    assert(p6.cache == request_with_query_view(m, path, entries, v));
    lemma_run_keeps(p, all);
    assert(p.auxiliary =~= Seq::<u8>::empty());
}

/// A Host or User-Agent line, at the start of a header line, with a value in plain text:
/// when the request has no such field yet, the field is set to the value and the parser
/// awaits the next header line; when it has one, the line is refused.
pub proof fn law_text_field(p: ParserView, field: RequestHeaderField, value: Seq<u8>)
    requires
        p.state == ParserState::HeaderKey,
        p.auxiliary.len() == 0,
        field == RequestHeaderField::Host || field == RequestHeaderField::UserAgent,
        plain_text(value),
        p.entries < p.configuration.maxHeaderEntries,
        value.len() <= p.configuration.maxHeaderLength,
    ensures
        header_set_string(p.cache.header, field, decode_utf8(value)).1 is Ok ==> run(
            p,
            header_line(text_field_name(field), value),
        ) == (
            ParserView {
                state: ParserState::HeaderKey,
                reset: ParserState::HeaderKey,
                entries: (p.entries + 1) as usize,
                goto: ParserState::HeaderValueParseString,
                header: field,
                byte: value[0],
                cache: RequestView {
                    header: header_set_string(p.cache.header, field, decode_utf8(value)).0,
                    ..p.cache
                },
                ..p
            },
            None::<ParserError>,
        ),
        header_set_string(p.cache.header, field, decode_utf8(value)).1 is Err ==> run(
            p,
            header_line(text_field_name(field), value),
        ).1 == Some(ParserError::HeaderValue),
{
    let name = text_field_name(field);
    let colon_value = seq![':' as u8, ' ' as u8] + value;
    assert(header_line(name, value) =~= name + colon_value + crlf());
    lemma_run_concat(p, name + colon_value, crlf());
    lemma_run_concat(p, name, colon_value);
    fields::lemma_name(p, field);
    let q1 = run(p, name).0;
    fields::lemma_value(q1, field, value);
    let q2 = run(q1, colon_value).0;
    fields::lemma_line_end(q2, field, value);
    assert(p.auxiliary =~= Seq::<u8>::empty());
}

/// A Cookie line, at the start of a header line: cookies "name=value", separated by a
/// semicolon and a space. The cookies are added, in order, to those of the request, and the
/// parser awaits the next header line.
pub proof fn law_cookies(p: ParserView, cookies: Seq<(Seq<u8>, Seq<u8>)>)
    requires
        p.state == ParserState::HeaderKey,
        p.auxiliary.len() == 0,
        cookies.len() > 0,
        plain_cookie_name(cookies[0].0),
        forall|i: int| 0 <= i < cookies.len() ==> token_cookie_name(#[trigger] cookies[i].0),
        forall|i: int| 0 <= i < cookies.len() ==> plain_cookie_value(#[trigger] cookies[i].1),
        p.entries < p.configuration.maxHeaderEntries,
        forall|i: int| 0 <= i < cookies.len() ==> cookie_fits(#[trigger] cookies[i], p.configuration),
    ensures
        run(p, header_line(cookie_name(), cookie_list(cookies))) == (
            ParserView {
                state: ParserState::HeaderKey,
                reset: ParserState::HeaderKey,
                entries: (p.entries + 1) as usize,
                goto: ParserState::HeaderValueParseCookieKey,
                byte: cookies[0].0[0],
                key: Seq::empty(),
                cache: RequestView { cookies: p.cache.cookies + decoded_fields(cookies), ..p.cache },
                ..p
            },
            None::<ParserError>,
        ),
{
    let colon = seq![':' as u8, ' ' as u8];
    assert(header_line(cookie_name(), cookie_list(cookies)) =~= cookie_name() + colon + cookie_list(cookies) + crlf());
    lemma_run_concat(p, cookie_name() + colon + cookie_list(cookies), crlf());
    lemma_run_concat(p, cookie_name() + colon, cookie_list(cookies));
    lemma_run_concat(p, cookie_name(), colon);
    fields::lemma_cookie_name(p);
    let q1 = run(p, cookie_name()).0;
    fields::lemma_cookie_colon(q1);
    let q2 = run(q1, colon).0;
    assert(q2.auxiliary =~= Seq::<u8>::empty());
    fields::lemma_cookie_entries(q2, cookies);
    let q3 = run(q2, cookie_list(cookies)).0;
    fields::lemma_cookie_end(q3);
    let last = cookies.last();
    assert(decoded_fields(cookies) =~= decoded_fields(cookies.drop_last()).push(
        (decode_utf8(last.0), decode_utf8(last.1)),
    ));
    assert(p.cache.cookies + decoded_fields(cookies) =~= (p.cache.cookies + decoded_fields(
        cookies.drop_last(),
    )).push((decode_utf8(last.0), decode_utf8(last.1))));
    assert(p.auxiliary =~= Seq::<u8>::empty());
}

/// Spaces and tabs.
pub open spec fn blanks(bytes: Seq<u8>) -> bool {
    forall|i: int| 0 <= i < bytes.len() ==> #[trigger] bytes[i] == ' ' as u8 || bytes[i] == '\t' as u8
}

/// Between the colon after a header name and the value, the parser skips spaces and tabs:
/// whatever follows them is read as if they were not there.
pub proof fn law_blanks(p: ParserView, skipped: Seq<u8>, rest: Seq<u8>)
    requires
        p.state == ParserState::HeaderValueAwait,
        blanks(skipped),
    ensures
        run(p, skipped + rest) == run(p, rest),
    decreases skipped.len(),
{
    if skipped.len() > 0 {
        assert((skipped + rest).drop_first() =~= skipped.drop_first() + rest);
        assert(skipped[0] == ' ' as u8 || skipped[0] == '\t' as u8);
        assert(step(p, skipped[0]) == (p, None::<ParserError>));
        assert forall|i: int| 0 <= i < skipped.drop_first().len() implies #[trigger] skipped.drop_first()[i] == ' ' as u8
            || skipped.drop_first()[i] == '\t' as u8 by {
            assert(skipped.drop_first()[i] == skipped[i + 1]);
        }
        law_blanks(p, skipped.drop_first(), rest);
    } else {
        assert(skipped + rest =~= rest);
    }
}

/// After as many header lines as the configuration allows, the start of one more header
/// line is refused.
pub proof fn law_too_many_header_lines(
    p: ParserView,
    m: Method,
    path: Seq<u8>,
    v: Version,
    fields: Seq<(Seq<u8>, Seq<u8>)>,
    more: Seq<u8>,
)
    requires
        at_request_start(p),
        m != Method::Dummy,
        plain_path(path),
        path.len() <= p.configuration.maxPathLength,
        forall|i: int| 0 <= i < fields.len() ==> plain_field(#[trigger] fields[i]),
        forall|i: int| 0 <= i < fields.len() ==> field_fits(#[trigger] fields[i], p.configuration),
        fields.len() == p.configuration.maxHeaderEntries,
        more.len() > 0,
        more[0] != '\r' as u8,
    ensures
        run(p, request_line(m, path, v) + header_lines(fields) + more).1 == Some(ParserError::HeaderKey),
{
    let method_part = ascii_bytes(method_name(m)).push(' ' as u8);
    let version_part = seq![' ' as u8] + ascii_bytes(version_text(v)) + crlf();
    let line = request_line(m, path, v);
    lemma_run_concat(p, line + header_lines(fields), more);
    lemma_run_concat(p, line, header_lines(fields));
    lemma_run_concat(p, method_part + path, version_part);
    lemma_run_concat(p, method_part, path);
    steps::lemma_method(p, m);
    let p1 = run(p, method_part).0;
    steps::lemma_path(p1, path);
    let p2 = run(p1, path).0;
    assert(p2.auxiliary =~= path);
    lemma_version_part(p2, v);
    let p3 = run(p2, version_part).0;
    lemma_header_lines(p3, fields);
    let p4 = run(p3, header_lines(fields)).0;
    let first = seq![more[0]];
    assert(first + more.drop_first() =~= more);
    lemma_run_concat(p4, first, more.drop_first());
    lemma_run_push(p4, Seq::empty(), more[0]);
    assert(Seq::<u8>::empty().push(more[0]) =~= first);
}

/// A header line whose value is longer than the configuration allows is refused.
pub proof fn law_header_value_too_long(p: ParserView, name: Seq<u8>, value: Seq<u8>)
    requires
        p.state == ParserState::HeaderKey,
        p.auxiliary.len() == 0,
        p.entries < p.configuration.maxHeaderEntries,
        ordinary_name(name),
        name.len() <= p.configuration.maxHeaderLength,
        value_bytes(value),
        value.len() > p.configuration.maxHeaderLength,
    ensures
        run(p, header_line(name, value)).1 == Some(ParserError::HeaderValue),
{
    let named = name.push(':' as u8);
    let start = named.push(' ' as u8);
    assert(header_line(name, value) =~= start + value + crlf());
    lemma_run_concat(p, start + value, crlf());
    lemma_run_concat(p, start, value);
    names::lemma_name_colon(p, name);
    lemma_run_push(p, named, ' ' as u8);
    let q = run(p, start).0;
    let limit = p.configuration.maxHeaderLength as int;
    let head = value.take(limit);
    let rest = value.skip(limit);
    assert(head + rest =~= value);
    lemma_run_concat(q, head, rest);
    let r = run(q, head).0;
    if limit > 0 {
        assert(head[0] == value[0]);
        assert forall|i: int| 0 <= i < head.len() implies #[trigger] head[i] != '\r' as u8 by {
            assert(head[i] == value[i]);
        }
        steps::lemma_value(q, head);
    } else {
        assert(head =~= Seq::<u8>::empty());
        assert(r == q);
    }
    assert(rest[0] == value[limit]);
    let first = seq![rest[0]];
    assert(first + rest.drop_first() =~= rest);
    lemma_run_concat(r, first, rest.drop_first());
    lemma_run_push(r, Seq::empty(), rest[0]);
    assert(Seq::<u8>::empty().push(rest[0]) =~= first);
}

/// A path longer than the configuration allows is refused.
pub proof fn law_path_too_long(p: ParserView, m: Method, path: Seq<u8>)
    requires
        at_request_start(p),
        m != Method::Dummy,
        path.len() > p.configuration.maxPathLength,
        forall|i: int| 0 <= i < path.len() ==> !ends_path(#[trigger] path[i]),
    ensures
        run(p, ascii_bytes(method_name(m)).push(' ' as u8) + path).1 == Some(ParserError::Path),
{
    let method_part = ascii_bytes(method_name(m)).push(' ' as u8);
    lemma_run_concat(p, method_part, path);
    steps::lemma_method(p, m);
    let p1 = run(p, method_part).0;
    let limit = p.configuration.maxPathLength as int;
    let head = path.take(limit);
    let rest = path.skip(limit);
    assert(head + rest =~= path);
    lemma_run_concat(p1, head, rest);
    assert forall|i: int| 0 <= i < head.len() implies !ends_path(#[trigger] head[i]) by {
        assert(head[i] == path[i]);
    }
    steps::lemma_path(p1, head);
    let r = run(p1, head).0;
    assert(r.auxiliary.len() == limit);
    assert(rest[0] == path[limit]);
    assert(!ends_path(path[limit]));
    let first = seq![rest[0]];
    assert(first + rest.drop_first() =~= rest);
    lemma_run_concat(r, first, rest.drop_first());
    lemma_run_push(r, Seq::empty(), rest[0]);
    assert(Seq::<u8>::empty().push(rest[0]) =~= first);
}

/// A Cookie line whose cookie has a value longer than the configuration allows is refused.
pub proof fn law_cookie_too_long(p: ParserView, name: Seq<u8>, value: Seq<u8>)
    requires
        p.state == ParserState::HeaderKey,
        p.auxiliary.len() == 0,
        p.entries < p.configuration.maxHeaderEntries,
        plain_cookie_name(name),
        name.len() <= p.configuration.maxCookieLength,
        cookie_value_bytes(value),
        value.len() > p.configuration.maxCookieLength,
    ensures
        run(p, header_line(cookie_name(), name + seq!['=' as u8] + value)).1 == Some(ParserError::CookieValue),
{
    let colon = seq![':' as u8, ' ' as u8];
    let limit = p.configuration.maxCookieLength as int;
    let head = value.take(limit);
    let rest = value.skip(limit);
    assert(head + rest =~= value);
    let start = cookie_name() + colon + name;
    assert(header_line(cookie_name(), name + seq!['=' as u8] + value) =~= start + (seq!['=' as u8] + head) + rest
        + crlf());
    lemma_run_concat(p, start + (seq!['=' as u8] + head) + rest, crlf());
    lemma_run_concat(p, start + (seq!['=' as u8] + head), rest);
    lemma_run_concat(p, start, seq!['=' as u8] + head);
    lemma_run_concat(p, cookie_name() + colon, name);
    lemma_run_concat(p, cookie_name(), colon);
    fields::lemma_cookie_name(p);
    let q1 = run(p, cookie_name()).0;
    fields::lemma_cookie_colon(q1);
    let q2 = run(q1, colon).0;
    assert(q2.auxiliary =~= Seq::<u8>::empty());
    fields::lemma_cookie_key(q2, name);
    let q3 = run(q2, name).0;
    assert forall|i: int| 0 <= i < head.len() implies !ends_cookie_value(#[trigger] head[i]) by {
        assert(head[i] == value[i]);
    }
    fields::lemma_cookie_value(q3, head);
    let r = run(q3, seq!['=' as u8] + head).0;
    assert(r.auxiliary.len() == limit);
    assert(rest[0] == value[limit]);
    assert(!ends_cookie_value(value[limit]));
    let first = seq![rest[0]];
    assert(first + rest.drop_first() =~= rest);
    lemma_run_concat(r, first, rest.drop_first());
    lemma_run_push(r, Seq::empty(), rest[0]);
    assert(Seq::<u8>::empty().push(rest[0]) =~= first);
}

/// The other of the two textual header fields.
pub open spec fn other_text_field(field: RequestHeaderField) -> RequestHeaderField {
    if field == RequestHeaderField::Host {
        RequestHeaderField::UserAgent
    } else {
        RequestHeaderField::Host
    }
}

/// A Host line and a User-Agent line, one after the other in either order, on a request that
/// has neither field yet: both fields are set, each to the value of its own line, and the
/// other header fields stay as they were.
pub proof fn law_host_and_user_agent(
    p: ParserView,
    first: RequestHeaderField,
    first_value: Seq<u8>,
    second_value: Seq<u8>,
)
    requires
        p.state == ParserState::HeaderKey,
        p.auxiliary.len() == 0,
        p.entries + 2 <= p.configuration.maxHeaderEntries,
        first == RequestHeaderField::Host || first == RequestHeaderField::UserAgent,
        p.cache.header.host is None,
        p.cache.header.userAgent is None,
        plain_text(first_value),
        plain_text(second_value),
        first_value.len() <= p.configuration.maxHeaderLength,
        second_value.len() <= p.configuration.maxHeaderLength,
    ensures
        ({
            let (q, error) = run(
                p,
                header_line(text_field_name(first), first_value) + header_line(
                    text_field_name(other_text_field(first)),
                    second_value,
                ),
            );
            &&& error is None
            &&& q.state == ParserState::HeaderKey
            &&& q.cache.header.host == Some(decode_utf8(
                if first == RequestHeaderField::Host { first_value } else { second_value },
            ))
            &&& q.cache.header.userAgent == Some(decode_utf8(
                if first == RequestHeaderField::UserAgent { first_value } else { second_value },
            ))
            &&& q.cache.header.contentLength == p.cache.header.contentLength
            &&& q.cache.header.other == p.cache.header.other
        }),
{
    let second = other_text_field(first);
    let line1 = header_line(text_field_name(first), first_value);
    let line2 = header_line(text_field_name(second), second_value);
    lemma_run_concat(p, line1, line2);
    law_text_field(p, first, first_value);
    let q = run(p, line1).0;
    law_text_field(q, second, second_value);
}

/// A request whose query holds entries "key" or "key=value", each ended by the separator,
/// and a last entry "key=value": every entry, in order, is added to the query of the request
/// that it completes, a key alone with an empty value; the parser is left between two
/// requests.
pub proof fn law_request_with_items(
    p: ParserView,
    m: Method,
    path: Seq<u8>,
    items: Seq<(Seq<u8>, Option<Seq<u8>>)>,
    last: (Seq<u8>, Seq<u8>),
    v: Version,
)
    requires
        at_request_start(p),
        m != Method::Dummy,
        plain_path(path),
        path.len() <= p.configuration.maxPathLength,
        plain_separator(p.configuration.querySeperator),
        forall|i: int| 0 <= i < items.len() ==> plain_item(#[trigger] items[i], p.configuration),
        plain_entry(last, p.configuration),
    ensures
        run(p, request_with_items(m, path, items, last, p.configuration.querySeperator, v)).1 is None,
        run(p, request_with_items(m, path, items, last, p.configuration.querySeperator, v)).0.requests
            == p.requests.push(request_with_items_view(m, path, items, last, v)),
        at_request_start(run(p, request_with_items(m, path, items, last, p.configuration.querySeperator, v)).0),
{
    let separator = p.configuration.querySeperator;
    let method_part = ascii_bytes(method_name(m)).push(' ' as u8);
    let query_part = seq!['?' as u8] + (items_bytes(items, separator) + query_entry(last));
    let version_part = seq![' ' as u8] + ascii_bytes(version_text(v)) + crlf();
    let all = request_with_items(m, path, items, last, separator, v);
    lemma_run_concat(p, method_part + path + query_part + version_part, crlf());
    lemma_run_concat(p, method_part + path + query_part, version_part);
    lemma_run_concat(p, method_part + path, query_part);
    lemma_run_concat(p, method_part, path);
    steps::lemma_method(p, m);
    let p1 = run(p, method_part).0;
    steps::lemma_path(p1, path);
    let p2 = run(p1, path).0;
    assert(p2.auxiliary =~= path);
    lemma_run_concat(p2, seq!['?' as u8], items_bytes(items, separator) + query_entry(last));
    query::lemma_query_start(p2);
    let p3 = run(p2, seq!['?' as u8]).0;
    lemma_run_concat(p3, items_bytes(items, separator), query_entry(last));
    query::lemma_items(p3, items);
    let q = run(p3, items_bytes(items, separator)).0;
    query::lemma_last_entry(q, last);
    let p4 = run(p2, query_part).0;
    let rest = ascii_bytes(version_text(v)) + crlf();
    assert(version_part =~= seq![' ' as u8] + rest);
    lemma_run_concat(p4, seq![' ' as u8], rest);
    query::lemma_query_end(p4);
    let p5 = run(p4, seq![' ' as u8]).0;
    steps::lemma_version(p5, v);
    let p6 = run(p5, rest).0;
    let decoded = items.map_values(|item: (Seq<u8>, Option<Seq<u8>>)| decoded_item(item));
    assert(Seq::<(Seq<char>, Seq<char>)>::empty() + decoded =~= decoded);
    assert(p6.cache.header == empty_header());
    steps::lemma_end(p6);
    assert(p6.cache == request_with_items_view(m, path, items, last, v));
    lemma_run_keeps(p, all);
    assert(p.auxiliary =~= Seq::<u8>::empty());
}

/// A Cookie line whose first cookie has its value between quotation marks, followed by a
/// semicolon, a space and another cookie: the quotation marks are not part of the value;
/// both cookies are added, in order, and the parser awaits the next header line.
pub proof fn law_quoted_cookie(
    p: ParserView,
    name: Seq<u8>,
    value: Seq<u8>,
    next_name: Seq<u8>,
    next_value: Seq<u8>,
)
    requires
        p.state == ParserState::HeaderKey,
        p.auxiliary.len() == 0,
        p.entries < p.configuration.maxHeaderEntries,
        plain_cookie_name(name),
        name.len() <= p.configuration.maxCookieLength,
        forall|i: int| 0 <= i < value.len() ==> #[trigger] value[i] != '"' as u8,
        valid_utf8(value),
        value.len() <= p.configuration.maxCookieLength,
        token_cookie_name(next_name),
        next_name.len() <= p.configuration.maxCookieLength,
        plain_cookie_value(next_value),
        next_value.len() <= p.configuration.maxCookieLength,
    ensures
        run(
            p,
            header_line(
                cookie_name(),
                name + seq!['=' as u8, '"' as u8] + value + seq!['"' as u8, ';' as u8, ' ' as u8]
                    + next_name + seq!['=' as u8] + next_value,
            ),
        ) == (
            ParserView {
                state: ParserState::HeaderKey,
                reset: ParserState::HeaderKey,
                entries: (p.entries + 1) as usize,
                goto: ParserState::HeaderValueParseCookieKey,
                byte: name[0],
                key: Seq::empty(),
                cache: RequestView {
                    cookies: p.cache.cookies.push((decode_utf8(name), decode_utf8(value))).push(
                        (decode_utf8(next_name), decode_utf8(next_value)),
                    ),
                    ..p.cache
                },
                ..p
            },
            None::<ParserError>,
        ),
{
    let colon = seq![':' as u8, ' ' as u8];
    let quoted = seq!['=' as u8, '"' as u8] + value + seq!['"' as u8, ';' as u8, ' ' as u8];
    let tail = seq!['=' as u8] + next_value;
    let a = cookie_name() + colon;
    let b = a + name;
    let c = b + quoted;
    let d = c + next_name;
    let e = d + tail;
    assert(header_line(
        cookie_name(),
        name + seq!['=' as u8, '"' as u8] + value + seq!['"' as u8, ';' as u8, ' ' as u8] + next_name
            + seq!['=' as u8] + next_value,
    ) =~= e + crlf());
    lemma_run_concat(p, e, crlf());
    lemma_run_concat(p, d, tail);
    lemma_run_concat(p, c, next_name);
    lemma_run_concat(p, b, quoted);
    lemma_run_concat(p, a, name);
    lemma_run_concat(p, cookie_name(), colon);
    fields::lemma_cookie_name(p);
    let q1 = run(p, cookie_name()).0;
    fields::lemma_cookie_colon(q1);
    let q2 = run(q1, colon).0;
    assert(q2.auxiliary =~= Seq::<u8>::empty());
    fields::lemma_cookie_key(q2, name);
    let q3 = run(q2, name).0;
    fields::lemma_quoted_value(q3, value);
    let q4 = run(q3, quoted).0;
    fields::lemma_cookie_key_bytes(q4, next_name);
    let q5 = run(q4, next_name).0;
    assert(q5.auxiliary =~= next_name);
    fields::lemma_cookie_value(q5, next_value);
    let q6 = run(q5, tail).0;
    fields::lemma_cookie_end(q6);
    assert(p.auxiliary =~= Seq::<u8>::empty());
}

} // verus!
