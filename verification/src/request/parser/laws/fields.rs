use vstd::prelude::*;
use vstd::utf8::{valid_utf8, decode_utf8};

use crate::request::{RequestView, RequestHeaderField, header_set_string};
use super::super::error::ParserError;
use super::super::transition::{ParserState, ParserView, run, step};
use super::{
    lemma_run_push, lemma_run_concat, lemma_collect, crlf, plain_text, text_field_name, cookie_name,
    plain_cookie_name, plain_cookie_value, ends_cookie_value, token_cookie_name, cookie_pair,
    cookie_list, decoded_fields, cookie_fits, cookie_value_bytes,
};
use super::super::transition::is_token;

verus! {

/// The state in which the parser has read the whole name of a textual header field.
pub open spec fn name_state(field: RequestHeaderField) -> ParserState {
    if field == RequestHeaderField::Host {
        ParserState::HeaderKeyHost
    } else {
        ParserState::HeaderKeyUserAgent
    }
}

/// The name "Host", at the start of a header line.
proof fn lemma_host(p: ParserView)
    requires
        p.state == ParserState::HeaderKey,
        p.entries < p.configuration.maxHeaderEntries,
    ensures
        run(p, text_field_name(RequestHeaderField::Host)) == (
            ParserView { state: ParserState::HeaderKeyHost, entries: (p.entries + 1) as usize, ..p },
            None::<ParserError>,
        ),
{
    broadcast use lemma_run_push;
    let s0 = Seq::<u8>::empty();
    assert(run(p, s0) == (p, None::<ParserError>));
    let s1 = s0.push('H' as u8);
    assert(run(p, s1).0.state == ParserState::HeaderKeyH);
    let s2 = s1.push('o' as u8);
    assert(run(p, s2).0.state == ParserState::HeaderKeyHo);
    let s3 = s2.push('s' as u8);
    assert(run(p, s3).0.state == ParserState::HeaderKeyHos);
    let s4 = s3.push('t' as u8);
    assert(run(p, s4).0.state == ParserState::HeaderKeyHost);
    assert(s4 =~= text_field_name(RequestHeaderField::Host));
}

/// The name "User-Agent", at the start of a header line.
proof fn lemma_user_agent(p: ParserView)
    requires
        p.state == ParserState::HeaderKey,
        p.entries < p.configuration.maxHeaderEntries,
    ensures
        run(p, text_field_name(RequestHeaderField::UserAgent)) == (
            ParserView { state: ParserState::HeaderKeyUserAgent, entries: (p.entries + 1) as usize, ..p },
            None::<ParserError>,
        ),
{
    broadcast use lemma_run_push;
    let s0 = Seq::<u8>::empty();
    assert(run(p, s0) == (p, None::<ParserError>));
    let s1 = s0.push('U' as u8);
    assert(run(p, s1).0.state == ParserState::HeaderKeyU);
    let s2 = s1.push('s' as u8);
    assert(run(p, s2).0.state == ParserState::HeaderKeyUs);
    let s3 = s2.push('e' as u8);
    assert(run(p, s3).0.state == ParserState::HeaderKeyUse);
    let s4 = s3.push('r' as u8);
    assert(run(p, s4).0.state == ParserState::HeaderKeyUser);
    let s5 = s4.push('-' as u8);
    assert(run(p, s5).0.state == ParserState::HeaderKeyUserDash);
    let s6 = s5.push('A' as u8);
    assert(run(p, s6).0.state == ParserState::HeaderKeyUserA);
    let s7 = s6.push('g' as u8);
    assert(run(p, s7).0.state == ParserState::HeaderKeyUserAg);
    let s8 = s7.push('e' as u8);
    assert(run(p, s8).0.state == ParserState::HeaderKeyUserAge);
    let s9 = s8.push('n' as u8);
    assert(run(p, s9).0.state == ParserState::HeaderKeyUserAgen);
    let s10 = s9.push('t' as u8);
    assert(run(p, s10).0.state == ParserState::HeaderKeyUserAgent);
    assert(s10 =~= text_field_name(RequestHeaderField::UserAgent));
}

/// The name of a textual header field, at the start of a header line.
pub proof fn lemma_name(p: ParserView, field: RequestHeaderField)
    requires
        p.state == ParserState::HeaderKey,
        p.entries < p.configuration.maxHeaderEntries,
        field == RequestHeaderField::Host || field == RequestHeaderField::UserAgent,
    ensures
        run(p, text_field_name(field)) == (
            ParserView { state: name_state(field), entries: (p.entries + 1) as usize, ..p },
            None::<ParserError>,
        ),
{
    if field == RequestHeaderField::Host {
        lemma_host(p);
    } else {
        lemma_user_agent(p);
    }
}

/// The colon, the space and the value after the name of a textual header field: the value
/// is collected.
pub proof fn lemma_value(p: ParserView, field: RequestHeaderField, value: Seq<u8>)
    requires
        p.state == name_state(field),
        p.auxiliary.len() == 0,
        field == RequestHeaderField::Host || field == RequestHeaderField::UserAgent,
        plain_text(value),
        value.len() <= p.configuration.maxHeaderLength,
    ensures
        run(p, seq![':' as u8, ' ' as u8] + value) == (
            ParserView {
                state: ParserState::HeaderValueParseString,
                goto: ParserState::HeaderValueParseString,
                header: field,
                byte: value[0],
                auxiliary: value,
                ..p
            },
            None::<ParserError>,
        ),
{
    broadcast use lemma_run_push;
    let s0 = Seq::<u8>::empty();
    assert(run(p, s0) == (p, None::<ParserError>));
    let s1 = s0.push(':' as u8);
    assert(run(p, s1).0.state == ParserState::HeaderValueAwait);
    let s2 = s1.push(' ' as u8);
    assert(run(p, s2).0.state == ParserState::HeaderValueAwait);
    let s3 = s2.push(value[0]);
    let q = ParserView {
        state: ParserState::HeaderValueParseString,
        goto: ParserState::HeaderValueParseString,
        header: field,
        byte: value[0],
        auxiliary: seq![value[0]],
        ..p
    };
    assert(p.auxiliary.push(value[0]) =~= seq![value[0]]);
    assert(run(p, s3) == (q, None::<ParserError>));
    let rest = value.drop_first();
    assert(s3 + rest =~= seq![':' as u8, ' ' as u8] + value);
    lemma_run_concat(p, s3, rest);
    assert forall|r: ParserView, i: int|
        #![trigger step(r, rest[i])]
        r.state == q.state && r.configuration == q.configuration && 0 <= i < rest.len()
            && r.auxiliary.len() < q.configuration.maxHeaderLength implies step(r, rest[i]) == (
            ParserView { auxiliary: r.auxiliary.push(rest[i]), ..r },
            None::<ParserError>,
        ) by {
        assert(rest[i] == value[i + 1]);
    }
    lemma_collect(q, rest, q.configuration.maxHeaderLength as int);
    assert(seq![value[0]] + rest =~= value);
}

/// The line break after the value of a textual header field: the field is set, or the
/// line is refused when the request has it already.
pub proof fn lemma_line_end(p: ParserView, field: RequestHeaderField, value: Seq<u8>)
    requires
        p.state == ParserState::HeaderValueParseString,
        p.header == field,
        p.auxiliary == value,
        plain_text(value),
    ensures
        header_set_string(p.cache.header, field, decode_utf8(value)).1 is Ok ==> run(p, crlf()) == (
            ParserView {
                state: ParserState::HeaderKey,
                reset: ParserState::HeaderKey,
                auxiliary: Seq::empty(),
                cache: RequestView {
                    header: header_set_string(p.cache.header, field, decode_utf8(value)).0,
                    ..p.cache
                },
                ..p
            },
            None::<ParserError>,
        ),
        header_set_string(p.cache.header, field, decode_utf8(value)).1 is Err ==> run(p, crlf()).1
            == Some(ParserError::HeaderValue),
{
    broadcast use lemma_run_push;
    let s0 = Seq::<u8>::empty();
    assert(run(p, s0) == (p, None::<ParserError>));
    let s1 = s0.push('\r' as u8);
    let s2 = s1.push('\n' as u8);
    assert(s2 =~= crlf());
    if header_set_string(p.cache.header, field, decode_utf8(value)).1 is Ok {
        assert(run(p, s1).0.state == ParserState::NewLineLF);
        assert(run(p, s1).0.reset == ParserState::HeaderKey);
        assert(run(p, s2).0.state == ParserState::HeaderKey);
    } else {
        assert(run(p, s1).1 == Some(ParserError::HeaderValue));
    }
}

/// The name "Cookie", at the start of a header line.
pub proof fn lemma_cookie_name(p: ParserView)
    requires
        p.state == ParserState::HeaderKey,
        p.entries < p.configuration.maxHeaderEntries,
    ensures
        run(p, cookie_name()) == (
            ParserView { state: ParserState::HeaderKeyCookie, entries: (p.entries + 1) as usize, ..p },
            None::<ParserError>,
        ),
{
    broadcast use lemma_run_push;
    let s0 = Seq::<u8>::empty();
    assert(run(p, s0) == (p, None::<ParserError>));
    let s1 = s0.push('C' as u8);
    assert(run(p, s1).0.state == ParserState::HeaderKeyC);
    let s2 = s1.push('o' as u8);
    assert(run(p, s2).0.state == ParserState::HeaderKeyCo);
    let s3 = s2.push('o' as u8);
    assert(run(p, s3).0.state == ParserState::HeaderKeyCoo);
    let s4 = s3.push('k' as u8);
    assert(run(p, s4).0.state == ParserState::HeaderKeyCook);
    let s5 = s4.push('i' as u8);
    assert(run(p, s5).0.state == ParserState::HeaderKeyCooki);
    let s6 = s5.push('e' as u8);
    assert(run(p, s6).0.state == ParserState::HeaderKeyCookie);
    assert(s6 =~= cookie_name());
}

/// The colon and the space after the name "Cookie": the parser awaits a cookie name.
pub proof fn lemma_cookie_colon(p: ParserView)
    requires
        p.state == ParserState::HeaderKeyCookie,
    ensures
        run(p, seq![':' as u8, ' ' as u8]) == (
            ParserView {
                state: ParserState::HeaderValueAwait,
                goto: ParserState::HeaderValueParseCookieKey,
                ..p
            },
            None::<ParserError>,
        ),
{
    broadcast use lemma_run_push;
    let s0 = Seq::<u8>::empty();
    assert(run(p, s0) == (p, None::<ParserError>));
    let s1 = s0.push(':' as u8);
    assert(run(p, s1).0.state == ParserState::HeaderValueAwait);
    let s2 = s1.push(' ' as u8);
    assert(run(p, s2).0.state == ParserState::HeaderValueAwait);
    assert(s2 =~= seq![':' as u8, ' ' as u8]);
}

/// The name of a cookie, after the white space before the value of a Cookie line: it is
/// collected.
pub proof fn lemma_cookie_key(p: ParserView, name: Seq<u8>)
    requires
        p.state == ParserState::HeaderValueAwait,
        p.goto == ParserState::HeaderValueParseCookieKey,
        p.auxiliary.len() == 0,
        plain_cookie_name(name),
        name.len() <= p.configuration.maxCookieLength,
    ensures
        run(p, name) == (
            ParserView {
                state: ParserState::HeaderValueParseCookieKey,
                byte: name[0],
                auxiliary: name,
                ..p
            },
            None::<ParserError>,
        ),
{
    let first = seq![name[0]];
    let rest = name.drop_first();
    assert(first + rest =~= name);
    lemma_run_concat(p, first, rest);
    lemma_run_push(p, Seq::empty(), name[0]);
    assert(Seq::<u8>::empty().push(name[0]) =~= first);
    let q = ParserView {
        state: ParserState::HeaderValueParseCookieKey,
        byte: name[0],
        auxiliary: first,
        ..p
    };
    assert(p.auxiliary.push(name[0]) =~= first);
    assert(run(p, first) == (q, None::<ParserError>));
    assert forall|r: ParserView, i: int|
        #![trigger step(r, rest[i])]
        r.state == q.state && r.configuration == q.configuration && 0 <= i < rest.len()
            && r.auxiliary.len() < q.configuration.maxCookieLength implies step(r, rest[i]) == (
            ParserView { auxiliary: r.auxiliary.push(rest[i]), ..r },
            None::<ParserError>,
        ) by {
        assert(rest[i] == name[i + 1]);
        assert(is_token(name[i + 1]));
    }
    lemma_collect(q, rest, q.configuration.maxCookieLength as int);
}

/// The equals sign after the name of a cookie, and its value: the name is decoded, and the
/// value is collected.
pub proof fn lemma_cookie_value(p: ParserView, value: Seq<u8>)
    requires
        p.state == ParserState::HeaderValueParseCookieKey,
        valid_utf8(p.auxiliary),
        cookie_value_bytes(value),
        value.len() <= p.configuration.maxCookieLength,
    ensures
        run(p, seq!['=' as u8] + value) == (
            ParserView {
                state: ParserState::HeaderValueParseCookieValue,
                key: decode_utf8(p.auxiliary),
                auxiliary: value,
                ..p
            },
            None::<ParserError>,
        ),
{
    lemma_run_concat(p, seq!['=' as u8], value);
    lemma_run_push(p, Seq::empty(), '=' as u8);
    assert(Seq::<u8>::empty().push('=' as u8) =~= seq!['=' as u8]);
    let q = ParserView {
        state: ParserState::HeaderValueParseCookieValue,
        key: decode_utf8(p.auxiliary),
        auxiliary: Seq::empty(),
        ..p
    };
    assert(run(p, seq!['=' as u8]) == (q, None::<ParserError>));
    if value.len() > 0 {
        let first = seq![value[0]];
        let rest = value.drop_first();
        assert(first + rest =~= value);
        lemma_run_concat(q, first, rest);
        lemma_run_push(q, Seq::empty(), value[0]);
        assert(Seq::<u8>::empty().push(value[0]) =~= first);
        assert(!ends_cookie_value(value[0]));
        let r = ParserView { auxiliary: first, ..q };
        assert(q.auxiliary.push(value[0]) =~= first);
        assert(run(q, first) == (r, None::<ParserError>));
        assert forall|t: ParserView, i: int|
            #![trigger step(t, rest[i])]
            t.state == r.state && t.configuration == r.configuration && 0 <= i < rest.len()
                && t.auxiliary.len() < r.configuration.maxCookieLength implies step(t, rest[i]) == (
                ParserView { auxiliary: t.auxiliary.push(rest[i]), ..t },
                None::<ParserError>,
            ) by {
            assert(rest[i] == value[i + 1]);
            assert(!ends_cookie_value(value[i + 1]));
        }
        lemma_collect(r, rest, r.configuration.maxCookieLength as int);
    } else {
        assert(run(q, value) == (q, None::<ParserError>));
        assert(q.auxiliary =~= value);
    }
}

/// The line break after the value of a cookie: the cookie is added, and the parser awaits
/// the next header line.
pub proof fn lemma_cookie_end(p: ParserView)
    requires
        p.state == ParserState::HeaderValueParseCookieValue,
        valid_utf8(p.auxiliary),
    ensures
        run(p, crlf()) == (
            ParserView {
                state: ParserState::HeaderKey,
                reset: ParserState::HeaderKey,
                auxiliary: Seq::empty(),
                key: Seq::empty(),
                cache: RequestView {
                    cookies: p.cache.cookies.push((p.key, decode_utf8(p.auxiliary))),
                    ..p.cache
                },
                ..p
            },
            None::<ParserError>,
        ),
{
    broadcast use lemma_run_push;
    let s0 = Seq::<u8>::empty();
    assert(run(p, s0) == (p, None::<ParserError>));
    let s1 = s0.push('\r' as u8);
    assert(run(p, s1).0.state == ParserState::NewLineLF);
    let s2 = s1.push('\n' as u8);
    assert(run(p, s2).0.state == ParserState::HeaderKey);
    assert(s2 =~= crlf());
}

/// The semicolon and the space after a cookie value: the cookie is added, and the parser
/// awaits the name of the next one.
pub proof fn lemma_cookie_separator(p: ParserView)
    requires
        p.state == ParserState::HeaderValueParseCookieValue,
        valid_utf8(p.auxiliary),
    ensures
        run(p, seq![';' as u8, ' ' as u8]) == (
            ParserView {
                state: ParserState::HeaderValueParseCookieKey,
                auxiliary: Seq::empty(),
                key: Seq::empty(),
                cache: RequestView {
                    cookies: p.cache.cookies.push((p.key, decode_utf8(p.auxiliary))),
                    ..p.cache
                },
                ..p
            },
            None::<ParserError>,
        ),
{
    broadcast use lemma_run_push;
    let s0 = Seq::<u8>::empty();
    assert(run(p, s0) == (p, None::<ParserError>));
    let s1 = s0.push(';' as u8);
    assert(run(p, s1).0.state == ParserState::HeaderValueParseCookieSpace);
    let s2 = s1.push(' ' as u8);
    assert(run(p, s2).0.state == ParserState::HeaderValueParseCookieKey);
    assert(s2 =~= seq![';' as u8, ' ' as u8]);
}

/// The name of a cookie after the separator of two cookies: it is collected.
pub proof fn lemma_cookie_key_bytes(p: ParserView, name: Seq<u8>)
    requires
        p.state == ParserState::HeaderValueParseCookieKey,
        token_cookie_name(name),
        p.auxiliary.len() + name.len() <= p.configuration.maxCookieLength,
    ensures
        run(p, name) == (ParserView { auxiliary: p.auxiliary + name, ..p }, None::<ParserError>),
{
    assert forall|r: ParserView, i: int|
        #![trigger step(r, name[i])]
        r.state == p.state && r.configuration == p.configuration && 0 <= i < name.len()
            && r.auxiliary.len() < p.configuration.maxCookieLength implies step(r, name[i]) == (
            ParserView { auxiliary: r.auxiliary.push(name[i]), ..r },
            None::<ParserError>,
        ) by {
        assert(is_token(name[i]));
    }
    lemma_collect(p, name, p.configuration.maxCookieLength as int);
}

/// Cookies separated by a semicolon and a space, from the start of the value of a Cookie
/// line: all but the last are added; the last is read up to the end of its value.
pub proof fn lemma_cookie_entries(p: ParserView, cookies: Seq<(Seq<u8>, Seq<u8>)>)
    requires
        p.state == ParserState::HeaderValueAwait,
        p.goto == ParserState::HeaderValueParseCookieKey,
        p.auxiliary.len() == 0,
        cookies.len() > 0,
        plain_cookie_name(cookies[0].0),
        forall|i: int| 0 <= i < cookies.len() ==> token_cookie_name(#[trigger] cookies[i].0),
        forall|i: int| 0 <= i < cookies.len() ==> plain_cookie_value(#[trigger] cookies[i].1),
        forall|i: int| 0 <= i < cookies.len() ==> cookie_fits(#[trigger] cookies[i], p.configuration),
    ensures
        run(p, cookie_list(cookies)) == (
            ParserView {
                state: ParserState::HeaderValueParseCookieValue,
                byte: cookies[0].0[0],
                key: decode_utf8(cookies.last().0),
                auxiliary: cookies.last().1,
                cache: RequestView {
                    cookies: p.cache.cookies + decoded_fields(cookies.drop_last()),
                    ..p.cache
                },
                ..p
            },
            None::<ParserError>,
        ),
    decreases cookies.len(),
{
    let last = cookies.last();
    assert(token_cookie_name(cookies[cookies.len() - 1].0));
    assert(plain_cookie_value(cookies[cookies.len() - 1].1));
    assert(cookie_fits(cookies[cookies.len() - 1], p.configuration));
    assert(cookie_fits(cookies[0], p.configuration));
    if cookies.len() == 1 {
        let name = cookies[0].0;
        assert(cookie_pair(cookies[0]) =~= name + (seq!['=' as u8] + cookies[0].1));
        lemma_run_concat(p, name, seq!['=' as u8] + cookies[0].1);
        lemma_cookie_key(p, name);
        lemma_cookie_value(run(p, name).0, cookies[0].1);
        assert(decoded_fields(cookies.drop_last()) =~= Seq::empty());
        assert(p.cache.cookies + decoded_fields(cookies.drop_last()) =~= p.cache.cookies);
    } else {
        let init = cookies.drop_last();
        assert(init[0] == cookies[0]);
        assert forall|i: int| 0 <= i < init.len() implies token_cookie_name(#[trigger] init[i].0) by {
            assert(init[i] == cookies[i]);
        }
        assert forall|i: int| 0 <= i < init.len() implies plain_cookie_value(#[trigger] init[i].1) by {
            assert(init[i] == cookies[i]);
        }
        assert forall|i: int| 0 <= i < init.len() implies cookie_fits(#[trigger] init[i], p.configuration) by {
            assert(init[i] == cookies[i]);
        }
        lemma_cookie_entries(p, init);
        let q = run(p, cookie_list(init)).0;
        let sep = seq![';' as u8, ' ' as u8];
        assert(cookie_pair(last) =~= last.0 + (seq!['=' as u8] + last.1));
        lemma_run_concat(p, cookie_list(init) + sep + last.0, seq!['=' as u8] + last.1);
        lemma_run_concat(p, cookie_list(init) + sep, last.0);
        lemma_run_concat(p, cookie_list(init), sep);
        assert(cookie_list(cookies) =~= cookie_list(init) + sep + last.0 + (seq!['=' as u8] + last.1));
        assert(plain_cookie_value(init[init.len() - 1].1));
        lemma_cookie_separator(q);
        let r = run(q, sep).0;
        lemma_cookie_key_bytes(r, last.0);
        let t = run(r, last.0).0;
        assert(t.auxiliary =~= last.0);
        lemma_cookie_value(t, last.1);
        assert(decoded_fields(cookies.drop_last()) =~= decoded_fields(init.drop_last()).push(
            (decode_utf8(init.last().0), decode_utf8(init.last().1)),
        ));
        assert(p.cache.cookies + decoded_fields(cookies.drop_last()) =~= (p.cache.cookies
            + decoded_fields(init.drop_last())).push((decode_utf8(init.last().0), decode_utf8(init.last().1))));
    }
}

/// An equals sign, a value between quotation marks, a semicolon and a space, after the
/// name of a cookie: the cookie is added with the bytes between the quotation marks as its
/// value, and the parser awaits the name of the next one.
pub proof fn lemma_quoted_value(p: ParserView, value: Seq<u8>)
    requires
        p.state == ParserState::HeaderValueParseCookieKey,
        valid_utf8(p.auxiliary),
        forall|i: int| 0 <= i < value.len() ==> #[trigger] value[i] != '"' as u8,
        valid_utf8(value),
        value.len() <= p.configuration.maxCookieLength,
    ensures
        run(p, seq!['=' as u8, '"' as u8] + value + seq!['"' as u8, ';' as u8, ' ' as u8]) == (
            ParserView {
                state: ParserState::HeaderValueParseCookieKey,
                auxiliary: Seq::empty(),
                key: Seq::empty(),
                cache: RequestView {
                    cookies: p.cache.cookies.push((decode_utf8(p.auxiliary), decode_utf8(value))),
                    ..p.cache
                },
                ..p
            },
            None::<ParserError>,
        ),
{
    broadcast use lemma_run_push;
    let open = seq!['=' as u8, '"' as u8];
    let close = seq!['"' as u8, ';' as u8, ' ' as u8];
    lemma_run_concat(p, open + value, close);
    lemma_run_concat(p, open, value);
    let s0 = Seq::<u8>::empty();
    assert(run(p, s0) == (p, None::<ParserError>));
    let s1 = s0.push('=' as u8);
    assert(run(p, s1).0.state == ParserState::HeaderValueParseCookieValue);
    let s2 = s1.push('"' as u8);
    assert(s2 =~= open);
    let q = run(p, open).0;
    assert(q == ParserView {
        state: ParserState::HeaderValueParseCookieQuote,
        key: decode_utf8(p.auxiliary),
        auxiliary: Seq::empty(),
        ..p
    });
    assert forall|r: ParserView, i: int|
        #![trigger step(r, value[i])]
        r.state == q.state && r.configuration == q.configuration && 0 <= i < value.len()
            && r.auxiliary.len() < q.configuration.maxCookieLength implies step(r, value[i]) == (
            ParserView { auxiliary: r.auxiliary.push(value[i]), ..r },
            None::<ParserError>,
        ) by {
        assert(value[i] != '"' as u8);
    }
    lemma_collect(q, value, q.configuration.maxCookieLength as int);
    let r = run(q, value).0;
    assert(r.auxiliary =~= value);
    let t0 = Seq::<u8>::empty();
    assert(run(r, t0) == (r, None::<ParserError>));
    let t1 = t0.push('"' as u8);
    assert(run(r, t1).0.state == ParserState::HeaderValueParseCookieSemicolon);
    let t2 = t1.push(';' as u8);
    assert(run(r, t2).0.state == ParserState::HeaderValueParseCookieSpace);
    let t3 = t2.push(' ' as u8);
    assert(t3 =~= close);
    assert(run(r, t3).0.state == ParserState::HeaderValueParseCookieKey);
}

} // verus!
