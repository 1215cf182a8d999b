use vstd::prelude::*;

use crate::request::{RequestView, RequestHeaderView, RequestHeaderField, header_body_length};
use crate::response::{decimal_text, digit_text};
use super::super::error::ParserError;
use super::super::transition::{ParserState, ParserView, run, step, shift_digit, done};
use super::{lemma_run_push, lemma_run_concat, ascii_bytes, crlf, number_value, is_digit};

verus! {

/// The name of the header field that gives the length of the body, a colon and a space,
/// at the start of a header line.
pub proof fn lemma_content_length_name(p: ParserView)
    requires
        p.state == ParserState::HeaderKey,
        p.entries < p.configuration.maxHeaderEntries,
    ensures
        run(p, ascii_bytes("Content-Length: "@)) == (
            ParserView {
                entries: (p.entries + 1) as usize,
                state: ParserState::HeaderValueAwait,
                header: RequestHeaderField::ContentLength,
                goto: ParserState::HeaderValueParseNumber,
                ..p
            },
            None::<ParserError>,
        ),
{
    broadcast use lemma_run_push;
    reveal_strlit("Content-Length: ");
    let s0 = Seq::<u8>::empty();
    assert(run(p, s0) == (p, None::<ParserError>));
    let s1 = s0.push('C' as u8);
    assert(run(p, s1).0.state == ParserState::HeaderKeyC);
    let s2 = s1.push('o' as u8);
    assert(run(p, s2).0.state == ParserState::HeaderKeyCo);
    let s3 = s2.push('n' as u8);
    assert(run(p, s3).0.state == ParserState::HeaderKeyCon);
    let s4 = s3.push('t' as u8);
    assert(run(p, s4).0.state == ParserState::HeaderKeyCont);
    let s5 = s4.push('e' as u8);
    assert(run(p, s5).0.state == ParserState::HeaderKeyConte);
    let s6 = s5.push('n' as u8);
    assert(run(p, s6).0.state == ParserState::HeaderKeyConten);
    let s7 = s6.push('t' as u8);
    assert(run(p, s7).0.state == ParserState::HeaderKeyContent);
    let s8 = s7.push('-' as u8);
    assert(run(p, s8).0.state == ParserState::HeaderKeyContentDash);
    let s9 = s8.push('L' as u8);
    assert(run(p, s9).0.state == ParserState::HeaderKeyContentL);
    let s10 = s9.push('e' as u8);
    assert(run(p, s10).0.state == ParserState::HeaderKeyContentLe);
    let s11 = s10.push('n' as u8);
    assert(run(p, s11).0.state == ParserState::HeaderKeyContentLen);
    let s12 = s11.push('g' as u8);
    assert(run(p, s12).0.state == ParserState::HeaderKeyContentLeng);
    let s13 = s12.push('t' as u8);
    assert(run(p, s13).0.state == ParserState::HeaderKeyContentLengt);
    let s14 = s13.push('h' as u8);
    assert(run(p, s14).0.state == ParserState::HeaderKeyContentLength);
    let s15 = s14.push(':' as u8);
    assert(run(p, s15).0.state == ParserState::HeaderValueAwait);
    let s16 = s15.push(' ' as u8);
    assert(run(p, s16).0.state == ParserState::HeaderValueAwait);
    assert(s16 =~= ascii_bytes("Content-Length: "@));
}

/// Decimal digits after the white space before a numerical header value.
pub proof fn lemma_digits(p: ParserView, digits: Seq<u8>)
    requires
        p.state == ParserState::HeaderValueAwait,
        p.goto == ParserState::HeaderValueParseNumber,
        p.value == 0,
        p.auxiliary.len() < p.configuration.maxHeaderLength,
        digits.len() > 0,
        forall|i: int| 0 <= i < digits.len() ==> is_digit(#[trigger] digits[i]),
    ensures
        run(p, digits) == (
            ParserView {
                state: ParserState::HeaderValueParseNumber,
                auxiliary: p.auxiliary.push(digits[0]),
                byte: digits.last(),
                value: number_value(digits.drop_last()),
                ..p
            },
            None::<ParserError>,
        ),
    decreases digits.len(),
{
    let init = digits.drop_last();
    lemma_run_push(p, init, digits.last());
    assert(init.push(digits.last()) =~= digits);
    assert(is_digit(digits[digits.len() - 1]));
    if digits.len() == 1 {
        assert(run(p, init) == (p, None::<ParserError>));
        assert(init =~= Seq::<u8>::empty());
    } else {
        assert forall|i: int| 0 <= i < init.len() implies is_digit(#[trigger] init[i]) by {
            assert(init[i] == digits[i]);
        }
        lemma_digits(p, init);
        assert(init[0] == digits[0]);
        assert(init.drop_last().push(init.last()) =~= init);
    }
}

/// The line break after a numerical header value.
pub proof fn lemma_number_end(p: ParserView)
    requires
        p.state == ParserState::HeaderValueParseNumber,
        p.header == RequestHeaderField::ContentLength,
        p.cache.header.contentLength is None,
    ensures
        run(p, crlf()) == (
            ParserView {
                state: ParserState::HeaderKey,
                reset: ParserState::HeaderKey,
                auxiliary: Seq::empty(),
                value: 0,
                cache: RequestView {
                    header: RequestHeaderView {
                        contentLength: Some(shift_digit(p.value, p.byte) as usize),
                        ..p.cache.header
                    },
                    ..p.cache
                },
                ..p
            },
            None::<ParserError>,
        ),
{
    broadcast use lemma_run_push;
    let s0 = Seq::<u8>::empty();
    assert(run(p, s0) == (p, None::<ParserError>));
    let s1 = s0.push('\r' as u8);
    assert(run(p, s1).0.state == ParserState::NewLineLF);
    let s2 = s1.push('\n' as u8);
    assert(s2 =~= crlf());
    assert(run(p, s2).0.state == ParserState::HeaderKey);
}

/// The text of a digit.
proof fn lemma_digit(n: nat)
    requires
        n < 10,
    ensures
        ascii_bytes(decimal_text(n)) == seq![(48 + n) as u8],
{
    if n == 0 {
        reveal_strlit("0");
        assert(ascii_bytes(decimal_text(n)) =~= seq![48u8]);
    } else if n == 1 {
        reveal_strlit("1");
        assert(ascii_bytes(decimal_text(n)) =~= seq![49u8]);
    } else if n == 2 {
        reveal_strlit("2");
        assert(ascii_bytes(decimal_text(n)) =~= seq![50u8]);
    } else if n == 3 {
        reveal_strlit("3");
        assert(ascii_bytes(decimal_text(n)) =~= seq![51u8]);
    } else if n == 4 {
        reveal_strlit("4");
        assert(ascii_bytes(decimal_text(n)) =~= seq![52u8]);
    } else if n == 5 {
        reveal_strlit("5");
        assert(ascii_bytes(decimal_text(n)) =~= seq![53u8]);
    } else if n == 6 {
        reveal_strlit("6");
        assert(ascii_bytes(decimal_text(n)) =~= seq![54u8]);
    } else if n == 7 {
        reveal_strlit("7");
        assert(ascii_bytes(decimal_text(n)) =~= seq![55u8]);
    } else if n == 8 {
        reveal_strlit("8");
        assert(ascii_bytes(decimal_text(n)) =~= seq![56u8]);
    } else if n == 9 {
        reveal_strlit("9");
        assert(ascii_bytes(decimal_text(n)) =~= seq![57u8]);
    }
}

/// The decimal notation of a number is made of digits, from which the parser reads the number.
pub proof fn lemma_decimal_digits(n: nat)
    requires
        n <= u64::MAX,
    ensures
        ascii_bytes(decimal_text(n)).len() > 0,
        forall|i: int| 0 <= i < ascii_bytes(decimal_text(n)).len() ==> is_digit(#[trigger] ascii_bytes(decimal_text(n))[i]),
        number_value(ascii_bytes(decimal_text(n))) == n,
    decreases n,
{
    if n >= 10 {
        let d = n % 10;
        lemma_decimal_digits(n / 10);
        lemma_digit(d);
        let high = ascii_bytes(decimal_text(n / 10));
        let low = ascii_bytes(decimal_text(d));
        assert(decimal_text(d) == digit_text(d));
        assert(ascii_bytes(decimal_text(n)) =~= high + low);
        assert((high + low).drop_last() =~= high);
        assert((high + low).last() == low[0]);
        assert(10 * (n / 10) < 0x1_0000_0000_0000_0000) by (nonlinear_arith)
            requires
                n <= u64::MAX,
        ;
        vstd::arithmetic::div_mod::lemma_small_mod(10 * (n / 10), 0x1_0000_0000_0000_0000);
        let h = number_value(high);
        assert(h == n / 10);
        assert(low[0] == (48 + d) as u8);
        assert(vstd::wrapping::u64_specs::wrapping_mul(10, h) == 10 * (n / 10));
        assert(vstd::wrapping::u8_specs::wrapping_sub(low[0], '0' as u8) == d);
        assert(10 * (n / 10) + d == n);
        assert(number_value(high + low) == shift_digit(h, low[0]));
        assert(shift_digit(h, low[0]) == n);
    } else {
        lemma_digit(n);
        let c = (48 + n) as u8;
        assert(seq![c].drop_last() =~= Seq::<u8>::empty());
        vstd::arithmetic::div_mod::lemma_small_mod(10 * 0, 0x1_0000_0000_0000_0000);
        assert(number_value(Seq::<u8>::empty()) == 0);
        assert(seq![c].last() == c);
        assert(number_value(seq![c]) == shift_digit(0, c));
        assert(vstd::wrapping::u64_specs::wrapping_mul(10, 0) == 0);
        assert(vstd::wrapping::u8_specs::wrapping_sub(c, '0' as u8) == n);
        assert(shift_digit(0, c) == n);
    }
}

/// The line break that ends the header of a request whose body is announced: the body follows.
pub proof fn lemma_body_start(p: ParserView)
    requires
        p.state == ParserState::HeaderKey,
        header_body_length(p.cache.header) > 0,
        header_body_length(p.cache.header) <= p.configuration.maxContentLength,
    ensures
        run(p, crlf()) == (
            ParserView {
                state: ParserState::Body,
                reset: ParserState::Body,
                remaining: header_body_length(p.cache.header),
                ..p
            },
            None::<ParserError>,
        ),
{
    broadcast use lemma_run_push;
    let s0 = Seq::<u8>::empty();
    assert(run(p, s0) == (p, None::<ParserError>));
    let s1 = s0.push('\r' as u8);
    assert(run(p, s1).0.state == ParserState::NewLineLF);
    let s2 = s1.push('\n' as u8);
    assert(s2 =~= crlf());
}

/// The bytes of the body, all that remain: the request is complete, with the body as content.
pub proof fn lemma_body(p: ParserView, body: Seq<u8>)
    requires
        p.state == ParserState::Body,
        p.remaining == body.len(),
        body.len() > 0,
    ensures
        run(p, body) == (
            ParserView {
                state: ParserState::Method,
                ..done(ParserView {
                    auxiliary: p.cache.content,
                    remaining: 0,
                    cache: RequestView { content: p.auxiliary + body, ..p.cache },
                    ..p
                })
            },
            None::<ParserError>,
        ),
{
    let init = body.drop_last();
    lemma_body_collect(p, init);
    lemma_run_push(p, init, body.last());
    assert(init.push(body.last()) =~= body);
    assert((p.auxiliary + init).push(body.last()) =~= p.auxiliary + body);
}

/// Bytes of the body before the last one.
proof fn lemma_body_collect(p: ParserView, bytes: Seq<u8>)
    requires
        p.state == ParserState::Body,
        p.remaining > bytes.len(),
    ensures
        run(p, bytes) == (
            ParserView {
                auxiliary: p.auxiliary + bytes,
                remaining: (p.remaining - bytes.len()) as usize,
                ..p
            },
            None::<ParserError>,
        ),
    decreases bytes.len(),
{
    if bytes.len() == 0 {
        assert(p.auxiliary + bytes =~= p.auxiliary);
    } else {
        let init = bytes.drop_last();
        lemma_body_collect(p, init);
        lemma_run_push(p, init, bytes.last());
        assert(init.push(bytes.last()) =~= bytes);
        assert((p.auxiliary + init).push(bytes.last()) =~= p.auxiliary + bytes);
    }
}

} // verus!
