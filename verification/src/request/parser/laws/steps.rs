use vstd::prelude::*;
use vstd::utf8::{valid_utf8, decode_utf8};

use crate::method::{Method, method_name};
use crate::version::{Version, version_text};
use crate::request::{RequestView, RequestHeaderView, header_body_length};
use super::super::error::ParserError;
use super::super::transition::{ParserState, ParserView, run, step};
use super::{
    lemma_run_push, lemma_run_concat, lemma_collect, ascii_bytes, crlf, ends_path, ordinary_name,
    plain_value, value_bytes, header_line,
};

verus! {

/// The method CONNECT and the space after it.
proof fn lemma_method_connect(p: ParserView, m: Method)
    requires
        p.state == ParserState::Method,
        m == Method::Connect,
    ensures
        run(p, ascii_bytes(method_name(m)).push(' ' as u8)) == (
            ParserView {
                state: ParserState::PathConsume,
                cache: RequestView { method: m, ..p.cache },
                ..p
            },
            None::<ParserError>,
        ),
{
    broadcast use lemma_run_push;
    reveal_strlit("CONNECT");
    assert(ascii_bytes(method_name(m)) =~= seq!['C' as u8, 'O' as u8, 'N' as u8, 'N' as u8, 'E' as u8, 'C' as u8, 'T' as u8]);
    let s0 = Seq::<u8>::empty();
    assert(run(p, s0) == (p, None::<ParserError>));
    let s1 = s0.push('C' as u8);
    assert(run(p, s1).0.state == ParserState::MethodC);
    let s2 = s1.push('O' as u8);
    assert(run(p, s2).0.state == ParserState::MethodCO);
    let s3 = s2.push('N' as u8);
    assert(run(p, s3).0.state == ParserState::MethodCON);
    let s4 = s3.push('N' as u8);
    assert(run(p, s4).0.state == ParserState::MethodCONN);
    let s5 = s4.push('E' as u8);
    assert(run(p, s5).0.state == ParserState::MethodCONNE);
    let s6 = s5.push('C' as u8);
    assert(run(p, s6).0.state == ParserState::MethodCONNEC);
    let s7 = s6.push('T' as u8);
    assert(run(p, s7).0.state == ParserState::PathAwait);
    assert(s7 =~= seq!['C' as u8, 'O' as u8, 'N' as u8, 'N' as u8, 'E' as u8, 'C' as u8, 'T' as u8]);
}

/// The method DELETE and the space after it.
proof fn lemma_method_delete(p: ParserView, m: Method)
    requires
        p.state == ParserState::Method,
        m == Method::Delete,
    ensures
        run(p, ascii_bytes(method_name(m)).push(' ' as u8)) == (
            ParserView {
                state: ParserState::PathConsume,
                cache: RequestView { method: m, ..p.cache },
                ..p
            },
            None::<ParserError>,
        ),
{
    broadcast use lemma_run_push;
    reveal_strlit("DELETE");
    assert(ascii_bytes(method_name(m)) =~= seq!['D' as u8, 'E' as u8, 'L' as u8, 'E' as u8, 'T' as u8, 'E' as u8]);
    let s0 = Seq::<u8>::empty();
    assert(run(p, s0) == (p, None::<ParserError>));
    let s1 = s0.push('D' as u8);
    assert(run(p, s1).0.state == ParserState::MethodD);
    let s2 = s1.push('E' as u8);
    assert(run(p, s2).0.state == ParserState::MethodDE);
    let s3 = s2.push('L' as u8);
    assert(run(p, s3).0.state == ParserState::MethodDEL);
    let s4 = s3.push('E' as u8);
    assert(run(p, s4).0.state == ParserState::MethodDELE);
    let s5 = s4.push('T' as u8);
    assert(run(p, s5).0.state == ParserState::MethodDELET);
    let s6 = s5.push('E' as u8);
    assert(run(p, s6).0.state == ParserState::PathAwait);
    assert(s6 =~= seq!['D' as u8, 'E' as u8, 'L' as u8, 'E' as u8, 'T' as u8, 'E' as u8]);
}

/// The method GET and the space after it.
proof fn lemma_method_get(p: ParserView, m: Method)
    requires
        p.state == ParserState::Method,
        m == Method::Get,
    ensures
        run(p, ascii_bytes(method_name(m)).push(' ' as u8)) == (
            ParserView {
                state: ParserState::PathConsume,
                cache: RequestView { method: m, ..p.cache },
                ..p
            },
            None::<ParserError>,
        ),
{
    broadcast use lemma_run_push;
    reveal_strlit("GET");
    assert(ascii_bytes(method_name(m)) =~= seq!['G' as u8, 'E' as u8, 'T' as u8]);
    let s0 = Seq::<u8>::empty();
    assert(run(p, s0) == (p, None::<ParserError>));
    let s1 = s0.push('G' as u8);
    assert(run(p, s1).0.state == ParserState::MethodG);
    let s2 = s1.push('E' as u8);
    assert(run(p, s2).0.state == ParserState::MethodGE);
    let s3 = s2.push('T' as u8);
    assert(run(p, s3).0.state == ParserState::PathAwait);
    assert(s3 =~= seq!['G' as u8, 'E' as u8, 'T' as u8]);
}

/// The method HEAD and the space after it.
proof fn lemma_method_head(p: ParserView, m: Method)
    requires
        p.state == ParserState::Method,
        m == Method::Head,
    ensures
        run(p, ascii_bytes(method_name(m)).push(' ' as u8)) == (
            ParserView {
                state: ParserState::PathConsume,
                cache: RequestView { method: m, ..p.cache },
                ..p
            },
            None::<ParserError>,
        ),
{
    broadcast use lemma_run_push;
    reveal_strlit("HEAD");
    assert(ascii_bytes(method_name(m)) =~= seq!['H' as u8, 'E' as u8, 'A' as u8, 'D' as u8]);
    let s0 = Seq::<u8>::empty();
    assert(run(p, s0) == (p, None::<ParserError>));
    let s1 = s0.push('H' as u8);
    assert(run(p, s1).0.state == ParserState::MethodH);
    let s2 = s1.push('E' as u8);
    assert(run(p, s2).0.state == ParserState::MethodHE);
    let s3 = s2.push('A' as u8);
    assert(run(p, s3).0.state == ParserState::MethodHEA);
    let s4 = s3.push('D' as u8);
    assert(run(p, s4).0.state == ParserState::PathAwait);
    assert(s4 =~= seq!['H' as u8, 'E' as u8, 'A' as u8, 'D' as u8]);
}

/// The method OPTIONS and the space after it.
proof fn lemma_method_options(p: ParserView, m: Method)
    requires
        p.state == ParserState::Method,
        m == Method::Options,
    ensures
        run(p, ascii_bytes(method_name(m)).push(' ' as u8)) == (
            ParserView {
                state: ParserState::PathConsume,
                cache: RequestView { method: m, ..p.cache },
                ..p
            },
            None::<ParserError>,
        ),
{
    broadcast use lemma_run_push;
    reveal_strlit("OPTIONS");
    assert(ascii_bytes(method_name(m)) =~= seq!['O' as u8, 'P' as u8, 'T' as u8, 'I' as u8, 'O' as u8, 'N' as u8, 'S' as u8]);
    let s0 = Seq::<u8>::empty();
    assert(run(p, s0) == (p, None::<ParserError>));
    let s1 = s0.push('O' as u8);
    assert(run(p, s1).0.state == ParserState::MethodO);
    let s2 = s1.push('P' as u8);
    assert(run(p, s2).0.state == ParserState::MethodOP);
    let s3 = s2.push('T' as u8);
    assert(run(p, s3).0.state == ParserState::MethodOPT);
    let s4 = s3.push('I' as u8);
    assert(run(p, s4).0.state == ParserState::MethodOPTI);
    let s5 = s4.push('O' as u8);
    assert(run(p, s5).0.state == ParserState::MethodOPTIO);
    let s6 = s5.push('N' as u8);
    assert(run(p, s6).0.state == ParserState::MethodOPTION);
    let s7 = s6.push('S' as u8);
    assert(run(p, s7).0.state == ParserState::PathAwait);
    assert(s7 =~= seq!['O' as u8, 'P' as u8, 'T' as u8, 'I' as u8, 'O' as u8, 'N' as u8, 'S' as u8]);
}

/// The method PATCH and the space after it.
proof fn lemma_method_patch(p: ParserView, m: Method)
    requires
        p.state == ParserState::Method,
        m == Method::Patch,
    ensures
        run(p, ascii_bytes(method_name(m)).push(' ' as u8)) == (
            ParserView {
                state: ParserState::PathConsume,
                cache: RequestView { method: m, ..p.cache },
                ..p
            },
            None::<ParserError>,
        ),
{
    broadcast use lemma_run_push;
    reveal_strlit("PATCH");
    assert(ascii_bytes(method_name(m)) =~= seq!['P' as u8, 'A' as u8, 'T' as u8, 'C' as u8, 'H' as u8]);
    let s0 = Seq::<u8>::empty();
    assert(run(p, s0) == (p, None::<ParserError>));
    let s1 = s0.push('P' as u8);
    assert(run(p, s1).0.state == ParserState::MethodP);
    let s2 = s1.push('A' as u8);
    assert(run(p, s2).0.state == ParserState::MethodPA);
    let s3 = s2.push('T' as u8);
    assert(run(p, s3).0.state == ParserState::MethodPAT);
    let s4 = s3.push('C' as u8);
    assert(run(p, s4).0.state == ParserState::MethodPATC);
    let s5 = s4.push('H' as u8);
    assert(run(p, s5).0.state == ParserState::PathAwait);
    assert(s5 =~= seq!['P' as u8, 'A' as u8, 'T' as u8, 'C' as u8, 'H' as u8]);
}

/// The method POST and the space after it.
proof fn lemma_method_post(p: ParserView, m: Method)
    requires
        p.state == ParserState::Method,
        m == Method::Post,
    ensures
        run(p, ascii_bytes(method_name(m)).push(' ' as u8)) == (
            ParserView {
                state: ParserState::PathConsume,
                cache: RequestView { method: m, ..p.cache },
                ..p
            },
            None::<ParserError>,
        ),
{
    broadcast use lemma_run_push;
    reveal_strlit("POST");
    assert(ascii_bytes(method_name(m)) =~= seq!['P' as u8, 'O' as u8, 'S' as u8, 'T' as u8]);
    let s0 = Seq::<u8>::empty();
    assert(run(p, s0) == (p, None::<ParserError>));
    let s1 = s0.push('P' as u8);
    assert(run(p, s1).0.state == ParserState::MethodP);
    let s2 = s1.push('O' as u8);
    assert(run(p, s2).0.state == ParserState::MethodPO);
    let s3 = s2.push('S' as u8);
    assert(run(p, s3).0.state == ParserState::MethodPOS);
    let s4 = s3.push('T' as u8);
    assert(run(p, s4).0.state == ParserState::PathAwait);
    assert(s4 =~= seq!['P' as u8, 'O' as u8, 'S' as u8, 'T' as u8]);
}

/// The method PUT and the space after it.
proof fn lemma_method_put(p: ParserView, m: Method)
    requires
        p.state == ParserState::Method,
        m == Method::Put,
    ensures
        run(p, ascii_bytes(method_name(m)).push(' ' as u8)) == (
            ParserView {
                state: ParserState::PathConsume,
                cache: RequestView { method: m, ..p.cache },
                ..p
            },
            None::<ParserError>,
        ),
{
    broadcast use lemma_run_push;
    reveal_strlit("PUT");
    assert(ascii_bytes(method_name(m)) =~= seq!['P' as u8, 'U' as u8, 'T' as u8]);
    let s0 = Seq::<u8>::empty();
    assert(run(p, s0) == (p, None::<ParserError>));
    let s1 = s0.push('P' as u8);
    assert(run(p, s1).0.state == ParserState::MethodP);
    let s2 = s1.push('U' as u8);
    assert(run(p, s2).0.state == ParserState::MethodPU);
    let s3 = s2.push('T' as u8);
    assert(run(p, s3).0.state == ParserState::PathAwait);
    assert(s3 =~= seq!['P' as u8, 'U' as u8, 'T' as u8]);
}

/// The method TRACE and the space after it.
proof fn lemma_method_trace(p: ParserView, m: Method)
    requires
        p.state == ParserState::Method,
        m == Method::Trace,
    ensures
        run(p, ascii_bytes(method_name(m)).push(' ' as u8)) == (
            ParserView {
                state: ParserState::PathConsume,
                cache: RequestView { method: m, ..p.cache },
                ..p
            },
            None::<ParserError>,
        ),
{
    broadcast use lemma_run_push;
    reveal_strlit("TRACE");
    assert(ascii_bytes(method_name(m)) =~= seq!['T' as u8, 'R' as u8, 'A' as u8, 'C' as u8, 'E' as u8]);
    let s0 = Seq::<u8>::empty();
    assert(run(p, s0) == (p, None::<ParserError>));
    let s1 = s0.push('T' as u8);
    assert(run(p, s1).0.state == ParserState::MethodT);
    let s2 = s1.push('R' as u8);
    assert(run(p, s2).0.state == ParserState::MethodTR);
    let s3 = s2.push('A' as u8);
    assert(run(p, s3).0.state == ParserState::MethodTRA);
    let s4 = s3.push('C' as u8);
    assert(run(p, s4).0.state == ParserState::MethodTRAC);
    let s5 = s4.push('E' as u8);
    assert(run(p, s5).0.state == ParserState::PathAwait);
    assert(s5 =~= seq!['T' as u8, 'R' as u8, 'A' as u8, 'C' as u8, 'E' as u8]);
}

/// A method and the space after it.
pub proof fn lemma_method(p: ParserView, m: Method)
    requires
        p.state == ParserState::Method,
        m != Method::Dummy,
    ensures
        run(p, ascii_bytes(method_name(m)).push(' ' as u8)) == (
            ParserView {
                state: ParserState::PathConsume,
                cache: RequestView { method: m, ..p.cache },
                ..p
            },
            None::<ParserError>,
        ),
{
    match m {
        Method::Connect => lemma_method_connect(p, m),
        Method::Delete => lemma_method_delete(p, m),
        Method::Get => lemma_method_get(p, m),
        Method::Head => lemma_method_head(p, m),
        Method::Options => lemma_method_options(p, m),
        Method::Patch => lemma_method_patch(p, m),
        Method::Post => lemma_method_post(p, m),
        Method::Put => lemma_method_put(p, m),
        Method::Trace => lemma_method_trace(p, m),
        _ => {},
    }
}

/// The bytes of a plain path, from the state that reads the path: they are collected.
pub proof fn lemma_path(p: ParserView, path: Seq<u8>)
    requires
        p.state == ParserState::PathConsume,
        p.auxiliary.len() + path.len() <= p.configuration.maxPathLength,
        forall|i: int| 0 <= i < path.len() ==> !ends_path(#[trigger] path[i]),
    ensures
        run(p, path) == (ParserView { auxiliary: p.auxiliary + path, ..p }, None::<ParserError>),
{
    assert forall|q: ParserView, i: int|
        #![trigger step(q, path[i])]
        q.state == p.state && q.configuration == p.configuration && 0 <= i < path.len()
            && q.auxiliary.len() < p.configuration.maxPathLength implies step(q, path[i]) == (
            ParserView { auxiliary: q.auxiliary.push(path[i]), ..q },
            None::<ParserError>,
        ) by {
        assert(!ends_path(path[i]));
    }
    lemma_collect(p, path, p.configuration.maxPathLength as int);
}

/// The version HTTP/0.9 and the line break after it.
proof fn lemma_version_http_09(p: ParserView, v: Version)
    requires
        p.state == ParserState::Version,
        v == Version::HTTP_09,
    ensures
        run(p, ascii_bytes(version_text(v)) + crlf()) == (
            ParserView {
                state: ParserState::HeaderKey,
                reset: ParserState::HeaderKey,
                cache: RequestView { version: v, ..p.cache },
                ..p
            },
            None::<ParserError>,
        ),
{
    broadcast use lemma_run_push;
    reveal_strlit("HTTP/0.9");
    let s0 = Seq::<u8>::empty();
    assert(run(p, s0) == (p, None::<ParserError>));
    let s1 = s0.push('H' as u8);
    assert(run(p, s1).0.state == ParserState::VersionH);
    let s2 = s1.push('T' as u8);
    assert(run(p, s2).0.state == ParserState::VersionHT);
    let s3 = s2.push('T' as u8);
    assert(run(p, s3).0.state == ParserState::VersionHTT);
    let s4 = s3.push('P' as u8);
    assert(run(p, s4).0.state == ParserState::VersionHTTP);
    let s5 = s4.push('/' as u8);
    assert(run(p, s5).0.state == ParserState::VersionNumber);
    let s6 = s5.push('0' as u8);
    assert(run(p, s6).0.state == ParserState::Version0);
    let s7 = s6.push('.' as u8);
    assert(run(p, s7).0.state == ParserState::Version0P);
    let s8 = s7.push('9' as u8);
    assert(run(p, s8).0.state == ParserState::NewLineCR);
    let s9 = s8.push('\r' as u8);
    assert(run(p, s9).0.state == ParserState::NewLineLF);
    let s10 = s9.push('\n' as u8);
    assert(run(p, s10).0.state == ParserState::HeaderKey);
    assert(s10 =~= ascii_bytes(version_text(v)) + crlf());
}

/// The version HTTP/1.0 and the line break after it.
proof fn lemma_version_http_10(p: ParserView, v: Version)
    requires
        p.state == ParserState::Version,
        v == Version::HTTP_10,
    ensures
        run(p, ascii_bytes(version_text(v)) + crlf()) == (
            ParserView {
                state: ParserState::HeaderKey,
                reset: ParserState::HeaderKey,
                cache: RequestView { version: v, ..p.cache },
                ..p
            },
            None::<ParserError>,
        ),
{
    broadcast use lemma_run_push;
    reveal_strlit("HTTP/1.0");
    let s0 = Seq::<u8>::empty();
    assert(run(p, s0) == (p, None::<ParserError>));
    let s1 = s0.push('H' as u8);
    assert(run(p, s1).0.state == ParserState::VersionH);
    let s2 = s1.push('T' as u8);
    assert(run(p, s2).0.state == ParserState::VersionHT);
    let s3 = s2.push('T' as u8);
    assert(run(p, s3).0.state == ParserState::VersionHTT);
    let s4 = s3.push('P' as u8);
    assert(run(p, s4).0.state == ParserState::VersionHTTP);
    let s5 = s4.push('/' as u8);
    assert(run(p, s5).0.state == ParserState::VersionNumber);
    let s6 = s5.push('1' as u8);
    assert(run(p, s6).0.state == ParserState::Version1);
    let s7 = s6.push('.' as u8);
    assert(run(p, s7).0.state == ParserState::Version1P);
    let s8 = s7.push('0' as u8);
    assert(run(p, s8).0.state == ParserState::NewLineCR);
    let s9 = s8.push('\r' as u8);
    assert(run(p, s9).0.state == ParserState::NewLineLF);
    let s10 = s9.push('\n' as u8);
    assert(run(p, s10).0.state == ParserState::HeaderKey);
    assert(s10 =~= ascii_bytes(version_text(v)) + crlf());
}

/// The version HTTP/1.1 and the line break after it.
proof fn lemma_version_http_11(p: ParserView, v: Version)
    requires
        p.state == ParserState::Version,
        v == Version::HTTP_11,
    ensures
        run(p, ascii_bytes(version_text(v)) + crlf()) == (
            ParserView {
                state: ParserState::HeaderKey,
                reset: ParserState::HeaderKey,
                cache: RequestView { version: v, ..p.cache },
                ..p
            },
            None::<ParserError>,
        ),
{
    broadcast use lemma_run_push;
    reveal_strlit("HTTP/1.1");
    let s0 = Seq::<u8>::empty();
    assert(run(p, s0) == (p, None::<ParserError>));
    let s1 = s0.push('H' as u8);
    assert(run(p, s1).0.state == ParserState::VersionH);
    let s2 = s1.push('T' as u8);
    assert(run(p, s2).0.state == ParserState::VersionHT);
    let s3 = s2.push('T' as u8);
    assert(run(p, s3).0.state == ParserState::VersionHTT);
    let s4 = s3.push('P' as u8);
    assert(run(p, s4).0.state == ParserState::VersionHTTP);
    let s5 = s4.push('/' as u8);
    assert(run(p, s5).0.state == ParserState::VersionNumber);
    let s6 = s5.push('1' as u8);
    assert(run(p, s6).0.state == ParserState::Version1);
    let s7 = s6.push('.' as u8);
    assert(run(p, s7).0.state == ParserState::Version1P);
    let s8 = s7.push('1' as u8);
    assert(run(p, s8).0.state == ParserState::NewLineCR);
    let s9 = s8.push('\r' as u8);
    assert(run(p, s9).0.state == ParserState::NewLineLF);
    let s10 = s9.push('\n' as u8);
    assert(run(p, s10).0.state == ParserState::HeaderKey);
    assert(s10 =~= ascii_bytes(version_text(v)) + crlf());
}

/// The version HTTP/2.0 and the line break after it.
proof fn lemma_version_http_2(p: ParserView, v: Version)
    requires
        p.state == ParserState::Version,
        v == Version::HTTP_2,
    ensures
        run(p, ascii_bytes(version_text(v)) + crlf()) == (
            ParserView {
                state: ParserState::HeaderKey,
                reset: ParserState::HeaderKey,
                cache: RequestView { version: v, ..p.cache },
                ..p
            },
            None::<ParserError>,
        ),
{
    broadcast use lemma_run_push;
    reveal_strlit("HTTP/2.0");
    let s0 = Seq::<u8>::empty();
    assert(run(p, s0) == (p, None::<ParserError>));
    let s1 = s0.push('H' as u8);
    assert(run(p, s1).0.state == ParserState::VersionH);
    let s2 = s1.push('T' as u8);
    assert(run(p, s2).0.state == ParserState::VersionHT);
    let s3 = s2.push('T' as u8);
    assert(run(p, s3).0.state == ParserState::VersionHTT);
    let s4 = s3.push('P' as u8);
    assert(run(p, s4).0.state == ParserState::VersionHTTP);
    let s5 = s4.push('/' as u8);
    assert(run(p, s5).0.state == ParserState::VersionNumber);
    let s6 = s5.push('2' as u8);
    assert(run(p, s6).0.state == ParserState::Version2);
    let s7 = s6.push('.' as u8);
    assert(run(p, s7).0.state == ParserState::Version2P);
    let s8 = s7.push('0' as u8);
    assert(run(p, s8).0.state == ParserState::NewLineCR);
    let s9 = s8.push('\r' as u8);
    assert(run(p, s9).0.state == ParserState::NewLineLF);
    let s10 = s9.push('\n' as u8);
    assert(run(p, s10).0.state == ParserState::HeaderKey);
    assert(s10 =~= ascii_bytes(version_text(v)) + crlf());
}

/// The version HTTP/3.0 and the line break after it.
proof fn lemma_version_http_3(p: ParserView, v: Version)
    requires
        p.state == ParserState::Version,
        v == Version::HTTP_3,
    ensures
        run(p, ascii_bytes(version_text(v)) + crlf()) == (
            ParserView {
                state: ParserState::HeaderKey,
                reset: ParserState::HeaderKey,
                cache: RequestView { version: v, ..p.cache },
                ..p
            },
            None::<ParserError>,
        ),
{
    broadcast use lemma_run_push;
    reveal_strlit("HTTP/3.0");
    let s0 = Seq::<u8>::empty();
    assert(run(p, s0) == (p, None::<ParserError>));
    let s1 = s0.push('H' as u8);
    assert(run(p, s1).0.state == ParserState::VersionH);
    let s2 = s1.push('T' as u8);
    assert(run(p, s2).0.state == ParserState::VersionHT);
    let s3 = s2.push('T' as u8);
    assert(run(p, s3).0.state == ParserState::VersionHTT);
    let s4 = s3.push('P' as u8);
    assert(run(p, s4).0.state == ParserState::VersionHTTP);
    let s5 = s4.push('/' as u8);
    assert(run(p, s5).0.state == ParserState::VersionNumber);
    let s6 = s5.push('3' as u8);
    assert(run(p, s6).0.state == ParserState::Version3);
    let s7 = s6.push('.' as u8);
    assert(run(p, s7).0.state == ParserState::Version3P);
    let s8 = s7.push('0' as u8);
    assert(run(p, s8).0.state == ParserState::NewLineCR);
    let s9 = s8.push('\r' as u8);
    assert(run(p, s9).0.state == ParserState::NewLineLF);
    let s10 = s9.push('\n' as u8);
    assert(run(p, s10).0.state == ParserState::HeaderKey);
    assert(s10 =~= ascii_bytes(version_text(v)) + crlf());
}

/// The version at the end of the request line, and the line break after it.
pub proof fn lemma_version(p: ParserView, v: Version)
    requires
        p.state == ParserState::Version,
    ensures
        run(p, ascii_bytes(version_text(v)) + crlf()) == (
            ParserView {
                state: ParserState::HeaderKey,
                reset: ParserState::HeaderKey,
                cache: RequestView { version: v, ..p.cache },
                ..p
            },
            None::<ParserError>,
        ),
{
    match v {
        Version::HTTP_09 => lemma_version_http_09(p, v),
        Version::HTTP_10 => lemma_version_http_10(p, v),
        Version::HTTP_11 => lemma_version_http_11(p, v),
        Version::HTTP_2 => lemma_version_http_2(p, v),
        Version::HTTP_3 => lemma_version_http_3(p, v),
    }
}

/// The space after a plain path: the path is decoded.
pub proof fn lemma_path_end(p: ParserView)
    requires
        p.state == ParserState::PathConsume,
        valid_utf8(p.auxiliary),
    ensures
        run(p, seq![' ' as u8]) == (
            ParserView {
                state: ParserState::Version,
                auxiliary: Seq::empty(),
                cache: RequestView { path: decode_utf8(p.auxiliary), ..p.cache },
                ..p
            },
            None::<ParserError>,
        ),
{
    lemma_run_push(p, Seq::empty(), ' ' as u8);
    assert(Seq::<u8>::empty().push(' ' as u8) =~= seq![' ' as u8]);
}

/// The value of a header field, after the name of an ordinary one, a colon and a space.
pub proof fn lemma_value(p: ParserView, value: Seq<u8>)
    requires
        p.state == ParserState::HeaderValueAwait,
        p.goto == ParserState::HeaderValueX,
        p.auxiliary.len() == 0,
        value_bytes(value),
        value.len() <= p.configuration.maxHeaderLength,
    ensures
        run(p, value) == (
            ParserView { state: ParserState::HeaderValueX, auxiliary: value, byte: value[0], ..p },
            None::<ParserError>,
        ),
{
    let first = seq![value[0]];
    let rest = value.drop_first();
    assert(first + rest =~= value);
    lemma_run_concat(p, first, rest);
    lemma_run_push(p, Seq::empty(), value[0]);
    assert(Seq::<u8>::empty().push(value[0]) =~= first);
    let q = ParserView { state: ParserState::HeaderValueX, auxiliary: first, byte: value[0], ..p };
    assert(p.auxiliary.push(value[0]) =~= first);
    assert(run(p, first) == (q, None::<ParserError>));
    assert forall|r: ParserView, i: int|
        #![trigger step(r, rest[i])]
        r.state == q.state && r.configuration == q.configuration && 0 <= i < rest.len()
            && r.auxiliary.len() < q.configuration.maxHeaderLength implies step(r, rest[i]) == (
            ParserView { auxiliary: r.auxiliary.push(rest[i]), ..r },
            None::<ParserError>,
        ) by {
        assert(rest[i] == value[i + 1]);
    }
    lemma_collect(q, rest, q.configuration.maxHeaderLength as int);
}

/// A header line with the name of an ordinary field: it adds the field to the header.
pub proof fn lemma_header_line(p: ParserView, name: Seq<u8>, value: Seq<u8>)
    requires
        p.state == ParserState::HeaderKey,
        p.auxiliary.len() == 0,
        p.entries < p.configuration.maxHeaderEntries,
        ordinary_name(name),
        plain_value(value),
        name.len() <= p.configuration.maxHeaderLength,
        value.len() <= p.configuration.maxHeaderLength,
    ensures
        run(p, header_line(name, value)) == (
            ParserView {
                entries: (p.entries + 1) as usize,
                reset: ParserState::HeaderKey,
                goto: ParserState::HeaderValueX,
                byte: value[0],
                key: Seq::empty(),
                header: run(p, header_line(name, value)).0.header,
                cache: RequestView {
                    header: RequestHeaderView {
                        other: p.cache.header.other.push((decode_utf8(name), decode_utf8(value))),
                        ..p.cache.header
                    },
                    ..p.cache
                },
                ..p
            },
            None::<ParserError>,
        ),
{
    broadcast use lemma_run_push;
    let named = name.push(':' as u8);
    let colon = seq![':' as u8, ' ' as u8];
    assert(name + colon =~= named.push(' ' as u8));
    lemma_run_concat(p, name + colon + value, crlf());
    lemma_run_concat(p, name + colon, value);
    super::names::lemma_name_colon(p, name);
    let q1 = run(p, named).0;
    let q2 = run(p, named.push(' ' as u8)).0;
    assert(q2 == q1);
    assert(q2.auxiliary =~= Seq::<u8>::empty());
    lemma_value(q2, value);
    let q3 = run(q2, value).0;
    assert(run(p, name + colon + value) == (q3, None::<ParserError>));
    let s0 = Seq::<u8>::empty();
    let t1 = s0.push('\r' as u8);
    assert(run(q3, t1).0.state == ParserState::NewLineLF);
    let t2 = t1.push('\n' as u8);
    assert(t2 =~= crlf());
    assert(run(q3, t2).0.state == ParserState::HeaderKey);
    assert(run(q3, t2).0.auxiliary =~= Seq::<u8>::empty());
    assert(run(q3, t2).1 is None);
    assert(header_line(name, value) == name + colon + value + crlf());
    let r = run(q3, t2).0;
    assert(r.cache.header.other == p.cache.header.other.push((decode_utf8(name), decode_utf8(value))));
    assert(r.key =~= Seq::<char>::empty());
    assert(p.auxiliary =~= r.auxiliary);
}

/// The empty line that ends the header of a request without body: the request is complete.
pub proof fn lemma_end(p: ParserView)
    requires
        p.state == ParserState::HeaderKey,
        header_body_length(p.cache.header) == 0,
    ensures
        run(p, crlf()) == (
            ParserView {
                state: ParserState::Method,
                reset: ParserState::Method,
                remaining: 0,
                entries: 0,
                requests: p.requests.push(p.cache),
                cache: crate::request::empty_request(),
                ..p
            },
            None::<ParserError>,
        ),
{
    broadcast use lemma_run_push;
    let s0 = Seq::<u8>::empty();
    assert(run(p, s0) == (p, None::<ParserError>));
    let s1 = s0.push('\r' as u8);
    assert(run(p, s1).0.state == ParserState::NewLineLF);
    let s2 = s1.push('\n' as u8);
    assert(s2 =~= crlf());
    assert(run(p, s2).0.state == ParserState::Method);
}

} // verus!
