use vstd::prelude::*;
use vstd::utf8::{valid_utf8, decode_utf8, pop_first_scalar};

use super::super::error::ParserError;
use super::super::transition::{ParserState, ParserView, run, step, is_token, key_prefix};
use super::{lemma_run_push, special_prefix, content_length_name, cookie_name, text_field_name, ordinary_name};
use crate::request::RequestHeaderField;

verus! {

/// Where the parser is after the beginning `pre` of a header name: at the start of the
/// line, in its trie of the names it reads specially (having read exactly `pre`), or in an
/// ordinary name (having collected `pre`).
pub open spec fn name_progress(q: ParserView, pre: Seq<u8>) -> bool {
    ||| q.state == ParserState::HeaderKey && pre.len() == 0 && q.auxiliary.len() == 0
    ||| key_prefix(q.state).len() > 0 && key_prefix(q.state) == pre && q.auxiliary.len() == 0
    ||| q.state == ParserState::HeaderKeyX && q.auxiliary == pre
}

/// A token byte in the name of a header field: the parser goes on reading the name.
#[verifier::rlimit(60)]
proof fn lemma_name_step(q: ParserView, pre: Seq<u8>, b: u8)
    requires
        name_progress(q, pre),
        is_token(b),
        pre.len() < q.configuration.maxHeaderLength,
        q.state == ParserState::HeaderKey ==> q.entries < q.configuration.maxHeaderEntries,
    ensures
        step(q, b).1 is None,
        name_progress(step(q, b).0, pre.push(b)),
        step(q, b).0.entries == if q.state == ParserState::HeaderKey {
            q.entries + 1
        } else {
            q.entries as int
        },
        step(q, b).0 == (ParserView {
            state: step(q, b).0.state,
            auxiliary: step(q, b).0.auxiliary,
            header: step(q, b).0.header,
            entries: step(q, b).0.entries,
            ..q
        }),
{
    let r = step(q, b).0;
    if q.state == ParserState::HeaderKey {
        assert(b != '\r' as u8);
        if r.state == ParserState::HeaderKeyX {
            assert(r.auxiliary =~= pre.push(b));
        } else {
            assert(key_prefix(r.state) =~= pre.push(b));
        }
    } else if q.state == ParserState::HeaderKeyX {
        assert(r.auxiliary =~= pre.push(b));
    } else if r.state == ParserState::HeaderKeyX {
        assert(r.auxiliary =~= pre.push(b));
    } else {
        assert(key_prefix(r.state) =~= pre.push(b));
    }
}

/// The beginning of a header name, of token bytes, from the start of a header line.
proof fn lemma_name_prefix(p: ParserView, pre: Seq<u8>)
    requires
        p.state == ParserState::HeaderKey,
        p.auxiliary.len() == 0,
        p.entries < p.configuration.maxHeaderEntries,
        pre.len() <= p.configuration.maxHeaderLength,
        forall|i: int| 0 <= i < pre.len() ==> is_token(#[trigger] pre[i]),
    ensures
        run(p, pre).1 is None,
        name_progress(run(p, pre).0, pre),
        run(p, pre).0 == (ParserView {
            state: run(p, pre).0.state,
            auxiliary: run(p, pre).0.auxiliary,
            header: run(p, pre).0.header,
            entries: if pre.len() > 0 {
                (p.entries + 1) as usize
            } else {
                p.entries
            },
            ..p
        }),
    decreases pre.len(),
{
    if pre.len() > 0 {
        let init = pre.drop_last();
        assert(init.push(pre.last()) =~= pre);
        assert forall|i: int| 0 <= i < init.len() implies is_token(#[trigger] init[i]) by {
            assert(init[i] == pre[i]);
        }
        lemma_name_prefix(p, init);
        lemma_run_push(p, init, pre.last());
        assert(is_token(pre[pre.len() - 1]));
        lemma_name_step(run(p, init).0, init, pre.last());
    }
}

/// What the trie of the parser has read is a beginning of a name that it reads specially;
/// only in one state has it read "Co".
proof fn lemma_trie_prefix(s: ParserState)
    requires
        key_prefix(s).len() > 0,
    ensures
        special_prefix(key_prefix(s)),
        key_prefix(s) == seq!['C' as u8, 'o' as u8] ==> s == ParserState::HeaderKeyCo,
{
    let k = key_prefix(s);
    if k[0] == 'C' as u8 && (k.len() <= 2 || k[2] == 'n' as u8) {
        assert(k =~= content_length_name().subrange(0, k.len() as int));
    } else if k[0] == 'C' as u8 {
        assert(k =~= cookie_name().subrange(0, k.len() as int));
    } else if k[0] == 'H' as u8 {
        assert(k =~= text_field_name(RequestHeaderField::Host).subrange(0, k.len() as int));
    } else {
        assert(k =~= text_field_name(RequestHeaderField::UserAgent).subrange(0, k.len() as int));
    }
}

/// The bytes of "Co" encode "Co".
proof fn lemma_decode_co()
    ensures
        decode_utf8(seq!['C' as u8, 'o' as u8]) == seq!['C', 'o'],
{
    let co = seq!['C' as u8, 'o' as u8];
    let o = seq!['o' as u8];
    let none = Seq::<u8>::empty();
    assert(0x43u8 & 0x7f == 0x43u8) by (bit_vector);
    assert(0x6fu8 & 0x7f == 0x6fu8) by (bit_vector);
    assert(pop_first_scalar(o) =~= none);
    assert(valid_utf8(none));
    assert(valid_utf8(o));
    assert(decode_utf8(none) =~= Seq::<char>::empty());
    assert(decode_utf8(o) =~= seq!['o']);
    assert(pop_first_scalar(co) =~= o);
    assert(valid_utf8(co));
    assert(decode_utf8(co) =~= seq!['C', 'o']);
}

/// The name of an ordinary header field and the colon after it, at the start of a header
/// line: the name is decoded as the key of the field, and the parser awaits its value.
pub proof fn lemma_name_colon(p: ParserView, name: Seq<u8>)
    requires
        p.state == ParserState::HeaderKey,
        p.auxiliary.len() == 0,
        p.entries < p.configuration.maxHeaderEntries,
        ordinary_name(name),
        name.len() <= p.configuration.maxHeaderLength,
    ensures
        run(p, name.push(':' as u8)).1 is None,
        run(p, name.push(':' as u8)).0 == (ParserView {
            entries: (p.entries + 1) as usize,
            state: ParserState::HeaderValueAwait,
            goto: ParserState::HeaderValueX,
            key: decode_utf8(name),
            header: run(p, name.push(':' as u8)).0.header,
            ..p
        }),
{
    lemma_name_prefix(p, name);
    lemma_run_push(p, name, ':' as u8);
    let q = run(p, name).0;
    assert(p.auxiliary =~= Seq::<u8>::empty());
    if q.state == ParserState::HeaderKeyX {
        assert(q.auxiliary == name);
        assert(step(q, ':' as u8).0 == ParserView {
            state: ParserState::HeaderValueAwait,
            goto: ParserState::HeaderValueX,
            key: decode_utf8(name),
            auxiliary: Seq::empty(),
            ..q
        });
    } else {
        lemma_trie_prefix(q.state);
        assert(key_prefix(q.state) == name);
        assert(name == seq!['C' as u8, 'o' as u8]);
        assert(q.state == ParserState::HeaderKeyCo);
        assert(q.auxiliary =~= p.auxiliary);
        lemma_decode_co();
        assert(step(q, ':' as u8).0 == ParserView {
            state: ParserState::HeaderValueAwait,
            goto: ParserState::HeaderValueX,
            key: decode_utf8(name),
            ..q
        });
    }
}

} // verus!
