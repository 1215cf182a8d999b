use vstd::prelude::*;
use vstd::utf8::{valid_utf8, decode_utf8};

use crate::request::RequestView;
use super::super::error::ParserError;
use super::super::transition::{ParserState, ParserView, run};
use super::{
    lemma_run_push, lemma_run_concat, lemma_collect, ends_query_key, ends_query_value,
    plain_separator, plain_entry, query_entry, query_bytes, decoded_fields, query_item, decoded_item,
    plain_item, items_bytes,
};

verus! {

/// The question mark after a plain path: the path is decoded, the query follows.
pub proof fn lemma_query_start(p: ParserView)
    requires
        p.state == ParserState::PathConsume,
        valid_utf8(p.auxiliary),
    ensures
        run(p, seq!['?' as u8]) == (
            ParserView {
                state: ParserState::QueryKey,
                auxiliary: Seq::empty(),
                cache: RequestView { path: decode_utf8(p.auxiliary), ..p.cache },
                ..p
            },
            None::<ParserError>,
        ),
{
    lemma_run_push(p, Seq::empty(), '?' as u8);
    assert(Seq::<u8>::empty().push('?' as u8) =~= seq!['?' as u8]);
}

/// Bytes of a query value, up to the length the configuration allows: they are collected.
proof fn lemma_value_bytes(p: ParserView, value: Seq<u8>)
    requires
        p.state == ParserState::QueryValue,
        p.auxiliary.len() + value.len() <= p.configuration.maxPathLength + 1,
        forall|i: int| 0 <= i < value.len() ==> !ends_query_value(#[trigger] value[i], p.configuration.querySeperator),
    ensures
        run(p, value) == (ParserView { auxiliary: p.auxiliary + value, ..p }, None::<ParserError>),
    decreases value.len(),
{
    if value.len() == 0 {
        assert(p.auxiliary + value =~= p.auxiliary);
    } else {
        let init = value.drop_last();
        assert(init.push(value.last()) =~= value);
        assert forall|i: int| 0 <= i < init.len() implies !ends_query_value(#[trigger] init[i], p.configuration.querySeperator) by {
            assert(init[i] == value[i]);
        }
        lemma_value_bytes(p, init);
        lemma_run_push(p, init, value.last());
        assert(!ends_query_value(value[value.len() - 1], p.configuration.querySeperator));
        assert((p.auxiliary + init).push(value.last()) =~= p.auxiliary + value);
    }
}

/// A query entry, from the start of a key.
proof fn lemma_entry(p: ParserView, entry: (Seq<u8>, Seq<u8>))
    requires
        p.state == ParserState::QueryKey,
        p.auxiliary.len() == 0,
        plain_entry(entry, p.configuration),
    ensures
        run(p, query_entry(entry)) == (
            ParserView {
                state: ParserState::QueryValue,
                auxiliary: entry.1,
                key: decode_utf8(entry.0),
                ..p
            },
            None::<ParserError>,
        ),
{
    let key = entry.0;
    let value = entry.1;
    lemma_run_concat(p, key + seq!['=' as u8], value);
    lemma_run_concat(p, key, seq!['=' as u8]);
    lemma_key_bytes(p, key);
    let q = run(p, key).0;
    assert(q.auxiliary =~= key);
    lemma_run_push(q, Seq::empty(), '=' as u8);
    assert(Seq::<u8>::empty().push('=' as u8) =~= seq!['=' as u8]);
    let r = run(q, seq!['=' as u8]).0;
    assert(r == ParserView { state: ParserState::QueryValue, auxiliary: Seq::empty(), key: decode_utf8(key), ..p });
    lemma_value_bytes(r, value);
    assert(r.auxiliary + value =~= value);
}

/// Bytes of a query key: they are collected.
proof fn lemma_key_bytes(p: ParserView, key: Seq<u8>)
    requires
        p.state == ParserState::QueryKey,
        forall|i: int| 0 <= i < key.len() ==> !ends_query_key(#[trigger] key[i], p.configuration.querySeperator),
    ensures
        run(p, key) == (ParserView { auxiliary: p.auxiliary + key, ..p }, None::<ParserError>),
    decreases key.len(),
{
    if key.len() == 0 {
        assert(p.auxiliary + key =~= p.auxiliary);
    } else {
        let init = key.drop_last();
        assert(init.push(key.last()) =~= key);
        assert forall|i: int| 0 <= i < init.len() implies !ends_query_key(#[trigger] init[i], p.configuration.querySeperator) by {
            assert(init[i] == key[i]);
        }
        lemma_key_bytes(p, init);
        lemma_run_push(p, init, key.last());
        assert(!ends_query_key(key[key.len() - 1], p.configuration.querySeperator));
        assert((p.auxiliary + init).push(key.last()) =~= p.auxiliary + key);
    }
}

/// Query entries between separators, from the start of the first key: all but the last are
/// added to the query; the last one is read up to the end of its value.
pub proof fn lemma_entries(p: ParserView, entries: Seq<(Seq<u8>, Seq<u8>)>)
    requires
        p.state == ParserState::QueryKey,
        p.auxiliary.len() == 0,
        entries.len() > 0,
        plain_separator(p.configuration.querySeperator),
        forall|i: int| 0 <= i < entries.len() ==> plain_entry(#[trigger] entries[i], p.configuration),
    ensures
        run(p, query_bytes(entries, p.configuration.querySeperator)) == (
            ParserView {
                state: ParserState::QueryValue,
                auxiliary: entries.last().1,
                key: decode_utf8(entries.last().0),
                cache: RequestView {
                    query: p.cache.query + decoded_fields(entries.drop_last()),
                    ..p.cache
                },
                ..p
            },
            None::<ParserError>,
        ),
    decreases entries.len(),
{
    let separator = p.configuration.querySeperator;
    assert(plain_entry(entries[entries.len() - 1], p.configuration));
    if entries.len() == 1 {
        lemma_entry(p, entries[0]);
        assert(decoded_fields(entries.drop_last()) =~= Seq::empty());
        assert(p.cache.query + decoded_fields(entries.drop_last()) =~= p.cache.query);
    } else {
        let init = entries.drop_last();
        let last = entries.last();
        assert forall|i: int| 0 <= i < init.len() implies plain_entry(#[trigger] init[i], p.configuration) by {
            assert(init[i] == entries[i]);
        }
        lemma_entries(p, init);
        let q = run(p, query_bytes(init, separator)).0;
        lemma_run_concat(p, query_bytes(init, separator) + seq![separator], query_entry(last));
        lemma_run_concat(p, query_bytes(init, separator), seq![separator]);
        lemma_run_push(q, Seq::empty(), separator);
        assert(Seq::<u8>::empty().push(separator) =~= seq![separator]);
        assert(plain_entry(init[init.len() - 1], p.configuration));
        let r = run(q, seq![separator]).0;
        assert(r.state == ParserState::QueryKey);
        assert(r.auxiliary =~= Seq::<u8>::empty());
        lemma_entry(r, last);
        assert(decoded_fields(entries.drop_last()) =~= decoded_fields(init.drop_last()).push(
            (decode_utf8(init.last().0), decode_utf8(init.last().1)),
        ));
        assert(p.cache.query + decoded_fields(entries.drop_last()) =~= (p.cache.query + decoded_fields(
            init.drop_last(),
        )).push((decode_utf8(init.last().0), decode_utf8(init.last().1))));
        assert(r.key =~= Seq::<char>::empty());
    }
}

/// The space that ends the query: its last entry is added.
pub proof fn lemma_query_end(p: ParserView)
    requires
        p.state == ParserState::QueryValue,
        valid_utf8(p.auxiliary),
        plain_separator(p.configuration.querySeperator),
    ensures
        run(p, seq![' ' as u8]) == (
            ParserView {
                state: ParserState::Version,
                auxiliary: Seq::empty(),
                key: Seq::empty(),
                cache: RequestView {
                    query: p.cache.query.push((p.key, decode_utf8(p.auxiliary))),
                    ..p.cache
                },
                ..p
            },
            None::<ParserError>,
        ),
{
    lemma_run_push(p, Seq::empty(), ' ' as u8);
    assert(Seq::<u8>::empty().push(' ' as u8) =~= seq![' ' as u8]);
}

/// A query entry and the separator after it, from the start of a key: the entry is added to
/// the query, a key alone with an empty value.
proof fn lemma_item(p: ParserView, item: (Seq<u8>, Option<Seq<u8>>))
    requires
        p.state == ParserState::QueryKey,
        p.auxiliary.len() == 0,
        plain_separator(p.configuration.querySeperator),
        plain_item(item, p.configuration),
    ensures
        run(p, query_item(item) + seq![p.configuration.querySeperator]) == (
            ParserView {
                key: run(p, query_item(item) + seq![p.configuration.querySeperator]).0.key,
                cache: RequestView { query: p.cache.query.push(decoded_item(item)), ..p.cache },
                ..p
            },
            None::<ParserError>,
        ),
{
    let separator = p.configuration.querySeperator;
    lemma_run_concat(p, query_item(item), seq![separator]);
    assert(Seq::<u8>::empty().push(separator) =~= seq![separator]);
    match item.1 {
        Some(value) => {
            lemma_entry(p, (item.0, value));
            let q = run(p, query_item(item)).0;
            lemma_run_push(q, Seq::empty(), separator);
            assert(q.auxiliary == value);
            assert(p.auxiliary =~= Seq::<u8>::empty());
        },
        None => {
            lemma_key_bytes(p, item.0);
            let q = run(p, query_item(item)).0;
            lemma_run_push(q, Seq::empty(), separator);
            assert(q.auxiliary =~= item.0);
            assert(p.auxiliary =~= Seq::<u8>::empty());
        },
    }
}

/// Query entries, each ended by the separator, from the start of a key: each is added to
/// the query, in order.
pub proof fn lemma_items(p: ParserView, items: Seq<(Seq<u8>, Option<Seq<u8>>)>)
    requires
        p.state == ParserState::QueryKey,
        p.auxiliary.len() == 0,
        plain_separator(p.configuration.querySeperator),
        forall|i: int| 0 <= i < items.len() ==> plain_item(#[trigger] items[i], p.configuration),
    ensures
        run(p, items_bytes(items, p.configuration.querySeperator)) == (
            ParserView {
                key: run(p, items_bytes(items, p.configuration.querySeperator)).0.key,
                cache: RequestView {
                    query: p.cache.query + items.map_values(
                        |item: (Seq<u8>, Option<Seq<u8>>)| decoded_item(item),
                    ),
                    ..p.cache
                },
                ..p
            },
            None::<ParserError>,
        ),
    decreases items.len(),
{
    let separator = p.configuration.querySeperator;
    let decoded = items.map_values(|item: (Seq<u8>, Option<Seq<u8>>)| decoded_item(item));
    if items.len() == 0 {
        assert(p.cache.query + decoded =~= p.cache.query);
        assert(run(p, Seq::<u8>::empty()) == (p, None::<ParserError>));
    } else {
        let init = items.drop_last();
        assert forall|i: int| 0 <= i < init.len() implies plain_item(#[trigger] init[i], p.configuration) by {
            assert(init[i] == items[i]);
        }
        lemma_items(p, init);
        let q = run(p, items_bytes(init, separator)).0;
        assert(plain_item(items[items.len() - 1], p.configuration));
        lemma_item(q, items.last());
        assert(items_bytes(items, separator) =~= items_bytes(init, separator) + (query_item(items.last())
            + seq![separator]));
        lemma_run_concat(p, items_bytes(init, separator), query_item(items.last()) + seq![separator]);
        let init_decoded = init.map_values(|item: (Seq<u8>, Option<Seq<u8>>)| decoded_item(item));
        assert(decoded =~= init_decoded.push(decoded_item(items.last())));
        assert(p.cache.query + decoded =~= (p.cache.query + init_decoded).push(decoded_item(items.last())));
    }
}

/// The last query entry "key=value", from the start of its key: the key is decoded and the
/// value collected.
pub proof fn lemma_last_entry(p: ParserView, last: (Seq<u8>, Seq<u8>))
    requires
        p.state == ParserState::QueryKey,
        p.auxiliary.len() == 0,
        plain_entry(last, p.configuration),
    ensures
        run(p, query_entry(last)) == (
            ParserView {
                state: ParserState::QueryValue,
                auxiliary: last.1,
                key: decode_utf8(last.0),
                ..p
            },
            None::<ParserError>,
        ),
{
    lemma_entry(p, last);
}

} // verus!
