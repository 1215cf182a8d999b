use vstd::prelude::*;

use crate::KeyValuePair;

verus! {

/// A struct-stub as a Namespace.
pub struct Header();

/// The characters that bytes stand for, one per byte.
pub open spec fn latin1(bytes: Seq<u8>) -> Seq<char> {
    bytes.map_values(|b: u8| b as char)
}

/// The index of the first ':' or carriage return at or after `i`, or the length.
pub open spec fn first_key_end(bytes: Seq<u8>, i: int) -> int
    decreases bytes.len() - i,
{
    if i < 0 || i >= bytes.len() {
        bytes.len() as int
    } else if bytes[i] == ':' as u8 || bytes[i] == '\r' as u8 {
        i
    } else {
        first_key_end(bytes, i + 1)
    }
}

/// The index of the first carriage return at or after `i`, or the length.
pub open spec fn first_cr(bytes: Seq<u8>, i: int) -> int
    decreases bytes.len() - i,
{
    if i < 0 || i >= bytes.len() {
        bytes.len() as int
    } else if bytes[i] == '\r' as u8 {
        i
    } else {
        first_cr(bytes, i + 1)
    }
}

/// The smaller of two numbers.
pub open spec fn min(a: int, b: int) -> int {
    if a < b {
        a
    } else {
        b
    }
}

/// Reading a header line from the start of a stream of bytes, each taken as the character
/// of the same number: "key: value" and a line break gives the pair, a line break alone
/// gives none (the end of the header), anything else fails; and the number of bytes read.
pub open spec fn header_line(bytes: Seq<u8>) -> (Result<Option<(Seq<char>, Seq<char>)>, ()>, int) {
    let n = bytes.len() as int;
    let i = first_key_end(bytes, 0);
    if i == n {
        (Err(()), n)
    } else if bytes[i] == '\r' as u8 {
        if i + 1 < n && bytes[i + 1] == '\n' as u8 {
            (Ok(None), i + 2)
        } else {
            (Err(()), min(i + 2, n))
        }
    } else if i + 1 < n && bytes[i + 1] == ' ' as u8 {
        let j = first_cr(bytes, i + 2);
        if j == n {
            (Err(()), n)
        } else if j + 1 < n && bytes[j + 1] == '\n' as u8 {
            (Ok(Some((latin1(bytes.subrange(0, i)), latin1(bytes.subrange(i + 2, j))))), j + 2)
        } else {
            (Err(()), min(j + 2, n))
        }
    } else {
        (Err(()), min(i + 2, n))
    }
}

/// The contents of a header line read.
pub open spec fn header_line_view(result: Result<Option<KeyValuePair>, ()>) -> Result<
    Option<(Seq<char>, Seq<char>)>,
    (),
> {
    match result {
        Ok(Some(pair)) => Ok(Some(pair@)),
        Ok(None) => Ok(None),
        Err(()) => Err(()),
    }
}

impl Header {
    /// Try to parse a header line from the start of a stream of bytes; the second result is
    /// the number of bytes read.
    pub fn parse(bytes: &[u8]) -> (result: (Result<Option<KeyValuePair>, ()>, usize))
        ensures
            header_line_view(result.0) == header_line(bytes@).0,
            result.1 == header_line(bytes@).1,
    {
        let n = bytes.len();
        let mut key = String::new();
        let mut position: usize = 0;
        while position < n && bytes[position] != ':' as u8 && bytes[position] != '\r' as u8
            invariant
                position <= n == bytes@.len(),
                first_key_end(bytes@, 0) == first_key_end(bytes@, position as int),
                key@ == latin1(bytes@.subrange(0, position as int)),
            decreases n - position,
        {
            key.push(bytes[position] as char);
            position = position + 1;
            assert(key@ =~= latin1(bytes@.subrange(0, position as int)));
        }
        if position == n {
            return (Err(()), n);
        }
        let i = position;
        if bytes[i] == '\r' as u8 {
            if i + 1 < n && bytes[i + 1] == '\n' as u8 {
                return (Ok(None), i + 2);
            } else {
                return (Err(()), if i + 1 < n { i + 2 } else { n });
            }
        }
        if !(i + 1 < n && bytes[i + 1] == ' ' as u8) {
            return (Err(()), if i + 1 < n { i + 2 } else { n });
        }
        let mut value = String::new();
        position = i + 2;
        assert(latin1(bytes@.subrange(i + 2, position as int)) =~= Seq::<char>::empty());
        while position < n && bytes[position] != '\r' as u8
            invariant
                i + 2 <= position <= n == bytes@.len(),
                first_cr(bytes@, i + 2) == first_cr(bytes@, position as int),
                value@ == latin1(bytes@.subrange(i + 2, position as int)),
            decreases n - position,
        {
            value.push(bytes[position] as char);
            position = position + 1;
            assert(value@ =~= latin1(bytes@.subrange(i + 2, position as int)));
        }
        if position == n {
            return (Err(()), n);
        }
        let j = position;
        if j + 1 < n && bytes[j + 1] == '\n' as u8 {
            (Ok(Some(KeyValuePair { key, value })), j + 2)
        } else {
            (Err(()), if j + 1 < n { j + 2 } else { n })
        }
    }
}

/// The first ':' or carriage return at or after `i` is at `j`, where the bytes between are
/// neither.
proof fn lemma_key_end(bytes: Seq<u8>, i: int, j: int)
    requires
        0 <= i <= j < bytes.len(),
        bytes[j] == ':' as u8 || bytes[j] == '\r' as u8,
        forall|k: int| i <= k < j ==> bytes[k] != ':' as u8 && bytes[k] != '\r' as u8,
    ensures
        first_key_end(bytes, i) == j,
    decreases j - i,
{
    if i < j {
        lemma_key_end(bytes, i + 1, j);
    }
}

/// The first carriage return at or after `i` is at `j`, where the bytes between are none.
proof fn lemma_cr(bytes: Seq<u8>, i: int, j: int)
    requires
        0 <= i <= j < bytes.len(),
        bytes[j] == '\r' as u8,
        forall|k: int| i <= k < j ==> bytes[k] != '\r' as u8,
    ensures
        first_cr(bytes, i) == j,
    decreases j - i,
{
    if i < j {
        lemma_cr(bytes, i + 1, j);
    }
}

/// A header line "key: value" and a line break, at the start of a stream of bytes, with a key
/// free of ':' and carriage returns and a value free of carriage returns (it may hold ':'),
/// is read as the pair of key and value, each byte taken as the character of the same
/// number; exactly the bytes of the line are read, whatever follows it.
pub proof fn law_header_line(key: Seq<u8>, value: Seq<u8>, rest: Seq<u8>)
    requires
        forall|k: int| 0 <= k < key.len() ==> #[trigger] key[k] != ':' as u8 && key[k] != '\r' as u8,
        forall|k: int| 0 <= k < value.len() ==> #[trigger] value[k] != '\r' as u8,
    ensures
        header_line(key + seq![':' as u8, ' ' as u8] + value + seq!['\r' as u8, '\n' as u8] + rest) == (
            Ok::<Option<(Seq<char>, Seq<char>)>, ()>(Some((latin1(key), latin1(value)))),
            (key.len() + value.len() + 4) as int,
        ),
{
    let bytes = key + seq![':' as u8, ' ' as u8] + value + seq!['\r' as u8, '\n' as u8] + rest;
    let i = key.len() as int;
    let j = i + 2 + value.len();
    assert forall|k: int| 0 <= k < i implies bytes[k] != ':' as u8 && bytes[k] != '\r' as u8 by {
        assert(bytes[k] == key[k]);
    }
    assert(bytes[i] == ':' as u8);
    lemma_key_end(bytes, 0, i);
    assert forall|k: int| i + 2 <= k < j implies bytes[k] != '\r' as u8 by {
        assert(bytes[k] == value[k - i - 2]);
    }
    assert(bytes[j] == '\r' as u8);
    lemma_cr(bytes, i + 2, j);
    assert(bytes.subrange(0, i) =~= key);
    assert(bytes.subrange(i + 2, j) =~= value);
}

/// A line break at the start of a stream of bytes ends the header: no pair, two bytes read.
pub proof fn law_header_end(rest: Seq<u8>)
    ensures
        header_line(seq!['\r' as u8, '\n' as u8] + rest) == (Ok::<Option<(Seq<char>, Seq<char>)>, ()>(None), 2int),
{
    let bytes = seq!['\r' as u8, '\n' as u8] + rest;
    lemma_key_end(bytes, 0, 0);
}

} // verus!
