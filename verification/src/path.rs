use vstd::prelude::*;

use crate::{KeyValuePair, pairs_view};

verus! {

/// Path and Query to a Resource.
pub struct Path {
    /// Path to a Resource.
    pub path: String,
    /// List of Query Key Value Pairs.
    pub query: Vec<KeyValuePair>,
}

/// The entries of a query, "key=value", separated by '&'.
pub open spec fn query_text(query: Seq<(Seq<char>, Seq<char>)>) -> Seq<char>
    decreases query.len(),
{
    if query.len() == 0 {
        Seq::empty()
    } else if query.len() == 1 {
        query[0].0 + "="@ + query[0].1
    } else {
        query_text(query.drop_last()) + "&"@ + query.last().0 + "="@ + query.last().1
    }
}

/// How a path is written: the path, and then, where there is a query, a '?' followed by
/// the entries of the query.
pub open spec fn path_text(path: Seq<char>, query: Seq<(Seq<char>, Seq<char>)>) -> Seq<char> {
    path + if query.len() > 0 {
        "?"@ + query_text(query)
    } else {
        Seq::empty()
    }
}

impl Path {
    /// The entries of the query, "key=value", separated by '&'.
    fn queryText(query: &Vec<KeyValuePair>) -> (text: String)
        ensures
            text@ == query_text(pairs_view(query@)),
    {
        let mut text = String::new();
        let mut index: usize = 0;
        while index < query.len()
            invariant
                index <= query@.len(),
                text@ == query_text(pairs_view(query@).take(index as int)),
            decreases query@.len() - index,
        {
            let entry = &query[index];
            if index > 0 {
                text.append("&");
            }
            text.append(entry.key.as_str());
            text.append("=");
            text.append(entry.value.as_str());
            proof {
                let pairs = pairs_view(query@);
                assert(pairs.take(index + 1).drop_last() =~= pairs.take(index as int));
                if index == 0 {
                    assert(text@ =~= query_text(pairs.take(1)));
                }
            }
            index = index + 1;
        }
        assert(pairs_view(query@).take(index as int) =~= pairs_view(query@));
        text
    }

    /// How the path is written.
    pub fn to_string(&self) -> (text: String)
        ensures
            text@ == path_text(self.path@, pairs_view(self.query@)),
    {
        let mut text = String::new();
        text.append(self.path.as_str());
        if self.query.len() > 0 {
            text.append("?");
            let query = Self::queryText(&self.query);
            text.append(query.as_str());
        }
        text
    }
}

} // verus!
