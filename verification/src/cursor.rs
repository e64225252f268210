//! The cursor of a listing as a query string: the filters that were
//! applied and the offset reached, ready to be sent back.

use crate::listing::{TileQuery, TileQueryView};
use crate::urlcode::{percent_encode, percent_encoded};
use vstd::prelude::*;
use vstd::string::StringExecFns;

verus! {

/// The decimal digit for `d`.
pub open spec fn digit(d: nat) -> char {
    if d == 0 {
        '0'
    } else if d == 1 {
        '1'
    } else if d == 2 {
        '2'
    } else if d == 3 {
        '3'
    } else if d == 4 {
        '4'
    } else if d == 5 {
        '5'
    } else if d == 6 {
        '6'
    } else if d == 7 {
        '7'
    } else if d == 8 {
        '8'
    } else {
        '9'
    }
}

/// The decimal numeral of `n`, without leading zeros.
pub open spec fn numeral(n: nat) -> Seq<char>
    decreases n,
{
    if n < 10 {
        seq![digit(n)]
    } else {
        numeral(n / 10).push(digit(n % 10))
    }
}

fn digit_char(d: usize) -> (c: char)
    requires
        d < 10,
    ensures
        c == digit(d as nat),
{
    if d == 0 {
        '0'
    } else if d == 1 {
        '1'
    } else if d == 2 {
        '2'
    } else if d == 3 {
        '3'
    } else if d == 4 {
        '4'
    } else if d == 5 {
        '5'
    } else if d == 6 {
        '6'
    } else if d == 7 {
        '7'
    } else if d == 8 {
        '8'
    } else {
        '9'
    }
}

/// The decimal numeral of `n`.
pub fn decimal(n: usize) -> (s: String)
    ensures
        s@ == numeral(n as nat),
    decreases n,
{
    if n < 10 {
        let mut s = String::new();
        s.push(digit_char(n));
        s
    } else {
        let mut s = decimal(n / 10);
        s.push(digit_char(n % 10));
        s
    }
}

/// `text` after `sep`, or alone where nothing stands before it.
pub open spec fn joined(before: Seq<char>, text: Seq<char>) -> Seq<char> {
    if before.len() == 0 {
        text
    } else {
        before + seq!['&'] + text
    }
}

/// The query string of a cursor: `phrase`, `category` and `offset`, each
/// where it is set, as `name=value` joined by `&`, the two filters
/// percent-encoded.
pub open spec fn spec_query_string(q: TileQueryView) -> Seq<char> {
    let first = match q.phrase {
        Some(p) => "phrase="@ + percent_encoded(p),
        None => Seq::<char>::empty(),
    };
    let second = match q.category {
        Some(c) => joined(first, "category="@ + percent_encoded(c)),
        None => first,
    };
    match q.offset {
        Some(o) => joined(second, "offset="@ + numeral(o as nat)),
        None => second,
    }
}

fn join(before: String, name: &str, value: &str) -> (s: String)
    ensures
        s@ == joined(before@, name@ + value@),
{
    let mut s = before;
    if !s.as_str().is_empty() {
        proof {
            reveal_strlit("&");
        }
        s.append("&");
    }
    s.append(name);
    s.append(value);
    s
}

impl TileQuery {
    /// The query as a query string.
    pub fn to_query_string(&self) -> (s: String)
        ensures
            s@ == spec_query_string(self@),
    {
        let mut s = String::new();
        if let Some(p) = &self.phrase {
            let value = percent_encode(p.as_str());
            s = join(s, "phrase=", value.as_str());
        }
        if let Some(c) = &self.category {
            let value = percent_encode(c.as_str());
            s = join(s, "category=", value.as_str());
        }
        if let Some(o) = self.offset {
            let value = decimal(o);
            s = join(s, "offset=", value.as_str());
        }
        s
    }
}

/// The address of the next page: `path`, a question mark and the
/// cursor's query string.
pub fn next_page_url(path: &str, next: &TileQuery) -> (url: String)
    ensures
        url@ == path@ + seq!['?'] + spec_query_string(next@),
{
    let mut url = String::from_str(path);
    proof {
        reveal_strlit("?");
    }
    url.append("?");
    url.append(next.to_query_string().as_str());
    url
}

} // verus!
