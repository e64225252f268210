//! Percent-encoding for query strings, and the comma-separated lists that
//! form values carry.

use crate::text::{opt_text, texts};
use rocket::http::RawStr;
use vstd::prelude::*;

verus! {

/// `text` with every character outside the URL-safe set replaced by the
/// percent-encoding of its UTF-8 bytes.
pub uninterp spec fn percent_encoded(text: Seq<char>) -> Seq<char>;

/// `text` with `+` read as a space and percent-encoded bytes decoded;
/// none where the decoded bytes are not UTF-8.
pub uninterp spec fn url_decoded(text: Seq<char>) -> Option<Seq<char>>;

/// `RawStr::percent_encode`: the percent-encoded form of `text`.
#[verifier::external_body]
pub(crate) fn percent_encode(text: &str) -> (encoded: String)
    ensures
        encoded@ == percent_encoded(text@),
{
    RawStr::new(text).percent_encode().to_string()
}

/// `RawStr::url_decode`: the decoded form of a form value, or `None`
/// where it does not decode to UTF-8.
#[verifier::external_body]
pub(crate) fn url_decode(text: &str) -> (decoded: Option<String>)
    ensures
        opt_text(decoded) == url_decoded(text@),
{
    RawStr::new(text).url_decode().ok().map(std::borrow::Cow::into_owned)
}

/// The pieces of `s` between its commas: one more than it has commas.
pub open spec fn comma_split(s: Seq<char>) -> Seq<Seq<char>>
    decreases s.len(),
{
    if s.len() == 0 {
        seq![Seq::<char>::empty()]
    } else {
        let before = comma_split(s.drop_last());
        if s.last() == ',' {
            before.push(Seq::<char>::empty())
        } else {
            before.update(before.len() - 1, before.last().push(s.last()))
        }
    }
}

/// Splits `s` at its commas.
pub fn split_commas(s: &str) -> (pieces: Vec<String>)
    ensures
        texts(pieces@) == comma_split(s@),
{
    let mut pieces: Vec<String> = Vec::new();
    let mut piece = String::new();
    for c in it: s.chars()
        invariant
            it.seq() == s@,
            texts(pieces@).push(piece@) == comma_split(s@.take(it.index() as int)),
    {
        assert(s@.take(it.index() + 1).drop_last() =~= s@.take(it.index() as int));
        if c == ',' {
            pieces.push(piece);
            piece = String::new();
        } else {
            piece.push(c);
        }
    }
    assert(s@.take(s@.len() as int) =~= s@);
    pieces.push(piece);
    pieces
}

/// A list that travels as one comma-separated value.
#[derive(Debug)]
pub struct CSVec<T>(pub Vec<T>);

impl<T> CSVec<T> {
    pub fn into_inner(self) -> (inner: Vec<T>)
        ensures
            inner == self.0,
    {
        self.0
    }
}

impl CSVec<String> {
    /// Reads a form value: it is URL-decoded, then split at its commas.
    /// A value that does not decode is handed back as the error.
    pub fn from_form_value(form_value: &str) -> (r: Result<CSVec<String>, &str>)
        ensures
            match r {
                Ok(list) => url_decoded(form_value@) matches Some(text) && texts(
                    list.0@,
                ) == comma_split(text),
                Err(raw) => url_decoded(form_value@).is_none() && raw@ == form_value@,
            },
    {
        match url_decode(form_value) {
            Some(text) => Ok(CSVec(split_commas(text.as_str()))),
            None => Err(form_value),
        }
    }
}

} // verus!
