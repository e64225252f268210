//! The listing engine: entries kept in phrase order, each key `(owner,
//! phrase)` held once, listed through optional filters one page at a time.

use crate::error::Error;
use crate::scope::Scope;
use crate::text::{
    clone_strings, contains_string, lemma_lex_le_total, lemma_lex_le_transitive, opt_text,
    phrase_le, str_eq, str_le, texts,
};
use vstd::prelude::*;
use vstd::utf8::encode_utf8;

verus! {

/// The number of entries on a full page.
pub const PAGE_LIMIT: usize = 100;

/// A stored entry: a phrase with the content hash of its image and its
/// category tags.
#[derive(Debug)]
pub struct Entry {
    pub owner: Scope,
    pub phrase: String,
    pub image_hash: String,
    pub categories: Vec<String>,
}

pub struct EntryView {
    pub owner: Scope,
    pub phrase: Seq<char>,
    pub image_hash: Seq<char>,
    pub categories: Seq<Seq<char>>,
}

impl View for Entry {
    type V = EntryView;

    open spec fn view(&self) -> EntryView {
        EntryView {
            owner: self.owner,
            phrase: self.phrase@,
            image_hash: self.image_hash@,
            categories: texts(self.categories@),
        }
    }
}

impl Clone for Entry {
    fn clone(&self) -> (copy: Entry)
        ensures
            copy@ == self@,
    {
        Entry {
            owner: self.owner,
            phrase: self.phrase.clone(),
            image_hash: self.image_hash.clone(),
            categories: clone_strings(&self.categories),
        }
    }
}

/// The views of a list of entries.
pub open spec fn entry_views(v: Seq<Entry>) -> Seq<EntryView> {
    v.map_values(|e: Entry| e@)
}

/// The filters of a listing and the position it starts from.
#[derive(Debug)]
pub struct TileQuery {
    /// Keep only the entry with exactly this phrase.
    pub phrase: Option<String>,
    /// Keep only entries tagged with this category.
    pub category: Option<String>,
    /// The number of matching entries to pass over; none when absent.
    pub offset: Option<usize>,
}

pub struct TileQueryView {
    pub phrase: Option<Seq<char>>,
    pub category: Option<Seq<char>>,
    pub offset: Option<usize>,
}

impl View for TileQuery {
    type V = TileQueryView;

    open spec fn view(&self) -> TileQueryView {
        TileQueryView {
            phrase: opt_text(self.phrase),
            category: opt_text(self.category),
            offset: self.offset,
        }
    }
}

impl TileQueryView {
    /// The position the listing starts from.
    pub open spec fn start(self) -> int {
        match self.offset {
            Some(o) => o as int,
            None => 0,
        }
    }

    /// The same filters, one full page further on.
    pub open spec fn following(self) -> TileQueryView {
        TileQueryView {
            phrase: self.phrase,
            category: self.category,
            offset: Some((self.start() + PAGE_LIMIT) as usize),
        }
    }
}

/// Whether a listing for `viewer` through the filters of `q` shows `e`.
pub open spec fn spec_matches(e: EntryView, q: TileQueryView, viewer: Option<i32>) -> bool {
    &&& e.owner.spec_visible_to(viewer)
    &&& q.phrase matches Some(p) ==> e.phrase == p
    &&& q.category matches Some(c) ==> e.categories.contains(c)
}

/// `spec_matches` as a predicate on entries.
pub open spec fn selector(q: TileQueryView, viewer: Option<i32>) -> spec_fn(EntryView) -> bool {
    |e: EntryView| spec_matches(e, q, viewer)
}

/// Everything a listing for `viewer` through `q` would show, in stored order.
pub open spec fn selected(all: Seq<EntryView>, q: TileQueryView, viewer: Option<i32>) -> Seq<
    EntryView,
> {
    all.filter(selector(q, viewer))
}

/// The page of `sel` that starts at `offset`: up to `PAGE_LIMIT` entries,
/// none when the offset is past the end.
pub open spec fn page(sel: Seq<EntryView>, offset: int) -> Seq<EntryView> {
    let from = if offset < sel.len() {
        offset
    } else {
        sel.len() as int
    };
    let to = if from + PAGE_LIMIT < sel.len() {
        from + PAGE_LIMIT
    } else {
        sel.len() as int
    };
    sel.subrange(from, to)
}

/// Phrases never descend along the sequence.
pub open spec fn sorted(s: Seq<EntryView>) -> bool {
    forall|i: int, j: int| 0 <= i < j < s.len() ==> phrase_le(#[trigger] s[i].phrase, #[trigger] s[j].phrase)
}

/// Whether some entry of `s` has the key `(owner, phrase)`.
pub open spec fn has_key(s: Seq<EntryView>, owner: Scope, phrase: Seq<char>) -> bool {
    exists|i: int| 0 <= i < s.len() && #[trigger] s[i].owner == owner && s[i].phrase == phrase
}

/// No key `(owner, phrase)` occurs twice.
pub open spec fn distinct_keys(s: Seq<EntryView>) -> bool {
    forall|i: int, j: int|
        0 <= i < j < s.len() ==> !(#[trigger] s[i].owner == #[trigger] s[j].owner && s[i].phrase
            == s[j].phrase)
}

/// The number of leading entries of `s` whose phrase sorts at or before
/// `phrase`: where an entry with that phrase goes in.
pub open spec fn rank(s: Seq<EntryView>, phrase: Seq<char>) -> int
    decreases s.len(),
{
    if s.len() == 0 || !phrase_le(s[0].phrase, phrase) {
        0
    } else {
        1 + rank(s.drop_first(), phrase)
    }
}

pub proof fn lemma_rank_bounds(s: Seq<EntryView>, phrase: Seq<char>)
    ensures
        0 <= rank(s, phrase) <= s.len(),
        forall|i: int| 0 <= i < rank(s, phrase) ==> phrase_le(#[trigger] s[i].phrase, phrase),
        rank(s, phrase) < s.len() ==> !phrase_le(s[rank(s, phrase)].phrase, phrase),
    decreases s.len(),
{
    if s.len() == 0 || !phrase_le(s[0].phrase, phrase) {
    } else {
        let rest = s.drop_first();
        lemma_rank_bounds(rest, phrase);
        assert forall|i: int| 0 <= i < rank(s, phrase) implies phrase_le(
            #[trigger] s[i].phrase,
            phrase,
        ) by {
            if i > 0 {
                assert(s[i] == rest[i - 1]);
            }
        }
    }
}

/// Putting an entry in at its rank keeps the phrases in order.
pub proof fn lemma_insert_keeps_sorted(s: Seq<EntryView>, e: EntryView)
    requires
        sorted(s),
    ensures
        sorted(s.insert(rank(s, e.phrase), e)),
{
    let k = rank(s, e.phrase);
    lemma_rank_bounds(s, e.phrase);
    let t = s.insert(k, e);
    assert forall|i: int, j: int| 0 <= i < j < t.len() implies phrase_le(
        #[trigger] t[i].phrase,
        #[trigger] t[j].phrase,
    ) by {
        if i == k {
            lemma_lex_le_total(encode_utf8(s[k].phrase), encode_utf8(e.phrase));
            if j - 1 > k {
                lemma_lex_le_transitive(
                    encode_utf8(e.phrase),
                    encode_utf8(s[k].phrase),
                    encode_utf8(s[j - 1].phrase),
                );
            }
        }
    }
}

/// What a filter keeps of a sorted sequence is sorted.
pub proof fn lemma_filter_keeps_sorted(s: Seq<EntryView>, keep: spec_fn(EntryView) -> bool)
    requires
        sorted(s),
    ensures
        sorted(s.filter(keep)),
    decreases s.len(),
{
    reveal(Seq::filter);
    if s.len() > 0 {
        let front = s.drop_last();
        assert forall|i: int, j: int| 0 <= i < j < front.len() implies phrase_le(
            #[trigger] front[i].phrase,
            #[trigger] front[j].phrase,
        ) by {}
        lemma_filter_keeps_sorted(front, keep);
        let kept = front.filter(keep);
        if keep(s.last()) {
            let t = kept.push(s.last());
            assert forall|i: int, j: int| 0 <= i < j < t.len() implies phrase_le(
                #[trigger] t[i].phrase,
                #[trigger] t[j].phrase,
            ) by {
                if j == kept.len() {
                    front.lemma_filter_contains_rev(keep, kept[i]);
                }
            }
        }
    }
}

/// A page of a sorted sequence is sorted.
pub proof fn lemma_page_sorted(sel: Seq<EntryView>, offset: int)
    requires
        sorted(sel),
        0 <= offset,
    ensures
        sorted(page(sel, offset)),
{
    let p = page(sel, offset);
    assert forall|i: int, j: int| 0 <= i < j < p.len() implies phrase_le(
        #[trigger] p[i].phrase,
        #[trigger] p[j].phrase,
    ) by {}
}

/// A full page does not change when more entries follow.
pub proof fn lemma_full_page_is_final(head: Seq<EntryView>, tail: Seq<EntryView>, offset: int)
    requires
        0 <= offset,
        page(head, offset).len() == PAGE_LIMIT,
    ensures
        page(head + tail, offset) == page(head, offset),
{
}

/// Pages follow one another without gap or overlap: a full page and the
/// page at the cursor it hands out are, together, the stretch of twice the
/// length.
pub proof fn lemma_pages_continue(sel: Seq<EntryView>, offset: int)
    requires
        0 <= offset,
        page(sel, offset).len() == PAGE_LIMIT,
    ensures
        page(sel, offset) + page(sel, offset + PAGE_LIMIT) == sel.subrange(
            offset,
            if offset + 2 * PAGE_LIMIT < sel.len() {
                offset + 2 * PAGE_LIMIT
            } else {
                sel.len() as int
            },
        ),
{
}

/// A listing shows nothing it should not: every entry on any page is an
/// entry of the store that the viewer may see and that passes the
/// filters, and no page is longer than `PAGE_LIMIT`.
pub proof fn lemma_listing_shows_only_matches(
    all: Seq<EntryView>,
    q: TileQueryView,
    viewer: Option<i32>,
    offset: int,
)
    requires
        0 <= offset,
    ensures
        page(selected(all, q, viewer), offset).len() <= PAGE_LIMIT,
        forall|i: int|
            0 <= i < page(selected(all, q, viewer), offset).len() ==> {
                let e = #[trigger] page(selected(all, q, viewer), offset)[i];
                &&& all.contains(e)
                &&& e.owner.spec_visible_to(viewer)
                &&& spec_matches(e, q, viewer)
            },
{
    let keep = selector(q, viewer);
    let sel = all.filter(keep);
    let shown = page(sel, offset);
    all.filter_lemma(keep);
    assert forall|i: int| 0 <= i < shown.len() implies {
        let e = #[trigger] shown[i];
        &&& all.contains(e)
        &&& e.owner.spec_visible_to(viewer)
        &&& spec_matches(e, q, viewer)
    } by {
        let from = if offset < sel.len() { offset } else { sel.len() as int };
        all.lemma_filter_contains_rev(keep, sel[from + i]);
    }
}

/// A page of a listing, and where the next one starts if this one is full.
#[derive(Debug)]
pub struct Page {
    pub items: Vec<Entry>,
    pub next: Option<TileQuery>,
}

impl TileQuery {
    /// The position the listing starts from.
    pub fn start(&self) -> (at: usize)
        ensures
            at == self@.start(),
    {
        match self.offset {
            Some(o) => o,
            None => 0,
        }
    }

    /// The query for the page after a page of `returned` entries: the
    /// same filters one page further on if the page was full, none if it
    /// was not, which ends the listing. Further on than any position can
    /// be, there is no page either.
    pub fn next_after(&self, returned: usize) -> (next: Option<TileQuery>)
        ensures
            match next {
                Some(q) => q@ == self@.following(),
                None => true,
            },
            next is Some <==> returned == PAGE_LIMIT && self@.start() + PAGE_LIMIT <= usize::MAX,
    {
        if returned != PAGE_LIMIT {
            return None;
        }
        match self.start().checked_add(PAGE_LIMIT) {
            Some(offset) => {
                let phrase = match &self.phrase {
                    Some(p) => Some(p.clone()),
                    None => None,
                };
                let category = match &self.category {
                    Some(c) => Some(c.clone()),
                    None => None,
                };
                Some(TileQuery { phrase, category, offset: Some(offset) })
            },
            None => None,
        }
    }
}

/// Whether `e` is shown to `viewer` through the filters of `q`.
pub fn entry_matches(e: &Entry, q: &TileQuery, viewer: Option<i32>) -> (shown: bool)
    ensures
        shown == spec_matches(e@, q@, viewer),
{
    if !e.owner.visible_to(viewer) {
        return false;
    }
    let phrase_fits = match &q.phrase {
        Some(p) => str_eq(e.phrase.as_str(), p.as_str()),
        None => true,
    };
    if !phrase_fits {
        return false;
    }
    match &q.category {
        Some(c) => contains_string(&e.categories, c.as_str()),
        None => true,
    }
}

/// The entries, in the order of their phrases.
pub struct EntryStore {
    entries: Vec<Entry>,
}

impl View for EntryStore {
    type V = Seq<EntryView>;

    closed spec fn view(&self) -> Seq<EntryView> {
        entry_views(self.entries@)
    }
}

impl EntryStore {
    /// The store's invariant: phrases in order, no key twice.
    pub open spec fn wf(&self) -> bool {
        sorted(self@) && distinct_keys(self@)
    }

    pub fn new() -> (store: EntryStore)
        ensures
            store.wf(),
            store@ == Seq::<EntryView>::empty(),
    {
        let store = EntryStore { entries: Vec::new() };
        store
    }

    pub fn len(&self) -> (n: usize)
        ensures
            n == self@.len(),
    {
        self.entries.len()
    }

    /// The entry at position `i` of the phrase order, if there are that
    /// many.
    pub fn get(&self, i: usize) -> (e: Option<&Entry>)
        ensures
            match e {
                Some(found) => i < self@.len() && found@ == self@[i as int],
                None => i >= self@.len(),
            },
    {
        if i < self.entries.len() {
            Some(&self.entries[i])
        } else {
            None
        }
    }

    /// Where the entry with the key `(owner, phrase)` stands, if there is one.
    pub fn position(&self, owner: Scope, phrase: &str) -> (at: Option<usize>)
        ensures
            match at {
                Some(i) => i < self@.len() && self@[i as int].owner == owner && self@[i as int].phrase
                    == phrase@,
                None => !has_key(self@, owner, phrase@),
            },
    {
        let mut i: usize = 0;
        while i < self.entries.len()
            invariant
                i <= self.entries.len(),
                forall|j: int|
                    0 <= j < i ==> !(#[trigger] self@[j].owner == owner && self@[j].phrase
                        == phrase@),
            decreases self.entries.len() - i,
        {
            let e = &self.entries[i];
            if e.owner == owner && str_eq(e.phrase.as_str(), phrase) {
                return Some(i);
            }
            i = i + 1;
        }
        None
    }

    /// Adds `entry` where its phrase belongs, unless its key is taken.
    pub fn insert(&mut self, entry: Entry) -> (done: Result<(), Error>)
        requires
            old(self).wf(),
        ensures
            final(self).wf(),
            match done {
                Ok(_) => !has_key(old(self)@, entry@.owner, entry@.phrase) && final(self)@ == old(
                    self,
                )@.insert(rank(old(self)@, entry@.phrase), entry@),
                Err(e) => e == Error::Conflict && has_key(old(self)@, entry@.owner, entry@.phrase)
                    && final(self)@ == old(self)@,
            },
    {
        if self.position(entry.owner, entry.phrase.as_str()).is_some() {
            return Err(Error::Conflict);
        }
        let ghost before = self@;
        let mut k: usize = 0;
        assert(before.skip(0) =~= before);
        while k < self.entries.len() && str_le(self.entries[k].phrase.as_str(), entry.phrase.as_str())
            invariant
                k <= self.entries.len(),
                before == self@,
                rank(before, entry@.phrase) == k + rank(before.skip(k as int), entry@.phrase),
            decreases self.entries.len() - k,
        {
            assert(before.skip(k as int).drop_first() =~= before.skip(k as int + 1));
            k = k + 1;
        }
        proof {
            lemma_insert_keeps_sorted(before, entry@);
            let after = before.insert(k as int, entry@);
            assert(entry_views(self.entries@.insert(k as int, entry)) =~= after);
            assert forall|i: int, j: int| 0 <= i < j < after.len() implies !(
            #[trigger] after[i].owner == #[trigger] after[j].owner && after[i].phrase
                == after[j].phrase) by {}
        }
        self.entries.insert(k, entry);
        Ok(())
    }

    /// One page of what `viewer` is shown through the filters of `query`:
    /// the matching entries in phrase order, from the offset on, up to
    /// `PAGE_LIMIT` of them. A full page comes with the query for the next
    /// one; a page that is not full ends the listing.
    pub fn list(&self, query: &TileQuery, viewer: Option<i32>) -> (found: Page)
        requires
            self.wf(),
        ensures
            entry_views(found.items@) == page(selected(self@, query@, viewer), query@.start()),
            sorted(entry_views(found.items@)),
            match found.next {
                Some(next) => found.items.len() == PAGE_LIMIT && next@ == query@.following()
                    && query@.start() + PAGE_LIMIT <= usize::MAX,
                None => found.items.len() < PAGE_LIMIT,
            },
    {
        let start: usize = query.start();
        let ghost all = self@;
        let ghost keep = selector(query@, viewer);
        let mut items: Vec<Entry> = Vec::new();
        let mut seen: usize = 0;
        let mut i: usize = 0;
        proof {
            reveal(Seq::filter);
        }
        while i < self.entries.len() && items.len() < PAGE_LIMIT
            invariant
                i <= self.entries.len(),
                all == self@,
                all.len() == self.entries.len(),
                keep == selector(query@, viewer),
                seen == all.take(i as int).filter(keep).len(),
                seen <= i,
                entry_views(items@) == page(all.take(i as int).filter(keep), start as int),
            decreases self.entries.len() - i,
        {
            let e = &self.entries[i];
            proof {
                assert(all.take(i as int + 1) =~= all.take(i as int).push(all[i as int]));
                all.take(i as int).lemma_filter_push(all[i as int], keep);
            }
            if entry_matches(e, query, viewer) {
                let ghost sel = all.take(i as int).filter(keep);
                if seen >= start {
                    items.push(e.clone());
                    assert(page(sel.push(e@), start as int) =~= page(sel, start as int).push(e@));
                }
                seen = seen + 1;
            }
            i = i + 1;
        }
        proof {
            let head = all.take(i as int);
            let tail = all.skip(i as int);
            assert(head + tail =~= all);
            Seq::filter_distributes_over_add(head, tail, keep);
            if i < self.entries.len() {
                lemma_full_page_is_final(head.filter(keep), tail.filter(keep), start as int);
            }
            all.lemma_filter_len(keep);
            lemma_filter_keeps_sorted(all, keep);
            lemma_page_sorted(all.filter(keep), start as int);
        }
        let next = query.next_after(items.len());
        Page { items, next }
    }

    /// Takes out the entry with the key `(owner, phrase)`, if there is one.
    pub fn remove(&mut self, owner: Scope, phrase: &str) -> (gone: Option<Entry>)
        requires
            old(self).wf(),
        ensures
            final(self).wf(),
            !has_key(final(self)@, owner, phrase@),
            match gone {
                Some(e) => exists|i: int|
                    0 <= i < old(self)@.len() && old(self)@[i] == e@ && final(self)@ == old(
                        self,
                    )@.remove(i) && e@.owner == owner && e@.phrase == phrase@,
                None => !has_key(old(self)@, owner, phrase@) && final(self)@ == old(self)@,
            },
    {
        match self.position(owner, phrase) {
            None => None,
            Some(i) => {
                let ghost before = self@;
                let e = self.entries.remove(i);
                proof {
                    let after = before.remove(i as int);
                    assert(self@ =~= after);
                    assert forall|a: int, b: int| 0 <= a < b < after.len() implies phrase_le(
                        #[trigger] after[a].phrase,
                        #[trigger] after[b].phrase,
                    ) && !(after[a].owner == after[b].owner && after[a].phrase
                        == after[b].phrase) by {}
                    assert forall|a: int| 0 <= a < after.len() implies !(
                    #[trigger] after[a].owner == owner && after[a].phrase == phrase@) by {}
                }
                Some(e)
            },
        }
    }
}

} // verus!
