//! Tiles: entries as clients see them, made, listed, changed and deleted
//! together with the images they show.

use crate::blob::{first_visible, has_asset, spec_put, Asset, AssetView, BlobStore};
use crate::digest::sha3_224_hex;
use crate::error::Error;
use crate::form::{TileForm, TileFormView};
use crate::listing::{
    distinct_keys, has_key, lemma_rank_bounds, page, rank, selected, Entry, EntryStore, EntryView,
    TileQuery, TileQueryView, PAGE_LIMIT,
};
use crate::scope::Scope;
use crate::text::{clone_strings, str_eq, texts};
use vstd::prelude::*;
use vstd::string::StringExecFns;

verus! {

/// A tile as a client sees it: the image is the path it is served at.
#[derive(Debug)]
pub struct Tile {
    pub phrase: String,
    pub image: String,
    pub categories: Vec<String>,
}

pub struct TileView {
    pub phrase: Seq<char>,
    pub image: Seq<char>,
    pub categories: Seq<Seq<char>>,
}

impl View for Tile {
    type V = TileView;

    open spec fn view(&self) -> TileView {
        TileView { phrase: self.phrase@, image: self.image@, categories: texts(self.categories@) }
    }
}

/// The views of a list of tiles.
pub open spec fn tile_views(v: Seq<Tile>) -> Seq<TileView> {
    v.map_values(|t: Tile| t@)
}

/// The path an image is served at.
pub open spec fn spec_image_path(filename: Seq<char>) -> Seq<char> {
    "/api/image/"@ + filename
}

/// The path the image named `filename` is served at.
pub fn image_path(filename: &str) -> (path: String)
    ensures
        path@ == spec_image_path(filename@),
{
    let mut path = String::from_str("/api/image/");
    path.append(filename);
    path
}

/// The tile that shows an entry.
pub open spec fn tile_of(e: EntryView) -> TileView {
    TileView { phrase: e.phrase, image: spec_image_path(e.image_hash), categories: e.categories }
}

/// The tiles that show a list of entries.
pub open spec fn tiles_of(s: Seq<EntryView>) -> Seq<TileView> {
    s.map_values(|e: EntryView| tile_of(e))
}

/// The tile that shows `e`.
pub fn tile_for(e: &Entry) -> (tile: Tile)
    ensures
        tile@ == tile_of(e@),
{
    Tile {
        phrase: e.phrase.clone(),
        image: image_path(e.image_hash.as_str()),
        categories: clone_strings(&e.categories),
    }
}

/// A page of tiles, and the query for the next page if this one is full.
#[derive(Debug)]
pub struct TilePage {
    pub items: Vec<Tile>,
    pub next_page: Option<TileQuery>,
}

/// Whether a form has all that a new tile needs.
pub open spec fn complete(form: TileFormView) -> bool {
    form.phrase is Some && form.image is Some && form.categories is Some
}

/// The phrase, the image with its media type, and the categories of a
/// form that has all three; a form that lacks one is malformed.
pub fn complete_form(form: TileForm) -> (r: Result<(String, Vec<u8>, String, Vec<String>), Error>)
    ensures
        match r {
            Ok((phrase, image, media_type, categories)) => {
                &&& form@.phrase == Some(phrase@)
                &&& form@.image == Some((image@, media_type@))
                &&& form@.categories == Some(texts(categories@))
            },
            Err(e) => e == Error::MalformedRequest && !complete(form@),
        },
{
    let TileForm { phrase, image, categories } = form;
    match (phrase, image, categories) {
        (Some(phrase), Some((image, media_type)), Some(categories)) => Ok(
            (phrase, image, media_type, categories),
        ),
        _ => Err(Error::MalformedRequest),
    }
}

/// The entry a complete form makes in `scope`.
pub open spec fn entry_from(form: TileFormView, scope: Scope) -> EntryView {
    EntryView {
        owner: scope,
        phrase: form.phrase->0,
        image_hash: match form.image {
            Some((bytes, _)) => sha3_224_hex(bytes),
            None => Seq::empty(),
        },
        categories: form.categories->0,
    }
}

/// Where the entry with the key `(owner, phrase)` stands in `s`.
pub open spec fn key_index(s: Seq<EntryView>, owner: Scope, phrase: Seq<char>) -> int {
    choose|i: int| 0 <= i < s.len() && #[trigger] s[i].owner == owner && s[i].phrase == phrase
}

/// An entry with the fields of `form` put over its own: what the form
/// leaves out stays as it is.
pub open spec fn merged(e: EntryView, form: TileFormView) -> EntryView {
    EntryView {
        owner: e.owner,
        phrase: match form.phrase {
            Some(p) => p,
            None => e.phrase,
        },
        image_hash: match form.image {
            Some((bytes, _)) => sha3_224_hex(bytes),
            None => e.image_hash,
        },
        categories: match form.categories {
            Some(c) => c,
            None => e.categories,
        },
    }
}

/// The blobs after the image of `form`, if it has one, is put in `scope`.
pub open spec fn with_image(blobs: Seq<AssetView>, form: TileFormView, scope: Scope) -> Seq<
    AssetView,
> {
    match form.image {
        Some((bytes, media_type)) => spec_put(blobs, bytes, media_type, scope),
        None => blobs,
    }
}

/// The entries, the blobs and the outcome after a tile is made in `scope`
/// from `form`: a form that lacks a field is malformed, a phrase that
/// `scope` has a tile for is a conflict, and either leaves all as it was;
/// else the image is stored and the entry goes in where its phrase
/// belongs.
pub open spec fn spec_create(
    entries: Seq<EntryView>,
    blobs: Seq<AssetView>,
    scope: Scope,
    form: TileFormView,
) -> (Seq<EntryView>, Seq<AssetView>, Result<TileView, Error>) {
    if !complete(form) {
        (entries, blobs, Err(Error::MalformedRequest))
    } else if has_key(entries, scope, form.phrase->0) {
        (entries, blobs, Err(Error::Conflict))
    } else {
        (
            entries.insert(rank(entries, form.phrase->0), entry_from(form, scope)),
            with_image(blobs, form, scope),
            Ok(tile_of(entry_from(form, scope))),
        )
    }
}

/// The entries, the blobs and the outcome after the tile that `owner` has
/// under `phrase` is changed by `form`: no such tile is `NotFound`, a new
/// phrase that `owner` has another tile for is a conflict, and either
/// leaves all as it was; else the fields of the form replace the tile's,
/// a new image is stored, and the entry moves to where its phrase belongs.
pub open spec fn spec_update(
    entries: Seq<EntryView>,
    blobs: Seq<AssetView>,
    owner: i32,
    phrase: Seq<char>,
    form: TileFormView,
) -> (Seq<EntryView>, Seq<AssetView>, Result<TileView, Error>) {
    let scope = Scope::Owner(owner);
    let at = key_index(entries, scope, phrase);
    let now = merged(entries[at], form);
    if !has_key(entries, scope, phrase) {
        (entries, blobs, Err(Error::NotFound))
    } else if now.phrase != phrase && has_key(entries, scope, now.phrase) {
        (entries, blobs, Err(Error::Conflict))
    } else {
        (
            entries.remove(at).insert(rank(entries.remove(at), now.phrase), now),
            with_image(blobs, form, scope),
            Ok(tile_of(now)),
        )
    }
}

/// The entries after the tile that `owner` has under `phrase` is deleted,
/// and whether there was one.
pub open spec fn spec_delete(entries: Seq<EntryView>, owner: i32, phrase: Seq<char>) -> (
    Seq<EntryView>,
    bool,
) {
    if has_key(entries, Scope::Owner(owner), phrase) {
        (entries.remove(key_index(entries, Scope::Owner(owner), phrase)), true)
    } else {
        (entries, false)
    }
}

/// What `viewer` is shown of `entries` through `query`, as tiles.
pub open spec fn spec_list(entries: Seq<EntryView>, viewer: Option<i32>, query: TileQueryView) -> Seq<
    TileView,
> {
    tiles_of(page(selected(entries, query, viewer), query.start()))
}

/// The view or the error of an outcome that holds a tile.
pub open spec fn tile_outcome(r: Result<Tile, Error>) -> Result<TileView, Error> {
    match r {
        Ok(t) => Ok(t@),
        Err(e) => Err(e),
    }
}

/// Every entry's image is held in the entry's own scope.
pub open spec fn images_stored(entries: Seq<EntryView>, blobs: Seq<AssetView>) -> bool {
    forall|i: int|
        0 <= i < entries.len() ==> has_asset(
            blobs,
            (#[trigger] entries[i]).owner,
            entries[i].image_hash,
        )
}

/// The entries with the images they show.
pub struct TileStore {
    pub entries: EntryStore,
    pub blobs: BlobStore,
}

impl TileStore {
    /// The store's invariant: both parts are in order, and no entry is
    /// without its image.
    pub open spec fn wf(&self) -> bool {
        self.entries.wf() && self.blobs.wf() && images_stored(self.entries@, self.blobs@)
    }

    pub fn new() -> (store: TileStore)
        ensures
            store.wf(),
            store.entries@ == Seq::<EntryView>::empty(),
            store.blobs@ == Seq::<AssetView>::empty(),
    {
        TileStore { entries: EntryStore::new(), blobs: BlobStore::new() }
    }

    /// Makes a tile in `scope` from a form, which must have a phrase, an
    /// image and categories; the image is stored under its content hash.
    /// A phrase that `scope` has a tile for already is a conflict.
    pub fn create_tile(&mut self, scope: Scope, form: TileForm) -> (r: Result<Tile, Error>)
        requires
            old(self).wf(),
        ensures
            final(self).wf(),
            (final(self).entries@, final(self).blobs@, tile_outcome(r)) == spec_create(
                old(self).entries@,
                old(self).blobs@,
                scope,
                form@,
            ),
    {
        match complete_form(form) {
            Ok((phrase, bytes, media_type, categories)) => {
                if self.entries.position(scope, phrase.as_str()).is_some() {
                    return Err(Error::Conflict);
                }
                let ghost held = self.blobs@;
                let image_hash = self.blobs.put(bytes, media_type, scope);
                let entry = Entry { owner: scope, phrase, image_hash, categories };
                let tile = tile_for(&entry);
                let ghost was = self.entries@;
                let ghost made = entry@;
                match self.entries.insert(entry) {
                    Ok(_) => {
                        proof {
                            lemma_put_keeps_assets(held, bytes@, media_type@, scope);
                            lemma_rank_bounds(was, made.phrase);
                            assert forall|i: int| 0 <= i < self.entries@.len() implies has_asset(
                                self.blobs@,
                                (#[trigger] self.entries@[i]).owner,
                                self.entries@[i].image_hash,
                            ) by {}
                        }
                        Ok(tile)
                    },
                    Err(e) => Err(e),
                }
            },
            Err(e) => Err(e),
        }
    }

    /// Makes a tile for the account `owner`.
    pub fn create_user_tile(&mut self, owner: i32, form: TileForm) -> (r: Result<Tile, Error>)
        requires
            old(self).wf(),
        ensures
            final(self).wf(),
            (final(self).entries@, final(self).blobs@, tile_outcome(r)) == spec_create(
                old(self).entries@,
                old(self).blobs@,
                Scope::Owner(owner),
                form@,
            ),
    {
        self.create_tile(Scope::Owner(owner), form)
    }

    /// One page of the tiles that `viewer` is shown through `query`: the
    /// public ones and the viewer's own, those that pass the filters, in
    /// the order of their phrases.
    pub fn list_tiles(&self, viewer: Option<i32>, query: &TileQuery) -> (found: TilePage)
        requires
            self.wf(),
        ensures
            tile_views(found.items@) == spec_list(self.entries@, viewer, query@),
            match found.next_page {
                Some(next) => found.items.len() == PAGE_LIMIT && next@ == query@.following(),
                None => found.items.len() < PAGE_LIMIT,
            },
    {
        let listed = self.entries.list(query, viewer);
        let mut items: Vec<Tile> = Vec::new();
        let mut i: usize = 0;
        while i < listed.items.len()
            invariant
                i <= listed.items.len(),
                items.len() == i,
                forall|j: int| 0 <= j < i ==> items@[j]@ == tile_of(listed.items@[j]@),
            decreases listed.items.len() - i,
        {
            items.push(tile_for(&listed.items[i]));
            i = i + 1;
        }
        TilePage { items, next_page: listed.next }
    }

    /// The image under `hash` that `viewer` may retrieve.
    pub fn read_image(&self, viewer: Option<i32>, hash: &str) -> (found: Result<&Asset, Error>)
        ensures
            match found {
                Ok(a) => exists|i: int|
                    first_visible(self.blobs@, hash@, viewer, i) && self.blobs@[i]
                        == a@,
                Err(e) => e == Error::NotFound && forall|i: int|
                    0 <= i < self.blobs@.len() ==> !((#[trigger] self.blobs@[i]).hash == hash@
                        && self.blobs@[i].scope.spec_visible_to(viewer)),
            },
    {
        self.blobs.fetch(hash, viewer)
    }

    /// Changes the tile that `owner` has under `phrase` by the fields
    /// that `form` holds, and leaves the others as they are. A new image
    /// is stored under its content hash. No such tile is `NotFound`; a new
    /// phrase that `owner` has another tile for is a conflict.
    pub fn update_user_tile(&mut self, owner: i32, phrase: &str, form: TileForm) -> (r: Result<
        Tile,
        Error,
    >)
        requires
            old(self).wf(),
        ensures
            final(self).wf(),
            (final(self).entries@, final(self).blobs@, tile_outcome(r)) == spec_update(
                old(self).entries@,
                old(self).blobs@,
                owner,
                phrase@,
                form@,
            ),
    {
        let scope = Scope::Owner(owner);
        let ghost was = self.entries@;
        let at = match self.entries.position(scope, phrase) {
            Some(i) => i,
            None => {
                return Err(Error::NotFound);
            },
        };
        proof {
            lemma_key_index(was, scope, phrase@, at as int);
        }
        if let Some(p) = &form.phrase {
            if !str_eq(p.as_str(), phrase) && self.entries.position(scope, p.as_str()).is_some() {
                return Err(Error::Conflict);
            }
        }
        let old_entry = match self.entries.remove(scope, phrase) {
            Some(e) => e,
            None => {
                return Err(Error::NotFound);
            },
        };
        proof {
            let i = choose|i: int|
                0 <= i < was.len() && was[i] == old_entry@ && self.entries@ == was.remove(i)
                    && old_entry@.owner == scope && old_entry@.phrase == phrase@;
            lemma_key_index(was, scope, phrase@, i);
        }
        let ghost rest = self.entries@;
        let ghost held = self.blobs@;
        let TileForm { phrase: new_phrase, image, categories } = form;
        proof {
            match form@.image {
                Some((bytes, media_type)) => {
                    lemma_put_keeps_assets(held, bytes, media_type, scope);
                },
                None => {},
            }
        }
        let image_hash = match image {
            Some((bytes, media_type)) => self.blobs.put(bytes, media_type, scope),
            None => old_entry.image_hash,
        };
        let entry = Entry {
            owner: scope,
            phrase: match new_phrase {
                Some(p) => p,
                None => old_entry.phrase,
            },
            image_hash,
            categories: match categories {
                Some(c) => c,
                None => old_entry.categories,
            },
        };
        let tile = tile_for(&entry);
        let ghost made = entry@;
        match self.entries.insert(entry) {
            Ok(_) => {
                proof {
                    lemma_rank_bounds(rest, made.phrase);
                    assert forall|i: int| 0 <= i < self.entries@.len() implies has_asset(
                        self.blobs@,
                        (#[trigger] self.entries@[i]).owner,
                        self.entries@[i].image_hash,
                    ) by {}
                }
                Ok(tile)
            },
            Err(e) => Err(e),
        }
    }

    /// Deletes the tile that `owner` has under `phrase`. Its image stays
    /// stored. Says whether there was such a tile.
    pub fn delete_user_tile(&mut self, owner: i32, phrase: &str) -> (was_there: bool)
        requires
            old(self).wf(),
        ensures
            final(self).wf(),
            final(self).blobs@ == old(self).blobs@,
            (final(self).entries@, was_there) == spec_delete(old(self).entries@, owner, phrase@),
            !has_key(final(self).entries@, Scope::Owner(owner), phrase@),
    {
        let ghost was = self.entries@;
        match self.entries.remove(Scope::Owner(owner), phrase) {
            Some(e) => {
                proof {
                    let i = choose|i: int|
                        0 <= i < was.len() && was[i] == e@ && self.entries@ == was.remove(i)
                            && e@.owner == Scope::Owner(owner) && e@.phrase == phrase@;
                    lemma_key_index(was, Scope::Owner(owner), phrase@, i);
                    assert forall|j: int| 0 <= j < self.entries@.len() implies has_asset(
                        self.blobs@,
                        (#[trigger] self.entries@[j]).owner,
                        self.entries@[j].image_hash,
                    ) by {}
                }
                true
            },
            None => false,
        }
    }
}

/// Putting an asset in takes none away.
pub proof fn lemma_put_keeps_assets(
    blobs: Seq<AssetView>,
    bytes: Seq<u8>,
    media_type: Seq<char>,
    scope: Scope,
)
    ensures
        forall|s: Scope, h: Seq<char>|
            has_asset(blobs, s, h) ==> #[trigger] has_asset(
                spec_put(blobs, bytes, media_type, scope),
                s,
                h,
            ),
{
    let after = spec_put(blobs, bytes, media_type, scope);
    assert forall|s: Scope, h: Seq<char>| has_asset(blobs, s, h) implies #[trigger] has_asset(
        after,
        s,
        h,
    ) by {
        let i = choose|i: int|
            0 <= i < blobs.len() && #[trigger] blobs[i].scope == s && blobs[i].hash == h;
        assert(after[i].scope == s);
    }
}

/// Where keys are distinct, the entry with a key stands at one index only.
pub proof fn lemma_key_index(s: Seq<EntryView>, owner: Scope, phrase: Seq<char>, i: int)
    requires
        distinct_keys(s),
        0 <= i < s.len(),
        s[i].owner == owner,
        s[i].phrase == phrase,
    ensures
        has_key(s, owner, phrase),
        key_index(s, owner, phrase) == i,
{
}

} // verus!
