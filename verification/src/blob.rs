//! The content-addressed blob store: an asset is kept under the hash of
//! its bytes, once per scope.

use crate::digest::{hash, sha3_224_hex};
use crate::error::Error;
use crate::scope::Scope;
use crate::text::{str_eq, texts};
use vstd::prelude::*;

verus! {

/// Stored content with the media type it was declared with.
#[derive(Debug)]
pub struct Asset {
    pub scope: Scope,
    pub hash: String,
    pub media_type: String,
    pub bytes: Vec<u8>,
}

pub struct AssetView {
    pub scope: Scope,
    pub hash: Seq<char>,
    pub media_type: Seq<char>,
    pub bytes: Seq<u8>,
}

impl View for Asset {
    type V = AssetView;

    open spec fn view(&self) -> AssetView {
        AssetView {
            scope: self.scope,
            hash: self.hash@,
            media_type: self.media_type@,
            bytes: self.bytes@,
        }
    }
}

/// The views of a list of assets.
pub open spec fn asset_views(v: Seq<Asset>) -> Seq<AssetView> {
    v.map_values(|a: Asset| a@)
}

/// Whether `s` holds an asset under `hash` in `scope`.
pub open spec fn has_asset(s: Seq<AssetView>, scope: Scope, hash: Seq<char>) -> bool {
    exists|i: int| 0 <= i < s.len() && #[trigger] s[i].scope == scope && s[i].hash == hash
}

/// The asset that `s` holds under `hash` in `scope`.
pub open spec fn asset_at(s: Seq<AssetView>, scope: Scope, hash: Seq<char>) -> AssetView {
    s[choose|i: int| 0 <= i < s.len() && #[trigger] s[i].scope == scope && s[i].hash == hash]
}

/// Every asset is keyed by the hash of its own bytes.
pub open spec fn content_addressed(s: Seq<AssetView>) -> bool {
    forall|i: int| 0 <= i < s.len() ==> (#[trigger] s[i]).hash == sha3_224_hex(s[i].bytes)
}

/// No hash is held twice in one scope.
pub open spec fn stored_once(s: Seq<AssetView>) -> bool {
    forall|i: int, j: int|
        0 <= i < j < s.len() ==> !(#[trigger] s[i].scope == #[trigger] s[j].scope && s[i].hash
            == s[j].hash)
}

/// The store after `bytes` are put into `scope`: unchanged where their hash
/// is held there already, else one asset longer.
pub open spec fn spec_put(
    s: Seq<AssetView>,
    bytes: Seq<u8>,
    media_type: Seq<char>,
    scope: Scope,
) -> Seq<AssetView> {
    if has_asset(s, scope, sha3_224_hex(bytes)) {
        s
    } else {
        s.push(AssetView { scope, hash: sha3_224_hex(bytes), media_type, bytes })
    }
}

/// What a lookup of `hash` in `scope` gives.
pub open spec fn spec_get(s: Seq<AssetView>, hash: Seq<char>, scope: Scope) -> Option<AssetView> {
    if has_asset(s, scope, hash) {
        Some(asset_at(s, scope, hash))
    } else {
        None
    }
}

/// The index of the first asset under `hash` that `viewer` may see.
pub open spec fn first_visible(s: Seq<AssetView>, hash: Seq<char>, viewer: Option<i32>, i: int) -> bool {
    &&& 0 <= i < s.len()
    &&& s[i].hash == hash
    &&& s[i].scope.spec_visible_to(viewer)
    &&& forall|j: int| 0 <= j < i ==> !((#[trigger] s[j]).hash == hash && s[j].scope.spec_visible_to(viewer))
}

/// The hashes held in `scope`, in stored order.
pub open spec fn hashes_in(s: Seq<AssetView>, scope: Scope) -> Seq<Seq<char>> {
    s.filter(|a: AssetView| a.scope == scope).map_values(|a: AssetView| a.hash)
}

/// The assets, in the order they were first stored.
pub struct BlobStore {
    assets: Vec<Asset>,
}

impl View for BlobStore {
    type V = Seq<AssetView>;

    closed spec fn view(&self) -> Seq<AssetView> {
        asset_views(self.assets@)
    }
}

impl BlobStore {
    /// The store's invariant.
    pub open spec fn wf(&self) -> bool {
        content_addressed(self@) && stored_once(self@)
    }

    pub fn new() -> (store: BlobStore)
        ensures
            store.wf(),
            store@ == Seq::<AssetView>::empty(),
    {
        let store = BlobStore { assets: Vec::new() };
        store
    }

    pub fn len(&self) -> (n: usize)
        ensures
            n == self@.len(),
    {
        self.assets.len()
    }

    fn position(&self, hash: &str, scope: Scope) -> (at: Option<usize>)
        ensures
            match at {
                Some(i) => i < self@.len() && self@[i as int].scope == scope && self@[i as int].hash
                    == hash@,
                None => !has_asset(self@, scope, hash@),
            },
    {
        let mut i: usize = 0;
        while i < self.assets.len()
            invariant
                i <= self.assets.len(),
                forall|j: int|
                    0 <= j < i ==> !(#[trigger] self@[j].scope == scope && self@[j].hash == hash@),
            decreases self.assets.len() - i,
        {
            let a = &self.assets[i];
            if a.scope == scope && str_eq(a.hash.as_str(), hash) {
                return Some(i);
            }
            i = i + 1;
        }
        None
    }

    fn push_new(&mut self, asset: Asset)
        requires
            old(self).wf(),
            asset@.hash == sha3_224_hex(asset@.bytes),
            !has_asset(old(self)@, asset@.scope, asset@.hash),
        ensures
            final(self).wf(),
            final(self)@ == old(self)@.push(asset@),
    {
        let ghost before = self@;
        self.assets.push(asset);
        proof {
            let after = before.push(asset@);
            assert(self@ =~= after);
            assert forall|i: int, j: int| 0 <= i < j < after.len() implies !(
            #[trigger] after[i].scope == #[trigger] after[j].scope && after[i].hash
                == after[j].hash) by {}
            assert forall|i: int| 0 <= i < after.len() implies (#[trigger] after[i]).hash
                == sha3_224_hex(after[i].bytes) by {}
        }
    }

    /// Stores `bytes` in `scope` under their content hash and returns the
    /// hash. Storing what is there already changes nothing.
    pub fn put(&mut self, bytes: Vec<u8>, media_type: String, scope: Scope) -> (key: String)
        requires
            old(self).wf(),
        ensures
            final(self).wf(),
            key@ == sha3_224_hex(bytes@),
            final(self)@ == spec_put(old(self)@, bytes@, media_type@, scope),
            has_asset(final(self)@, scope, key@),
    {
        let key = hash(bytes.as_slice());
        if self.position(key.as_str(), scope).is_none() {
            let ghost before = self@;
            let asset = Asset { scope, hash: key.clone(), media_type, bytes };
            self.push_new(asset);
            assert(self@[before.len() as int].scope == scope);
        }
        key
    }

    /// Stores `bytes` in `scope` under their content hash, refusing to
    /// write over what is held there already.
    pub fn put_new(&mut self, bytes: Vec<u8>, media_type: String, scope: Scope) -> (done: Result<
        String,
        Error,
    >)
        requires
            old(self).wf(),
        ensures
            final(self).wf(),
            match done {
                Ok(key) => key@ == sha3_224_hex(bytes@) && !has_asset(old(self)@, scope, key@)
                    && final(self)@ == spec_put(old(self)@, bytes@, media_type@, scope),
                Err(e) => e == Error::Conflict && has_asset(
                    old(self)@,
                    scope,
                    sha3_224_hex(bytes@),
                ) && final(self)@ == old(self)@,
            },
    {
        let key = hash(bytes.as_slice());
        if self.position(key.as_str(), scope).is_some() {
            return Err(Error::Conflict);
        }
        let asset = Asset { scope, hash: key.clone(), media_type, bytes };
        self.push_new(asset);
        Ok(key)
    }

    /// The asset held under `hash` in exactly `scope`.
    pub fn get(&self, hash: &str, scope: Scope) -> (found: Result<&Asset, Error>)
        requires
            self.wf(),
        ensures
            match found {
                Ok(a) => spec_get(self@, hash@, scope) == Some(a@) && a@.scope == scope && a@.hash
                    == hash@,
                Err(e) => e == Error::NotFound && spec_get(self@, hash@, scope).is_none(),
            },
    {
        match self.position(hash, scope) {
            Some(i) => Ok(&self.assets[i]),
            None => Err(Error::NotFound),
        }
    }

    /// The asset under `hash` that `viewer` may retrieve: a public one, or
    /// one private to the viewer; the one stored first where both exist.
    pub fn fetch(&self, hash: &str, viewer: Option<i32>) -> (found: Result<&Asset, Error>)
        ensures
            match found {
                Ok(a) => exists|i: int| first_visible(self@, hash@, viewer, i) && self@[i] == a@,
                Err(e) => e == Error::NotFound && forall|i: int|
                    0 <= i < self@.len() ==> !((#[trigger] self@[i]).hash == hash@
                        && self@[i].scope.spec_visible_to(viewer)),
            },
    {
        let mut i: usize = 0;
        while i < self.assets.len()
            invariant
                i <= self.assets.len(),
                forall|j: int|
                    0 <= j < i ==> !((#[trigger] self@[j]).hash == hash@
                        && self@[j].scope.spec_visible_to(viewer)),
            decreases self.assets.len() - i,
        {
            let a = &self.assets[i];
            if a.scope.visible_to(viewer) && str_eq(a.hash.as_str(), hash) {
                assert(first_visible(self@, hash@, viewer, i as int));
                return Ok(a);
            }
            i = i + 1;
        }
        Err(Error::NotFound)
    }

    /// The hashes of everything held in `scope`, in stored order.
    pub fn list(&self, scope: Scope) -> (keys: Vec<String>)
        ensures
            texts(keys@) == hashes_in(self@, scope),
    {
        let ghost all = self@;
        let ghost keep = |a: AssetView| a.scope == scope;
        let ghost name = |a: AssetView| a.hash;
        let mut keys: Vec<String> = Vec::new();
        let mut i: usize = 0;
        proof {
            reveal(Seq::filter);
        }
        while i < self.assets.len()
            invariant
                i <= self.assets.len(),
                all == self@,
                all.len() == self.assets.len(),
                keep == |a: AssetView| a.scope == scope,
                name == |a: AssetView| a.hash,
                texts(keys@) == all.take(i as int).filter(keep).map_values(name),
            decreases self.assets.len() - i,
        {
            let a = &self.assets[i];
            proof {
                assert(all.take(i as int + 1) =~= all.take(i as int).push(all[i as int]));
                all.take(i as int).lemma_filter_push(all[i as int], keep);
            }
            if a.scope == scope {
                let ghost sel = all.take(i as int).filter(keep);
                keys.push(a.hash.clone());
                assert(sel.push(a@).map_values(name) =~= sel.map_values(name).push(a@.hash));
            }
            i = i + 1;
        }
        assert(all.take(i as int) =~= all);
        keys
    }
}

/// Storing the same bytes twice in one scope gives the same hash and
/// leaves one stored object; where nothing was held under that hash
/// before, a lookup by it gives back those bytes with the media type that
/// the first storing declared.
pub proof fn lemma_put_twice(
    s: Seq<AssetView>,
    bytes: Seq<u8>,
    first_type: Seq<char>,
    second_type: Seq<char>,
    scope: Scope,
)
    requires
        content_addressed(s),
        stored_once(s),
    ensures
        ({
            let once = spec_put(s, bytes, first_type, scope);
            let twice = spec_put(once, bytes, second_type, scope);
            let key = sha3_224_hex(bytes);
            &&& twice == once
            &&& once.len() <= s.len() + 1
            &&& spec_get(twice, key, scope) matches Some(a) && a.hash == key && sha3_224_hex(a.bytes)
                == key
            &&& !has_asset(s, scope, key) ==> spec_get(twice, key, scope) == Some(
                AssetView { scope, hash: key, media_type: first_type, bytes },
            )
        }),
{
    let key = sha3_224_hex(bytes);
    let once = spec_put(s, bytes, first_type, scope);
    if !has_asset(s, scope, key) {
        assert(once[s.len() as int].scope == scope);
    }
}

} // verus!
