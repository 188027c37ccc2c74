//! The manifest of an asset bundle (the path of each asset and of each tag
//! definition, by identifier) and what a scan of a bundle makes of it: one
//! entry per asset that an asset type handles, and the paths whose tag
//! lists are read.

use vstd::prelude::*;
use std::collections::BTreeMap;
use vstd::laws_cmp::obeys_cmp;
use vstd::std_specs::btree::{increasing_seq, spec_btree_map_iter};
use vstd::std_specs::cmp::OrdSpec;
use vstd::std_specs::iter::IteratorSpec;
use crate::bundle::BundleId;
use crate::index::{AssetError, TagId, UntypedAssetId};
use crate::bundle_files::{classify_modified_spec, id_at_path, manifest_view};
use crate::path::{clean_path, cleaned_path, forward_slashes, path_key, with_forward_slashes};

verus! {

broadcast use {vstd::std_specs::btree::group_btree_axioms, vstd::laws_cmp::group_laws_cmp};

/// `s` lists the entries of `m` in increasing order of their keys.
pub open spec fn is_listing(s: Seq<(u128, String)>, m: Map<u128, String>) -> bool {
    &&& s.len() == m.dom().len()
    &&& forall|i: int, j: int| 0 <= i < j < s.len() ==> s[i].0 < s[j].0
    &&& forall|i: int| 0 <= i < s.len() ==> m.contains_key(#[trigger] s[i].0) && m[s[i].0] == s[i].1
}

/// The entries of `m`, in increasing order of their keys.
pub fn entries_of(m: &BTreeMap<u128, String>) -> (r: Vec<(u128, String)>)
    ensures
        is_listing(r@, m@),
{
    let mut r: Vec<(u128, String)> = Vec::new();
    let iter = m.iter();
    let ghost items = iter.remaining();
    for kv in it: iter
        invariant
            items == spec_btree_map_iter(m).remaining(),
            increasing_seq(items.map_values(|kv: (&u128, &String)| *kv.0)),
            it.seq() == items,
            r@.len() == it.index(),
            forall|i: int| 0 <= i < it.index() ==> r@[i] == (*items[i].0, *items[i].1),
    {
        let (k, v) = kv;
        r.push((*k, v.clone()));
    }
    proof {
        let keys = items.map_values(|kv: (&u128, &String)| *kv.0);
        assert forall|i: int, j: int| 0 <= i < j < r@.len() implies r@[i].0 < r@[j].0 by {
            assert(keys[i] == r@[i].0);
            assert(keys[j] == r@[j].0);
            assert(obeys_cmp::<u128>());
            assert(keys[i].cmp_spec(&keys[j]) is Less);
        }
    }
    r
}

/// The paths of a bundle's assets and tag definitions, by the identifiers'
/// values.
pub struct BundleManifest {
    pub assets: BTreeMap<u128, String>,
    pub tags: BTreeMap<u128, String>,
}

impl BundleManifest {
    /// A manifest without assets or tags.
    pub fn new() -> (r: BundleManifest)
        ensures
            r.assets@ == Map::<u128, String>::empty(),
            r.tags@ == Map::<u128, String>::empty(),
    {
        BundleManifest { assets: BTreeMap::new(), tags: BTreeMap::new() }
    }

    /// The path of the asset `id`.
    pub fn asset_path(&self, id: UntypedAssetId) -> (r: Option<&String>)
        ensures
            match r {
                Some(p) => self.assets@.contains_key(id.0) && *p == self.assets@[id.0],
                None => !self.assets@.contains_key(id.0),
            },
    {
        self.assets.get(&id.0)
    }

    /// Records the path of the asset `id`, replacing the one it had.
    pub fn insert_asset(&mut self, id: UntypedAssetId, path: String)
        ensures
            final(self).assets@ == old(self).assets@.insert(id.0, path),
            final(self).tags@ == old(self).tags@,
    {
        self.assets.insert(id.0, path);
    }

    /// Records the path of the definition of tag `id`, replacing the one it
    /// had.
    pub fn insert_tag(&mut self, id: TagId, path: String)
        ensures
            final(self).tags@ == old(self).tags@.insert(id.0, path),
            final(self).assets@ == old(self).assets@,
    {
        self.tags.insert(id.0, path);
    }

    /// Records the asset `id`, added to the bundle at `path`, under its
    /// cleaned path, which is returned.
    pub fn record_asset(&mut self, id: UntypedAssetId, path: &str) -> (r: String)
        ensures
            r@ == cleaned_path(path@),
            final(self).assets@ == old(self).assets@.insert(id.0, r),
            final(self).tags@ == old(self).tags@,
    {
        let cleaned = clean_path(path);
        self.assets.insert(id.0, cleaned.clone());
        cleaned
    }

    /// Records the definition of tag `id`, written to the bundle at `path`,
    /// under its cleaned path, which is returned.
    pub fn record_tag(&mut self, id: TagId, path: &str) -> (r: String)
        ensures
            r@ == cleaned_path(path@),
            final(self).tags@ == old(self).tags@.insert(id.0, r),
            final(self).assets@ == old(self).assets@,
    {
        let cleaned = clean_path(path);
        self.tags.insert(id.0, cleaned.clone());
        cleaned
    }

    /// Whether the bundle defines tag `id`.
    pub fn has_tag(&self, id: TagId) -> (r: bool)
        ensures
            r == self.tags@.contains_key(id.0),
    {
        self.tags.contains_key(&id.0)
    }
}

/// The path under which the index records a new tag: its path cleaned,
/// with `/` as the only separator.
pub fn tag_relative_path(path: &str) -> (r: String)
    ensures
        r@ == with_forward_slashes(cleaned_path(path@)),
{
    let cleaned = clean_path(path);
    forward_slashes(cleaned.as_str())
}

/// What the asset index learns of one revision of an asset found in a
/// bundle.
pub struct AssetMetadata {
    pub asset_id: UntypedAssetId,
    pub ty: String,
    pub bundle_id: BundleId,
    pub relative_path: String,
    pub revision: u32,
    /// Seconds since the Unix epoch.
    pub last_modified: i64,
    pub in_memory: bool,
}

/// The plain values of an asset's metadata.
pub open spec fn metadata_view(m: AssetMetadata) -> (u128, Seq<char>, u128, Seq<char>, u32, i64, bool) {
    (m.asset_id.0, m.ty@, m.bundle_id.0, m.relative_path@, m.revision, m.last_modified, m.in_memory)
}

/// The metadata of the assets of a manifest listing whose asset type is
/// known (`types[i]` names the type that handles the path of `entries[i]`):
/// revision 0, read from the bundle, modified when the bundle was.
pub open spec fn manifest_assets_spec(
    entries: Seq<(u128, String)>,
    types: Seq<Option<String>>,
    bundle_id: u128,
    last_modified: i64,
) -> Seq<(u128, Seq<char>, u128, Seq<char>, u32, i64, bool)>
    decreases entries.len(),
{
    if entries.len() == 0 || types.len() < entries.len() {
        Seq::empty()
    } else {
        let n = entries.len() - 1;
        let rest = manifest_assets_spec(entries.drop_last(), types.subrange(0, n), bundle_id, last_modified);
        match types[n] {
            Some(ty) => rest.push((entries[n].0, ty@, bundle_id, entries[n].1@, 0u32, last_modified, false)),
            None => rest,
        }
    }
}

/// The metadata of the assets of `manifest` that an asset type handles;
/// `types` gives, for each asset of the manifest in increasing order of
/// identifiers, the name of the asset type that handles its path, if any.
pub fn manifest_assets(
    manifest: &BundleManifest,
    types: &Vec<Option<String>>,
    bundle_id: BundleId,
    last_modified: i64,
) -> (r: Vec<AssetMetadata>)
    requires
        types@.len() == manifest.assets@.dom().len(),
    ensures
        exists|entries: Seq<(u128, String)>| {
            &&& is_listing(entries, manifest.assets@)
            &&& r@.map_values(|m: AssetMetadata| metadata_view(m)) == manifest_assets_spec(
                entries,
                types@,
                bundle_id.0,
                last_modified,
            )
        },
{
    let entries = entries_of(&manifest.assets);
    let mut r: Vec<AssetMetadata> = Vec::new();
    let mut i: usize = 0;
    while i < entries.len()
        invariant
            i <= entries@.len(),
            types@.len() == entries@.len(),
            is_listing(entries@, manifest.assets@),
            r@.map_values(|m: AssetMetadata| metadata_view(m)) == manifest_assets_spec(
                entries@.subrange(0, i as int),
                types@.subrange(0, i as int),
                bundle_id.0,
                last_modified,
            ),
        decreases entries@.len() - i,
    {
        let ghost before = r@;
        proof {
            let e = entries@.subrange(0, i + 1);
            let t = types@.subrange(0, i + 1);
            assert(e.drop_last() =~= entries@.subrange(0, i as int));
            assert(t.subrange(0, i as int) =~= types@.subrange(0, i as int));
        }
        match &types[i] {
            Some(ty) => {
                r.push(
                    AssetMetadata {
                        asset_id: UntypedAssetId(entries[i].0),
                        ty: ty.clone(),
                        bundle_id,
                        relative_path: entries[i].1.clone(),
                        revision: 0,
                        last_modified,
                        in_memory: false,
                    },
                );
                proof {
                    assert(r@.map_values(|m: AssetMetadata| metadata_view(m)) =~= before.map_values(
                        |m: AssetMetadata| metadata_view(m),
                    ).push(metadata_view(r@.last())));
                }
            },
            None => {},
        }
        i = i + 1;
    }
    proof {
        assert(entries@.subrange(0, entries@.len() as int) =~= entries@);
        assert(types@.subrange(0, entries@.len() as int) =~= types@);
    }
    r
}

/// The path and identifier of each entry of a listing, in its order.
pub open spec fn paths_to_ids_spec(entries: Seq<(u128, String)>) -> Seq<(String, UntypedAssetId)> {
    entries.map_values(|e: (u128, String)| (e.1, UntypedAssetId(e.0)))
}

/// The path and identifier of each asset of `manifest`, in increasing order
/// of identifiers: looked up from the back, a path gives the identifier of
/// the last asset stored there.
pub fn paths_to_ids(manifest: &BundleManifest) -> (r: Vec<(String, UntypedAssetId)>)
    ensures
        exists|entries: Seq<(u128, String)>| {
            &&& is_listing(entries, manifest.assets@)
            &&& r@ == paths_to_ids_spec(entries)
        },
{
    let entries = entries_of(&manifest.assets);
    let mut r: Vec<(String, UntypedAssetId)> = Vec::new();
    let mut i: usize = 0;
    while i < entries.len()
        invariant
            i <= entries@.len(),
            r@ == paths_to_ids_spec(entries@.subrange(0, i as int)),
        decreases entries@.len() - i,
    {
        r.push((entries[i].1.clone(), UntypedAssetId(entries[i].0)));
        proof {
            assert(entries@.subrange(0, i + 1).drop_last() =~= entries@.subrange(0, i as int));
            assert(paths_to_ids_spec(entries@.subrange(0, i + 1)) =~= paths_to_ids_spec(
                entries@.subrange(0, i as int),
            ).push((entries@[i as int].1, UntypedAssetId(entries@[i as int].0))));
        }
        i = i + 1;
    }
    proof {
        assert(entries@.subrange(0, entries@.len() as int) =~= entries@);
    }
    r
}

/// The paths whose tag lists are read for `assets`: the manifest path of
/// each asset, in order; the first asset without one is an error.
pub open spec fn tag_paths_spec(ids: Seq<u128>, m: Map<u128, String>) -> Result<Seq<String>, u128>
    decreases ids.len(),
{
    if ids.len() == 0 {
        Ok(Seq::empty())
    } else {
        match tag_paths_spec(ids.drop_last(), m) {
            Err(id) => Err(id),
            Ok(paths) => if m.contains_key(ids.last()) {
                Ok(paths.push(m[ids.last()]))
            } else {
                Err(ids.last())
            },
        }
    }
}

/// The identifiers' values of a list of asset metadata.
pub open spec fn asset_ids(assets: Seq<AssetMetadata>) -> Seq<u128> {
    assets.map_values(|a: AssetMetadata| a.asset_id.0)
}

/// The manifest path of each of `assets`, whose tag list is read when the
/// bundle is scanned.
pub fn asset_tag_paths(manifest: &BundleManifest, assets: &Vec<AssetMetadata>) -> (r: Result<
    Vec<String>,
    AssetError,
>)
    ensures
        match tag_paths_spec(asset_ids(assets@), manifest.assets@) {
            Ok(paths) => r matches Ok(v) && v@ == paths,
            Err(id) => r matches Err(AssetError::AssetPathNotFound(a)) && a.0 == id,
        },
{
    let mut r: Vec<String> = Vec::new();
    let mut i: usize = 0;
    while i < assets.len()
        invariant
            i <= assets@.len(),
            tag_paths_spec(asset_ids(assets@).subrange(0, i as int), manifest.assets@) == Ok::<
                Seq<String>,
                u128,
            >(r@),
        decreases assets@.len() - i,
    {
        let id = assets[i].asset_id;
        proof {
            assert(asset_ids(assets@).subrange(0, i + 1).drop_last() =~= asset_ids(
                assets@,
            ).subrange(0, i as int));
        }
        match manifest.asset_path(id) {
            Some(p) => {
                r.push(p.clone());
            },
            None => {
                proof {
                    lemma_tag_paths_error_stays(asset_ids(assets@), i as int + 1, manifest.assets@);
                }
                return Err(AssetError::AssetPathNotFound(id));
            },
        }
        i = i + 1;
    }
    proof {
        assert(asset_ids(assets@).subrange(0, assets@.len() as int) =~= asset_ids(assets@));
    }
    Ok(r)
}

/// Once a prefix of the identifiers has no path, neither has the whole list,
/// and the missing identifier is the same.
proof fn lemma_tag_paths_error_stays(ids: Seq<u128>, k: int, m: Map<u128, String>)
    requires
        0 <= k <= ids.len(),
        tag_paths_spec(ids.subrange(0, k), m) is Err,
    ensures
        tag_paths_spec(ids, m) == tag_paths_spec(ids.subrange(0, k), m),
    decreases ids.len() - k,
{
    if k < ids.len() {
        assert(ids.subrange(0, k + 1).drop_last() =~= ids.subrange(0, k));
        lemma_tag_paths_error_stays(ids, k + 1, m);
    } else {
        assert(ids.subrange(0, k) =~= ids);
    }
}

/// Two listings of one map are the same sequence.
pub proof fn lemma_listing_unique(a: Seq<(u128, String)>, b: Seq<(u128, String)>, m: Map<u128, String>)
    requires
        is_listing(a, m),
        is_listing(b, m),
        m.dom().finite(),
    ensures
        a == b,
    decreases a.len(),
{
    if a.len() > 0 {
        // the largest key of the map ends both listings
        let n = a.len() - 1;
        let ka = a[n].0;
        let kb = b[n].0;
        assert(m.contains_key(ka));
        assert(m.contains_key(kb));
        lemma_listing_covers(a, m, kb);
        lemma_listing_covers(b, m, ka);
        let i = choose|i: int| 0 <= i < a.len() && a[i].0 == kb;
        let j = choose|j: int| 0 <= j < b.len() && b[j].0 == ka;
        assert(ka == kb);
        let m2 = m.remove(ka);
        assert(is_listing(a.drop_last(), m2)) by {
            assert(m2.dom() =~= m.dom().remove(ka));
        }
        assert(is_listing(b.drop_last(), m2)) by {
            assert(m2.dom() =~= m.dom().remove(ka));
        }
        lemma_listing_unique(a.drop_last(), b.drop_last(), m2);
        assert(a =~= a.drop_last().push(a[n]));
        assert(b =~= b.drop_last().push(b[n]));
    } else {
        assert(b.len() == 0);
        assert(a =~= b);
    }
}

/// Every key of a map appears in a listing of it.
proof fn lemma_listing_covers(s: Seq<(u128, String)>, m: Map<u128, String>, k: u128)
    requires
        is_listing(s, m),
        m.dom().finite(),
        m.contains_key(k),
    ensures
        exists|i: int| 0 <= i < s.len() && s[i].0 == k,
{
    let keys = s.map_values(|e: (u128, String)| e.0);
    assert forall|i: int, j: int| 0 <= i < keys.len() && 0 <= j < keys.len() && i != j implies keys[i]
        != keys[j] by {
        if i < j {
            assert(s[i].0 < s[j].0);
        } else {
            assert(s[j].0 < s[i].0);
        }
    }
    assert(keys.no_duplicates());
    keys.unique_seq_to_set();
    assert(keys.to_set().subset_of(m.dom())) by {
        assert forall|x: u128| keys.to_set().contains(x) implies m.dom().contains(x) by {
            let i = choose|i: int| 0 <= i < keys.len() && keys[i] == x;
            assert(m.contains_key(s[i].0));
        }
    }
    if !keys.to_set().contains(k) {
        vstd::set_lib::lemma_len_subset(keys.to_set().insert(k), m.dom());
        assert(false);
    }
    let i = choose|i: int| 0 <= i < keys.len() && keys[i] == k;
    assert(s[i].0 == k);
}

/// Every asset that a scan finds, from the manifest itself or among the
/// modified revisions, has a path in the manifest, so its tag list can be
/// looked up.
pub proof fn lemma_scanned_assets_have_paths(
    manifest: Map<u128, String>,
    entries: Seq<(u128, String)>,
    types: Seq<Option<String>>,
    bundle_id: u128,
    last_modified: i64,
    relative_path: Seq<char>,
    has_serializer: bool,
)
    requires
        is_listing(entries, manifest),
    ensures
        forall|i: int| 0 <= i < manifest_assets_spec(entries, types, bundle_id, last_modified).len()
            ==> manifest.contains_key(
            #[trigger] manifest_assets_spec(entries, types, bundle_id, last_modified)[i].0,
        ),
        classify_modified_spec(relative_path, has_serializer, manifest_view(paths_to_ids_spec(entries)))
            matches Some(found) ==> manifest.contains_key(found.0.0),
{
    lemma_manifest_assets_ids(entries, types, bundle_id, last_modified);
    match classify_modified_spec(relative_path, has_serializer, manifest_view(paths_to_ids_spec(entries))) {
        Some(found) => {
            let original = crate::bundle::original_path_of(relative_path).unwrap();
            lemma_id_at_path_in_listing(entries, original);
        },
        None => {},
    }
}

/// The identifiers of the metadata built from a listing come from it.
proof fn lemma_manifest_assets_ids(
    entries: Seq<(u128, String)>,
    types: Seq<Option<String>>,
    bundle_id: u128,
    last_modified: i64,
)
    ensures
        forall|i: int| 0 <= i < manifest_assets_spec(entries, types, bundle_id, last_modified).len()
            ==> exists|j: int| 0 <= j < entries.len() && entries[j].0
            == #[trigger] manifest_assets_spec(entries, types, bundle_id, last_modified)[i].0,
    decreases entries.len(),
{
    if entries.len() > 0 && types.len() >= entries.len() {
        let n = entries.len() - 1;
        let front = entries.drop_last();
        lemma_manifest_assets_ids(front, types.subrange(0, n), bundle_id, last_modified);
        let out = manifest_assets_spec(entries, types, bundle_id, last_modified);
        let rest = manifest_assets_spec(front, types.subrange(0, n), bundle_id, last_modified);
        assert forall|i: int| 0 <= i < out.len() implies exists|j: int| 0 <= j < entries.len()
            && entries[j].0 == #[trigger] out[i].0 by {
            if i < rest.len() {
                assert(out[i] == rest[i]);
                let j = choose|j: int| 0 <= j < front.len() && front[j].0 == rest[i].0;
                assert(entries[j] == front[j]);
            } else {
                assert(out[i].0 == entries[n].0);
            }
        }
    }
}

/// An identifier found by path among the entries of a listing is one of its
/// keys.
proof fn lemma_id_at_path_in_listing(entries: Seq<(u128, String)>, path: Seq<char>)
    ensures
        id_at_path(manifest_view(paths_to_ids_spec(entries)), path) matches Some(id) ==> exists|
            j: int,
        | 0 <= j < entries.len() && entries[j].0 == id.0,
    decreases entries.len(),
{
    let v = manifest_view(paths_to_ids_spec(entries));
    if entries.len() > 0 {
        let front = entries.drop_last();
        assert(v.drop_last() =~= manifest_view(paths_to_ids_spec(front)));
        lemma_id_at_path_in_listing(front, path);
        if path_key(v.last().0) != path_key(path) {
            match id_at_path(manifest_view(paths_to_ids_spec(front)), path) {
                Some(id) => {
                    let j = choose|j: int| 0 <= j < front.len() && front[j].0 == id.0;
                    assert(entries[j] == front[j]);
                },
                None => {},
            }
        } else {
            assert(entries[entries.len() - 1].0 == v.last().1.0);
        }
    }
}

} // verus!
