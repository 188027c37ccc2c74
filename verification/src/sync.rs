//! What the asset index does when it takes in the scan of a bundle: each
//! asset is recorded once (from its first scanned revision), every revision
//! is recorded, and the assets and tags that the index holds for the bundle
//! but the scan no longer finds are removed, as are the bundles that are no
//! longer loaded.

use vstd::prelude::*;
use std::collections::BTreeSet;
use crate::bundle::BundleId;
use crate::index::{TagId, UntypedAssetId};
use crate::manifest::{asset_ids, AssetMetadata, BundleManifest};

verus! {

broadcast use {vstd::std_specs::btree::group_btree_axioms, vstd::laws_cmp::group_laws_cmp};

/// The revision at `i` is the first one scanned for its asset.
pub open spec fn is_first_of_its_asset(ids: Seq<u128>, i: int) -> bool {
    !ids.subrange(0, i).contains(ids[i])
}

/// For each scanned revision, whether it is the first one of its asset: the
/// asset itself (type and bundle) is recorded from that revision.
pub fn first_revisions(assets: &Vec<AssetMetadata>) -> (r: Vec<bool>)
    ensures
        r@.len() == assets@.len(),
        forall|i: int| 0 <= i < r@.len() ==> r@[i] == is_first_of_its_asset(asset_ids(assets@), i),
{
    let ghost ids = asset_ids(assets@);
    let mut seen: BTreeSet<u128> = BTreeSet::new();
    let mut r: Vec<bool> = Vec::new();
    let mut i: usize = 0;
    while i < assets.len()
        invariant
            i <= assets@.len(),
            ids == asset_ids(assets@),
            r@.len() == i,
            seen@ == ids.subrange(0, i as int).to_set(),
            forall|k: int| 0 <= k < i ==> r@[k] == is_first_of_its_asset(ids, k),
        decreases assets@.len() - i,
    {
        let id = assets[i].asset_id.0;
        assert(ids[i as int] == id);
        let inserted = seen.insert(id);
        proof {
            assert(ids.subrange(0, i as int).to_set().contains(id) == ids.subrange(0, i as int).contains(
                id,
            ));
            assert(ids.subrange(0, i + 1) =~= ids.subrange(0, i as int).push(id));
            ids.subrange(0, i as int).lemma_push_to_set_commute(id);
        }
        r.push(inserted);
        i = i + 1;
    }
    r
}

/// The assets that the index holds for a bundle and that its scan no longer
/// finds: they are removed from the index.
pub fn removed_assets(stored: &Vec<UntypedAssetId>, assets: &Vec<AssetMetadata>) -> (r: Vec<
    UntypedAssetId,
>)
    ensures
        r@ == stored@.filter(|id: UntypedAssetId| !asset_ids(assets@).contains(id.0)),
{
    let ghost ids = asset_ids(assets@);
    let mut scanned: BTreeSet<u128> = BTreeSet::new();
    let mut i: usize = 0;
    while i < assets.len()
        invariant
            i <= assets@.len(),
            ids == asset_ids(assets@),
            scanned@ == ids.subrange(0, i as int).to_set(),
        decreases assets@.len() - i,
    {
        let id = assets[i].asset_id.0;
        proof {
            assert(ids.subrange(0, i + 1) =~= ids.subrange(0, i as int).push(id));
            ids.subrange(0, i as int).lemma_push_to_set_commute(id);
        }
        scanned.insert(id);
        i = i + 1;
    }
    assert(ids.subrange(0, assets@.len() as int) =~= ids);
    let ghost pred = |id: UntypedAssetId| !ids.contains(id.0);
    let mut r: Vec<UntypedAssetId> = Vec::new();
    let mut j: usize = 0;
    while j < stored.len()
        invariant
            j <= stored@.len(),
            scanned@ == ids.to_set(),
            pred == (|id: UntypedAssetId| !ids.contains(id.0)),
            r@ == stored@.subrange(0, j as int).filter(pred),
        decreases stored@.len() - j,
    {
        let id = stored[j];
        proof {
            let s1 = stored@.subrange(0, j + 1);
            assert(s1.drop_last() =~= stored@.subrange(0, j as int));
            assert(s1.last() == id);
            assert(ids.to_set().contains(id.0) == ids.contains(id.0));
            assert(pred(id) == !ids.contains(id.0));
            assert(s1 =~= stored@.subrange(0, j as int).push(id));
            stored@.subrange(0, j as int).lemma_filter_push(id, pred);
        }
        if !scanned.contains(&id.0) {
            r.push(id);
        }
        j = j + 1;
    }
    assert(stored@.subrange(0, stored@.len() as int) =~= stored@);
    r
}

/// The tags that the index holds for a bundle and that its manifest no
/// longer defines: they are removed from the index.
pub fn removed_tags(stored: &Vec<TagId>, manifest: &BundleManifest) -> (r: Vec<TagId>)
    ensures
        r@ == stored@.filter(|id: TagId| !manifest.tags@.contains_key(id.0)),
{
    let ghost pred = |id: TagId| !manifest.tags@.contains_key(id.0);
    let mut r: Vec<TagId> = Vec::new();
    let mut j: usize = 0;
    while j < stored.len()
        invariant
            j <= stored@.len(),
            pred == (|id: TagId| !manifest.tags@.contains_key(id.0)),
            r@ == stored@.subrange(0, j as int).filter(pred),
        decreases stored@.len() - j,
    {
        let id = stored[j];
        proof {
            let s1 = stored@.subrange(0, j + 1);
            assert(s1.drop_last() =~= stored@.subrange(0, j as int));
            assert(s1.last() == id);
            assert(pred(id) == !manifest.tags@.contains_key(id.0));
            assert(s1 =~= stored@.subrange(0, j as int).push(id));
            stored@.subrange(0, j as int).lemma_filter_push(id, pred);
        }
        if !manifest.has_tag(id) {
            r.push(id);
        }
        j = j + 1;
    }
    assert(stored@.subrange(0, stored@.len() as int) =~= stored@);
    r
}

/// The bundles that the index holds but that are no longer loaded: they are
/// removed from the index at start-up.
pub fn unloaded_bundles(stored: &Vec<BundleId>, loaded: &Vec<BundleId>) -> (r: Vec<BundleId>)
    ensures
        r@ == stored@.filter(|b: BundleId| !loaded@.contains(b)),
{
    let ghost pred = |b: BundleId| !loaded@.contains(b);
    let mut r: Vec<BundleId> = Vec::new();
    let mut j: usize = 0;
    while j < stored.len()
        invariant
            j <= stored@.len(),
            pred == (|b: BundleId| !loaded@.contains(b)),
            r@ == stored@.subrange(0, j as int).filter(pred),
        decreases stored@.len() - j,
    {
        let id = stored[j];
        proof {
            assert(stored@.subrange(0, j + 1) =~= stored@.subrange(0, j as int).push(id));
            stored@.subrange(0, j as int).lemma_filter_push(id, pred);
        }
        if !contains_bundle(loaded, id) {
            r.push(id);
        }
        j = j + 1;
    }
    assert(stored@.subrange(0, stored@.len() as int) =~= stored@);
    r
}

/// Whether `id` is in `ids`.
fn contains_bundle(ids: &Vec<BundleId>, id: BundleId) -> (r: bool)
    ensures
        r == ids@.contains(id),
{
    let mut i: usize = 0;
    while i < ids.len()
        invariant
            i <= ids@.len(),
            forall|k: int| 0 <= k < i ==> ids@[k] != id,
        decreases ids@.len() - i,
    {
        if ids[i].0 == id.0 {
            assert(ids@[i as int] == id);
            return true;
        }
        i = i + 1;
    }
    false
}

/// Each scanned asset is recorded from exactly one of its revisions: the
/// first one scanned.
pub proof fn lemma_each_asset_recorded_once(ids: Seq<u128>, id: u128)
    requires
        ids.contains(id),
    ensures
        exists|i: int| 0 <= i < ids.len() && ids[i] == id && is_first_of_its_asset(ids, i),
        forall|i: int, j: int|
            0 <= i < ids.len() && 0 <= j < ids.len() && ids[i] == id && ids[j] == id
                && is_first_of_its_asset(ids, i) && is_first_of_its_asset(ids, j) ==> i == j,
{
    ids.index_of_first_ensures(id);
    let k = ids.index_of_first(id).unwrap();
    assert(is_first_of_its_asset(ids, k)) by {
        if ids.subrange(0, k).contains(id) {
            let m = choose|m: int| 0 <= m < k && ids.subrange(0, k)[m] == id;
            assert(ids[m] == id);
        }
    }
    assert forall|i: int, j: int|
        0 <= i < ids.len() && 0 <= j < ids.len() && ids[i] == id && ids[j] == id
            && is_first_of_its_asset(ids, i) && is_first_of_its_asset(ids, j) implies i == j by {
        if i < j {
            assert(ids.subrange(0, j)[i] == id);
        } else if j < i {
            assert(ids.subrange(0, i)[j] == id);
        }
    }
}

/// A sync keeps exactly the stored assets that the scan found: a stored
/// asset is removed if and only if the scan did not find it.
pub proof fn lemma_sync_removes_exactly_missing_assets(
    stored: Seq<UntypedAssetId>,
    scanned: Seq<u128>,
    id: UntypedAssetId,
)
    requires
        stored.contains(id),
    ensures
        stored.filter(|s: UntypedAssetId| !scanned.contains(s.0)).contains(id) <==> !scanned.contains(
            id.0,
        ),
{
    let pred = |s: UntypedAssetId| !scanned.contains(s.0);
    let i = choose|i: int| 0 <= i < stored.len() && stored[i] == id;
    if pred(id) {
        stored.lemma_filter_contains(pred, i);
    }
    if stored.filter(pred).contains(id) {
        let k = choose|k: int| 0 <= k < stored.filter(pred).len() && stored.filter(pred)[k] == id;
        stored.lemma_filter_pred(pred, k);
    }
}

/// A sync keeps exactly the stored tags that the manifest still defines: a
/// stored tag is removed if and only if the manifest lacks it.
pub proof fn lemma_sync_removes_exactly_missing_tags(
    stored: Seq<TagId>,
    defined: Map<u128, String>,
    id: TagId,
)
    requires
        stored.contains(id),
    ensures
        stored.filter(|t: TagId| !defined.contains_key(t.0)).contains(id) <==> !defined.contains_key(
            id.0,
        ),
{
    let pred = |t: TagId| !defined.contains_key(t.0);
    let i = choose|i: int| 0 <= i < stored.len() && stored[i] == id;
    if pred(id) {
        stored.lemma_filter_contains(pred, i);
    }
    if stored.filter(pred).contains(id) {
        let k = choose|k: int| 0 <= k < stored.filter(pred).len() && stored.filter(pred)[k] == id;
        stored.lemma_filter_pred(pred, k);
    }
}

} // verus!
