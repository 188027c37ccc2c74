//! Where an asset bundle's files are read and written: which revision comes
//! from the bundle itself and which from its `.modified` directory, where
//! the tag list of an asset lives, and which files found in the `.modified`
//! directory are revisions of known assets.

use vstd::prelude::*;
use crate::bundle::{
    lemma_restore_gives_same_path, lemma_restore_roundtrip, lemma_revision_roundtrip,
    modified_asset_relative_path, modified_bundle_absolute_path, modified_dir_name, or_empty,
    original_path_of,
    parse_revision_from_path, restore_original_path, rev_at, revision_of_path, revision_path,
    BundleId,
};
use crate::index::UntypedAssetId;
use crate::path::{
    extension, file_name, file_stem, path_extension, path_file_name, path_key, path_with_file_name,
    push_component, same_path, with_file_name,
};

verus! {

/// The extension of the file that lists an asset's tags.
pub open spec fn asset_tags_ext() -> Seq<char> {
    seq!['t', 'a', 'g', 's']
}

/// The extension of a tag definition file.
pub open spec fn tag_ext() -> Seq<char> {
    seq!['t', 'a', 'g']
}

/// `PathBuf::join`: an absolute path replaces the base; a relative one is
/// pushed onto it.
pub open spec fn join_path(base: Seq<char>, rel: Seq<char>) -> Seq<char> {
    if rel.len() > 0 && rel[0] == '/' {
        rel
    } else {
        push_component(base, rel)
    }
}

/// `Path::with_added_extension`: the file name gets `.` and `ext` appended;
/// a path without a file name, or an empty extension, is left as it is.
pub open spec fn with_added_extension(p: Seq<char>, ext: Seq<char>) -> Seq<char> {
    match file_name(p) {
        Some(name) => if ext.len() == 0 {
            p
        } else {
            with_file_name(p, name + seq!['.'] + ext)
        },
        None => p,
    }
}

fn join_path_exec(base: &str, rel: &str) -> (r: String)
    ensures
        r@ == join_path(base@, rel@),
{
    let rel_len = rel.unicode_len();
    if rel_len > 0 && rel.get_char(0) == '/' {
        return String::from_str(rel);
    }
    let len = base.unicode_len();
    let owned = String::from_str(base);
    if len > 0 && base.get_char(len - 1) != '/' {
        proof { reveal_strlit("/"); }
        owned.concat("/").concat(rel)
    } else {
        owned.concat(rel)
    }
}

/// The path of the file that lists the tags of the asset at `asset_path`.
pub fn asset_tags_path(asset_path: &str) -> (r: String)
    ensures
        r@ == with_added_extension(asset_path@, asset_tags_ext()),
{
    proof {
        reveal_strlit("tags");
        reveal_strlit(".tags");
    }
    match path_file_name(asset_path) {
        Some(name) => {
            let new_name = String::from_str(name).concat(".tags");
            assert(new_name@ =~= name@ + seq!['.'] + asset_tags_ext());
            path_with_file_name(asset_path, new_name.as_str())
        },
        None => String::from_str(asset_path),
    }
}

/// Where the tags of an asset of a read-only bundle are kept once they have
/// been changed: beside the asset's revisions in the `.modified` directory.
pub fn modified_asset_tags_path(assets_root: &str, bundle_id: &BundleId, asset_path: &str) -> (r:
    String)
    ensures
        r@ == join_path(
            push_component(assets_root@, modified_dir_name(*bundle_id)),
            with_added_extension(asset_path@, asset_tags_ext()),
        ),
{
    let dir = modified_bundle_absolute_path(assets_root, bundle_id);
    let tags = asset_tags_path(asset_path);
    join_path_exec(dir.as_str(), tags.as_str())
}

/// Where a revision of an asset is read from.
#[derive(Clone, Debug, PartialEq, Eq)]
pub enum AssetSource {
    /// From the bundle, at the asset's path.
    Bundle(String),
    /// From the bundle's `.modified` directory, at this path inside it.
    Modified(String),
}

/// The view of an asset source.
pub open spec fn source_view(s: AssetSource) -> (bool, Seq<char>) {
    match s {
        AssetSource::Bundle(p) => (true, p@),
        AssetSource::Modified(p) => (false, p@),
    }
}

/// Where revision `revision` of the asset at `path` is read from: revision 0
/// from the bundle itself, later ones from the `.modified` directory.
pub fn asset_read_source(path: &str, revision: u32) -> (r: AssetSource)
    ensures
        source_view(r) == if revision == 0 {
            (true, path@)
        } else {
            (false, revision_path(path@, revision))
        },
{
    if revision == 0 {
        AssetSource::Bundle(String::from_str(path))
    } else {
        AssetSource::Modified(modified_asset_relative_path(path, revision))
    }
}

/// Where revision `revision` of the asset at `path` is written: revision 0
/// of a writable bundle goes back into the bundle; everything else goes to
/// the `.modified` directory.
pub fn asset_write_target(path: &str, revision: u32, bundle_is_readonly: bool) -> (r: AssetSource)
    ensures
        source_view(r) == if !bundle_is_readonly && revision == 0 {
            (true, path@)
        } else {
            (false, revision_path(path@, revision))
        },
{
    if !bundle_is_readonly && revision == 0 {
        AssetSource::Bundle(String::from_str(path))
    } else {
        AssetSource::Modified(modified_asset_relative_path(path, revision))
    }
}

/// A revision of a known asset found in the `.modified` directory.
#[derive(Clone, Debug, PartialEq, Eq)]
pub struct ModifiedAsset {
    pub asset_id: UntypedAssetId,
    pub relative_path: String,
    pub revision: u32,
}

/// The identifier of the last manifest entry at `path`, as a map from paths
/// to identifiers built from the entries in order keeps it: paths are the
/// same when their components are (`a//b` and `a/b/` are `a/b`).
pub open spec fn id_at_path(manifest: Seq<(Seq<char>, UntypedAssetId)>, path: Seq<char>) -> Option<
    UntypedAssetId,
>
    decreases manifest.len(),
{
    if manifest.len() == 0 {
        None
    } else if path_key(manifest.last().0) == path_key(path) {
        Some(manifest.last().1)
    } else {
        id_at_path(manifest.drop_last(), path)
    }
}

/// The view of manifest entries.
pub open spec fn manifest_view(manifest: Seq<(String, UntypedAssetId)>) -> Seq<
    (Seq<char>, UntypedAssetId),
> {
    manifest.map_values(|e: (String, UntypedAssetId)| (e.0@, e.1))
}

/// What a file at `relative_path` inside the `.modified` directory is: a
/// revision of a known asset when it is not a tag or tag-list file, its name
/// carries a revision, an asset type handles it, and the path it is a
/// revision of is in the manifest.
pub open spec fn classify_modified_spec(
    relative_path: Seq<char>,
    has_serializer: bool,
    manifest: Seq<(Seq<char>, UntypedAssetId)>,
) -> Option<(UntypedAssetId, u32)> {
    let is_tag_file = extension(relative_path) == Some(asset_tags_ext()) || extension(
        relative_path,
    ) == Some(tag_ext());
    if is_tag_file || !has_serializer {
        None
    } else if revision_of_path(relative_path) is None {
        None
    } else if original_path_of(relative_path) is None {
        None
    } else {
        let revision = revision_of_path(relative_path).unwrap();
        let original = original_path_of(relative_path).unwrap();
        match id_at_path(manifest, original) {
            Some(id) => Some((id, revision)),
            None => None,
        }
    }
}

/// Whether an optional text is `tags` or `tag`.
fn is_tag_extension(ext: Option<&str>) -> (r: (bool, bool))
    ensures
        r.0 == (match ext {
            Some(e) => e@ == asset_tags_ext(),
            None => false,
        }),
        r.1 == (match ext {
            Some(e) => e@ == tag_ext(),
            None => false,
        }),
{
    match ext {
        Some(e) => {
            let len = e.unicode_len();
            if len == 4 {
                let b = e.get_char(0) == 't' && e.get_char(1) == 'a' && e.get_char(2) == 'g'
                    && e.get_char(3) == 's';
                proof {
                    if b {
                        assert(e@ =~= asset_tags_ext());
                    } else if e@ == asset_tags_ext() {
                        assert(e@[0] == 't' && e@[1] == 'a' && e@[2] == 'g' && e@[3] == 's');
                    }
                }
                (b, false)
            } else if len == 3 {
                let b = e.get_char(0) == 't' && e.get_char(1) == 'a' && e.get_char(2) == 'g';
                proof {
                    if b {
                        assert(e@ =~= tag_ext());
                    } else if e@ == tag_ext() {
                        assert(e@[0] == 't' && e@[1] == 'a' && e@[2] == 'g');
                    }
                }
                (false, b)
            } else {
                (false, false)
            }
        },
        None => (false, false),
    }
}

/// Finds the identifier of the last manifest entry at the same path as
/// `path`.
fn find_id_at_path(manifest: &Vec<(String, UntypedAssetId)>, path: &String) -> (r: Option<
    UntypedAssetId,
>)
    ensures
        r == id_at_path(manifest_view(manifest@), path@),
{
    let mut i = manifest.len();
    let ghost view = manifest_view(manifest@);
    assert(view.subrange(0, i as int) =~= view);
    while i > 0
        invariant
            i <= manifest@.len(),
            view == manifest_view(manifest@),
            id_at_path(view, path@) == id_at_path(view.subrange(0, i as int), path@),
        decreases i,
    {
        let ghost cur = view.subrange(0, i as int);
        proof {
            assert(cur.drop_last() =~= view.subrange(0, i - 1));
            assert(cur.last() == (manifest@[i - 1].0@, manifest@[i - 1].1));
        }
        if same_path(manifest[i - 1].0.as_str(), path.as_str()) {
            return Some(manifest[i - 1].1);
        }
        i = i - 1;
    }
    None
}

/// What the file at `relative_path` inside the `.modified` directory is, if
/// it is a revision of an asset of the manifest; `has_serializer` says
/// whether an asset type handles files with its extension.
pub fn classify_modified_file(
    relative_path: &str,
    has_serializer: bool,
    manifest: &Vec<(String, UntypedAssetId)>,
) -> (r: Option<ModifiedAsset>)
    ensures
        match r {
            Some(m) => classify_modified_spec(relative_path@, has_serializer, manifest_view(manifest@))
                == Some((m.asset_id, m.revision)) && m.relative_path@ == relative_path@,
            None => classify_modified_spec(relative_path@, has_serializer, manifest_view(manifest@))
                is None,
        },
{
    let (is_tags, is_tag) = is_tag_extension(path_extension(relative_path));
    if is_tags || is_tag {
        return None;
    }
    let revision = match parse_revision_from_path(relative_path) {
        Some(r) => r,
        None => return None,
    };
    if !has_serializer {
        return None;
    }
    let original = match restore_original_path(relative_path) {
        Some(p) => p,
        None => return None,
    };
    let asset_id = match find_id_at_path(manifest, &original) {
        Some(id) => id,
        None => return None,
    };
    Some(ModifiedAsset { asset_id, relative_path: String::from_str(relative_path), revision })
}

/// A revision written by `asset_write_target` for a read-only bundle, or
/// for a later revision, is found again when the `.modified` directory is
/// scanned: when the asset's path is in the manifest (and no other entry
/// with a later position has the same path), its stem holds no `.rev`, it has
/// an extension other than `tags` and `tag`, and an asset type handles it.
pub proof fn lemma_written_revision_is_scanned(
    path: Seq<char>,
    revision: u32,
    manifest: Seq<(Seq<char>, UntypedAssetId)>,
    id: UntypedAssetId,
)
    requires
        !(exists|i: int| rev_at(or_empty(file_stem(path)), i)),
        extension(path) is Some,
        extension(path) != Some(asset_tags_ext()),
        extension(path) != Some(tag_ext()),
        id_at_path(manifest, path) == Some(id),
    ensures
        classify_modified_spec(revision_path(path, revision), true, manifest) == Some(
            (id, revision),
        ),
{
    lemma_revision_roundtrip(path, revision);
    lemma_restore_roundtrip(path, revision);
    lemma_restore_gives_same_path(path, revision);
    let original = original_path_of(revision_path(path, revision)).unwrap();
    lemma_id_at_same_path(manifest, original, path);
}

/// Paths with the same components find the same manifest entry.
pub proof fn lemma_id_at_same_path(manifest: Seq<(Seq<char>, UntypedAssetId)>, a: Seq<char>, b: Seq<char>)
    requires
        path_key(a) == path_key(b),
    ensures
        id_at_path(manifest, a) == id_at_path(manifest, b),
    decreases manifest.len(),
{
    if manifest.len() > 0 {
        lemma_id_at_same_path(manifest.drop_last(), a, b);
    }
}

} // verus!
