//! Asset and tag identifiers, the filters by which assets and tags are
//! queried from the asset index, and the decisions that the index takes on
//! what it has read back from its tables.

use vstd::prelude::*;
use std::marker::PhantomData;
use crate::bundle::BundleId;

verus! {

/// The identifier of an asset, whatever its type (a UUID, held as its
/// 128-bit value).
#[derive(Clone, Copy, Debug, PartialEq, Eq, Hash, PartialOrd, Ord, Structural)]
pub struct UntypedAssetId(pub u128);

/// The identifier of a tag (a UUID, held as its 128-bit value).
#[derive(Clone, Copy, Debug, PartialEq, Eq, Hash, PartialOrd, Ord, Structural)]
pub struct TagId(pub u128);

/// A kind of asset, known to the index by its type name.
///
/// Implemented by the users of the library for their asset types.
pub trait Asset {
    /// The name under which assets of this kind are indexed.
    const TYPE_NAME: &'static str;
}

/// Whether an indexed item had to be refreshed.
#[derive(Clone, Copy, Debug, PartialEq, Eq, Structural)]
pub enum ItemStatus {
    UpToDate,
    Outdated,
}

/// A query for assets of the kind `T`.
pub struct AssetFilter<T: Asset> {
    tag: Option<TagId>,
    bundle: Option<BundleId>,
    is_deleted: bool,
    _marker: PhantomData<T>,
}

/// A query for assets: of a type, with a tag, in a bundle, deleted or not.
pub struct UntypedAssetFilter {
    pub ty: Option<String>,
    pub tag: Option<TagId>,
    pub bundle: Option<BundleId>,
    pub is_deleted: bool,
}

/// A query for tags: `asset_ty` is `None` for tags of every asset type,
/// `Some(None)` for tags that apply to all asset types, and `Some(Some(t))`
/// for tags of the asset type `t`.
pub struct TagFilter {
    pub asset_ty: Option<Option<String>>,
    pub is_deleted: bool,
}

impl<T: Asset> AssetFilter<T> {
    /// The tag the assets must have, if any.
    pub closed spec fn spec_tag(&self) -> Option<TagId> {
        self.tag
    }

    /// The bundle the assets must come from, if any.
    pub closed spec fn spec_bundle(&self) -> Option<BundleId> {
        self.bundle
    }

    /// Whether deleted assets are queried instead of live ones.
    pub closed spec fn spec_is_deleted(&self) -> bool {
        self.is_deleted
    }

    /// All live assets of the kind `T`.
    pub fn new() -> (r: Self)
        ensures
            r.spec_tag() is None,
            r.spec_bundle() is None,
            !r.spec_is_deleted(),
    {
        AssetFilter { tag: None, bundle: None, is_deleted: false, _marker: PhantomData }
    }

    /// Only assets with the tag `tag`.
    pub fn with_tag(self, tag: TagId) -> (r: Self)
        ensures
            r.spec_tag() == Some(tag),
            r.spec_bundle() == self.spec_bundle(),
            r.spec_is_deleted() == self.spec_is_deleted(),
    {
        AssetFilter { tag: Some(tag), ..self }
    }

    /// Only assets of the bundle `bundle`.
    pub fn with_bundle(self, bundle: BundleId) -> (r: Self)
        ensures
            r.spec_tag() == self.spec_tag(),
            r.spec_bundle() == Some(bundle),
            r.spec_is_deleted() == self.spec_is_deleted(),
    {
        AssetFilter { bundle: Some(bundle), ..self }
    }

    /// Deleted assets instead of live ones, or the reverse.
    pub fn with_deleted(self, is_deleted: bool) -> (r: Self)
        ensures
            r.spec_tag() == self.spec_tag(),
            r.spec_bundle() == self.spec_bundle(),
            r.spec_is_deleted() == is_deleted,
    {
        AssetFilter { is_deleted, ..self }
    }

    /// The same query with the type fixed to `T`'s type name.
    pub fn into_untyped(self) -> (r: UntypedAssetFilter)
        ensures
            r.ty matches Some(t) && t@ == T::TYPE_NAME@,
            r.tag == self.spec_tag(),
            r.bundle == self.spec_bundle(),
            r.is_deleted == self.spec_is_deleted(),
    {
        UntypedAssetFilter {
            ty: Some(String::from_str(T::TYPE_NAME)),
            tag: self.tag,
            bundle: self.bundle,
            is_deleted: self.is_deleted,
        }
    }
}

impl UntypedAssetFilter {
    /// All live assets.
    pub fn new() -> (r: Self)
        ensures
            r.ty is None,
            r.tag is None,
            r.bundle is None,
            !r.is_deleted,
    {
        UntypedAssetFilter { ty: None, tag: None, bundle: None, is_deleted: false }
    }
}

impl TagFilter {
    /// All live tags.
    pub fn new() -> (r: Self)
        ensures
            r.asset_ty is None,
            !r.is_deleted,
    {
        TagFilter { asset_ty: None, is_deleted: false }
    }

    /// The live tags of the asset kind `T`.
    pub fn of_asset<T: Asset>() -> (r: Self)
        ensures
            r.asset_ty matches Some(Some(t)) && t@ == T::TYPE_NAME@,
            !r.is_deleted,
    {
        TagFilter { asset_ty: Some(Some(String::from_str(T::TYPE_NAME))), is_deleted: false }
    }

    /// How the tag query receives the asset type: a kind (0: any tag, 1:
    /// tags for every type, 2: tags of one type) and that one type.
    pub fn query_params(&self) -> (r: (u8, Option<String>))
        ensures
            match self.asset_ty {
                None => r.0 == 0 && r.1 is None,
                Some(None) => r.0 == 1 && r.1 is None,
                Some(Some(t)) => r.0 == 2 && (r.1 matches Some(u) && u@ == t@),
            },
    {
        match &self.asset_ty {
            None => (0, None),
            Some(None) => (1, None),
            Some(Some(t)) => (2, Some(t.clone())),
        }
    }
}

/// A tag: which bundle defines it, where, under which name, and for which
/// asset type (none: for every type).
pub struct Tag {
    pub id: TagId,
    pub bundle_id: BundleId,
    pub relative_path: String,
    pub name: String,
    pub asset_ty: Option<String>,
}

/// What the index holds of a tag: its bundle, asset type, modification time
/// and whether it is deleted.
pub struct StoredTag {
    pub bundle_id: BundleId,
    pub asset_ty: Option<String>,
    pub last_modified: i64,
    pub is_deleted: bool,
}

/// Why an operation on the asset index failed.
pub enum AssetError {
    /// No live asset has the identifier.
    AssetNotFound(UntypedAssetId),
    /// The bundle's manifest has no path for the asset.
    AssetPathNotFound(UntypedAssetId),
    /// No live tag has the identifier.
    TagNotFound(TagId),
    /// A tag is defined in two bundles.
    DuplicateTagDefinition { tag_id: TagId, first_bundle_id: BundleId, second_bundle_id: BundleId },
    /// A tag changed the asset type it applies to.
    TagAssetTypeChanged {
        tag_id: TagId,
        current_asset_ty: Option<String>,
        new_asset_ty: Option<String>,
    },
    /// A tag of one asset type was put on an asset of another.
    InvalidTagAssetType {
        tag_id: TagId,
        asset_id: UntypedAssetId,
        asset_ty: String,
        expected_ty: String,
    },
    /// The asset already has the tag.
    TagAlreadyAssigned { asset_id: UntypedAssetId, tag_id: TagId },
    /// The asset does not have the tag.
    TagNotAssigned { asset_id: UntypedAssetId, tag_id: TagId },
}

/// The view of an optional text.
pub open spec fn opt_view(t: Option<String>) -> Option<Seq<char>> {
    match t {
        Some(s) => Some(s@),
        None => None,
    }
}

/// What the index does with a tag that a bundle defines.
#[derive(Clone, Copy, Debug, PartialEq, Eq, Structural)]
pub enum TagUpsert {
    /// The tag is new: insert it.
    Insert,
    /// Keep the stored tag as it is.
    Keep,
    /// Update the stored tag's path, name and modification time.
    Update,
}

/// Compares two optional texts.
fn same_opt_text(a: &Option<String>, b: &Option<String>) -> (r: bool)
    ensures
        r == (opt_view(*a) == opt_view(*b)),
{
    match (a, b) {
        (Some(x), Some(y)) => x.eq(y),
        (None, None) => true,
        _ => false,
    }
}

/// Decides what to do with `tag`, modified at `last_modified`, given what
/// the index holds of it: a new tag is inserted; a tag of another bundle is
/// a duplicate definition; a deleted tag is kept deleted; a tag whose asset
/// type changed is refused; an unchanged modification time keeps the stored
/// tag; otherwise the stored tag is updated.
pub fn decide_tag_upsert(stored: Option<StoredTag>, tag: &Tag, last_modified: i64) -> (r: Result<
    TagUpsert,
    AssetError,
>)
    ensures
        match stored {
            None => r == Ok::<TagUpsert, AssetError>(TagUpsert::Insert),
            Some(s) => if s.bundle_id != tag.bundle_id {
                r matches Err(AssetError::DuplicateTagDefinition {
                    tag_id,
                    first_bundle_id,
                    second_bundle_id,
                }) && tag_id == tag.id && first_bundle_id == s.bundle_id && second_bundle_id
                    == tag.bundle_id
            } else if s.is_deleted {
                r == Ok::<TagUpsert, AssetError>(TagUpsert::Keep)
            } else if opt_view(s.asset_ty) != opt_view(tag.asset_ty) {
                r matches Err(AssetError::TagAssetTypeChanged {
                    tag_id,
                    current_asset_ty,
                    new_asset_ty,
                }) && tag_id == tag.id && opt_view(current_asset_ty) == opt_view(s.asset_ty)
                    && opt_view(new_asset_ty) == opt_view(tag.asset_ty)
            } else if s.last_modified == last_modified {
                r == Ok::<TagUpsert, AssetError>(TagUpsert::Keep)
            } else {
                r == Ok::<TagUpsert, AssetError>(TagUpsert::Update)
            },
        },
{
    match stored {
        None => Ok(TagUpsert::Insert),
        Some(s) => {
            if s.bundle_id != tag.bundle_id {
                return Err(
                    AssetError::DuplicateTagDefinition {
                        tag_id: tag.id,
                        first_bundle_id: s.bundle_id,
                        second_bundle_id: tag.bundle_id,
                    },
                );
            }
            if s.is_deleted {
                return Ok(TagUpsert::Keep);
            }
            if !same_opt_text(&s.asset_ty, &tag.asset_ty) {
                let new_asset_ty = match &tag.asset_ty {
                    Some(t) => Some(t.clone()),
                    None => None,
                };
                return Err(
                    AssetError::TagAssetTypeChanged {
                        tag_id: tag.id,
                        current_asset_ty: s.asset_ty,
                        new_asset_ty,
                    },
                );
            }
            if s.last_modified == last_modified {
                return Ok(TagUpsert::Keep);
            }
            Ok(TagUpsert::Update)
        },
    }
}

/// Checks that a bundle may define `tag`, given the bundle that already
/// defines a tag with its identifier, if any.
pub fn check_tag_owner(existing_bundle_id: Option<BundleId>, tag: &Tag) -> (r: Result<
    (),
    AssetError,
>)
    ensures
        match existing_bundle_id {
            Some(b) => if b != tag.bundle_id {
                r matches Err(AssetError::DuplicateTagDefinition {
                    tag_id,
                    first_bundle_id,
                    second_bundle_id,
                }) && tag_id == tag.id && first_bundle_id == b && second_bundle_id
                    == tag.bundle_id
            } else {
                r is Ok
            },
            None => r is Ok,
        },
{
    match existing_bundle_id {
        Some(b) => {
            if b != tag.bundle_id {
                return Err(
                    AssetError::DuplicateTagDefinition {
                        tag_id: tag.id,
                        first_bundle_id: b,
                        second_bundle_id: tag.bundle_id,
                    },
                );
            }
            Ok(())
        },
        None => Ok(()),
    }
}

/// Checks that the tag `tag_id` may be put on the asset `asset_id`, given the
/// type of the live asset (`None`: no such asset) and the asset type of the
/// live tag (`None`: no such tag; `Some(None)`: a tag for every type).
pub fn check_tag_assignment(
    asset_id: UntypedAssetId,
    tag_id: TagId,
    asset_ty: Option<String>,
    tag_asset_ty: Option<Option<String>>,
) -> (r: Result<(), AssetError>)
    ensures
        match asset_ty {
            None => r matches Err(AssetError::AssetNotFound(id)) && id == asset_id,
            Some(a) => match tag_asset_ty {
                None => r matches Err(AssetError::TagNotFound(id)) && id == tag_id,
                Some(None) => r is Ok,
                Some(Some(e)) => if a@ == e@ {
                    r is Ok
                } else {
                    r matches Err(AssetError::InvalidTagAssetType {
                        tag_id: t,
                        asset_id: s,
                        asset_ty: got,
                        expected_ty: want,
                    }) && t == tag_id && s == asset_id && got@ == a@ && want@ == e@
                },
            },
        },
{
    let asset_ty = match asset_ty {
        Some(t) => t,
        None => return Err(AssetError::AssetNotFound(asset_id)),
    };
    let tag_asset_ty = match tag_asset_ty {
        Some(t) => t,
        None => return Err(AssetError::TagNotFound(tag_id)),
    };
    match tag_asset_ty {
        Some(expected_ty) => {
            if !asset_ty.eq(&expected_ty) {
                return Err(
                    AssetError::InvalidTagAssetType { tag_id, asset_id, asset_ty, expected_ty },
                );
            }
            Ok(())
        },
        None => Ok(()),
    }
}

/// The status of a bundle after its upsert, from whether the upsert wrote a
/// row (it writes one only when the bundle is new or its modification time
/// changed).
pub fn bundle_upsert_status(row_written: bool) -> (r: ItemStatus)
    ensures
        r == (if row_written { ItemStatus::Outdated } else { ItemStatus::UpToDate }),
{
    if row_written {
        ItemStatus::Outdated
    } else {
        ItemStatus::UpToDate
    }
}

/// The result of deleting or restoring a tag, from the number of rows the
/// statement changed.
pub fn tag_change_result(tag_id: TagId, changed_rows: usize) -> (r: Result<(), AssetError>)
    ensures
        changed_rows == 0 ==> (r matches Err(AssetError::TagNotFound(id)) && id == tag_id),
        changed_rows != 0 ==> r is Ok,
{
    if changed_rows == 0 {
        Err(AssetError::TagNotFound(tag_id))
    } else {
        Ok(())
    }
}

/// The result of deleting or restoring an asset, from the number of rows the
/// statement changed.
pub fn asset_change_result(asset_id: UntypedAssetId, changed_rows: usize) -> (r: Result<
    (),
    AssetError,
>)
    ensures
        changed_rows == 0 ==> (r matches Err(AssetError::AssetNotFound(id)) && id == asset_id),
        changed_rows != 0 ==> r is Ok,
{
    if changed_rows == 0 {
        Err(AssetError::AssetNotFound(asset_id))
    } else {
        Ok(())
    }
}

/// The result of putting a tag on an asset, from the number of rows
/// inserted (none when the tag was already there).
pub fn tag_assign_result(asset_id: UntypedAssetId, tag_id: TagId, inserted_rows: usize) -> (r:
    Result<(), AssetError>)
    ensures
        inserted_rows == 0 ==> (r matches Err(AssetError::TagAlreadyAssigned { asset_id: a, tag_id: t })
            && a == asset_id && t == tag_id),
        inserted_rows != 0 ==> r is Ok,
{
    if inserted_rows == 0 {
        Err(AssetError::TagAlreadyAssigned { asset_id, tag_id })
    } else {
        Ok(())
    }
}

/// The result of taking a tag off an asset, from whether the live tag
/// exists and the number of rows deleted.
pub fn tag_unassign_result(
    asset_id: UntypedAssetId,
    tag_id: TagId,
    tag_exists: bool,
    deleted_rows: usize,
) -> (r: Result<(), AssetError>)
    ensures
        !tag_exists ==> (r matches Err(AssetError::TagNotFound(t)) && t == tag_id),
        tag_exists && deleted_rows == 0 ==> (r matches Err(AssetError::TagNotAssigned { asset_id: a, tag_id: t })
            && a == asset_id && t == tag_id),
        tag_exists && deleted_rows != 0 ==> r is Ok,
{
    if !tag_exists {
        return Err(AssetError::TagNotFound(tag_id));
    }
    if deleted_rows == 0 {
        return Err(AssetError::TagNotAssigned { asset_id, tag_id });
    }
    Ok(())
}

/// Which revision of an asset takes the changes made in memory.
#[derive(Clone, Copy, Debug, PartialEq, Eq, Structural)]
pub enum EditRevision {
    /// The latest revision is already held in memory: it is reused.
    Reuse(u32),
    /// A new in-memory revision, one past the latest, is created.
    Create(u32),
}

/// The revision that edits of an asset go to, given its latest revision and
/// whether that one is held in memory.
pub fn edit_revision(latest: u32, in_memory: bool) -> (r: EditRevision)
    requires
        !in_memory ==> latest < u32::MAX,
    ensures
        r == if in_memory {
            EditRevision::Reuse(latest)
        } else {
            EditRevision::Create((latest + 1) as u32)
        },
{
    if in_memory {
        EditRevision::Reuse(latest)
    } else {
        EditRevision::Create(latest + 1)
    }
}

} // verus!
