use lapiz::path::same_path;
use lapiz::bundle::{
    modified_asset_relative_path, modified_bundle_absolute_path, parse_revision_from_path,
    restore_original_path, BundleId,
};

#[test]
fn modified_bundle_path_names_bundle_uuid() {
    let id = BundleId::new(0x0123_4567_89ab_cdef_0011_2233_4455_6677);
    assert_eq!(
        modified_bundle_absolute_path("/assets", &id),
        "/assets/01234567-89ab-cdef-0011-223344556677.modified"
    );
    assert_eq!(
        modified_bundle_absolute_path("/assets/", &BundleId::new(1)),
        "/assets/00000000-0000-0000-0000-000000000001.modified"
    );
    assert_eq!(
        modified_bundle_absolute_path("", &BundleId::new(1)),
        "00000000-0000-0000-0000-000000000001.modified"
    );
}

#[test]
fn revision_path_inserts_revision_before_extension() {
    assert_eq!(
        modified_asset_relative_path("brushes/sample.lapiz", 3),
        "brushes/sample.rev3.lapiz"
    );
    assert_eq!(modified_asset_relative_path("first.asset", 8), "first.rev8.asset");
    assert_eq!(modified_asset_relative_path("noext", 12), "noext.rev12.");
    assert_eq!(modified_asset_relative_path("a/b/c.tar.gz", 0), "a/b/c.tar.rev0.gz");
    assert_eq!(modified_asset_relative_path(".hidden", 1), ".hidden.rev1.");
}

#[test]
fn revision_is_parsed_from_modified_path() {
    assert_eq!(parse_revision_from_path("first.rev8.asset"), Some(8));
    assert_eq!(parse_revision_from_path("second.rev2.asset"), Some(2));
    assert_eq!(parse_revision_from_path("dir/x.rev4294967295.y"), Some(4294967295));
    assert_eq!(parse_revision_from_path("dir/x.rev4294967296.y"), None);
    assert_eq!(parse_revision_from_path("x.rev+5.y"), Some(5));
    assert_eq!(parse_revision_from_path("x.rev.y"), None);
    assert_eq!(parse_revision_from_path("x.rev1.rev2.y"), None);
    assert_eq!(parse_revision_from_path("plain.asset"), None);
    assert_eq!(parse_revision_from_path("x.rev3a.y"), None);
    assert_eq!(parse_revision_from_path(""), None);
}

#[test]
fn original_path_is_restored_from_modified_path() {
    assert_eq!(
        restore_original_path("brushes/sample.rev3.lapiz"),
        Some("brushes/sample.lapiz".to_string())
    );
    assert_eq!(
        restore_original_path("second.rev1.asset"),
        Some("second.asset".to_string())
    );
    assert_eq!(restore_original_path("plain.asset"), None);
    assert_eq!(restore_original_path("noext.rev2."), Some("noext.".to_string()));
    assert_eq!(restore_original_path("noext.rev2"), None);
}

#[test]
fn revision_roundtrip_on_sample_paths() {
    for path in ["brushes/sample.lapiz", "a/b/c.tar.gz", "x.y"] {
        for revision in [0u32, 1, 9, 10, 12345, u32::MAX] {
            let modified = modified_asset_relative_path(path, revision);
            assert_eq!(parse_revision_from_path(&modified), Some(revision));
            assert_eq!(restore_original_path(&modified), Some(path.to_string()));
        }
    }
}

#[test]
fn restored_path_is_the_same_path_whatever_its_separators() {
    for p in ["a//b.x", "a/./b.x", "./brushes//round.brush", "/abs/dir/f.png", "dir/sub.x/"] {
        if let Some(restored) = restore_original_path(&modified_asset_relative_path(p, 4)) {
            assert!(same_path(&restored, p), "{p:?} gave {restored:?}");
        }
    }
    assert_eq!(restore_original_path(&modified_asset_relative_path("a//b.x", 4)), Some("a/b.x".to_string()));
}

#[test]
fn different_bundles_get_different_modified_dirs() {
    let a = modified_bundle_absolute_path("/assets", &BundleId::new(0x10));
    let b = modified_bundle_absolute_path("/assets", &BundleId::new(0x1));
    let c = modified_bundle_absolute_path("/assets", &BundleId::new(0x1 << 124));
    assert_ne!(a, b);
    assert_ne!(b, c);
    assert_ne!(a, c);
    assert_eq!(a, modified_bundle_absolute_path("/assets", &BundleId::new(0x10)));
}
