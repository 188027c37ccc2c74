use lapiz::bundle::BundleId;
use lapiz::bundle_files::{
    asset_read_source, asset_tags_path, asset_write_target, classify_modified_file,
    modified_asset_tags_path, AssetSource,
};
use lapiz::index::UntypedAssetId;
use lapiz::path::same_path;

fn manifest() -> Vec<(String, UntypedAssetId)> {
    vec![
        ("brushes/round.brush".to_string(), UntypedAssetId(10)),
        ("brushes/flat.brush".to_string(), UntypedAssetId(11)),
        ("brushes/round.brush".to_string(), UntypedAssetId(12)),
    ]
}

#[test]
fn tag_list_sits_beside_the_asset() {
    assert_eq!(asset_tags_path("brushes/round.brush"), "brushes/round.brush.tags");
    assert_eq!(asset_tags_path("round"), "round.tags");
    assert_eq!(asset_tags_path(""), "");
}

#[test]
fn modified_tag_list_lives_in_the_modified_directory() {
    let id = BundleId::new(1);
    assert_eq!(
        modified_asset_tags_path("/assets", &id, "brushes/round.brush"),
        "/assets/00000000-0000-0000-0000-000000000001.modified/brushes/round.brush.tags"
    );
}

#[test]
fn revision_zero_is_read_from_the_bundle() {
    assert_eq!(
        asset_read_source("brushes/round.brush", 0),
        AssetSource::Bundle("brushes/round.brush".to_string())
    );
    assert_eq!(
        asset_read_source("brushes/round.brush", 2),
        AssetSource::Modified("brushes/round.rev2.brush".to_string())
    );
}

#[test]
fn read_only_bundles_are_written_to_the_modified_directory() {
    assert_eq!(
        asset_write_target("a/b.png", 0, false),
        AssetSource::Bundle("a/b.png".to_string())
    );
    assert_eq!(
        asset_write_target("a/b.png", 0, true),
        AssetSource::Modified("a/b.rev0.png".to_string())
    );
    assert_eq!(
        asset_write_target("a/b.png", 4, false),
        AssetSource::Modified("a/b.rev4.png".to_string())
    );
}

#[test]
fn modified_revision_of_known_asset_is_found() {
    let found = classify_modified_file("brushes/flat.rev3.brush", true, &manifest()).unwrap();
    assert_eq!(found.asset_id, UntypedAssetId(11));
    assert_eq!(found.revision, 3);
    assert_eq!(found.relative_path, "brushes/flat.rev3.brush");
}

#[test]
fn last_manifest_entry_wins_for_a_shared_path() {
    let found = classify_modified_file("brushes/round.rev1.brush", true, &manifest()).unwrap();
    assert_eq!(found.asset_id, UntypedAssetId(12));
}

#[test]
fn modified_files_that_are_not_revisions_are_skipped() {
    let m = manifest();
    assert_eq!(classify_modified_file("brushes/round.brush.tags", true, &m), None);
    assert_eq!(classify_modified_file("tags/red.rev1.tag", true, &m), None);
    assert_eq!(classify_modified_file("brushes/round.brush", true, &m), None);
    assert_eq!(classify_modified_file("brushes/round.rev1.brush", false, &m), None);
    assert_eq!(classify_modified_file("brushes/other.rev1.brush", true, &m), None);
    assert_eq!(classify_modified_file("brushes/round.revx.brush", true, &m), None);
}

#[test]
fn written_revision_is_scanned_back() {
    let target = asset_write_target("brushes/flat.brush", 7, true);
    let path = match target {
        AssetSource::Modified(p) => p,
        AssetSource::Bundle(_) => panic!("expected a modified path"),
    };
    let found = classify_modified_file(&path, true, &manifest()).unwrap();
    assert_eq!(found.asset_id, UntypedAssetId(11));
    assert_eq!(found.revision, 7);
}

#[test]
fn manifest_paths_match_by_components() {
    let manifest = vec![
        ("brushes//flat.brush".to_string(), UntypedAssetId(21)),
        ("./tips/round.brush".to_string(), UntypedAssetId(22)),
    ];
    let found = classify_modified_file("brushes/flat.rev2.brush", true, &manifest).unwrap();
    assert_eq!(found.asset_id, UntypedAssetId(21));
    // a leading `.` is a component of its own, as `Path` sees it
    assert_eq!(classify_modified_file("tips/round.rev1.brush", true, &manifest), None);
}

#[test]
fn same_path_agrees_with_std_path() {
    let samples = [
        "", ".", "./", "..", "/", "//", "a", "a/", "a//b", "a/b", "a/./b", "a/b/.", "./a/b",
        "/a/b", "//a/b", "/./a", "a/../b", "a/b/", ".a", "a/.b", "../a",
    ];
    for x in samples {
        for y in samples {
            assert_eq!(
                same_path(x, y),
                std::path::Path::new(x) == std::path::Path::new(y),
                "{x:?} vs {y:?}"
            );
        }
    }
}
