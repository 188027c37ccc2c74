use lapiz::recent::{recent_file_thumbnail_path, thumbnail_path_for_hash, RecentFiles};

fn names(recent: &RecentFiles) -> Vec<(String, String)> {
    recent
        .files
        .iter()
        .map(|r| (r.path_or_uri.clone(), r.name.clone()))
        .collect()
}

#[test]
fn reopening_document_keeps_one_record_and_updates_its_name() {
    let mut recent = RecentFiles { files: Vec::new() };
    recent.update("content://documents/123".into(), "old.png".into());
    recent.update("content://documents/456".into(), "other.png".into());
    recent.update("content://documents/123".into(), "new.png".into());

    assert_eq!(recent.files.len(), 2);
    assert_eq!(recent.files[1].path_or_uri, "content://documents/123");
    assert_eq!(recent.files[1].name, "new.png");
}

#[test]
fn new_document_is_appended_last() {
    let mut recent = RecentFiles { files: Vec::new() };
    recent.update("a.png".into(), "A".into());
    recent.update("b.png".into(), "B".into());
    recent.update("c.png".into(), "C".into());
    assert_eq!(
        names(&recent),
        vec![
            ("a.png".to_string(), "A".to_string()),
            ("b.png".to_string(), "B".to_string()),
            ("c.png".to_string(), "C".to_string()),
        ]
    );
}

#[test]
fn reopening_moves_record_to_end_keeping_order_of_others() {
    let mut recent = RecentFiles { files: Vec::new() };
    recent.update("a.png".into(), "A".into());
    recent.update("b.png".into(), "B".into());
    recent.update("c.png".into(), "C".into());
    recent.update("a.png".into(), "A2".into());
    assert_eq!(
        names(&recent),
        vec![
            ("b.png".to_string(), "B".to_string()),
            ("c.png".to_string(), "C".to_string()),
            ("a.png".to_string(), "A2".to_string()),
        ]
    );
}

#[test]
fn thumbnail_path_uses_hash_uuid() {
    let source = "content://documents/123";
    let hash = xxhash_rust::xxh3::xxh3_128(source.as_bytes());
    let expected = format!("/cache/file_thumbnails/{}.png", uuid::Uuid::from_u128(hash));
    assert_eq!(recent_file_thumbnail_path("/cache", source), expected);
    assert_eq!(recent_file_thumbnail_path("/cache/", source), expected);
    assert_ne!(
        recent_file_thumbnail_path("/cache", "content://documents/456"),
        expected
    );
}

#[test]
fn thumbnail_path_names_the_file_after_the_hash() {
    assert_eq!(
        thumbnail_path_for_hash("/cache", 0x0123_4567_89ab_cdef_0011_2233_4455_6677),
        "/cache/file_thumbnails/01234567-89ab-cdef-0011-223344556677.png"
    );
    assert_eq!(
        thumbnail_path_for_hash("", 1),
        "file_thumbnails/00000000-0000-0000-0000-000000000001.png"
    );
}
