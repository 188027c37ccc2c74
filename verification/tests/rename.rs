use lapiz::rename::{LayerRename, RenameEvent};

#[test]
fn rename_flow_commits_the_typed_name() {
    let mut r = LayerRename::new();
    assert_eq!(r.renaming_layer(), None);
    r.start(7, Some("Layer 1".to_string()));
    assert_eq!(r.renaming_layer(), Some(7));
    assert_eq!(r.rename_value(), "Layer 1");
    r.change("Sky".to_string());
    assert_eq!(r.rename_value(), "Sky");
    assert_eq!(r.commit(8), None);
    assert_eq!(r.renaming_layer(), Some(7));
    assert_eq!(r.commit(7), Some("Sky".to_string()));
    assert_eq!(r.renaming_layer(), None);
    assert_eq!(r.rename_value(), "");
}

#[test]
fn escape_abandons_the_renaming() {
    let mut r = LayerRename::new();
    r.change("ignored".to_string());
    assert_eq!(r.rename_value(), "");
    r.start(3, None);
    assert_eq!(r.renaming_layer(), None);
    r.start(3, Some("Ink".to_string()));
    r.escape();
    assert_eq!(r.renaming_layer(), None);
    assert_eq!(r.rename_value(), "");
    assert_eq!(r.commit(3), None);
}

#[test]
fn panel_events_go_through_update() {
    let mut r = LayerRename::new();
    assert_eq!(r.update(RenameEvent::Change("lost".to_string())), None);
    assert_eq!(r.rename_value(), "");
    assert_eq!(r.update(RenameEvent::Start(5, Some("Base".to_string()))), None);
    assert_eq!(r.update(RenameEvent::Change("Shadow".to_string())), None);
    assert_eq!(r.update(RenameEvent::Commit(6)), None);
    assert_eq!(r.rename_value(), "Shadow");
    assert_eq!(r.update(RenameEvent::Commit(5)), Some("Shadow".to_string()));
    assert_eq!(r.renaming_layer(), None);
    assert_eq!(r.update(RenameEvent::Start(5, Some("Shadow".to_string()))), None);
    assert_eq!(r.update(RenameEvent::Escape), None);
    assert_eq!(r.renaming_layer(), None);
    assert_eq!(r.rename_value(), "");
}
