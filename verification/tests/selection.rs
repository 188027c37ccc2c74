use lapiz::selection::{ActiveLayerChanged, LayerSelection};

const ROOT: u128 = 1;
const BACKGROUND: u128 = 2;

#[test]
fn new_selection_has_background_active_and_selected() {
    let s = LayerSelection::new(BACKGROUND);
    assert_eq!(s.active_layer_id(), BACKGROUND);
    assert_eq!(s.selected_layer_ids(), vec![BACKGROUND]);
    assert!(s.is_selected(BACKGROUND));
    assert!(!s.is_selected(ROOT));
}

#[test]
fn set_active_layer_selects_it_and_reports_change() {
    let mut s = LayerSelection::new(BACKGROUND);
    let change = s.set_active_layer(5, ROOT);
    assert_eq!(change, Some(ActiveLayerChanged { from: BACKGROUND, to: 5 }));
    assert_eq!(s.active_layer_id(), 5);
    assert_eq!(s.selected_layer_ids(), vec![BACKGROUND, 5]);
    // already active: nothing happens
    assert_eq!(s.set_active_layer(5, ROOT), None);
    // the root never becomes active
    assert_eq!(s.set_active_layer(ROOT, ROOT), None);
    assert_eq!(s.active_layer_id(), 5);
}

#[test]
fn set_active_and_clear_select_keeps_only_the_new_layer() {
    let mut s = LayerSelection::new(BACKGROUND);
    s.select_layer(7);
    s.select_layer(8);
    let change = s.set_active_layer_and_clear_select(9, ROOT);
    assert_eq!(change, Some(ActiveLayerChanged { from: BACKGROUND, to: 9 }));
    assert_eq!(s.selected_layer_ids(), vec![9]);
}

#[test]
fn select_layer_appends_once() {
    let mut s = LayerSelection::new(BACKGROUND);
    s.select_layer(3);
    s.select_layer(4);
    s.select_layer(3);
    assert_eq!(s.selected_layer_ids(), vec![BACKGROUND, 3, 4]);
    assert_eq!(s.active_layer_id(), BACKGROUND);
}

#[test]
fn deselect_active_layer_moves_activity_to_first_remaining() {
    let mut s = LayerSelection::new(BACKGROUND);
    s.select_layer(3);
    s.select_layer(4);
    let change = s.deselect_layer(BACKGROUND, ROOT);
    assert_eq!(change, Some(ActiveLayerChanged { from: BACKGROUND, to: 3 }));
    assert_eq!(s.active_layer_id(), 3);
    assert_eq!(s.selected_layer_ids(), vec![3, 4]);
    assert!(s.is_selected(s.active_layer_id()));
}

#[test]
fn deselect_other_layer_keeps_active() {
    let mut s = LayerSelection::new(BACKGROUND);
    s.select_layer(3);
    s.select_layer(4);
    assert_eq!(s.deselect_layer(3, ROOT), None);
    assert_eq!(s.selected_layer_ids(), vec![BACKGROUND, 4]);
    assert_eq!(s.active_layer_id(), BACKGROUND);
    // a layer that is not selected: nothing changes
    assert_eq!(s.deselect_layer(42, ROOT), None);
    assert_eq!(s.selected_layer_ids(), vec![BACKGROUND, 4]);
}

#[test]
fn last_selected_layer_cannot_be_deselected() {
    let mut s = LayerSelection::new(BACKGROUND);
    s.set_active_layer_and_clear_select(6, ROOT);
    assert_eq!(s.selected_layer_ids(), vec![6]);
    s.select_layer(7);
    assert_eq!(s.deselect_layer(7, ROOT), None);
    assert_eq!(s.selected_layer_ids(), vec![6]);
}

#[test]
fn toggle_selection_adds_then_removes() {
    let mut s = LayerSelection::new(BACKGROUND);
    assert_eq!(s.toggle_layer_selection(3, ROOT), None);
    assert_eq!(s.selected_layer_ids(), vec![BACKGROUND, 3]);
    assert_eq!(s.toggle_layer_selection(3, ROOT), None);
    assert_eq!(s.selected_layer_ids(), vec![BACKGROUND]);
    assert_eq!(s.active_layer_id(), BACKGROUND);
}

#[test]
fn toggle_selection_and_active_makes_unselected_layer_active() {
    let mut s = LayerSelection::new(BACKGROUND);
    let change = s.toggle_layer_selection_and_active(3, ROOT);
    assert_eq!(change, Some(ActiveLayerChanged { from: BACKGROUND, to: 3 }));
    assert_eq!(s.selected_layer_ids(), vec![BACKGROUND, 3]);
    let change = s.toggle_layer_selection_and_active(3, ROOT);
    assert_eq!(change, Some(ActiveLayerChanged { from: 3, to: BACKGROUND }));
    assert_eq!(s.selected_layer_ids(), vec![BACKGROUND]);
}

#[test]
fn active_layer_stays_selected_through_a_sequence_of_operations() {
    let mut s = LayerSelection::new(BACKGROUND);
    s.set_active_layer(3, ROOT);
    s.select_layer(4);
    s.deselect_layer(3, ROOT);
    s.toggle_layer_selection(5, ROOT);
    s.toggle_layer_selection_and_active(BACKGROUND, ROOT);
    assert!(s.is_selected(s.active_layer_id()));
}

#[test]
fn plain_click_makes_the_layer_active_alone() {
    let mut s = LayerSelection::new(BACKGROUND);
    s.select_layer(3);
    let rows = vec![5, 4, 3, BACKGROUND];
    let change = s.click_layer(4, false, false, &rows, ROOT);
    assert_eq!(change, Some(ActiveLayerChanged { from: BACKGROUND, to: 4 }));
    assert_eq!(s.selected_layer_ids(), vec![4]);
    // clicking a selected layer keeps the selection
    s.select_layer(5);
    assert_eq!(s.click_layer(5, false, false, &rows, ROOT), Some(ActiveLayerChanged { from: 4, to: 5 }));
    assert_eq!(s.selected_layer_ids(), vec![4, 5]);
}

#[test]
fn ctrl_click_toggles_the_layer() {
    let mut s = LayerSelection::new(BACKGROUND);
    let rows = vec![4, 3, BACKGROUND];
    assert_eq!(s.click_layer(3, true, false, &rows, ROOT), Some(ActiveLayerChanged { from: BACKGROUND, to: 3 }));
    assert_eq!(s.selected_layer_ids(), vec![BACKGROUND, 3]);
    assert_eq!(s.click_layer(3, true, false, &rows, ROOT), Some(ActiveLayerChanged { from: 3, to: BACKGROUND }));
    assert_eq!(s.selected_layer_ids(), vec![BACKGROUND]);
    // the only selected layer stays selected
    assert_eq!(s.click_layer(BACKGROUND, true, false, &rows, ROOT), None);
    assert_eq!(s.selected_layer_ids(), vec![BACKGROUND]);
}

#[test]
fn shift_click_selects_the_range_of_rows() {
    let mut s = LayerSelection::new(BACKGROUND);
    let rows = vec![7, 6, 5, 4, 3, BACKGROUND];
    s.set_active_layer_and_clear_select(3, ROOT);
    let change = s.click_layer(6, false, true, &rows, ROOT);
    assert_eq!(change, Some(ActiveLayerChanged { from: 3, to: 6 }));
    assert_eq!(s.active_layer_id(), 6);
    let mut selected = s.selected_layer_ids();
    selected.sort();
    assert_eq!(selected, vec![3, 4, 5, 6]);
    // a shift-click on the active layer changes nothing
    assert_eq!(s.click_layer(6, false, true, &rows, ROOT), None);
}
