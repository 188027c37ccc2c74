use lapiz::main_view::{
    canvas_anchor_after, canvas_dock_target, count_ones, is_modifier_key,
    modifier_change_is_keydown, press_is_recorded, CanvasDockTarget, KeyCode,
};

#[test]
fn counts_set_bits() {
    assert_eq!(count_ones(0), 0);
    assert_eq!(count_ones(0b1011), 3);
    assert_eq!(count_ones(u32::MAX), 32);
}

#[test]
fn holding_more_modifiers_is_a_keydown() {
    assert!(modifier_change_is_keydown(0b0000, 0b0100));
    assert!(modifier_change_is_keydown(0b0001, 0b1001));
    assert!(!modifier_change_is_keydown(0b1001, 0b0001));
    assert!(!modifier_change_is_keydown(0b0001, 0b0010));
    assert!(!modifier_change_is_keydown(0, 0));
}

#[test]
fn canvases_gather_in_the_group_of_the_first() {
    let mut anchor: Option<u64> = None;
    assert_eq!(canvas_dock_target(anchor), CanvasDockTarget::Default);
    anchor = canvas_anchor_after(anchor, Some(7));
    assert_eq!(anchor, Some(7));
    assert_eq!(canvas_dock_target(anchor), CanvasDockTarget::Group(7));
    anchor = canvas_anchor_after(anchor, Some(9));
    assert_eq!(anchor, Some(7));
    assert_eq!(canvas_anchor_after(None::<u64>, None), None);
}

#[test]
fn modifier_presses_are_not_recorded() {
    assert!(is_modifier_key(KeyCode::ShiftLeft));
    assert!(is_modifier_key(KeyCode::Meta));
    assert!(!is_modifier_key(KeyCode::Other));
    assert!(!press_is_recorded(KeyCode::ControlRight, false));
    assert!(press_is_recorded(KeyCode::Other, false));
    assert!(!press_is_recorded(KeyCode::Other, true));
}
