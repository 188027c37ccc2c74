use lapiz::canvas::{construct_canvas_dock_id, pointer_step, CanvasId, PointerEventKind, PointerHandler};

#[test]
fn canvas_dock_id_names_canvas_uuid() {
    assert_eq!(
        construct_canvas_dock_id(CanvasId(0xffff_0000_0000_0000_0000_0000_0000_00ab)),
        "canvas_ffff0000-0000-0000-0000-0000000000ab"
    );
    let expected = format!("canvas_{}", uuid::Uuid::from_u128(42));
    assert_eq!(construct_canvas_dock_id(CanvasId(42)), expected);
}

#[test]
fn different_canvases_get_different_dock_ids() {
    assert_ne!(construct_canvas_dock_id(CanvasId(1)), construct_canvas_dock_id(CanvasId(16)));
    assert_ne!(construct_canvas_dock_id(CanvasId(0)), construct_canvas_dock_id(CanvasId(u128::MAX)));
}

#[test]
fn pointer_events_reach_the_tool_of_the_current_canvas() {
    assert_eq!(pointer_step(false, true, true, PointerEventKind::Moved), (false, PointerHandler::MovedHovering));
    assert_eq!(pointer_step(false, true, true, PointerEventKind::PrimaryPress), (true, PointerHandler::Pressed));
    assert_eq!(pointer_step(true, true, true, PointerEventKind::Moved), (true, PointerHandler::MovedPressing));
    assert_eq!(pointer_step(true, true, true, PointerEventKind::Other), (true, PointerHandler::Ignore));
    assert_eq!(pointer_step(true, true, true, PointerEventKind::PrimaryRelease), (false, PointerHandler::Released));
}

#[test]
fn pointer_events_elsewhere_change_nothing() {
    assert_eq!(pointer_step(false, false, true, PointerEventKind::PrimaryPress), (false, PointerHandler::Ignore));
    assert_eq!(pointer_step(true, true, false, PointerEventKind::PrimaryRelease), (true, PointerHandler::Ignore));
}
