use lapiz::canvas::CanvasId;
use lapiz::manager::CanvasManager;

#[test]
fn added_canvas_becomes_current() {
    let mut m: CanvasManager<&str> = CanvasManager::new();
    assert_eq!(m.current_id(), None);
    assert_eq!(m.add_canvas(CanvasId(1), "one"), CanvasId(1));
    assert_eq!(m.current_id(), Some(CanvasId(1)));
    m.add_canvas(CanvasId(2), "two");
    assert_eq!(m.current_id(), Some(CanvasId(2)));
    assert_eq!(m.get(&CanvasId(1)), Some(&"one"));
    assert_eq!(m.get(&CanvasId(3)), None);
}

#[test]
fn removing_current_canvas_picks_another_open_one() {
    let mut m: CanvasManager<&str> = CanvasManager::new();
    m.add_canvas(CanvasId(1), "one");
    m.add_canvas(CanvasId(2), "two");
    assert_eq!(m.remove_canvas(&CanvasId(2)), Some("two"));
    assert_eq!(m.current_id(), Some(CanvasId(1)));
    assert_eq!(m.remove_canvas(&CanvasId(1)), Some("one"));
    assert_eq!(m.current_id(), None);
    assert_eq!(m.remove_canvas(&CanvasId(1)), None);
}

#[test]
fn removing_other_canvas_keeps_current() {
    let mut m: CanvasManager<&str> = CanvasManager::new();
    m.add_canvas(CanvasId(1), "one");
    m.add_canvas(CanvasId(2), "two");
    m.set_current(CanvasId(1));
    assert_eq!(m.remove_canvas(&CanvasId(2)), Some("two"));
    assert_eq!(m.current_id(), Some(CanvasId(1)));
    assert_eq!(m.get(&CanvasId(2)), None);
}
