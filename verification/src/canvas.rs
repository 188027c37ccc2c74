//! Canvas identifiers, the dock that shows each canvas, and how that dock
//! hands pointer events to the canvas's tool.

use vstd::prelude::*;
use crate::bundle::{lemma_uuid_text_injective, uuid_hyphenated, uuid_text};

verus! {

/// The identifier of an open canvas (a UUID, held as its 128-bit value).
#[derive(Clone, Copy, Debug, PartialEq, Eq, Hash, Structural)]
pub struct CanvasId(pub u128);

/// The identifier of the dock that shows a canvas: `canvas_` then the
/// canvas's UUID.
pub open spec fn canvas_dock_id(canvas: CanvasId) -> Seq<char> {
    seq!['c', 'a', 'n', 'v', 'a', 's', '_'] + uuid_text(canvas.0)
}

/// The identifier of the dock that shows `canvas`.
pub fn construct_canvas_dock_id(canvas: CanvasId) -> (r: String)
    ensures
        r@ == canvas_dock_id(canvas),
{
    proof { reveal_strlit("canvas_"); }
    String::from_str("canvas_").concat(uuid_hyphenated(canvas.0).as_str())
}

/// A pointer event over a canvas dock, as the dock tells them apart.
#[derive(Clone, Copy, Debug, PartialEq, Eq, Structural)]
pub enum PointerEventKind {
    /// The primary button went down.
    PrimaryPress,
    /// The primary button came up.
    PrimaryRelease,
    /// The pointer moved.
    Moved,
    /// Anything else (another button, leaving the dock, ...).
    Other,
}

/// The tool call that a pointer event over a canvas dock leads to.
#[derive(Clone, Copy, Debug, PartialEq, Eq, Structural)]
pub enum PointerHandler {
    /// No call.
    Ignore,
    /// The tool's press handler.
    Pressed,
    /// The tool's release handler.
    Released,
    /// The tool's move handler for a drag with the button held.
    MovedPressing,
    /// The tool's move handler for a hover.
    MovedHovering,
}

/// Whether the primary button is held over the dock after `event`, and the
/// tool call it leads to. Events reach the tool only while the dock's
/// canvas is the current one and has a tool; then a press or release sets
/// or clears the held button, and a move is a drag while it is held and a
/// hover otherwise. Whenever a tool call is made, the dock also takes the
/// event's position as its cursor position.
pub open spec fn pointer_step_spec(
    pressed: bool,
    is_current: bool,
    has_tool: bool,
    event: PointerEventKind,
) -> (bool, PointerHandler) {
    if !is_current || !has_tool {
        (pressed, PointerHandler::Ignore)
    } else {
        match event {
            PointerEventKind::PrimaryPress => (true, PointerHandler::Pressed),
            PointerEventKind::PrimaryRelease => (false, PointerHandler::Released),
            PointerEventKind::Moved => (
                pressed,
                if pressed {
                    PointerHandler::MovedPressing
                } else {
                    PointerHandler::MovedHovering
                },
            ),
            PointerEventKind::Other => (pressed, PointerHandler::Ignore),
        }
    }
}

/// Whether the primary button is held over a canvas dock after `event`,
/// `pressed` telling whether it was held before, and which tool call the
/// event leads to.
pub fn pointer_step(pressed: bool, is_current: bool, has_tool: bool, event: PointerEventKind) -> (r: (
    bool,
    PointerHandler,
))
    ensures
        r == pointer_step_spec(pressed, is_current, has_tool, event),
{
    if !is_current || !has_tool {
        return (pressed, PointerHandler::Ignore);
    }
    match event {
        PointerEventKind::PrimaryPress => (true, PointerHandler::Pressed),
        PointerEventKind::PrimaryRelease => (false, PointerHandler::Released),
        PointerEventKind::Moved => (
            pressed,
            if pressed {
                PointerHandler::MovedPressing
            } else {
                PointerHandler::MovedHovering
            },
        ),
        PointerEventKind::Other => (pressed, PointerHandler::Ignore),
    }
}

/// The held button changes only on a primary press or release that reaches
/// the tool; a move is a drag exactly when the button is held; and after a
/// press, the next event that reaches the tool, if a move, is a drag.
pub proof fn lemma_pointer_drag_follows_press(
    pressed: bool,
    is_current: bool,
    has_tool: bool,
    event: PointerEventKind,
    next: PointerEventKind,
)
    ensures
        pointer_step_spec(pressed, is_current, has_tool, event).0 != pressed ==> is_current && has_tool
            && (event == PointerEventKind::PrimaryPress || event == PointerEventKind::PrimaryRelease),
        event == PointerEventKind::Moved && is_current && has_tool ==> (pointer_step_spec(
            pressed,
            is_current,
            has_tool,
            event,
        ).1 == PointerHandler::MovedPressing) == pressed,
        event == PointerEventKind::PrimaryPress && is_current && has_tool && next
            == PointerEventKind::Moved ==> pointer_step_spec(
            pointer_step_spec(pressed, is_current, has_tool, event).0,
            is_current,
            has_tool,
            next,
        ).1 == PointerHandler::MovedPressing,
{
}

/// Different canvases are shown by docks with different identifiers.
pub proof fn lemma_canvas_dock_ids_differ(c1: CanvasId, c2: CanvasId)
    ensures
        (canvas_dock_id(c1) == canvas_dock_id(c2)) == (c1 == c2),
{
    let d1 = canvas_dock_id(c1);
    let d2 = canvas_dock_id(c2);
    if d1 == d2 {
        assert(d1.subrange(7, d1.len() as int) =~= uuid_text(c1.0));
        assert(d2.subrange(7, d2.len() as int) =~= uuid_text(c2.0));
        lemma_uuid_text_injective(c1.0, c2.0);
    }
}

} // verus!
