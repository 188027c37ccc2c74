//! Decisions of the main window: which key presses are recorded for the
//! shortcuts, whether a change of the held modifier keys counts as a key
//! going down or coming up for the tool shortcuts, and in which dock group
//! the dock of a newly created canvas opens.

use vstd::prelude::*;

verus! {

/// A physical key, as far as the shortcuts tell keys apart: the modifier
/// keys one by one, and every other key.
#[derive(Clone, Copy, Debug, PartialEq, Eq, Structural)]
pub enum KeyCode {
    ControlLeft,
    ControlRight,
    ShiftLeft,
    ShiftRight,
    AltLeft,
    AltRight,
    SuperLeft,
    SuperRight,
    Meta,
    Other,
}

/// Whether `code` is one of the modifier keys.
pub fn is_modifier_key(code: KeyCode) -> (r: bool)
    ensures
        r == !(code is Other),
{
    match code {
        KeyCode::Other => false,
        _ => true,
    }
}

/// Whether a key press is recorded in the key sequence that shortcuts are
/// looked up by: a first press (not a repeat) of a key other than a
/// modifier, whose changes come as modifier changes instead.
pub fn press_is_recorded(code: KeyCode, repeat: bool) -> (r: bool)
    ensures
        r == (!repeat && code is Other),
{
    !repeat && !is_modifier_key(code)
}

/// The number of bits set in `x`.
pub open spec fn bit_count(x: u32) -> nat
    decreases x,
{
    if x == 0 {
        0
    } else {
        (x % 2) as nat + bit_count(x / 2)
    }
}

/// A number has no more bits set than its value.
proof fn lemma_bit_count_bound(x: u32)
    ensures
        bit_count(x) <= x,
    decreases x,
{
    if x > 0 {
        lemma_bit_count_bound(x / 2);
    }
}

/// The number of bits set in `x`.
pub fn count_ones(x: u32) -> (n: u32)
    ensures
        n == bit_count(x),
{
    proof {
        lemma_bit_count_bound(x);
    }
    let mut y = x;
    let mut n: u32 = 0;
    while y > 0
        invariant
            n + bit_count(y) == bit_count(x),
            bit_count(x) <= x,
        decreases y,
    {
        n = n + y % 2;
        y = y / 2;
    }
    n
}

/// A change of the held modifier keys, from the bits `old_bits` to the bits
/// `new_bits`, counts as a key going down when more modifiers are held
/// afterwards than before, and as a key coming up otherwise.
pub fn modifier_change_is_keydown(old_bits: u32, new_bits: u32) -> (r: bool)
    ensures
        r == (bit_count(new_bits) > bit_count(old_bits)),
{
    count_ones(new_bits) > count_ones(old_bits)
}

/// Where the dock of a new canvas opens.
#[derive(Clone, Copy, Debug, PartialEq, Eq)]
pub enum CanvasDockTarget<G> {
    /// In the given dock group, next to the canvases already open.
    Group(G),
    /// Wherever the dock manager opens a dock by default.
    Default,
}

/// The target while `anchor` is the group that holds the canvases.
pub open spec fn canvas_dock_target_spec<G>(anchor: Option<G>) -> CanvasDockTarget<G> {
    match anchor {
        Some(g) => CanvasDockTarget::Group(g),
        None => CanvasDockTarget::Default,
    }
}

/// The group that holds the canvases after one was opened, `opened_in`
/// being the group its dock landed in when it was opened by default: a
/// group once found is kept, else the group of the new dock is taken.
pub open spec fn canvas_anchor_after_spec<G>(anchor: Option<G>, opened_in: Option<G>) -> Option<G> {
    match anchor {
        Some(g) => Some(g),
        None => opened_in,
    }
}

/// Where the dock of a new canvas opens while `anchor` is the group that
/// holds the canvases.
pub fn canvas_dock_target<G: Copy>(anchor: Option<G>) -> (r: CanvasDockTarget<G>)
    ensures
        r == canvas_dock_target_spec(anchor),
{
    match anchor {
        Some(g) => CanvasDockTarget::Group(g),
        None => CanvasDockTarget::Default,
    }
}

/// The group that holds the canvases once a new canvas dock was opened;
/// `opened_in` is read only when the dock was opened by default.
pub fn canvas_anchor_after<G: Copy>(anchor: Option<G>, opened_in: Option<G>) -> (r: Option<G>)
    ensures
        r == canvas_anchor_after_spec(anchor, opened_in),
{
    match anchor {
        Some(g) => Some(g),
        None => opened_in,
    }
}

/// The group that holds the canvases after canvases were opened one after
/// the other, `reports` giving for each the group its dock landed in when
/// opened by default.
pub open spec fn canvas_anchor_after_all<G>(anchor: Option<G>, reports: Seq<Option<G>>) -> Option<G>
    decreases reports.len(),
{
    if reports.len() == 0 {
        anchor
    } else {
        canvas_anchor_after_all(canvas_anchor_after_spec(anchor, reports[0]), reports.drop_first())
    }
}

/// The first group in `reports`.
pub open spec fn first_group<G>(reports: Seq<Option<G>>) -> Option<G>
    decreases reports.len(),
{
    if reports.len() == 0 {
        None
    } else if reports[0] is Some {
        reports[0]
    } else {
        first_group(reports.drop_first())
    }
}

/// Once a group holds the canvases, every later canvas opens in it and it
/// stays the group, whatever the later docks report; starting without one,
/// the group is the first that a canvas dock landed in.
pub proof fn lemma_canvas_group_is_kept<G>(anchor: Option<G>, reports: Seq<Option<G>>)
    ensures
        anchor matches Some(g) ==> canvas_anchor_after_all(anchor, reports) == Some(g)
            && canvas_dock_target_spec(anchor) == CanvasDockTarget::Group(g),
        anchor is None ==> canvas_anchor_after_all(anchor, reports) == first_group(reports),
    decreases reports.len(),
{
    if reports.len() > 0 {
        lemma_canvas_group_is_kept(canvas_anchor_after_spec(anchor, reports[0]), reports.drop_first());
        lemma_canvas_group_is_kept(anchor, reports.drop_first());
    }
}

} // verus!
