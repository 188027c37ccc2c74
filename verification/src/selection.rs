//! Which layers of a canvas are selected and which one is active.
//!
//! The selected layers are an insertion-ordered set (`indexmap::IndexSet`);
//! the first of them becomes active when the active layer is deselected.

use vstd::prelude::*;
use indexmap::IndexSet;

verus! {

/// Declares `indexmap::IndexSet` to Verus; what a set holds is seen only
/// through `layer_set_items` and the wrappers below.
#[verifier::external_type_specification]
#[verifier::external_body]
#[verifier::reject_recursive_types(T)]
#[verifier::reject_recursive_types(S)]
pub struct ExIndexSet<T, S>(IndexSet<T, S>);

/// The layers in a set of layer identifiers, in insertion order.
pub uninterp spec fn layer_set_items(s: IndexSet<u128>) -> Seq<u128>;

/// Creates an empty set with `IndexSet::new`.
#[verifier::external_body]
fn layer_set_new() -> (s: IndexSet<u128>)
    ensures
        layer_set_items(s) == Seq::<u128>::empty(),
{
    IndexSet::new()
}

/// Calls `IndexSet::insert`: a value that is not in the set is appended at
/// the end and `true` returned; a value already in the set leaves the set as
/// it is (its position too) and `false` is returned.
#[verifier::external_body]
fn layer_set_insert(s: &mut IndexSet<u128>, value: u128) -> (added: bool)
    ensures
        added == !layer_set_items(*old(s)).contains(value),
        layer_set_items(*final(s)) == if added {
            layer_set_items(*old(s)).push(value)
        } else {
            layer_set_items(*old(s))
        },
{
    s.insert(value)
}

/// Calls `IndexSet::clear`: the set becomes empty.
#[verifier::external_body]
fn layer_set_clear(s: &mut IndexSet<u128>)
    ensures
        layer_set_items(*final(s)) == Seq::<u128>::empty(),
{
    s.clear()
}

/// Calls `IndexSet::contains`.
#[verifier::external_body]
fn layer_set_contains(s: &IndexSet<u128>, value: u128) -> (r: bool)
    ensures
        r == layer_set_items(*s).contains(value),
{
    s.contains(&value)
}

/// Calls `IndexSet::len`.
#[verifier::external_body]
fn layer_set_len(s: &IndexSet<u128>) -> (r: usize)
    ensures
        r == layer_set_items(*s).len(),
{
    s.len()
}

/// Copies the values of the set, in its order, with `IndexSet::iter`.
#[verifier::external_body]
fn layer_set_to_vec(s: &IndexSet<u128>) -> (r: Vec<u128>)
    ensures
        r@ == layer_set_items(*s),
{
    s.iter().copied().collect()
}

/// The sequence without the first occurrence of `value`.
pub open spec fn without_first(s: Seq<u128>, value: u128) -> Seq<u128> {
    if s.contains(value) {
        s.remove(s.index_of(value))
    } else {
        s
    }
}

/// Calls `IndexSet::shift_remove`: removes the value, keeping the order of
/// the values after it, and returns whether it was there.
#[verifier::external_body]
fn layer_set_shift_remove(s: &mut IndexSet<u128>, value: u128) -> (removed: bool)
    ensures
        removed == layer_set_items(*old(s)).contains(value),
        layer_set_items(*final(s)) == without_first(layer_set_items(*old(s)), value),
{
    s.shift_remove(&value)
}

/// Calls `IndexSet::first`.
#[verifier::external_body]
fn layer_set_first(s: &IndexSet<u128>) -> (r: Option<u128>)
    ensures
        r == if layer_set_items(*s).len() > 0 {
            Some(layer_set_items(*s)[0])
        } else {
            None
        },
{
    s.first().copied()
}

/// The selection after adding `layer` to it.
pub open spec fn after_select(selected: Seq<u128>, layer: u128) -> Seq<u128> {
    if selected.contains(layer) {
        selected
    } else {
        selected.push(layer)
    }
}

/// The active layer and selection after `set_active_layer(layer, root)`:
/// unchanged when `layer` is already active or is the root; otherwise
/// `layer` becomes active and is added to the selection.
pub open spec fn after_set_active(active: u128, selected: Seq<u128>, layer: u128, root: u128) -> (
    u128,
    Seq<u128>,
) {
    if layer == active || layer == root {
        (active, selected)
    } else {
        (layer, after_select(selected, layer))
    }
}

/// The active layer and selection after `deselect_layer(layer, root)`:
/// unchanged when `layer` is the only selected layer; otherwise `layer`
/// leaves the selection and, when it was active, the first remaining
/// selected layer is made active as `set_active_layer` makes it.
pub open spec fn after_deselect(active: u128, selected: Seq<u128>, layer: u128, root: u128) -> (
    u128,
    Seq<u128>,
) {
    if selected.contains(layer) && selected.len() == 1 {
        (active, selected)
    } else {
        let rest = without_first(selected, layer);
        if layer != active {
            (active, rest)
        } else {
            after_set_active(active, rest, rest[0], root)
        }
    }
}

/// Selecting a range with Shift: going through the rows in the order they
/// are shown, every row after the first of `a` and `b` up to and including
/// the second one is selected. Gives the selection and whether the range is
/// still open after the rows.
pub open spec fn shift_select(selected: Seq<u128>, rows: Seq<u128>, a: u128, b: u128) -> (
    Seq<u128>,
    bool,
)
    decreases rows.len(),
{
    if rows.len() == 0 {
        (selected, false)
    } else {
        let prev = shift_select(selected, rows.drop_last(), a, b);
        let r = rows.last();
        let sel = if prev.1 {
            after_select(prev.0, r)
        } else {
            prev.0
        };
        (sel, if r == a || r == b { !prev.1 } else { prev.1 })
    }
}

/// The active layer and selection after a click on the row of `layer`:
/// with Ctrl its selection is toggled (a layer that was not selected also
/// becomes active); with Shift the rows from the active layer to it are
/// selected and it becomes active; otherwise it becomes active, alone in
/// the selection unless it was selected already.
pub open spec fn after_click(
    active: u128,
    selected: Seq<u128>,
    layer: u128,
    ctrl: bool,
    shift: bool,
    rows: Seq<u128>,
    root: u128,
) -> (u128, Seq<u128>) {
    if ctrl {
        if selected.contains(layer) {
            after_deselect(active, selected, layer, root)
        } else {
            after_set_active(active, selected, layer, root)
        }
    } else if shift {
        if layer == active {
            (active, selected)
        } else {
            after_set_active(active, shift_select(selected, rows, layer, active).0, layer, root)
        }
    } else if !selected.contains(layer) {
        after_set_active(active, Seq::empty(), layer, root)
    } else {
        after_set_active(active, selected, layer, root)
    }
}

/// The active layer of a canvas changed from `from` to `to`.
#[derive(Clone, Copy, Debug, PartialEq, Eq, Structural)]
pub struct ActiveLayerChanged {
    pub from: u128,
    pub to: u128,
}

/// The active layer and the selected layers of a canvas.
pub struct LayerSelection {
    active_layer: u128,
    selected_layers: IndexSet<u128>,
}

impl LayerSelection {
    /// No layer is selected twice (an insertion-ordered set holds each
    /// value once).
    pub open spec fn distinct(&self) -> bool {
        self.selected().no_duplicates()
    }

    /// The active layer.
    pub closed spec fn active(&self) -> u128 {
        self.active_layer
    }

    /// The selected layers, in the order they were selected.
    pub closed spec fn selected(&self) -> Seq<u128> {
        layer_set_items(self.selected_layers)
    }

    /// The active layer is selected.
    pub open spec fn well_formed(&self) -> bool {
        self.selected().contains(self.active())
    }


    /// A canvas whose only selected layer, `background_layer`, is active.
    pub fn new(background_layer: u128) -> (r: LayerSelection)
        ensures
            r.active() == background_layer,
            r.selected() == seq![background_layer],
            r.well_formed(),
            r.distinct(),
    {
        let mut selected_layers = layer_set_new();
        layer_set_insert(&mut selected_layers, background_layer);
        assert(layer_set_items(selected_layers) =~= seq![background_layer]);
        assert(layer_set_items(selected_layers)[0] == background_layer);
        LayerSelection { active_layer: background_layer, selected_layers }
    }

    /// The active layer.
    pub fn active_layer_id(&self) -> (r: u128)
        ensures
            r == self.active(),
    {
        self.active_layer
    }

    /// Whether `layer_id` is selected.
    pub fn is_selected(&self, layer_id: u128) -> (r: bool)
        ensures
            r == self.selected().contains(layer_id),
    {
        layer_set_contains(&self.selected_layers, layer_id)
    }

    /// The selected layers, in the order they were selected.
    pub fn selected_layer_ids(&self) -> (r: Vec<u128>)
        ensures
            r@ == self.selected(),
    {
        layer_set_to_vec(&self.selected_layers)
    }

    /// Makes `layer_id` active and selects it, unless it is already active
    /// or it is the root of the layer stack; returns the change to announce.
    pub fn set_active_layer(&mut self, layer_id: u128, root_id: u128) -> (r: Option<
        ActiveLayerChanged,
    >)
        requires
            old(self).distinct(),
        ensures
            final(self).distinct(),
            (final(self).active(), final(self).selected()) == after_set_active(
                old(self).active(),
                old(self).selected(),
                layer_id,
                root_id,
            ),
            r == if layer_id == old(self).active() || layer_id == root_id {
                None
            } else {
                Some(ActiveLayerChanged { from: old(self).active(), to: layer_id })
            },
    {
        if layer_id == self.active_layer || layer_id == root_id {
            return None;
        }
        let old = self.active_layer;
        self.active_layer = layer_id;
        let ghost before = layer_set_items(self.selected_layers);
        layer_set_insert(&mut self.selected_layers, layer_id);
        proof {
            lemma_push_absent_distinct(before, layer_id);
        }
        Some(ActiveLayerChanged { from: old, to: layer_id })
    }

    /// Clears the selection, then makes `layer_id` active as
    /// `set_active_layer` does.
    pub fn set_active_layer_and_clear_select(&mut self, layer_id: u128, root_id: u128) -> (r:
        Option<ActiveLayerChanged>)
        requires
            old(self).distinct(),
        ensures
            final(self).distinct(),
            (final(self).active(), final(self).selected()) == after_set_active(
                old(self).active(),
                Seq::empty(),
                layer_id,
                root_id,
            ),
            r == if layer_id == old(self).active() || layer_id == root_id {
                None
            } else {
                Some(ActiveLayerChanged { from: old(self).active(), to: layer_id })
            },
    {
        layer_set_clear(&mut self.selected_layers);
        self.set_active_layer(layer_id, root_id)
    }

    /// Adds `layer_id` to the selection.
    pub fn select_layer(&mut self, layer_id: u128)
        requires
            old(self).distinct(),
        ensures
            final(self).distinct(),
            final(self).active() == old(self).active(),
            final(self).selected() == after_select(old(self).selected(), layer_id),
    {
        let ghost before = layer_set_items(self.selected_layers);
        layer_set_insert(&mut self.selected_layers, layer_id);
        proof {
            lemma_push_absent_distinct(before, layer_id);
        }
    }

    /// Removes `layer_id` from the selection, unless it is the only selected
    /// layer; when it was active, the first remaining selected layer becomes
    /// active (as `set_active_layer` makes it).
    pub fn deselect_layer(&mut self, layer_id: u128, root_id: u128) -> (r: Option<
        ActiveLayerChanged,
    >)
        requires
            old(self).distinct(),
            layer_id == old(self).active() ==> old(self).selected().len() > 0,
        ensures
            final(self).distinct(),
            (final(self).active(), final(self).selected()) == after_deselect(
                old(self).active(),
                old(self).selected(),
                layer_id,
                root_id,
            ),
            r == if (old(self).selected().contains(layer_id) && old(self).selected().len() == 1)
                || layer_id != old(self).active() || final(self).active() == old(self).active() {
                None
            } else {
                Some(ActiveLayerChanged { from: layer_id, to: final(self).active() })
            },
    {
        let ghost before = self.selected();
        if layer_set_contains(&self.selected_layers, layer_id) && layer_set_len(
            &self.selected_layers,
        ) == 1 {
            return None;
        }
        layer_set_shift_remove(&mut self.selected_layers, layer_id);
        proof {
            lemma_without_first_drops(before, layer_id);
        }
        if self.active_layer == layer_id {
            proof {
                lemma_without_first_keeps_others(before, layer_id);
                if before.contains(layer_id) {
                    assert(before.len() > 1);
                    assert(self.selected().len() > 0);
                } else {
                    assert(self.selected() == before);
                }
            }
            let first = match layer_set_first(&self.selected_layers) {
                Some(f) => f,
                None => {
                    proof {
                        assert(false);
                    }
                    return None;
                },
            };
            proof {
                assert(self.selected().contains(first));
            }
            return self.set_active_layer(first, root_id);
        }
        None
    }

    /// Handles a click on the row of `layer_id` in the layers panel; `rows`
    /// lists the layers in the order their rows are shown. Returns the
    /// change of the active layer, if any.
    pub fn click_layer(
        &mut self,
        layer_id: u128,
        ctrl: bool,
        shift: bool,
        rows: &Vec<u128>,
        root_id: u128,
    ) -> (r: Option<ActiveLayerChanged>)
        requires
            old(self).distinct(),
            ctrl && layer_id == old(self).active() ==> old(self).selected().len() > 0,
        ensures
            final(self).distinct(),
            (final(self).active(), final(self).selected()) == after_click(
                old(self).active(),
                old(self).selected(),
                layer_id,
                ctrl,
                shift,
                rows@,
                root_id,
            ),
            r == if final(self).active() != old(self).active() {
                Some(ActiveLayerChanged { from: old(self).active(), to: final(self).active() })
            } else {
                None::<ActiveLayerChanged>
            },
    {
        if ctrl {
            if layer_set_contains(&self.selected_layers, layer_id) {
                self.deselect_layer(layer_id, root_id)
            } else {
                self.set_active_layer(layer_id, root_id)
            }
        } else if shift {
            let active = self.active_layer;
            if layer_id == active {
                return None;
            }
            let ghost sel0 = self.selected();
            let mut on = false;
            let mut i: usize = 0;
            while i < rows.len()
                invariant
                    i <= rows@.len(),
                    self.distinct(),
                    self.active() == active,
                    (self.selected(), on) == shift_select(sel0, rows@.subrange(0, i as int), layer_id, active),
                decreases rows@.len() - i,
            {
                let row = rows[i];
                proof {
                    let pre = rows@.subrange(0, i + 1);
                    assert(pre.drop_last() =~= rows@.subrange(0, i as int));
                    assert(pre.last() == row);
                }
                if on {
                    self.select_layer(row);
                }
                if row == layer_id || row == active {
                    on = !on;
                }
                i = i + 1;
            }
            proof {
                assert(rows@.subrange(0, rows@.len() as int) =~= rows@);
            }
            self.set_active_layer(layer_id, root_id)
        } else if !layer_set_contains(&self.selected_layers, layer_id) {
            self.set_active_layer_and_clear_select(layer_id, root_id)
        } else {
            self.set_active_layer(layer_id, root_id)
        }
    }

    /// Deselects `layer_id` when it is selected, and makes it active
    /// otherwise.
    pub fn toggle_layer_selection_and_active(&mut self, layer_id: u128, root_id: u128) -> (r:
        Option<ActiveLayerChanged>)
        requires
            old(self).distinct(),
            layer_id == old(self).active() ==> old(self).selected().len() > 0,
        ensures
            final(self).distinct(),
            (final(self).active(), final(self).selected()) == if old(self).selected().contains(
                layer_id,
            ) {
                after_deselect(old(self).active(), old(self).selected(), layer_id, root_id)
            } else {
                after_set_active(old(self).active(), old(self).selected(), layer_id, root_id)
            },
            r == if final(self).active() != old(self).active() {
                Some(ActiveLayerChanged { from: old(self).active(), to: final(self).active() })
            } else {
                None::<ActiveLayerChanged>
            },
    {
        if layer_set_contains(&self.selected_layers, layer_id) {
            self.deselect_layer(layer_id, root_id)
        } else {
            self.set_active_layer(layer_id, root_id)
        }
    }

    /// Deselects `layer_id` when it is selected, and selects it otherwise.
    pub fn toggle_layer_selection(&mut self, layer_id: u128, root_id: u128) -> (r: Option<
        ActiveLayerChanged,
    >)
        requires
            old(self).distinct(),
            layer_id == old(self).active() ==> old(self).selected().len() > 0,
        ensures
            final(self).distinct(),
            (final(self).active(), final(self).selected()) == if old(self).selected().contains(
                layer_id,
            ) {
                after_deselect(old(self).active(), old(self).selected(), layer_id, root_id)
            } else {
                (old(self).active(), after_select(old(self).selected(), layer_id))
            },
            r == if final(self).active() != old(self).active() {
                Some(ActiveLayerChanged { from: old(self).active(), to: final(self).active() })
            } else {
                None::<ActiveLayerChanged>
            },
    {
        if layer_set_contains(&self.selected_layers, layer_id) {
            self.deselect_layer(layer_id, root_id)
        } else {
            self.select_layer(layer_id);
            None
        }
    }
}

/// Appending a value that is absent keeps a sequence free of duplicates.
proof fn lemma_push_absent_distinct(s: Seq<u128>, value: u128)
    requires
        s.no_duplicates(),
    ensures
        (if s.contains(value) { s } else { s.push(value) }).no_duplicates(),
{
    if !s.contains(value) {
        let t = s.push(value);
        assert forall|a: int, b: int| 0 <= a < t.len() && 0 <= b < t.len() && a != b implies t[a]
            != t[b] by {
            if a < s.len() && b < s.len() {
                assert(t[a] == s[a] && t[b] == s[b]);
            } else if a < s.len() {
                assert(t[a] == s[a]);
            } else if b < s.len() {
                assert(t[b] == s[b]);
            }
        }
    }
}

/// Removing the first occurrence of a value keeps every other value.
proof fn lemma_without_first_keeps_others(s: Seq<u128>, value: u128)
    ensures
        forall|x: u128| x != value && s.contains(x) ==> without_first(s, value).contains(x),
        s.contains(value) ==> without_first(s, value).len() == s.len() - 1,
{
    if s.contains(value) {
        let i = s.index_of(value);
        assert forall|x: u128| x != value && s.contains(x) implies without_first(
            s,
            value,
        ).contains(x) by {
            let j = s.index_of(x);
            if j < i {
                assert(s.remove(i)[j] == x);
            } else {
                assert(j != i);
                assert(s.remove(i)[j - 1] == x);
            }
        }
    }
}

/// When `value` occurs at most once, removing its first occurrence removes
/// it entirely.
proof fn lemma_without_first_drops(s: Seq<u128>, value: u128)
    requires
        s.no_duplicates(),
    ensures
        !without_first(s, value).contains(value),
        without_first(s, value).no_duplicates(),
{
    if s.contains(value) {
        let i = s.index_of(value);
        let r = s.remove(i);
        if r.contains(value) {
            let j = r.index_of(value);
            if j < i {
                assert(s[j] == value);
            } else {
                assert(s[j + 1] == value);
            }
        }
        assert forall|a: int, b: int| 0 <= a < r.len() && 0 <= b < r.len() && a != b implies r[a]
            != r[b] by {
            let sa = if a < i { a } else { a + 1 };
            let sb = if b < i { b } else { b + 1 };
            assert(r[a] == s[sa]);
            assert(r[b] == s[sb]);
        }
    }
}

/// Making a layer active keeps the active layer selected.
pub proof fn lemma_set_active_keeps_active_selected(
    active: u128,
    selected: Seq<u128>,
    layer: u128,
    root: u128,
)
    requires
        selected.contains(active),
    ensures
        ({
            let after = after_set_active(active, selected, layer, root);
            after.1.contains(after.0)
        }),
{
    if !(layer == active || layer == root) && !selected.contains(layer) {
        assert(selected.push(layer)[selected.len() as int] == layer);
    }
}

/// Selecting a layer keeps every selected layer selected.
pub proof fn lemma_select_keeps_selected(selected: Seq<u128>, layer: u128, x: u128)
    requires
        selected.contains(x),
    ensures
        after_select(selected, layer).contains(x),
        after_select(selected, layer).contains(layer),
{
    if !selected.contains(layer) {
        let i = selected.index_of(x);
        assert(selected.push(layer)[i] == x);
        assert(selected.push(layer)[selected.len() as int] == layer);
    }
}

/// Deselecting a layer keeps the active layer selected, unless the active
/// layer itself is deselected and the first remaining selected layer is the
/// root (which is never made active).
pub proof fn lemma_deselect_keeps_active_selected(
    active: u128,
    selected: Seq<u128>,
    layer: u128,
    root: u128,
)
    requires
        selected.contains(active),
        selected.no_duplicates(),
        layer == active && !(selected.contains(layer) && selected.len() == 1) ==> without_first(
            selected,
            layer,
        )[0] != root,
    ensures
        ({
            let after = after_deselect(active, selected, layer, root);
            after.1.contains(after.0) && after.1.len() > 0
        }),
{
    lemma_without_first_keeps_others(selected, layer);
    lemma_without_first_drops(selected, layer);
    let rest = without_first(selected, layer);
    if !(selected.contains(layer) && selected.len() == 1) && layer == active {
        assert(rest.len() > 0) by {
            assert(selected.len() > 1);
        }
        assert(rest[0] != active) by {
            assert(rest.contains(rest[0]));
        }
        assert(rest.contains(rest[0]));
    }
}

/// Clearing the selection and making a layer active leaves the active layer
/// selected exactly when that layer was neither active already nor the root.
pub proof fn lemma_clear_select_keeps_active_selected(
    active: u128,
    layer: u128,
    root: u128,
)
    ensures
        ({
            let after = after_set_active(active, Seq::empty(), layer, root);
            after.1.contains(after.0) <==> (layer != active && layer != root)
        }),
{
    if layer != active && layer != root {
        assert(Seq::<u128>::empty().push(layer)[0] == layer);
    }
}

/// The lower of two positions.
pub open spec fn lower_of(x: int, y: int) -> int {
    if x < y {
        x
    } else {
        y
    }
}

/// The higher of two positions.
pub open spec fn higher_of(x: int, y: int) -> int {
    if x < y {
        y
    } else {
        x
    }
}

/// Going through the first `n` rows, with `a` at `pa` and `b` at `pb`: the
/// range is open exactly after the first of them and up to the second, and
/// the rows selected on the way are those after the first, up to and
/// including the second.
proof fn lemma_shift_select_prefix(
    selected: Seq<u128>,
    rows: Seq<u128>,
    a: u128,
    b: u128,
    pa: int,
    pb: int,
    n: int,
)
    requires
        rows.no_duplicates(),
        0 <= pa < rows.len(),
        0 <= pb < rows.len(),
        rows[pa] == a,
        rows[pb] == b,
        pa != pb,
        0 <= n <= rows.len(),
    ensures
        shift_select(selected, rows.subrange(0, n), a, b).1 == (lower_of(pa, pb) < n && n <= higher_of(
            pa,
            pb,
        )),
        forall|x: u128|
            #[trigger] shift_select(selected, rows.subrange(0, n), a, b).0.contains(x) <==> (
            selected.contains(x) || exists|p: int|
                lower_of(pa, pb) < p <= higher_of(pa, pb) && p < n && #[trigger] rows[p] == x),
    decreases n,
{
    let lo = lower_of(pa, pb);
    let hi = higher_of(pa, pb);
    if n == 0 {
        assert(rows.subrange(0, 0).len() == 0);
    } else {
        let pre = rows.subrange(0, n);
        assert(pre.drop_last() =~= rows.subrange(0, n - 1));
        assert(pre.last() == rows[n - 1]);
        lemma_shift_select_prefix(selected, rows, a, b, pa, pb, n - 1);
        let prev = shift_select(selected, rows.subrange(0, n - 1), a, b);
        let r = rows[n - 1];
        assert((r == a || r == b) == (n - 1 == pa || n - 1 == pb));
        let cur = shift_select(selected, pre, a, b);
        assert forall|x: u128| #[trigger] cur.0.contains(x) <==> (selected.contains(x) || exists|p: int|
            lo < p <= hi && p < n && #[trigger] rows[p] == x) by {
            if cur.0.contains(x) {
                if !prev.0.contains(x) {
                    assert(prev.1 && x == r);
                    assert(lo < n - 1 <= hi && n - 1 < n && rows[n - 1] == x);
                } else if !selected.contains(x) {
                    let p = choose|p: int| lo < p <= hi && p < n - 1 && #[trigger] rows[p] == x;
                    assert(lo < p <= hi && p < n && rows[p] == x);
                }
            }
            if selected.contains(x) {
                assert(prev.0.contains(x));
            } else if exists|p: int| lo < p <= hi && p < n && #[trigger] rows[p] == x {
                let p = choose|p: int| lo < p <= hi && p < n && #[trigger] rows[p] == x;
                if p < n - 1 {
                    assert(prev.0.contains(x));
                } else {
                    assert(prev.1);
                    assert(x == r);
                    if prev.0.contains(x) {
                    } else {
                        assert(cur.0 == prev.0.push(r));
                        assert(cur.0[prev.0.len() as int] == x);
                    }
                }
            }
            if prev.0.contains(x) {
                if prev.1 && !prev.0.contains(r) {
                    let i = choose|i: int| 0 <= i < prev.0.len() && prev.0[i] == x;
                    assert(cur.0[i] == x);
                }
            }
        }
    }
}

/// A Shift-click on the row of `layer` while `active` is active (another
/// layer, not the root, both shown in `rows`, which lists each layer once)
/// makes `layer` active and adds to the selection exactly the rows after
/// the first of the two, up to and including the second, and `layer`
/// itself; nothing else is added and nothing leaves the selection.
pub proof fn lemma_shift_click_selects_the_range(
    active: u128,
    selected: Seq<u128>,
    layer: u128,
    rows: Seq<u128>,
    root: u128,
    pa: int,
    pb: int,
)
    requires
        rows.no_duplicates(),
        0 <= pa < rows.len(),
        rows[pa] == active,
        0 <= pb < rows.len(),
        rows[pb] == layer,
        layer != active,
        layer != root,
    ensures
        after_click(active, selected, layer, false, true, rows, root).0 == layer,
        forall|x: u128|
            #[trigger] after_click(active, selected, layer, false, true, rows, root).1.contains(x) <==> (
            selected.contains(x) || x == layer || exists|p: int|
                lower_of(pa, pb) < p <= higher_of(pa, pb) && #[trigger] rows[p] == x),
{
    lemma_shift_select_prefix(selected, rows, layer, active, pb, pa, rows.len() as int);
    assert(rows.subrange(0, rows.len() as int) =~= rows);
    let s = shift_select(selected, rows, layer, active).0;
    let after = after_click(active, selected, layer, false, true, rows, root);
    assert(after == (layer, after_select(s, layer)));
    assert forall|x: u128| #[trigger] after.1.contains(x) <==> (selected.contains(x) || x == layer
        || exists|p: int| lower_of(pa, pb) < p <= higher_of(pa, pb) && #[trigger] rows[p] == x) by {
        if !s.contains(layer) {
            assert(after.1 == s.push(layer));
            if s.contains(x) {
                let i = choose|i: int| 0 <= i < s.len() && s[i] == x;
                assert(after.1[i] == x);
            }
            if x == layer {
                assert(after.1[s.len() as int] == x);
            }
        }
        if exists|p: int| lower_of(pa, pb) < p <= higher_of(pa, pb) && #[trigger] rows[p] == x {
            let p = choose|p: int| lower_of(pa, pb) < p <= higher_of(pa, pb) && #[trigger] rows[p] == x;
            assert(lower_of(pb, pa) < p <= higher_of(pb, pa) && p < rows.len() && rows[p] == x);
        }
        if s.contains(x) && !selected.contains(x) {
            let p = choose|p: int|
                lower_of(pb, pa) < p <= higher_of(pb, pa) && p < rows.len() && #[trigger] rows[p] == x;
            assert(lower_of(pa, pb) < p <= higher_of(pa, pb) && rows[p] == x);
        }
    }
}

/// Removing a value keeps nothing that was not there.
proof fn lemma_without_first_within(s: Seq<u128>, value: u128)
    ensures
        forall|x: u128| without_first(s, value).contains(x) ==> s.contains(x),
{
    if s.contains(value) {
        let i = s.index_of(value);
        let r = s.remove(i);
        assert forall|x: u128| r.contains(x) implies s.contains(x) by {
            let k = choose|k: int| 0 <= k < r.len() && r[k] == x;
            if k < i {
                assert(s[k] == x);
            } else {
                assert(s[k + 1] == x);
            }
        }
    }
}

/// What plain and Ctrl clicks do, for a layer other than the root while
/// the active layer is selected and the root is not:
/// - a plain click on a layer that is not selected makes it active and
///   alone in the selection; on a selected layer it makes it active and
///   keeps the selection;
/// - a Ctrl click on a layer that is not selected makes it active and adds
///   it after the others;
/// - a Ctrl click on a selected layer, when others are selected too, takes
///   it out of the selection and nothing else; the active layer stays,
///   unless it was the one taken out, and then the first remaining selected
///   layer becomes active; when it is the only selected layer, nothing
///   changes.
pub proof fn lemma_plain_and_ctrl_clicks(
    active: u128,
    selected: Seq<u128>,
    layer: u128,
    rows: Seq<u128>,
    root: u128,
)
    requires
        selected.no_duplicates(),
        selected.contains(active),
        !selected.contains(root),
        layer != root,
    ensures
        !selected.contains(layer) ==> after_click(active, selected, layer, false, false, rows, root)
            == (layer, seq![layer]),
        selected.contains(layer) ==> after_click(active, selected, layer, false, false, rows, root)
            == (layer, selected),
        !selected.contains(layer) ==> after_click(active, selected, layer, true, false, rows, root)
            == (layer, selected + seq![layer]),
        selected.contains(layer) && selected.len() == 1 ==> after_click(
            active,
            selected,
            layer,
            true,
            false,
            rows,
            root,
        ) == (active, selected),
        ({
            let after = after_click(active, selected, layer, true, false, rows, root);
            selected.contains(layer) && selected.len() > 1 ==> {
                &&& after.1.len() == selected.len() - 1
                &&& !after.1.contains(layer)
                &&& forall|x: u128| x != layer ==> (after.1.contains(x) <==> selected.contains(x))
                &&& layer != active ==> after.0 == active
                &&& layer == active ==> after.0 == after.1[0]
            }
        }),
{
    if !selected.contains(layer) {
        assert(layer != active);
        assert(Seq::<u128>::empty().push(layer) =~= seq![layer]);
        assert(selected.push(layer) =~= selected + seq![layer]);
    }
    if selected.contains(layer) && selected.len() > 1 {
        lemma_without_first_keeps_others(selected, layer);
        lemma_without_first_drops(selected, layer);
        lemma_without_first_within(selected, layer);
        let rest = without_first(selected, layer);
        if layer == active {
            assert(rest.contains(rest[0]));
            assert(selected.contains(rest[0]));
            assert(rest[0] != root);
            assert(rest[0] != active);
            assert(after_select(rest, rest[0]) == rest);
        }
    }
}

} // verus!
