//! The layer tree of an image as the layer actions read it, and what those
//! actions decide on it: which layer becomes active when the next or the
//! previous layer is selected, where a new layer goes, where the selected
//! layers move when they are moved up or down, and which layer becomes
//! active when the selected layers are deleted.
//!
//! The children of a layer are listed from the bottom up: the layer above a
//! child is the next one in the list, the layer below it the previous one.

use vstd::prelude::*;
use std::collections::HashMap;
use crate::selection::after_set_active;

verus! {

broadcast use vstd::std_specs::hash::group_hash_axioms;

/// A layer of the tree.
pub struct LayerNode {
    /// The group that holds the layer (none for the root).
    pub parent: Option<u128>,
    /// The layers that the layer holds, from the bottom up.
    pub children: Vec<u128>,
    /// Whether the layer is a group, which can hold other layers.
    pub is_group: bool,
}

/// Where a layer goes among the children of its new parent.
#[derive(Clone, Copy, Debug, PartialEq, Eq, Structural)]
pub enum LayerPosition {
    /// On top of the other children.
    Foreground,
    /// Below the other children.
    Background,
    /// Just above the given child.
    Above(u128),
    /// Just below the given child.
    Below(u128),
}

/// The layers of an image, by identifier, under one root group.
pub struct LayerStack {
    nodes: HashMap<u128, LayerNode>,
    root: u128,
    /// How many groups lie between each layer and the root.
    depth: Ghost<Map<u128, nat>>,
}

/// The tree is well formed: the root is a group without a parent; every
/// other layer has a parent that lists it among its children; every child
/// names its parent, which is a group; no child is listed twice; and the
/// depth of a layer is one more than that of its parent, and less than the
/// number of layers.
pub open spec fn tree_wf(m: Map<u128, LayerNode>, root: u128, depth: Map<u128, nat>) -> bool {
    &&& m.dom().finite()
    &&& m.contains_key(root)
    &&& m[root].parent is None
    &&& m[root].is_group
    &&& depth[root] == 0
    &&& forall|id: u128| #[trigger] m.contains_key(id) ==> depth[id] < m.dom().len()
    &&& forall|id: u128|
        #[trigger] m.contains_key(id) && id != root ==> {
            &&& m[id].parent is Some
            &&& m.contains_key(m[id].parent.unwrap())
            &&& m[m[id].parent.unwrap()].children@.contains(id)
            &&& depth[id] == depth[m[id].parent.unwrap()] + 1
        }
    &&& forall|id: u128, i: int|
        m.contains_key(id) && 0 <= i < m[id].children@.len() ==> {
            &&& m.contains_key(#[trigger] m[id].children@[i])
            &&& m[m[id].children@[i]].parent == Some(id)
            &&& m[id].is_group
        }
    &&& forall|id: u128| #[trigger] m.contains_key(id) ==> m[id].children@.no_duplicates()
}


/// The index of `x` in `s`.
pub open spec fn index_in(s: Seq<u128>, x: u128) -> int {
    choose|i: int| 0 <= i < s.len() && s[i] == x
}

/// The child of `parent` just above its child `c`.
pub open spec fn child_above(m: Map<u128, LayerNode>, parent: u128, c: u128) -> Option<u128> {
    let ch = m[parent].children@;
    let i = index_in(ch, c);
    if i + 1 < ch.len() {
        Some(ch[i + 1])
    } else {
        None
    }
}

/// The child of `parent` just below its child `c`.
pub open spec fn child_below(m: Map<u128, LayerNode>, parent: u128, c: u128) -> Option<u128> {
    let ch = m[parent].children@;
    let i = index_in(ch, c);
    if i >= 1 {
        Some(ch[i - 1])
    } else {
        None
    }
}

/// Going up from `cur`, the first layer found just below a layer on the
/// way (`fuel` bounds the number of steps up).
pub open spec fn climb_below(m: Map<u128, LayerNode>, cur: u128, fuel: nat) -> Option<u128>
    decreases fuel,
{
    if fuel == 0 {
        None
    } else {
        match m[cur].parent {
            None => None,
            Some(p) => match child_below(m, p, cur) {
                Some(l) => Some(l),
                None => climb_below(m, p, (fuel - 1) as nat),
            },
        }
    }
}

/// The layer that becomes active when the layer after `active` is selected:
/// its topmost child if it has children; otherwise the layer just below it,
/// or else just below the nearest ancestor that has a layer below it.
pub open spec fn next_layer_spec(m: Map<u128, LayerNode>, active: u128) -> Option<u128> {
    let ch = m[active].children@;
    if ch.len() > 0 {
        Some(ch.last())
    } else {
        climb_below(m, active, m.dom().len())
    }
}

/// Going down from `n` through the bottom children, the first layer that
/// holds none (`fuel` bounds the number of steps down).
pub open spec fn descend_first(m: Map<u128, LayerNode>, n: u128, fuel: nat) -> u128
    decreases fuel,
{
    if fuel > 0 && m[n].children@.len() > 0 {
        descend_first(m, m[n].children@[0], (fuel - 1) as nat)
    } else {
        n
    }
}

/// The layer that becomes active when the layer before `active` is
/// selected: the lowest layer inside the layer just above it, or its parent
/// when nothing is above it.
pub open spec fn previous_layer_spec(m: Map<u128, LayerNode>, active: u128) -> u128 {
    let p = m[active].parent.unwrap();
    match child_above(m, p, active) {
        Some(l) => descend_first(m, l, m.dom().len()),
        None => p,
    }
}

/// Where a new layer goes when `cur` is active and the new layer would take
/// position `pos` there: in `cur` itself if it is a group, else next to it
/// in the nearest group on the way up (`fuel` bounds the number of steps).
pub open spec fn insertion_point(
    m: Map<u128, LayerNode>,
    cur: u128,
    pos: LayerPosition,
    fuel: nat,
) -> Option<(u128, LayerPosition)>
    decreases fuel,
{
    if m[cur].is_group {
        Some((cur, pos))
    } else if fuel == 0 {
        None
    } else {
        match m[cur].parent {
            None => None,
            Some(p) => insertion_point(m, p, LayerPosition::Above(cur), (fuel - 1) as nat),
        }
    }
}

/// Where a new layer goes while `active` is active: on top of `active` if it
/// is a group, else just above the layer on the way up that sits in a group.
pub open spec fn new_layer_spec(m: Map<u128, LayerNode>, active: u128) -> Option<(u128, LayerPosition)> {
    insertion_point(m, active, LayerPosition::Foreground, m.dom().len())
}

/// Where the selected layers go when moved up, `head` being the topmost of
/// them: into the bottom of the group just above it, or else just above
/// that layer; at the top of its group, just above the group in the group's
/// own parent (nowhere when the group is the root).
pub open spec fn move_up_spec(m: Map<u128, LayerNode>, head: u128) -> Option<(u128, LayerPosition)> {
    let p = m[head].parent.unwrap();
    match child_above(m, p, head) {
        Some(s) => if m[s].is_group {
            Some((s, LayerPosition::Background))
        } else {
            Some((p, LayerPosition::Above(s)))
        },
        None => match m[p].parent {
            Some(pp) => Some((pp, LayerPosition::Above(p))),
            None => None,
        },
    }
}

/// Where the selected layers go when moved down, `tail` being the lowest of
/// them: onto the top of the group just below it, or else just below that
/// layer; at the bottom of its group, just below the group in the group's
/// own parent (nowhere when the group is the root).
pub open spec fn move_down_spec(m: Map<u128, LayerNode>, tail: u128) -> Option<(u128, LayerPosition)> {
    let p = m[tail].parent.unwrap();
    match child_below(m, p, tail) {
        Some(s) => if m[s].is_group {
            Some((s, LayerPosition::Foreground))
        } else {
            Some((p, LayerPosition::Below(s)))
        },
        None => match m[p].parent {
            Some(pp) => Some((pp, LayerPosition::Below(p))),
            None => None,
        },
    }
}

/// Where a layer goes is a group of the tree, and the layer it is put next
/// to is one of that group's children.
pub open spec fn valid_target(m: Map<u128, LayerNode>, t: (u128, LayerPosition)) -> bool {
    &&& m.contains_key(t.0)
    &&& m[t.0].is_group
    &&& (t.1 matches LayerPosition::Above(x) ==> m[t.0].children@.contains(x))
    &&& (t.1 matches LayerPosition::Below(x) ==> m[t.0].children@.contains(x))
}


/// The index at which a layer put at `pos` among `children` lands.
pub open spec fn insert_index(children: Seq<u128>, pos: LayerPosition) -> int {
    match pos {
        LayerPosition::Foreground => children.len() as int,
        LayerPosition::Background => 0,
        LayerPosition::Above(x) => index_in(children, x) + 1,
        LayerPosition::Below(x) => index_in(children, x),
    }
}

/// `pos` names a place among `children`: a child it refers to is one of
/// them.
pub open spec fn position_in(children: Seq<u128>, pos: LayerPosition) -> bool {
    match pos {
        LayerPosition::Above(x) => children.contains(x),
        LayerPosition::Below(x) => children.contains(x),
        _ => true,
    }
}

/// Whether dropping the dragged layers (the first of them being `dragged`
/// when there is one) under `new_parent` at `pos` makes a move: not when
/// nothing or the root is dragged, nor when the first dragged layer would
/// land where it already is (positions resolving to indices as
/// `insert_index` gives them, among the children of a layer of the tree).
pub open spec fn drop_moves_spec(m: Map<u128, LayerNode>, dragged: Option<u128>, new_parent: u128, pos: LayerPosition) -> bool {
    match dragged {
        None => false,
        Some(d) => if !m.contains_key(d) || m[d].parent is None {
            false
        } else {
            let old_parent = m[d].parent.unwrap();
            !(m.contains_key(new_parent) && position_in(m[new_parent].children@, pos)
                && old_parent == new_parent
                && index_in(m[old_parent].children@, d) == insert_index(m[new_parent].children@, pos))
        },
    }
}

/// Why layers cannot be deleted.
#[derive(Clone, Copy, Debug, PartialEq, Eq, Structural)]
pub enum DeleteLayersError {
    /// Every layer of the root group would be deleted.
    NoLayerLeft,
}

/// `x` is deleted with `layers`: it or one of its ancestors is among them
/// (`fuel` bounds the number of steps up).
pub open spec fn deleted_with(m: Map<u128, LayerNode>, layers: Seq<u128>, x: u128, fuel: nat) -> bool
    decreases fuel,
{
    layers.contains(x) || (fuel > 0 && match m[x].parent {
        Some(p) => deleted_with(m, layers, p, (fuel - 1) as nat),
        None => false,
    })
}

/// Going up from `cur` to the nearest ancestor that is kept, the layer that
/// becomes active: the one below the kept ancestor's child on the way, or
/// else the one above it, or else the kept ancestor itself (`fuel` bounds
/// the number of steps up).
pub open spec fn active_after_delete(m: Map<u128, LayerNode>, layers: Seq<u128>, cur: u128, fuel: nat) -> u128
    decreases fuel,
{
    let p = m[cur].parent.unwrap();
    if fuel > 0 && deleted_with(m, layers, p, m.dom().len()) {
        active_after_delete(m, layers, p, (fuel - 1) as nat)
    } else {
        match child_below(m, p, cur) {
            Some(l) => l,
            None => match child_above(m, p, cur) {
                Some(l) => l,
                None => p,
            },
        }
    }
}

/// What deleting `layers` does to the active layer: nothing when it is
/// kept (`None`), else the layer that becomes active; refused when every
/// layer of the root group would go.
pub open spec fn delete_layers_spec(m: Map<u128, LayerNode>, root: u128, layers: Seq<u128>, active: u128) -> Result<Option<u128>, DeleteLayersError> {
    if forall|i: int| 0 <= i < m[root].children@.len() ==> layers.contains(#[trigger] m[root].children@[i]) {
        Err(DeleteLayersError::NoLayerLeft)
    } else if !deleted_with(m, layers, active, m.dom().len()) {
        Ok(None)
    } else {
        Ok(Some(active_after_delete(m, layers, active, m.dom().len())))
    }
}

impl LayerStack {
    /// The layers, by identifier.
    pub closed spec fn layers(&self) -> Map<u128, LayerNode> {
        self.nodes@
    }

    /// The root group.
    pub closed spec fn root(&self) -> u128 {
        self.root
    }

    /// The tree is well formed.
    pub closed spec fn wf(&self) -> bool {
        tree_wf(self.nodes@, self.root, self.depth@)
    }

    /// A tree that holds only its root group.
    pub fn new(root: u128) -> (r: LayerStack)
        ensures
            r.wf(),
            r.root() == root,
            r.layers().dom() == set![root],
            r.layers()[root].parent is None,
            r.layers()[root].children@ == Seq::<u128>::empty(),
            r.layers()[root].is_group,
    {
        let mut nodes: HashMap<u128, LayerNode> = HashMap::new();
        nodes.insert(root, LayerNode { parent: None, children: Vec::new(), is_group: true });
        let r = LayerStack { nodes, root, depth: Ghost(Map::empty().insert(root, 0nat)) };
        assert(r.nodes@.dom() =~= set![root]);
        assert(r.nodes@.dom().len() == 1) by {
            assert(set![root].len() == 1);
        }
        r
    }

    /// The root group.
    pub fn root_id(&self) -> (r: u128)
        ensures
            r == self.root(),
    {
        self.root
    }

    /// The layer `id`, if the tree holds it.
    pub fn get(&self, id: u128) -> (r: Option<&LayerNode>)
        ensures
            match r {
                Some(n) => self.layers().contains_key(id) && *n == self.layers()[id],
                None => !self.layers().contains_key(id),
            },
    {
        self.nodes.get(&id)
    }

    /// Puts a new layer `id` among the children of the group `parent`, at
    /// `pos`.
    pub fn insert_layer(&mut self, parent: u128, id: u128, is_group: bool, pos: LayerPosition)
        requires
            old(self).wf(),
            old(self).layers().contains_key(parent),
            old(self).layers()[parent].is_group,
            !old(self).layers().contains_key(id),
            position_in(old(self).layers()[parent].children@, pos),
        ensures
            final(self).wf(),
            final(self).root() == old(self).root(),
            final(self).layers().dom() == old(self).layers().dom().insert(id),
            final(self).layers()[id].parent == Some(parent),
            final(self).layers()[id].children@ == Seq::<u128>::empty(),
            final(self).layers()[id].is_group == is_group,
            final(self).layers()[parent].parent == old(self).layers()[parent].parent,
            final(self).layers()[parent].children@ == old(self).layers()[parent].children@.insert(
                insert_index(old(self).layers()[parent].children@, pos),
                id,
            ),
            final(self).layers()[parent].is_group,
            forall|k: u128|
                old(self).layers().contains_key(k) && k != parent ==> final(self).layers()[k]
                    == old(self).layers()[k],
    {
        let ghost m0 = self.nodes@;
        let ghost d0 = self.depth@;
        let mut p = self.nodes.remove(&parent).unwrap();
        let ghost old_children = p.children@;
        proof {
            assert(m0[parent].children@ == old_children);
        }
        let at: usize = match pos {
            LayerPosition::Foreground => p.children.len(),
            LayerPosition::Background => 0,
            LayerPosition::Above(x) => {
                let i = index_of(&p.children, x);
                assert(i < p.children.len());
                i + 1
            },
            LayerPosition::Below(x) => index_of(&p.children, x),
        };
        assert(at as int == insert_index(old_children, pos));
        p.children.insert(at, id);
        self.nodes.insert(parent, p);
        self.nodes.insert(id, LayerNode { parent: Some(parent), children: Vec::new(), is_group });
        self.depth = Ghost(d0.insert(id, d0[parent] + 1));
        proof {
            let m = self.nodes@;
            let d = self.depth@;
            let nc = m[parent].children@;
            assert(nc == old_children.insert(at as int, id));
            assert(m.dom() =~= m0.dom().insert(id));
            assert(m.dom().len() == m0.dom().len() + 1);
            assert(!old_children.contains(id)) by {
                if old_children.contains(id) {
                    let i = choose|i: int| 0 <= i < old_children.len() && old_children[i] == id;
                    assert(m0.contains_key(m0[parent].children@[i]));
                }
            }
            // every old child keeps a place, shifted by one past the new one
            assert forall|i: int| 0 <= i < old_children.len() implies nc[if i < at { i } else { i + 1 }]
                == old_children[i] by {}
            assert(nc[at as int] == id);
            assert forall|j: int| 0 <= j < nc.len() implies nc[j] == id || old_children.contains(
                #[trigger] nc[j],
            ) by {
                if j < at {
                    assert(nc[j] == old_children[j]);
                } else if j > at {
                    assert(nc[j] == old_children[j - 1]);
                }
            }
            assert(nc.no_duplicates()) by {
                assert forall|a: int, b: int| 0 <= a < nc.len() && 0 <= b < nc.len() && a != b implies nc[a]
                    != nc[b] by {
                    let oa = if a < at { a } else { a - 1 };
                    let ob = if b < at { b } else { b - 1 };
                    if a != at && b != at {
                        assert(nc[a] == old_children[oa]);
                        assert(nc[b] == old_children[ob]);
                    } else if a == at {
                        assert(nc[b] == old_children[ob]);
                    } else {
                        assert(nc[a] == old_children[oa]);
                    }
                }
            }
            assert forall|k: u128| #[trigger] m.contains_key(k) && k != self.root implies m[m[k].parent.unwrap()].children@.contains(k) && d[k] == d[m[k].parent.unwrap()] + 1 by {
                if k != id {
                    let q = m0[k].parent.unwrap();
                    if q == parent {
                        let i = choose|i: int| 0 <= i < old_children.len() && old_children[i] == k;
                        assert(nc[if i < at { i } else { i + 1 }] == k);
                    }
                } else {
                    assert(nc[at as int] == id);
                }
            }
            assert forall|k: u128, i: int| m.contains_key(k) && 0 <= i < m[k].children@.len() implies {
                &&& m.contains_key(#[trigger] m[k].children@[i])
                &&& m[m[k].children@[i]].parent == Some(k)
                &&& m[k].is_group
            } by {
                if k == parent {
                    if nc[i] != id {
                        let c = nc[i];
                        assert(old_children.contains(c));
                        let oi = choose|oi: int| 0 <= oi < old_children.len() && old_children[oi] == c;
                        assert(m0.contains_key(m0[parent].children@[oi]));
                    }
                }
            }
            assert forall|k: u128| #[trigger] m.contains_key(k) implies d[k] < m.dom().len() by {
                if k != id {
                    assert(m0.contains_key(k));
                }
            }
        }
    }

    /// Puts a new layer `id` where a layer created while `active` is active
    /// goes (see `new_layer_position`), and tells where that was; nothing
    /// changes when no group can hold it.
    pub fn add_new_layer(&mut self, active: u128, id: u128, is_group: bool) -> (r: Option<(u128, LayerPosition)>)
        requires
            old(self).wf(),
            old(self).layers().contains_key(active),
            !old(self).layers().contains_key(id),
        ensures
            final(self).wf(),
            r == new_layer_spec(old(self).layers(), active),
            final(self).root() == old(self).root(),
            r is None ==> final(self).layers() == old(self).layers(),
            r matches Some(t) ==> {
                &&& final(self).layers().dom() == old(self).layers().dom().insert(id)
                &&& final(self).layers()[id].parent == Some(t.0)
                &&& final(self).layers()[id].children@ == Seq::<u128>::empty()
                &&& final(self).layers()[id].is_group == is_group
                &&& final(self).layers()[t.0].parent == old(self).layers()[t.0].parent
                &&& final(self).layers()[t.0].is_group == old(self).layers()[t.0].is_group
                &&& final(self).layers()[t.0].children@ == old(self).layers()[t.0].children@.insert(
                    insert_index(old(self).layers()[t.0].children@, t.1),
                    id,
                )
                &&& forall|k: u128|
                    old(self).layers().contains_key(k) && k != t.0 ==> final(self).layers()[k]
                        == old(self).layers()[k]
            },
    {
        match self.new_layer_position(active) {
            Some((parent, pos)) => {
                self.insert_layer(parent, id, is_group, pos);
                Some((parent, pos))
            },
            None => None,
        }
    }

    /// The layer `id` of a tree that holds it.
    fn node(&self, id: u128) -> (r: &LayerNode)
        requires
            self.layers().contains_key(id),
        ensures
            *r == self.layers()[id],
    {
        self.nodes.get(&id).unwrap()
    }

    /// The child of `parent` just above its child `c`.
    fn child_above_of(&self, parent: u128, c: u128) -> (r: Option<u128>)
        requires
            self.wf(),
            self.layers().contains_key(parent),
            self.layers()[parent].children@.contains(c),
        ensures
            r == child_above(self.layers(), parent, c),
    {
        let ch = &self.node(parent).children;
        let i = index_of(ch, c);
        if i < ch.len() - 1 {
            Some(ch[i + 1])
        } else {
            None
        }
    }

    /// The child of `parent` just below its child `c`.
    fn child_below_of(&self, parent: u128, c: u128) -> (r: Option<u128>)
        requires
            self.wf(),
            self.layers().contains_key(parent),
            self.layers()[parent].children@.contains(c),
        ensures
            r == child_below(self.layers(), parent, c),
    {
        let ch = &self.node(parent).children;
        let i = index_of(ch, c);
        if i >= 1 {
            Some(ch[i - 1])
        } else {
            None
        }
    }

    /// Whether `x` is deleted with `layers`.
    fn is_deleted(&self, layers: &Vec<u128>, x: u128) -> (r: bool)
        requires
            self.wf(),
            self.layers().contains_key(x),
        ensures
            r == deleted_with(self.layers(), layers@, x, self.layers().dom().len()),
    {
        let ghost m = self.nodes@;
        let ghost d = self.depth@;
        proof {
            lemma_deleted_fuel(m, self.root, d, layers@, x, m.dom().len(), d[x]);
        }
        let mut cur = x;
        loop
            invariant
                self.wf(),
                m == self.nodes@,
                d == self.depth@,
                m.contains_key(cur),
                deleted_with(m, layers@, x, m.dom().len()) == deleted_with(m, layers@, cur, d[cur]),
            decreases d[cur],
        {
            if contains_id(layers, cur) {
                return true;
            }
            match self.node(cur).parent {
                Some(p) => {
                    proof {
                        assert(cur != self.root);
                    }
                    cur = p;
                },
                None => {
                    return false;
                },
            }
        }
    }

    /// What deleting `layers` (the selected layers) does to the active
    /// layer: `Ok(None)` when `active` is kept, `Ok(Some(l))` when `l`
    /// becomes active, and an error when every layer of the root group
    /// would go.
    pub fn delete_layers_plan(&self, layers: &Vec<u128>, active: u128) -> (r: Result<
        Option<u128>,
        DeleteLayersError,
    >)
        requires
            self.wf(),
            self.layers().contains_key(active),
            active != self.root(),
            !layers@.contains(self.root()),
        ensures
            r == delete_layers_spec(self.layers(), self.root(), layers@, active),
            r matches Ok(Some(l)) ==> self.layers().contains_key(l),
            r is Ok ==> exists|i: int|
                0 <= i < self.layers()[self.root()].children@.len() && !layers@.contains(
                    self.layers()[self.root()].children@[i],
                ),
    {
        let ghost m = self.nodes@;
        let ghost d = self.depth@;
        let root_children = &self.node(self.root).children;
        let mut all_gone = true;
        let mut i: usize = 0;
        while i < root_children.len()
            invariant
                i <= root_children@.len(),
                root_children@ == m[self.root].children@,
                all_gone == forall|k: int| 0 <= k < i ==> layers@.contains(#[trigger] root_children@[k]),
            decreases root_children@.len() - i,
        {
            if !contains_id(layers, root_children[i]) {
                all_gone = false;
            }
            i = i + 1;
        }
        if all_gone {
            return Err(DeleteLayersError::NoLayerLeft);
        }
        if !self.is_deleted(layers, active) {
            return Ok(None);
        }
        proof {
            lemma_active_after_delete_fuel(m, self.root, d, layers@, active, m.dom().len(), d[active]);
        }
        let mut cur = active;
        loop
            invariant
                self.wf(),
                m == self.nodes@,
                d == self.depth@,
                m.contains_key(cur),
                cur != self.root,
                !layers@.contains(self.root),
                delete_layers_spec(m, self.root, layers@, active) == Ok::<Option<u128>, DeleteLayersError>(
                    Some(active_after_delete(m, layers@, cur, d[cur])),
                ),
            decreases d[cur],
        {
            let parent = self.node(cur).parent.unwrap();
            proof {
                assert(m[parent].children@.contains(cur));
            }
            if self.is_deleted(layers, parent) {
                proof {
                    if parent == self.root {
                        assert(!deleted_with(m, layers@, parent, m.dom().len()));
                    }
                }
                cur = parent;
            } else {
                let next = match self.child_below_of(parent, cur) {
                    Some(l) => l,
                    None => match self.child_above_of(parent, cur) {
                        Some(l) => l,
                        None => parent,
                    },
                };
                proof {
                    let j = index_in(m[parent].children@, cur);
                    if j >= 1 {
                        assert(m.contains_key(m[parent].children@[j - 1]));
                    }
                    if j + 1 < m[parent].children@.len() {
                        assert(m.contains_key(m[parent].children@[j + 1]));
                    }
                }
                return Ok(Some(next));
            }
        }
    }

    /// Whether dropping `layers` (dragged in the layers panel) under
    /// `new_parent` at `pos` makes a move.
    pub fn drop_moves(&self, layers: &Vec<u128>, new_parent: u128, pos: LayerPosition) -> (r: bool)
        requires
            self.wf(),
        ensures
            r == drop_moves_spec(
                self.layers(),
                if layers@.len() > 0 { Some(layers@[0]) } else { None },
                new_parent,
                pos,
            ),
    {
        if layers.len() == 0 {
            return false;
        }
        let dragged = layers[0];
        let node = match self.get(dragged) {
            Some(n) => n,
            None => return false,
        };
        let old_parent = match node.parent {
            Some(p) => p,
            None => return false,
        };
        proof {
            assert(self.layers()[old_parent].children@.contains(dragged));
        }
        let old_index = index_of(&self.node(old_parent).children, dragged);
        let target = match self.get(new_parent) {
            Some(t) => t,
            None => return true,
        };
        let resolved: Option<usize> = match pos {
            LayerPosition::Foreground => Some(target.children.len()),
            LayerPosition::Background => Some(0),
            LayerPosition::Above(x) => {
                if contains_id(&target.children, x) {
                    let i = index_of(&target.children, x);
                    assert(i < target.children.len());
                    Some(i + 1)
                } else {
                    None
                }
            },
            LayerPosition::Below(x) => {
                if contains_id(&target.children, x) {
                    Some(index_of(&target.children, x))
                } else {
                    None
                }
            },
        };
        match resolved {
            Some(at) => !(old_parent == new_parent && old_index == at),
            None => true,
        }
    }

    /// The layer that becomes active when the layer after `active` is
    /// selected; none when `active` is the lowest layer of the image. The
    /// root group qualifies only while it holds a layer.
    pub fn next_layer(&self, active: u128) -> (r: Option<u128>)
        requires
            self.wf(),
            self.layers().contains_key(active),
            active != self.root() || self.layers()[active].children@.len() > 0,
        ensures
            r == next_layer_spec(self.layers(), active),
            r matches Some(l) ==> self.layers().contains_key(l) && l != self.root() && l != active,
    {
        let ghost m = self.nodes@;
        let ghost d = self.depth@;
        proof {
            lemma_next_layer_is_another_layer(m, self.root, d, active);
        }
        let ch = &self.node(active).children;
        if ch.len() > 0 {
            let l = ch[ch.len() - 1];
            proof {
                assert(m.contains_key(m[active].children@[ch.len() - 1]));
            }
            return Some(l);
        }
        proof {
            lemma_climb_fuel(m, self.root, d, active, m.dom().len(), d[active] + 1);
        }
        let mut cur = active;
        loop
            invariant
                self.wf(),
                m == self.nodes@,
                d == self.depth@,
                m.contains_key(cur),
                next_layer_spec(m, active) == climb_below(m, cur, d[cur] + 1),
                next_layer_spec(m, active) matches Some(l) ==> l != active,
            decreases d[cur],
        {
            let parent = match self.node(cur).parent {
                Some(p) => p,
                None => return None,
            };
            proof {
                assert(cur != self.root);
                assert(m[parent].children@.contains(cur));
            }
            proof {
                assert(climb_below(m, cur, (d[cur] + 1) as nat) == match child_below(m, parent, cur) {
                    Some(l) => Some(l),
                    None => climb_below(m, parent, d[cur]),
                });
            }
            match self.child_below_of(parent, cur) {
                Some(l) => {
                    proof {
                        let i = index_in(m[parent].children@, cur);
                        assert(m.contains_key(m[parent].children@[i - 1]));
                    }
                    return Some(l);
                },
                None => {},
            }
            cur = parent;
        }
    }

    /// The layer that becomes active when the layer before `active` is
    /// selected.
    pub fn previous_layer(&self, active: u128) -> (r: u128)
        requires
            self.wf(),
            self.layers().contains_key(active),
            active != self.root(),
        ensures
            r == previous_layer_spec(self.layers(), active),
            self.layers().contains_key(r),
            r != active,
    {
        let ghost m = self.nodes@;
        let ghost d = self.depth@;
        proof {
            lemma_previous_layer_is_another_layer(m, self.root, d, active);
        }
        let parent = self.node(active).parent.unwrap();
        let above = match self.child_above_of(parent, active) {
            Some(l) => l,
            None => return parent,
        };
        proof {
            let i = index_in(m[parent].children@, active);
            assert(m.contains_key(m[parent].children@[i + 1]));
            lemma_descend_fuel(m, self.root, d, above, m.dom().len());
            assert(previous_layer_spec(m, active) == descend_first(m, above, m.dom().len()));
        }
        let mut cur = above;
        loop
            invariant
                self.wf(),
                m == self.nodes@,
                d == self.depth@,
                m.contains_key(cur),
                previous_layer_spec(m, active) != active,
                previous_layer_spec(m, active) == descend_first(
                    m,
                    cur,
                    (m.dom().len() - 1 - d[cur]) as nat,
                ),
            decreases m.dom().len() - d[cur],
        {
            let ch = &self.node(cur).children;
            if ch.len() == 0 {
                assert(descend_first(m, cur, (m.dom().len() - 1 - d[cur]) as nat) == cur);
                return cur;
            }
            let next = ch[0];
            proof {
                assert(m.contains_key(m[cur].children@[0]));
                assert(d[next] == d[cur] + 1);
            }
            cur = next;
        }
    }

    /// Where a new layer goes while `active` is active; none when no group
    /// can be found on the way up.
    pub fn new_layer_position(&self, active: u128) -> (r: Option<(u128, LayerPosition)>)
        requires
            self.wf(),
            self.layers().contains_key(active),
        ensures
            r == new_layer_spec(self.layers(), active),
            r matches Some(t) ==> valid_target(self.layers(), t),
    {
        let ghost m = self.nodes@;
        let ghost d = self.depth@;
        proof {
            lemma_insertion_fuel(m, self.root, d, active, LayerPosition::Foreground, m.dom().len(), d[active]);
        }
        let mut cur = active;
        let mut pos = LayerPosition::Foreground;
        loop
            invariant
                self.wf(),
                m == self.nodes@,
                d == self.depth@,
                m.contains_key(cur),
                new_layer_spec(m, active) == insertion_point(m, cur, pos, d[cur]),
                pos matches LayerPosition::Above(x) ==> m[cur].children@.contains(x),
                !(pos matches LayerPosition::Below(_)),
            decreases d[cur],
        {
            let node = self.node(cur);
            if node.is_group {
                return Some((cur, pos));
            }
            let parent = match node.parent {
                Some(p) => p,
                None => return None,
            };
            proof {
                assert(cur != self.root);
            }
            pos = LayerPosition::Above(cur);
            cur = parent;
        }
    }

    /// Where the selected layers go when moved up, `head` being the topmost
    /// of them; none when `head` is the top layer of the root group.
    pub fn move_up_target(&self, head: u128) -> (r: Option<(u128, LayerPosition)>)
        requires
            self.wf(),
            self.layers().contains_key(head),
            head != self.root(),
        ensures
            r == move_up_spec(self.layers(), head),
            r matches Some(t) ==> valid_target(self.layers(), t),
    {
        let ghost m = self.nodes@;
        let parent = self.node(head).parent.unwrap();
        proof {
            assert(m[parent].children@.contains(head));
            let i = index_in(m[parent].children@, head);
            assert(m.contains_key(m[parent].children@[i]));
        }
        match self.child_above_of(parent, head) {
            Some(s) => {
                proof {
                    let i = index_in(m[parent].children@, head);
                    assert(m.contains_key(m[parent].children@[i + 1]));
                    assert(m[parent].children@.contains(m[parent].children@[i + 1]));
                }
                if self.node(s).is_group {
                    Some((s, LayerPosition::Background))
                } else {
                    Some((parent, LayerPosition::Above(s)))
                }
            },
            None => match self.node(parent).parent {
                Some(pp) => {
                    proof {
                        assert(m[pp].children@.contains(parent));
                        let j = index_in(m[pp].children@, parent);
                        assert(m.contains_key(m[pp].children@[j]));
                    }
                    Some((pp, LayerPosition::Above(parent)))
                },
                None => None,
            },
        }
    }

    /// Where the selected layers go when moved down, `tail` being the lowest
    /// of them; none when `tail` is the bottom layer of the root group.
    pub fn move_down_target(&self, tail: u128) -> (r: Option<(u128, LayerPosition)>)
        requires
            self.wf(),
            self.layers().contains_key(tail),
            tail != self.root(),
        ensures
            r == move_down_spec(self.layers(), tail),
            r matches Some(t) ==> valid_target(self.layers(), t),
    {
        let ghost m = self.nodes@;
        let parent = self.node(tail).parent.unwrap();
        proof {
            assert(m[parent].children@.contains(tail));
            let i = index_in(m[parent].children@, tail);
            assert(m.contains_key(m[parent].children@[i]));
        }
        match self.child_below_of(parent, tail) {
            Some(s) => {
                proof {
                    let i = index_in(m[parent].children@, tail);
                    assert(m.contains_key(m[parent].children@[i - 1]));
                    assert(m[parent].children@.contains(m[parent].children@[i - 1]));
                }
                if self.node(s).is_group {
                    Some((s, LayerPosition::Foreground))
                } else {
                    Some((parent, LayerPosition::Below(s)))
                }
            },
            None => match self.node(parent).parent {
                Some(pp) => {
                    proof {
                        assert(m[pp].children@.contains(parent));
                        let j = index_in(m[pp].children@, parent);
                        assert(m.contains_key(m[pp].children@[j]));
                    }
                    Some((pp, LayerPosition::Below(parent)))
                },
                None => None,
            },
        }
    }
}

/// Going up from `cur` (`active` itself or one of its ancestors), the layer
/// found is a layer of the tree other than the root and `active`.
proof fn lemma_climb_finds_another_layer(
    m: Map<u128, LayerNode>,
    root: u128,
    d: Map<u128, nat>,
    active: u128,
    cur: u128,
    fuel: nat,
)
    requires
        tree_wf(m, root, d),
        m.contains_key(cur),
        cur == active || d[cur] < d[active],
    ensures
        climb_below(m, cur, fuel) matches Some(l) ==> m.contains_key(l) && l != root && l != active,
    decreases fuel,
{
    if fuel > 0 && cur != root {
        let p = m[cur].parent.unwrap();
        let ch = m[p].children@;
        let i = index_in(ch, cur);
        assert(ch.contains(cur));
        if i >= 1 {
            let l = ch[i - 1];
            assert(m.contains_key(l));
            assert(m[l].parent == Some(p));
            assert(l != ch[i]);
            assert(d[l] == d[cur]);
        } else {
            lemma_climb_finds_another_layer(m, root, d, active, p, (fuel - 1) as nat);
        }
    }
}

/// The layer after `active` is a layer of the tree other than the root and
/// `active` itself.
proof fn lemma_next_layer_is_another_layer(m: Map<u128, LayerNode>, root: u128, d: Map<u128, nat>, active: u128)
    requires
        tree_wf(m, root, d),
        m.contains_key(active),
        active != root || m[active].children@.len() > 0,
    ensures
        next_layer_spec(m, active) matches Some(l) ==> m.contains_key(l) && l != root && l != active,
{
    let ch = m[active].children@;
    if ch.len() > 0 {
        let l = ch[ch.len() - 1];
        assert(m.contains_key(l));
        assert(m[l].parent == Some(active));
        assert(d[l] == d[active] + 1);
    } else {
        lemma_climb_finds_another_layer(m, root, d, active, active, m.dom().len());
    }
}

/// Going down through the bottom children from a layer at least as deep as
/// `active` but other than it, the layer reached is not `active`.
proof fn lemma_descend_avoids(m: Map<u128, LayerNode>, root: u128, d: Map<u128, nat>, active: u128, n: u128, fuel: nat)
    requires
        tree_wf(m, root, d),
        m.contains_key(n),
        n != active,
        d[n] >= d[active],
    ensures
        descend_first(m, n, fuel) != active,
        m.contains_key(descend_first(m, n, fuel)),
    decreases fuel,
{
    if fuel > 0 && m[n].children@.len() > 0 {
        let c = m[n].children@[0];
        assert(m.contains_key(c));
        assert(m[c].parent == Some(n));
        assert(d[c] == d[n] + 1);
        lemma_descend_avoids(m, root, d, active, c, (fuel - 1) as nat);
    }
}

/// The layer before `active` is a layer of the tree other than `active`.
proof fn lemma_previous_layer_is_another_layer(m: Map<u128, LayerNode>, root: u128, d: Map<u128, nat>, active: u128)
    requires
        tree_wf(m, root, d),
        m.contains_key(active),
        active != root,
    ensures
        m.contains_key(previous_layer_spec(m, active)),
        previous_layer_spec(m, active) != active,
{
    let p = m[active].parent.unwrap();
    let ch = m[p].children@;
    let i = index_in(ch, active);
    assert(ch.contains(active));
    if i + 1 < ch.len() {
        let l = ch[i + 1];
        assert(m.contains_key(l));
        assert(m[l].parent == Some(p));
        assert(l != ch[i]);
        assert(d[l] == d[active]);
        lemma_descend_avoids(m, root, d, active, l, m.dom().len());
    } else {
        assert(d[p] < d[active]);
    }
}

impl LayerStack {
    /// Selecting the layer after the active one (when there is one) leaves
    /// that layer active and the only one selected.
    pub proof fn lemma_select_next_selects_it(&self, active: u128)
        requires
            self.wf(),
            self.layers().contains_key(active),
            active != self.root() || self.layers()[active].children@.len() > 0,
        ensures
            next_layer_spec(self.layers(), active) matches Some(l) ==> after_set_active(
                active,
                Seq::empty(),
                l,
                self.root(),
            ) == (l, seq![l]),
    {
        lemma_next_layer_is_another_layer(self.nodes@, self.root, self.depth@, active);
        if let Some(l) = next_layer_spec(self.layers(), active) {
            assert(Seq::<u128>::empty().push(l) =~= seq![l]);
        }
    }

    /// Selecting the layer before the active one leaves that layer active
    /// and the only one selected, unless it is the root group (the active
    /// layer was the top one of the image), which never becomes active.
    pub proof fn lemma_select_previous_selects_it(&self, active: u128)
        requires
            self.wf(),
            self.layers().contains_key(active),
            active != self.root(),
        ensures
            previous_layer_spec(self.layers(), active) != self.root() ==> after_set_active(
                active,
                Seq::empty(),
                previous_layer_spec(self.layers(), active),
                self.root(),
            ) == (previous_layer_spec(self.layers(), active), seq![previous_layer_spec(self.layers(), active)]),
    {
        lemma_previous_layer_is_another_layer(self.nodes@, self.root, self.depth@, active);
        let l = previous_layer_spec(self.layers(), active);
        assert(Seq::<u128>::empty().push(l) =~= seq![l]);
    }
}

/// `to` is reached from `from` by going down through first (bottom)
/// children, at most `n` steps.
pub open spec fn below_through_first_children(m: Map<u128, LayerNode>, from: u128, to: u128, n: nat) -> bool
    decreases n,
{
    to == from || (n > 0 && m[from].children@.len() > 0 && below_through_first_children(
        m,
        m[from].children@[0],
        to,
        (n - 1) as nat,
    ))
}

/// Going down through the bottom children from `n` with enough steps ends
/// at a layer of the tree that holds no layer.
proof fn lemma_descend_reaches_leaf(m: Map<u128, LayerNode>, root: u128, d: Map<u128, nat>, n: u128, fuel: nat)
    requires
        tree_wf(m, root, d),
        m.contains_key(n),
        fuel + d[n] >= m.dom().len(),
    ensures
        m.contains_key(descend_first(m, n, fuel)),
        m[descend_first(m, n, fuel)].children@.len() == 0,
        below_through_first_children(m, n, descend_first(m, n, fuel), fuel),
    decreases fuel,
{
    if fuel > 0 && m[n].children@.len() > 0 {
        let c = m[n].children@[0];
        assert(m.contains_key(c));
        assert(m[c].parent == Some(n));
        assert(d[c] == d[n] + 1);
        lemma_descend_reaches_leaf(m, root, d, c, (fuel - 1) as nat);
    } else if fuel == 0 {
        assert(d[n] < m.dom().len());
    }
}

impl LayerStack {
    /// Selecting the layer after `active` goes down one row: into its top
    /// child when it holds layers; else to the sibling just below it; else,
    /// when it is the bottom child, to the sibling just below its group; and
    /// to nothing when it is the bottom child of the root.
    pub proof fn lemma_next_layer_is_the_row_below(&self, active: u128, i: int)
        requires
            self.wf(),
            self.layers().contains_key(active),
            active != self.root(),
            0 <= i < self.layers()[self.layers()[active].parent.unwrap()].children@.len(),
            self.layers()[self.layers()[active].parent.unwrap()].children@[i] == active,
        ensures
            ({
                let m = self.layers();
                let own = m[active].children@;
                let p = m[active].parent.unwrap();
                let ch = m[p].children@;
                let r = next_layer_spec(m, active);
                &&& own.len() > 0 ==> r == Some(own[own.len() - 1])
                &&& own.len() == 0 && i > 0 ==> r == Some(ch[i - 1])
                &&& own.len() == 0 && i == 0 && p == self.root() ==> r is None
                &&& forall|j: int|
                    own.len() == 0 && i == 0 && p != self.root() && 0 <= j < m[m[p].parent.unwrap()].children@.len()
                        && #[trigger] m[m[p].parent.unwrap()].children@[j] == p ==> r == (if j > 0 {
                        Some(m[m[p].parent.unwrap()].children@[j - 1])
                    } else {
                        climb_below(m, m[p].parent.unwrap(), m.dom().len())
                    })
            }),
    {
        let m = self.nodes@;
        let d = self.depth@;
        let p = m[active].parent.unwrap();
        let ch = m[p].children@;
        assert(ch.contains(active));
        let k = index_in(ch, active);
        assert(0 <= k < ch.len() && ch[k] == active);
        assert(k == i);
        if m[active].children@.len() == 0 {
            let n = m.dom().len();
            lemma_climb_fuel(m, self.root, d, active, n, d[active] + 1);
            assert(d[active] + 1 <= n);
            assert(climb_below(m, active, (d[active] + 1) as nat) == match child_below(m, p, active) {
                Some(l) => Some(l),
                None => climb_below(m, p, d[active]),
            });
            if i == 0 {
                if p == self.root {
                    assert(climb_below(m, p, d[active]) is None);
                } else {
                    let pp = m[p].parent.unwrap();
                    let cp = m[pp].children@;
                    assert(cp.contains(p));
                    let kp = index_in(cp, p);
                    assert forall|j: int| 0 <= j < cp.len() && #[trigger] cp[j] == p implies next_layer_spec(
                        m,
                        active,
                    ) == (if j > 0 {
                        Some(cp[j - 1])
                    } else {
                        climb_below(m, pp, n)
                    }) by {
                        assert(j == kp);
                        assert(d[p] + 1 == d[active]);
                        assert(climb_below(m, p, d[active]) == match child_below(m, pp, p) {
                            Some(l) => Some(l),
                            None => climb_below(m, pp, d[p]),
                        });
                        lemma_climb_fuel(m, self.root, d, pp, d[p], n);
                    }
                }
            }
        }
    }

    /// A new layer goes on top of the active layer's children when the
    /// active layer is a group, and otherwise just above the active layer in
    /// the group that holds it.
    pub proof fn lemma_new_layer_goes_above_active(&self, active: u128)
        requires
            self.wf(),
            self.layers().contains_key(active),
        ensures
            new_layer_spec(self.layers(), active) == if self.layers()[active].is_group {
                Some((active, LayerPosition::Foreground))
            } else {
                Some((self.layers()[active].parent.unwrap(), LayerPosition::Above(active)))
            },
    {
        let m = self.nodes@;
        if !m[active].is_group {
            let p = m[active].parent.unwrap();
            assert(m[p].children@.contains(active));
            let k = choose|k: int| 0 <= k < m[p].children@.len() && m[p].children@[k] == active;
            assert(m.contains_key(m[p].children@[k]));
            assert(m.dom().contains(active));
            assert(m.dom().len() > 0);
            assert(m[p].is_group);
            let n = m.dom().len();
            assert(insertion_point(m, p, LayerPosition::Above(active), (n - 1) as nat) == Some(
                (p, LayerPosition::Above(active)),
            ));
            assert(insertion_point(m, active, LayerPosition::Foreground, n) == insertion_point(
                m,
                p,
                LayerPosition::Above(active),
                (n - 1) as nat,
            ));
        }
    }

    /// Moving the selected layers up, `head` being the topmost of them at
    /// index `i` among its siblings: into the bottom of the sibling just
    /// above when that is a group, else just above that sibling; at the top
    /// of its group, just above the group in the group's own parent, and
    /// nowhere when the group is the root. Moving down mirrors it: onto the
    /// top of the sibling just below when that is a group, else just below
    /// it; at the bottom, just below the group, and nowhere at the root.
    pub proof fn lemma_move_targets_are_next_to_the_sibling(&self, x: u128, i: int)
        requires
            self.wf(),
            self.layers().contains_key(x),
            x != self.root(),
            0 <= i < self.layers()[self.layers()[x].parent.unwrap()].children@.len(),
            self.layers()[self.layers()[x].parent.unwrap()].children@[i] == x,
        ensures
            ({
                let m = self.layers();
                let p = m[x].parent.unwrap();
                let ch = m[p].children@;
                &&& i + 1 < ch.len() ==> move_up_spec(m, x) == if m[ch[i + 1]].is_group {
                    Some((ch[i + 1], LayerPosition::Background))
                } else {
                    Some((p, LayerPosition::Above(ch[i + 1])))
                }
                &&& i + 1 == ch.len() && p != self.root() ==> move_up_spec(m, x) == Some(
                    (m[p].parent.unwrap(), LayerPosition::Above(p)),
                )
                &&& i + 1 == ch.len() && p == self.root() ==> move_up_spec(m, x) is None
                &&& i > 0 ==> move_down_spec(m, x) == if m[ch[i - 1]].is_group {
                    Some((ch[i - 1], LayerPosition::Foreground))
                } else {
                    Some((p, LayerPosition::Below(ch[i - 1])))
                }
                &&& i == 0 && p != self.root() ==> move_down_spec(m, x) == Some(
                    (m[p].parent.unwrap(), LayerPosition::Below(p)),
                )
                &&& i == 0 && p == self.root() ==> move_down_spec(m, x) is None
            }),
    {
        let m = self.nodes@;
        let p = m[x].parent.unwrap();
        let ch = m[p].children@;
        assert(ch.contains(x));
        let k = index_in(ch, x);
        assert(0 <= k < ch.len() && ch[k] == x);
        assert(k == i);
        if p != self.root {
            assert(m.contains_key(p));
            assert(m[p].parent is Some);
        }
    }

    /// Selecting the layer before `active` goes up one row: when a layer
    /// lies just above `active` among its siblings, the layer chosen holds
    /// no layer and is reached from that sibling through bottom children
    /// only (the lowest row inside it); when `active` is the top child, its
    /// group is chosen.
    pub proof fn lemma_previous_layer_is_the_row_above(&self, active: u128, i: int)
        requires
            self.wf(),
            self.layers().contains_key(active),
            active != self.root(),
            0 <= i < self.layers()[self.layers()[active].parent.unwrap()].children@.len(),
            self.layers()[self.layers()[active].parent.unwrap()].children@[i] == active,
        ensures
            ({
                let m = self.layers();
                let p = m[active].parent.unwrap();
                let ch = m[p].children@;
                let r = previous_layer_spec(m, active);
                &&& i + 1 < ch.len() ==> m.contains_key(r) && m[r].children@.len() == 0
                    && below_through_first_children(m, ch[i + 1], r, m.dom().len())
                &&& i + 1 == ch.len() ==> r == p
            }),
    {
        let m = self.nodes@;
        let d = self.depth@;
        let p = m[active].parent.unwrap();
        let ch = m[p].children@;
        assert(ch.contains(active));
        let j = index_in(ch, active);
        assert(0 <= j < ch.len() && ch[j] == active);
        assert(j == i);
        if i + 1 < ch.len() {
            let l = ch[i + 1];
            assert(m.contains_key(l));
            lemma_descend_reaches_leaf(m, self.root, d, l, m.dom().len());
        }
    }
}

/// The index of `x` in a list that holds it once.
fn index_of(s: &Vec<u128>, x: u128) -> (i: usize)
    requires
        s@.contains(x),
        s@.no_duplicates(),
    ensures
        i < s@.len(),
        s@[i as int] == x,
        i as int == index_in(s@, x),
{
    let mut i: usize = 0;
    while i < s.len()
        invariant
            i <= s@.len(),
            s@.contains(x),
            s@.no_duplicates(),
            forall|k: int| 0 <= k < i ==> s@[k] != x,
        decreases s@.len() - i,
    {
        if s[i] == x {
            proof {
                let c = index_in(s@, x);
                assert(0 <= c < s@.len() && s@[c] == x);
                assert(s@[i as int] == x);
                if c != i as int {
                    assert(s@[c] != s@[i as int]);
                }
            }
            return i;
        }
        i = i + 1;
    }
    proof {
        let k = choose|k: int| 0 <= k < s@.len() && s@[k] == x;
        assert(s@[k] != x);
    }
    0
}

/// Whether `x` is in `s`.
fn contains_id(s: &Vec<u128>, x: u128) -> (r: bool)
    ensures
        r == s@.contains(x),
{
    let mut i: usize = 0;
    while i < s.len()
        invariant
            i <= s@.len(),
            forall|k: int| 0 <= k < i ==> s@[k] != x,
        decreases s@.len() - i,
    {
        if s[i] == x {
            return true;
        }
        i = i + 1;
    }
    false
}

/// The root is deleted only when it is among the layers.
proof fn lemma_root_deleted(m: Map<u128, LayerNode>, root: u128, d: Map<u128, nat>, layers: Seq<u128>, f: nat)
    requires
        tree_wf(m, root, d),
    ensures
        deleted_with(m, layers, root, f) == layers.contains(root),
{
}

/// With enough fuel to reach the root, whether a layer is deleted does not
/// depend on the fuel.
proof fn lemma_deleted_fuel(
    m: Map<u128, LayerNode>,
    root: u128,
    d: Map<u128, nat>,
    layers: Seq<u128>,
    x: u128,
    f1: nat,
    f2: nat,
)
    requires
        tree_wf(m, root, d),
        m.contains_key(x),
        f1 >= d[x],
        f2 >= d[x],
    ensures
        deleted_with(m, layers, x, f1) == deleted_with(m, layers, x, f2),
    decreases d[x],
{
    if x != root {
        let p = m[x].parent.unwrap();
        if f1 > 0 && f2 > 0 {
            lemma_deleted_fuel(m, root, d, layers, p, (f1 - 1) as nat, (f2 - 1) as nat);
        }
    }
}

/// With enough fuel to reach a kept ancestor, the layer that becomes active
/// does not depend on the fuel.
proof fn lemma_active_after_delete_fuel(
    m: Map<u128, LayerNode>,
    root: u128,
    d: Map<u128, nat>,
    layers: Seq<u128>,
    cur: u128,
    f1: nat,
    f2: nat,
)
    requires
        tree_wf(m, root, d),
        m.contains_key(cur),
        cur != root,
        !layers.contains(root),
        f1 >= d[cur],
        f2 >= d[cur],
    ensures
        active_after_delete(m, layers, cur, f1) == active_after_delete(m, layers, cur, f2),
    decreases d[cur],
{
    let p = m[cur].parent.unwrap();
    if p == root {
        lemma_root_deleted(m, root, d, layers, m.dom().len());
    } else if f1 > 0 && f2 > 0 {
        lemma_active_after_delete_fuel(m, root, d, layers, p, (f1 - 1) as nat, (f2 - 1) as nat);
    }
}

/// With enough fuel to reach the root, climbing gives the same answer.
proof fn lemma_climb_fuel(m: Map<u128, LayerNode>, root: u128, d: Map<u128, nat>, cur: u128, f1: nat, f2: nat)
    requires
        tree_wf(m, root, d),
        m.contains_key(cur),
        f1 > d[cur],
        f2 > d[cur],
    ensures
        climb_below(m, cur, f1) == climb_below(m, cur, f2),
    decreases d[cur],
{
    match m[cur].parent {
        None => {},
        Some(p) => {
            if cur != root {
                lemma_climb_fuel(m, root, d, p, (f1 - 1) as nat, (f2 - 1) as nat);
            }
        },
    }
}

/// With enough fuel to reach a layer without children, going down gives
/// the same answer.
proof fn lemma_descend_fuel(m: Map<u128, LayerNode>, root: u128, d: Map<u128, nat>, n: u128, f: nat)
    requires
        tree_wf(m, root, d),
        m.contains_key(n),
        f >= m.dom().len() - 1 - d[n],
    ensures
        descend_first(m, n, f) == descend_first(m, n, (m.dom().len() - 1 - d[n]) as nat),
    decreases f,
{
    let g = (m.dom().len() - 1 - d[n]) as nat;
    if m[n].children@.len() > 0 {
        let c = m[n].children@[0];
        assert(m.contains_key(c));
        assert(m[c].parent == Some(n));
        assert(d[c] == d[n] + 1);
        assert(d[c] < m.dom().len());
        lemma_descend_fuel(m, root, d, c, (f - 1) as nat);
    }
}

/// With enough fuel to reach the root, the search for a group gives the
/// same answer.
proof fn lemma_insertion_fuel(
    m: Map<u128, LayerNode>,
    root: u128,
    d: Map<u128, nat>,
    cur: u128,
    pos: LayerPosition,
    f1: nat,
    f2: nat,
)
    requires
        tree_wf(m, root, d),
        m.contains_key(cur),
        f1 >= d[cur],
        f2 >= d[cur],
    ensures
        insertion_point(m, cur, pos, f1) == insertion_point(m, cur, pos, f2),
    decreases d[cur],
{
    if !m[cur].is_group {
        assert(cur != root);
        let p = m[cur].parent.unwrap();
        lemma_insertion_fuel(m, root, d, p, LayerPosition::Above(cur), (f1 - 1) as nat, (f2 - 1) as nat);
    }
}

} // verus!
