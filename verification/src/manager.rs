//! The open canvases and which of them is current.

use vstd::prelude::*;
use std::collections::HashMap;
use crate::canvas::CanvasId;

verus! {

broadcast use vstd::std_specs::hash::group_hash_axioms;

/// The open canvases, by identifier, and the current one.
pub struct CanvasManager<C> {
    canvases: HashMap<u128, C>,
    current_canvas: Option<CanvasId>,
}

/// The canvas that is current is open.
pub open spec fn current_is_open<C>(canvases: Map<u128, C>, current: Option<CanvasId>) -> bool {
    match current {
        Some(id) => canvases.contains_key(id.0),
        None => true,
    }
}

impl<C> CanvasManager<C> {
    /// The open canvases, by identifier.
    pub closed spec fn canvases(&self) -> Map<u128, C> {
        self.canvases@
    }

    /// The current canvas, if any.
    pub closed spec fn current(&self) -> Option<CanvasId> {
        self.current_canvas
    }

    /// No canvas is open.
    pub fn new() -> (r: Self)
        ensures
            r.canvases() == Map::<u128, C>::empty(),
            r.current() is None,
            current_is_open(r.canvases(), r.current()),
    {
        CanvasManager { canvases: HashMap::new(), current_canvas: None }
    }

    /// Opens `canvas` under `id` and makes it current.
    pub fn add_canvas(&mut self, id: CanvasId, canvas: C) -> (r: CanvasId)
        ensures
            r == id,
            final(self).canvases() == old(self).canvases().insert(id.0, canvas),
            final(self).current() == Some(id),
            current_is_open(final(self).canvases(), final(self).current()),
    {
        self.current_canvas = Some(id);
        self.canvases.insert(id.0, canvas);
        id
    }

    /// Closes the canvas `id`; when it was current, some other open canvas
    /// (none when no canvas is left) becomes current.
    pub fn remove_canvas(&mut self, id: &CanvasId) -> (r: Option<C>)
        ensures
            current_is_open(old(self).canvases(), old(self).current()) ==> current_is_open(
                final(self).canvases(),
                final(self).current(),
            ),
            match r {
                Some(c) => {
                    &&& old(self).canvases().contains_key(id.0)
                    &&& c == old(self).canvases()[id.0]
                    &&& final(self).canvases() == old(self).canvases().remove(id.0)
                    &&& if old(self).current() == Some(*id) {
                        match final(self).current() {
                            Some(next) => final(self).canvases().contains_key(next.0),
                            None => final(self).canvases().is_empty(),
                        }
                    } else {
                        final(self).current() == old(self).current()
                    }
                },
                None => {
                    &&& !old(self).canvases().contains_key(id.0)
                    &&& final(self).canvases() == old(self).canvases()
                    &&& final(self).current() == old(self).current()
                },
            },
    {
        let removed = match self.canvases.remove(&id.0) {
            Some(c) => c,
            None => return None,
        };
        let is_current = match self.current_canvas {
            Some(cur) => cur.0 == id.0,
            None => false,
        };
        if is_current {
            let ghost dom = self.canvases@.dom();
            let mut next: Option<u128> = None;
            for k in it: self.canvases.keys()
                invariant
                    it.seq().unref().to_set() == dom,
                    next matches Some(x) ==> dom.contains(x),
                    it.index() > 0 ==> next is Some,
            {
                proof {
                    assert(it.seq().unref()[it.index() as int] == *k);
                    assert(it.seq().unref().to_set().contains(*k));
                }
                if next.is_none() {
                    next = Some(*k);
                }
            }
            self.current_canvas = match next {
                Some(k) => Some(CanvasId(k)),
                None => None,
            };
            proof {
                if self.current_canvas is None {
                    assert(self.canvases@.dom().len() == 0);
                    assert(self.canvases@.dom() =~= Set::empty());
                }
            }
        }
        Some(removed)
    }

    /// The canvas `id`, if it is open.
    pub fn get(&self, id: &CanvasId) -> (r: Option<&C>)
        ensures
            match r {
                Some(c) => self.canvases().contains_key(id.0) && *c == self.canvases()[id.0],
                None => !self.canvases().contains_key(id.0),
            },
    {
        self.canvases.get(&id.0)
    }

    /// The current canvas, if any.
    pub fn current_id(&self) -> (r: Option<CanvasId>)
        ensures
            r == self.current(),
    {
        self.current_canvas
    }

    /// Makes the open canvas `id` current.
    pub fn set_current(&mut self, id: CanvasId)
        requires
            old(self).canvases().contains_key(id.0),
        ensures
            final(self).canvases() == old(self).canvases(),
            final(self).current() == Some(id),
            current_is_open(final(self).canvases(), final(self).current()),
    {
        self.current_canvas = Some(id);
    }
}

} // verus!
