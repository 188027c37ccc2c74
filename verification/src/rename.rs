//! Renaming a layer in the layers panel: which layer is being renamed and
//! the text typed so far, and what each event of the panel does to them.

use vstd::prelude::*;

verus! {

/// The state of a renaming: the layer being renamed, if any, and the text
/// typed so far.
pub type RenameState = (Option<u128>, Seq<char>);

/// After Escape: a renaming in progress is abandoned.
pub open spec fn after_escape(s: RenameState) -> RenameState {
    if s.0 is Some {
        (None, Seq::empty())
    } else {
        s
    }
}

/// After renaming `layer` was asked for, `name` being its name if found.
pub open spec fn after_start(s: RenameState, layer: u128, name: Option<Seq<char>>) -> RenameState {
    match name {
        Some(n) => (Some(layer), n),
        None => s,
    }
}

/// After the typed text changed to `value`.
pub open spec fn after_change(s: RenameState, value: Seq<char>) -> RenameState {
    if s.0 is Some {
        (s.0, value)
    } else {
        s
    }
}

/// After the renaming of `layer` was confirmed: the new state and the name
/// to give the layer, if any.
pub open spec fn after_commit(s: RenameState, layer: u128) -> (RenameState, Option<Seq<char>>) {
    if s.0 == Some(layer) {
        ((None, Seq::empty()), Some(s.1))
    } else {
        (s, None)
    }
}

/// No text is held while no layer is being renamed.
pub open spec fn idle_means_empty(s: RenameState) -> bool {
    s.0 is None ==> s.1 == Seq::<char>::empty()
}

/// An event of the layers panel that touches a renaming.
pub enum RenameEvent {
    /// Escape was pressed.
    Escape,
    /// Renaming the layer was asked for, with its name if it was found.
    Start(u128, Option<String>),
    /// The typed text changed.
    Change(String),
    /// The renaming of the layer was confirmed.
    Commit(u128),
}

/// The state after `e`, and the name to give the layer, if any.
pub open spec fn after_event(s: RenameState, e: RenameEvent) -> (RenameState, Option<Seq<char>>) {
    match e {
        RenameEvent::Escape => (after_escape(s), None),
        RenameEvent::Start(layer, name) => (
            after_start(
                s,
                layer,
                match name {
                    Some(n) => Some(n@),
                    None => None,
                },
            ),
            None,
        ),
        RenameEvent::Change(value) => (after_change(s, value@), None),
        RenameEvent::Commit(layer) => after_commit(s, layer),
    }
}

/// Whatever event comes, the text stays empty while no layer is being
/// renamed; Escape always ends the renaming; and only the confirmation of
/// the layer being renamed gives a name, the one typed so far.
pub proof fn lemma_any_rename_event_keeps_idle_text_empty(s: RenameState, e: RenameEvent)
    requires
        idle_means_empty(s),
    ensures
        idle_means_empty(after_event(s, e).0),
        e is Escape ==> after_event(s, e).0.0 is None,
        after_event(s, e).1 matches Some(n) ==> e == RenameEvent::Commit(s.0.unwrap()) && n == s.1,
        e matches RenameEvent::Commit(l) && s.0 != Some(l) ==> after_event(s, e) == (s, None::<Seq<char>>),
{
}

/// The renaming in progress in the layers panel, if any.
pub struct LayerRename {
    renaming: Option<u128>,
    value: String,
}

impl LayerRename {
    /// The layer being renamed.
    pub closed spec fn layer(&self) -> Option<u128> {
        self.renaming
    }

    /// The text typed so far.
    pub closed spec fn text(&self) -> Seq<char> {
        self.value@
    }

    /// No layer is being renamed.
    pub fn new() -> (r: LayerRename)
        ensures
            r.layer() is None,
            r.text() == Seq::<char>::empty(),
    {
        LayerRename { renaming: None, value: String::new() }
    }

    /// The layer being renamed.
    pub fn renaming_layer(&self) -> (r: Option<u128>)
        ensures
            r == self.layer(),
    {
        self.renaming
    }

    /// The text typed so far.
    pub fn rename_value(&self) -> (r: &str)
        ensures
            r@ == self.text(),
    {
        self.value.as_str()
    }

    /// Escape was pressed: a renaming in progress is abandoned.
    pub fn escape(&mut self)
        ensures
            (final(self).layer(), final(self).text()) == after_escape(
                (old(self).layer(), old(self).text()),
            ),
    {
        if self.renaming.is_some() {
            self.renaming = None;
            self.value = String::new();
        }
    }

    /// Renaming `layer` was asked for; `current_name` is its name (none when
    /// the layer or its name cannot be found, and then nothing happens).
    pub fn start(&mut self, layer: u128, current_name: Option<String>)
        ensures
            (final(self).layer(), final(self).text()) == after_start(
                (old(self).layer(), old(self).text()),
                layer,
                match current_name {
                    Some(n) => Some(n@),
                    None => None,
                },
            ),
    {
        if let Some(name) = current_name {
            self.renaming = Some(layer);
            self.value = name;
        }
    }

    /// The typed text changed to `value`; ignored when no layer is being
    /// renamed.
    pub fn change(&mut self, value: String)
        ensures
            (final(self).layer(), final(self).text()) == after_change(
                (old(self).layer(), old(self).text()),
                value@,
            ),
    {
        if self.renaming.is_some() {
            self.value = value;
        }
    }

    /// The renaming of `layer` was confirmed: gives the new name when
    /// `layer` is the one being renamed, and ends the renaming; anything
    /// else changes nothing.
    pub fn commit(&mut self, layer: u128) -> (r: Option<String>)
        ensures
            ((final(self).layer(), final(self).text()), match r {
                Some(n) => Some(n@),
                None => None,
            }) == after_commit((old(self).layer(), old(self).text()), layer),
    {
        if self.renaming != Some(layer) {
            return None;
        }
        let mut name = String::new();
        std::mem::swap(&mut name, &mut self.value);
        self.renaming = None;
        Some(name)
    }

    /// Handles an event of the layers panel; gives the new name of the layer
    /// when a renaming was confirmed.
    pub fn update(&mut self, event: RenameEvent) -> (r: Option<String>)
        ensures
            ((final(self).layer(), final(self).text()), match r {
                Some(n) => Some(n@),
                None => None,
            }) == after_event((old(self).layer(), old(self).text()), event),
    {
        match event {
            RenameEvent::Escape => {
                self.escape();
                None
            },
            RenameEvent::Start(layer, name) => {
                self.start(layer, name);
                None
            },
            RenameEvent::Change(value) => {
                self.change(value);
                None
            },
            RenameEvent::Commit(layer) => self.commit(layer),
        }
    }
}

} // verus!
