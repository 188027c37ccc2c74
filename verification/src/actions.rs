//! The actions that menus and shortcuts trigger, their identifiers, and the
//! registry that finds an action by its identifier.

use vstd::prelude::*;

verus! {

/// The identifier of an action.
pub struct ActionId(pub String);

impl ActionId {
    pub fn new(id: String) -> (r: ActionId)
        ensures
            r.0@ == id@,
    {
        ActionId(id)
    }
}

/// Undoes the last command on the current canvas.
#[derive(Clone, Copy, Debug, Default)]
pub struct UndoAction;

/// Redoes the last undone command on the current canvas.
#[derive(Clone, Copy, Debug, Default)]
pub struct RedoAction;

/// Pastes the image files on the clipboard as new layers.
#[derive(Clone, Copy, Debug, Default)]
pub struct PasteIntoNewLayerAction;

/// Opens a document chosen in a file dialog.
#[derive(Clone, Copy, Debug, Default)]
pub struct OpenFileAction;

/// Saves the current canvas to its file.
#[derive(Clone, Copy, Debug, Default)]
pub struct SaveFileAction;

/// Exports the current canvas to a file chosen in a file dialog.
#[derive(Clone, Copy, Debug, Default)]
pub struct ExportFileAction;

/// Adds a new pixel layer above the active layer.
#[derive(Clone, Copy, Debug, Default)]
pub struct CreateNewLayerAction;

/// Puts the selected layers into a new group.
#[derive(Clone, Copy, Debug, Default)]
pub struct GroupSelectedLayersAction;

/// Moves the selected layers one step up.
#[derive(Clone, Copy, Debug, Default)]
pub struct MoveLayerUpAction;

/// Moves the selected layers one step down.
#[derive(Clone, Copy, Debug, Default)]
pub struct MoveLayerDownAction;

/// Deletes the selected layers.
#[derive(Clone, Copy, Debug, Default)]
pub struct DeleteSelectedLayersAction;

/// Makes the layer above the active one active.
#[derive(Clone, Copy, Debug, Default)]
pub struct SelectPreviousLayerAction;

/// Makes the layer below the active one active.
#[derive(Clone, Copy, Debug, Default)]
pub struct SelectNextLayerAction;

/// Clears the selected area of the current canvas.
#[derive(Clone, Copy, Debug, Default)]
pub struct DeleteSelectionAction;

/// Opens the brush editor window.
#[derive(Clone, Copy, Debug, Default)]
pub struct OpenBrushEditorAction;

/// Shows or hides the filter panel.
#[derive(Clone, Copy, Debug, Default)]
pub struct ToggleFilterPanelAction;

/// Every action of the application.
#[derive(Clone, Copy, Debug, PartialEq, Eq, Structural)]
pub enum ActionKind {
    Undo,
    Redo,
    PasteIntoNewLayer,
    OpenFile,
    SaveFile,
    ExportFile,
    CreateNewLayer,
    GroupSelectedLayers,
    MoveLayerUp,
    MoveLayerDown,
    DeleteSelectedLayers,
    SelectPreviousLayer,
    SelectNextLayer,
    DeleteSelection,
    OpenBrushEditor,
    ToggleFilterPanel,
}

/// The identifier text of each action.
pub open spec fn action_id_text(kind: ActionKind) -> Seq<char> {
    match kind {
        ActionKind::Undo => "undo_action"@,
        ActionKind::Redo => "redo_action"@,
        ActionKind::PasteIntoNewLayer => "paste_into_new_layer_action"@,
        ActionKind::OpenFile => "open_file_action"@,
        ActionKind::SaveFile => "save_file_action"@,
        ActionKind::ExportFile => "export_file_action"@,
        ActionKind::CreateNewLayer => "create_new_layer_action"@,
        ActionKind::GroupSelectedLayers => "group_selected_layers_action"@,
        ActionKind::MoveLayerUp => "move_layer_up_action"@,
        ActionKind::MoveLayerDown => "move_layer_down_action"@,
        ActionKind::DeleteSelectedLayers => "delete_selected_layers_action"@,
        ActionKind::SelectPreviousLayer => "select_previous_layer_action"@,
        ActionKind::SelectNextLayer => "select_next_layer_action"@,
        ActionKind::DeleteSelection => "delete_selection_action"@,
        ActionKind::OpenBrushEditor => "open_brush_editor_action"@,
        ActionKind::ToggleFilterPanel => "toggle_filter_panel_action"@,
    }
}

fn id_of(text: &str) -> (r: ActionId)
    ensures
        r.0@ == text@,
{
    ActionId(String::from_str(text))
}

impl UndoAction {
    pub fn id(&self) -> (r: ActionId)
        ensures
            r.0@ == action_id_text(ActionKind::Undo),
    {
        id_of("undo_action")
    }
}

impl RedoAction {
    pub fn id(&self) -> (r: ActionId)
        ensures
            r.0@ == action_id_text(ActionKind::Redo),
    {
        id_of("redo_action")
    }
}

impl PasteIntoNewLayerAction {
    pub fn id(&self) -> (r: ActionId)
        ensures
            r.0@ == action_id_text(ActionKind::PasteIntoNewLayer),
    {
        id_of("paste_into_new_layer_action")
    }
}

impl OpenFileAction {
    pub fn id(&self) -> (r: ActionId)
        ensures
            r.0@ == action_id_text(ActionKind::OpenFile),
    {
        id_of("open_file_action")
    }
}

impl SaveFileAction {
    pub fn id(&self) -> (r: ActionId)
        ensures
            r.0@ == action_id_text(ActionKind::SaveFile),
    {
        id_of("save_file_action")
    }
}

impl ExportFileAction {
    pub fn id(&self) -> (r: ActionId)
        ensures
            r.0@ == action_id_text(ActionKind::ExportFile),
    {
        id_of("export_file_action")
    }
}

impl CreateNewLayerAction {
    pub fn id(&self) -> (r: ActionId)
        ensures
            r.0@ == action_id_text(ActionKind::CreateNewLayer),
    {
        id_of("create_new_layer_action")
    }
}

impl GroupSelectedLayersAction {
    pub fn id(&self) -> (r: ActionId)
        ensures
            r.0@ == action_id_text(ActionKind::GroupSelectedLayers),
    {
        id_of("group_selected_layers_action")
    }
}

impl MoveLayerUpAction {
    pub fn id(&self) -> (r: ActionId)
        ensures
            r.0@ == action_id_text(ActionKind::MoveLayerUp),
    {
        id_of("move_layer_up_action")
    }
}

impl MoveLayerDownAction {
    pub fn id(&self) -> (r: ActionId)
        ensures
            r.0@ == action_id_text(ActionKind::MoveLayerDown),
    {
        id_of("move_layer_down_action")
    }
}

impl DeleteSelectedLayersAction {
    pub fn id(&self) -> (r: ActionId)
        ensures
            r.0@ == action_id_text(ActionKind::DeleteSelectedLayers),
    {
        id_of("delete_selected_layers_action")
    }
}

impl SelectPreviousLayerAction {
    pub fn id(&self) -> (r: ActionId)
        ensures
            r.0@ == action_id_text(ActionKind::SelectPreviousLayer),
    {
        id_of("select_previous_layer_action")
    }
}

impl SelectNextLayerAction {
    pub fn id(&self) -> (r: ActionId)
        ensures
            r.0@ == action_id_text(ActionKind::SelectNextLayer),
    {
        id_of("select_next_layer_action")
    }
}

impl DeleteSelectionAction {
    pub fn id(&self) -> (r: ActionId)
        ensures
            r.0@ == action_id_text(ActionKind::DeleteSelection),
    {
        id_of("delete_selection_action")
    }
}

impl OpenBrushEditorAction {
    pub fn id(&self) -> (r: ActionId)
        ensures
            r.0@ == action_id_text(ActionKind::OpenBrushEditor),
    {
        id_of("open_brush_editor_action")
    }
}

impl ToggleFilterPanelAction {
    pub fn id(&self) -> (r: ActionId)
        ensures
            r.0@ == action_id_text(ActionKind::ToggleFilterPanel),
    {
        id_of("toggle_filter_panel_action")
    }
}

impl ActionKind {
    /// The identifier of the action.
    pub fn id(&self) -> (r: ActionId)
        ensures
            r.0@ == action_id_text(*self),
    {
        match self {
            ActionKind::Undo => UndoAction.id(),
            ActionKind::Redo => RedoAction.id(),
            ActionKind::PasteIntoNewLayer => PasteIntoNewLayerAction.id(),
            ActionKind::OpenFile => OpenFileAction.id(),
            ActionKind::SaveFile => SaveFileAction.id(),
            ActionKind::ExportFile => ExportFileAction.id(),
            ActionKind::CreateNewLayer => CreateNewLayerAction.id(),
            ActionKind::GroupSelectedLayers => GroupSelectedLayersAction.id(),
            ActionKind::MoveLayerUp => MoveLayerUpAction.id(),
            ActionKind::MoveLayerDown => MoveLayerDownAction.id(),
            ActionKind::DeleteSelectedLayers => DeleteSelectedLayersAction.id(),
            ActionKind::SelectPreviousLayer => SelectPreviousLayerAction.id(),
            ActionKind::SelectNextLayer => SelectNextLayerAction.id(),
            ActionKind::DeleteSelection => DeleteSelectionAction.id(),
            ActionKind::OpenBrushEditor => OpenBrushEditorAction.id(),
            ActionKind::ToggleFilterPanel => ToggleFilterPanelAction.id(),
        }
    }
}

/// The actions that can be looked up by identifier, each identifier at most
/// once (a later registration under the same identifier replaces the
/// earlier one).
pub struct ActionFunctionRegistry {
    entries: Vec<(String, ActionKind)>,
}

impl View for ActionFunctionRegistry {
    type V = Map<Seq<char>, ActionKind>;

    closed spec fn view(&self) -> Map<Seq<char>, ActionKind> {
        Map::new(
            |id: Seq<char>| exists|i: int| 0 <= i < self.entries@.len() && self.entries@[i].0@ == id,
            |id: Seq<char>|
                self.entries@[choose|i: int|
                    0 <= i < self.entries@.len() && self.entries@[i].0@ == id].1,
        )
    }
}

impl ActionFunctionRegistry {
    /// No identifier occurs twice.
    pub closed spec fn well_formed(&self) -> bool {
        forall|i: int, j: int|
            0 <= i < self.entries@.len() && 0 <= j < self.entries@.len() && i != j
                ==> self.entries@[i].0@ != self.entries@[j].0@
    }

    proof fn lemma_view_at(&self, i: int)
        requires
            self.well_formed(),
            0 <= i < self.entries@.len(),
        ensures
            self@.contains_key(self.entries@[i].0@),
            self@[self.entries@[i].0@] == self.entries@[i].1,
    {
        let id = self.entries@[i].0@;
        let c = choose|k: int| 0 <= k < self.entries@.len() && self.entries@[k].0@ == id;
        assert(0 <= c < self.entries@.len() && self.entries@[c].0@ == id);
        assert(c == i);
    }

    /// An empty registry.
    pub fn new() -> (r: ActionFunctionRegistry)
        ensures
            r.well_formed(),
            r@ == Map::<Seq<char>, ActionKind>::empty(),
    {
        let r = ActionFunctionRegistry { entries: Vec::new() };
        assert(r@ =~= Map::<Seq<char>, ActionKind>::empty());
        r
    }

    /// Registers `action` under its identifier, replacing the action
    /// registered under that identifier before, if any.
    pub fn register(&mut self, action: ActionKind)
        requires
            old(self).well_formed(),
        ensures
            final(self).well_formed(),
            final(self)@ == old(self)@.insert(action_id_text(action), action),
    {
        let id = action.id();
        let len = self.entries.len();
        let mut i: usize = 0;
        while i < len
            invariant
                len == self.entries@.len(),
                i <= len,
                self.entries@ == old(self).entries@,
                old(self).well_formed(),
                self.well_formed(),
                id.0@ == action_id_text(action),
                forall|j: int| 0 <= j < i ==> self.entries@[j].0@ != id.0@,
            decreases len - i,
        {
            if self.entries[i].0.eq(&id.0) {
                let ghost before = self.entries@;
                self.entries.set(i, (id.0, action));
                proof {
                    assert(self.well_formed());
                    assert forall|k: Seq<char>| #[trigger] self@.contains_key(k) == old(self)@.insert(
                        action_id_text(action),
                        action,
                    ).contains_key(k) by {
                        if exists|m: int| 0 <= m < before.len() && before[m].0@ == k {
                            let m = choose|m: int| 0 <= m < before.len() && before[m].0@ == k;
                            assert(self.entries@[m].0@ == k);
                        }
                        if exists|m: int| 0 <= m < self.entries@.len() && self.entries@[m].0@ == k {
                            let m = choose|m: int|
                                0 <= m < self.entries@.len() && self.entries@[m].0@ == k;
                            assert(before[m].0@ == k);
                        }
                    }
                    assert forall|k: Seq<char>| #[trigger] self@.contains_key(k) implies self@[k]
                        == old(self)@.insert(action_id_text(action), action)[k] by {
                        let m = choose|m: int|
                            0 <= m < self.entries@.len() && self.entries@[m].0@ == k;
                        self.lemma_view_at(m);
                        if m != i {
                            old(self).lemma_view_at(m);
                        }
                    }
                    assert(self@ =~= old(self)@.insert(action_id_text(action), action));
                }
                return;
            }
            i = i + 1;
        }
        let ghost before = self.entries@;
        self.entries.push((id.0, action));
        proof {
            assert(self.entries@[len as int].0@ == action_id_text(action));
            assert(self.well_formed());
            assert forall|k: Seq<char>| #[trigger] self@.contains_key(k) == old(self)@.insert(
                action_id_text(action),
                action,
            ).contains_key(k) by {
                if exists|m: int| 0 <= m < before.len() && before[m].0@ == k {
                    let m = choose|m: int| 0 <= m < before.len() && before[m].0@ == k;
                    assert(self.entries@[m].0@ == k);
                }
                if k == action_id_text(action) {
                    assert(self.entries@[len as int].0@ == k);
                }
                if exists|m: int| 0 <= m < self.entries@.len() && self.entries@[m].0@ == k {
                    let m = choose|m: int| 0 <= m < self.entries@.len() && self.entries@[m].0@ == k;
                    if m < len {
                        assert(before[m].0@ == k);
                    }
                }
            }
            assert forall|k: Seq<char>| #[trigger] self@.contains_key(k) implies self@[k]
                == old(self)@.insert(action_id_text(action), action)[k] by {
                let m = choose|m: int| 0 <= m < self.entries@.len() && self.entries@[m].0@ == k;
                self.lemma_view_at(m);
                if m < len {
                    old(self).lemma_view_at(m);
                }
            }
            assert(self@ =~= old(self)@.insert(action_id_text(action), action));
        }
    }

    /// The action registered under `action_id`, if any.
    pub fn get(&self, action_id: &ActionId) -> (r: Option<ActionKind>)
        requires
            self.well_formed(),
        ensures
            r == (if self@.contains_key(action_id.0@) {
                Some(self@[action_id.0@])
            } else {
                None
            }),
    {
        let len = self.entries.len();
        let mut i: usize = 0;
        while i < len
            invariant
                len == self.entries@.len(),
                i <= len,
                self.well_formed(),
                forall|j: int| 0 <= j < i ==> self.entries@[j].0@ != action_id.0@,
            decreases len - i,
        {
            if self.entries[i].0.eq(&action_id.0) {
                proof {
                    self.lemma_view_at(i as int);
                }
                return Some(self.entries[i].1);
            }
            i = i + 1;
        }
        None
    }
}

/// The actions that the application registers at start-up, in order.
pub open spec fn startup_actions() -> Seq<ActionKind> {
    seq![
        ActionKind::DeleteSelection,
        ActionKind::OpenFile,
        ActionKind::SaveFile,
        ActionKind::CreateNewLayer,
        ActionKind::MoveLayerUp,
        ActionKind::MoveLayerDown,
        ActionKind::DeleteSelectedLayers,
        ActionKind::GroupSelectedLayers,
        ActionKind::SelectNextLayer,
        ActionKind::SelectPreviousLayer,
        ActionKind::PasteIntoNewLayer,
        ActionKind::OpenBrushEditor,
        ActionKind::ToggleFilterPanel,
        ActionKind::Undo,
        ActionKind::Redo,
    ]
}

/// The registry after registering `actions` in order, starting from `m`.
pub open spec fn registered(m: Map<Seq<char>, ActionKind>, actions: Seq<ActionKind>) -> Map<
    Seq<char>,
    ActionKind,
>
    decreases actions.len(),
{
    if actions.len() == 0 {
        m
    } else {
        registered(m, actions.drop_last()).insert(
            action_id_text(actions.last()),
            actions.last(),
        )
    }
}

/// Registers the application's actions.
pub struct ActionPlugin;

impl ActionPlugin {
    /// Registers every start-up action into `registry`.
    pub fn build(&self, registry: &mut ActionFunctionRegistry)
        requires
            old(registry).well_formed(),
        ensures
            final(registry).well_formed(),
            final(registry)@ == registered(old(registry)@, startup_actions()),
    {
        let actions = vec![
            ActionKind::DeleteSelection,
            ActionKind::OpenFile,
            ActionKind::SaveFile,
            ActionKind::CreateNewLayer,
            ActionKind::MoveLayerUp,
            ActionKind::MoveLayerDown,
            ActionKind::DeleteSelectedLayers,
            ActionKind::GroupSelectedLayers,
            ActionKind::SelectNextLayer,
            ActionKind::SelectPreviousLayer,
            ActionKind::PasteIntoNewLayer,
            ActionKind::OpenBrushEditor,
            ActionKind::ToggleFilterPanel,
            ActionKind::Undo,
            ActionKind::Redo,
        ];
        assert(actions@ =~= startup_actions());
        let mut i: usize = 0;
        while i < actions.len()
            invariant
                i <= actions@.len(),
                actions@ == startup_actions(),
                registry.well_formed(),
                registry@ == registered(old(registry)@, actions@.subrange(0, i as int)),
            decreases actions@.len() - i,
        {
            registry.register(actions[i]);
            proof {
                assert(actions@.subrange(0, i + 1).drop_last() =~= actions@.subrange(0, i as int));
            }
            i = i + 1;
        }
        assert(actions@.subrange(0, actions@.len() as int) =~= actions@);
    }
}

/// Different actions have different identifiers.
pub proof fn lemma_action_ids_distinct(a: ActionKind, b: ActionKind)
    requires
        a != b,
    ensures
        action_id_text(a) != action_id_text(b),
{
    reveal_strlit("undo_action");
    reveal_strlit("redo_action");
    reveal_strlit("paste_into_new_layer_action");
    reveal_strlit("open_file_action");
    reveal_strlit("save_file_action");
    reveal_strlit("export_file_action");
    reveal_strlit("create_new_layer_action");
    reveal_strlit("group_selected_layers_action");
    reveal_strlit("move_layer_up_action");
    reveal_strlit("move_layer_down_action");
    reveal_strlit("delete_selected_layers_action");
    reveal_strlit("select_previous_layer_action");
    reveal_strlit("select_next_layer_action");
    reveal_strlit("delete_selection_action");
    reveal_strlit("open_brush_editor_action");
    reveal_strlit("toggle_filter_panel_action");
    if action_id_text(a) == action_id_text(b) {
        let x = action_id_text(a);
        assert(x.len() == action_id_text(b).len());
        assert(x[0] == action_id_text(b)[0]);
        assert(x[1] == action_id_text(b)[1]);
        assert(x[5] == action_id_text(b)[5]);
        assert(x[7] == action_id_text(b)[7]);
        assert(x[10] == action_id_text(b)[10]);
    }
}

/// After start-up, looking up the identifier of any start-up action finds
/// that action.
pub proof fn lemma_startup_actions_resolve(m: Map<Seq<char>, ActionKind>, k: int)
    requires
        0 <= k < startup_actions().len(),
    ensures
        registered(m, startup_actions()).contains_key(action_id_text(startup_actions()[k])),
        registered(m, startup_actions())[action_id_text(startup_actions()[k])]
            == startup_actions()[k],
{
    lemma_registered_keeps(m, startup_actions(), k);
}

/// After start-up every one of the fifteen start-up actions is found under
/// its identifier, whatever was registered before: deleting the selection,
/// opening and saving a file, creating, moving up and down, deleting and
/// grouping layers, selecting the next and previous layer, pasting into a
/// new layer, opening the brush editor, toggling the filter panel, undo
/// and redo.
pub proof fn lemma_startup_registers_each_action(m: Map<Seq<char>, ActionKind>)
    ensures
        registered(m, startup_actions()).contains_key("delete_selection_action"@) && registered(m, startup_actions())["delete_selection_action"@] == ActionKind::DeleteSelection,
        registered(m, startup_actions()).contains_key("open_file_action"@) && registered(m, startup_actions())["open_file_action"@] == ActionKind::OpenFile,
        registered(m, startup_actions()).contains_key("save_file_action"@) && registered(m, startup_actions())["save_file_action"@] == ActionKind::SaveFile,
        registered(m, startup_actions()).contains_key("create_new_layer_action"@) && registered(m, startup_actions())["create_new_layer_action"@] == ActionKind::CreateNewLayer,
        registered(m, startup_actions()).contains_key("move_layer_up_action"@) && registered(m, startup_actions())["move_layer_up_action"@] == ActionKind::MoveLayerUp,
        registered(m, startup_actions()).contains_key("move_layer_down_action"@) && registered(m, startup_actions())["move_layer_down_action"@] == ActionKind::MoveLayerDown,
        registered(m, startup_actions()).contains_key("delete_selected_layers_action"@) && registered(m, startup_actions())["delete_selected_layers_action"@] == ActionKind::DeleteSelectedLayers,
        registered(m, startup_actions()).contains_key("group_selected_layers_action"@) && registered(m, startup_actions())["group_selected_layers_action"@] == ActionKind::GroupSelectedLayers,
        registered(m, startup_actions()).contains_key("select_next_layer_action"@) && registered(m, startup_actions())["select_next_layer_action"@] == ActionKind::SelectNextLayer,
        registered(m, startup_actions()).contains_key("select_previous_layer_action"@) && registered(m, startup_actions())["select_previous_layer_action"@] == ActionKind::SelectPreviousLayer,
        registered(m, startup_actions()).contains_key("paste_into_new_layer_action"@) && registered(m, startup_actions())["paste_into_new_layer_action"@] == ActionKind::PasteIntoNewLayer,
        registered(m, startup_actions()).contains_key("open_brush_editor_action"@) && registered(m, startup_actions())["open_brush_editor_action"@] == ActionKind::OpenBrushEditor,
        registered(m, startup_actions()).contains_key("toggle_filter_panel_action"@) && registered(m, startup_actions())["toggle_filter_panel_action"@] == ActionKind::ToggleFilterPanel,
        registered(m, startup_actions()).contains_key("undo_action"@) && registered(m, startup_actions())["undo_action"@] == ActionKind::Undo,
        registered(m, startup_actions()).contains_key("redo_action"@) && registered(m, startup_actions())["redo_action"@] == ActionKind::Redo,
{
    lemma_startup_actions_resolve(m, 0);
    lemma_startup_actions_resolve(m, 1);
    lemma_startup_actions_resolve(m, 2);
    lemma_startup_actions_resolve(m, 3);
    lemma_startup_actions_resolve(m, 4);
    lemma_startup_actions_resolve(m, 5);
    lemma_startup_actions_resolve(m, 6);
    lemma_startup_actions_resolve(m, 7);
    lemma_startup_actions_resolve(m, 8);
    lemma_startup_actions_resolve(m, 9);
    lemma_startup_actions_resolve(m, 10);
    lemma_startup_actions_resolve(m, 11);
    lemma_startup_actions_resolve(m, 12);
    lemma_startup_actions_resolve(m, 13);
    lemma_startup_actions_resolve(m, 14);
}

/// An action registered at position `k` is found after all later
/// registrations of other actions.
proof fn lemma_registered_keeps(m: Map<Seq<char>, ActionKind>, actions: Seq<ActionKind>, k: int)
    requires
        0 <= k < actions.len(),
        forall|i: int, j: int| 0 <= i < j < actions.len() ==> actions[i] != actions[j],
    ensures
        registered(m, actions).contains_key(action_id_text(actions[k])),
        registered(m, actions)[action_id_text(actions[k])] == actions[k],
    decreases actions.len(),
{
    let init = actions.drop_last();
    if k < actions.len() - 1 {
        assert(init[k] == actions[k]);
        lemma_registered_keeps(m, init, k);
        lemma_action_ids_distinct(actions[k], actions.last());
    }
}

/// An image format that documents can be opened from or exported to.
pub struct ImageFormatInfo {
    pub description: String,
    /// Its main file extension.
    pub extension: String,
    /// The other extensions it goes by.
    pub aliases: Vec<String>,
}

/// The texts of a list of strings.
pub open spec fn texts(v: Seq<String>) -> Seq<Seq<char>> {
    v.map_values(|s: String| s@)
}

/// The extensions of a format: its own, then its aliases.
pub open spec fn format_extensions(f: ImageFormatInfo) -> Seq<Seq<char>> {
    seq![f.extension@] + texts(f.aliases@)
}

/// The extensions of a format: its own, then its aliases.
fn extensions_of(f: &ImageFormatInfo) -> (r: Vec<String>)
    ensures
        texts(r@) == format_extensions(*f),
{
    let mut r: Vec<String> = Vec::new();
    r.push(f.extension.clone());
    let mut i: usize = 0;
    while i < f.aliases.len()
        invariant
            i <= f.aliases@.len(),
            texts(r@) == seq![f.extension@] + texts(f.aliases@.subrange(0, i as int)),
        decreases f.aliases@.len() - i,
    {
        let ghost old_r = r@;
        let a = f.aliases[i].clone();
        r.push(a);
        proof {
            let sub = f.aliases@.subrange(0, i as int);
            assert(f.aliases@.subrange(0, i + 1) =~= sub.push(a));
            assert(texts(r@) =~= texts(old_r).push(a@));
            assert(texts(sub.push(a)) =~= texts(sub).push(a@));
            assert(texts(r@) =~= seq![f.extension@] + texts(f.aliases@.subrange(0, i + 1)));
        }
        i = i + 1;
    }
    assert(f.aliases@.subrange(0, f.aliases@.len() as int) =~= f.aliases@);
    r
}

/// The filters that the file dialog offers for `formats`: each format's
/// description with its extensions, in order.
pub fn format_filters(formats: &Vec<ImageFormatInfo>) -> (r: Vec<(String, Vec<String>)>)
    ensures
        r@.len() == formats@.len(),
        forall|i: int|
            0 <= i < r@.len() ==> (#[trigger] r@[i]).0@ == formats@[i].description@ && texts(r@[i].1@)
                == format_extensions(formats@[i]),
{
    let mut r: Vec<(String, Vec<String>)> = Vec::new();
    let mut i: usize = 0;
    while i < formats.len()
        invariant
            i <= formats@.len(),
            r@.len() == i,
            forall|k: int|
                0 <= k < i ==> (#[trigger] r@[k]).0@ == formats@[k].description@ && texts(r@[k].1@)
                    == format_extensions(formats@[k]),
        decreases formats@.len() - i,
    {
        let f = &formats[i];
        r.push((f.description.clone(), extensions_of(f)));
        i = i + 1;
    }
    r
}

/// Every extension of `formats`, format by format: what the dialog's filter
/// for all the formats that can be opened accepts.
pub fn all_format_extensions(formats: &Vec<ImageFormatInfo>) -> (r: Vec<String>)
    ensures
        texts(r@) == formats@.map_values(|f: ImageFormatInfo| format_extensions(f)).flatten(),
{
    let ghost all = formats@.map_values(|f: ImageFormatInfo| format_extensions(f));
    let mut r: Vec<String> = Vec::new();
    let mut i: usize = 0;
    while i < formats.len()
        invariant
            i <= formats@.len(),
            all == formats@.map_values(|f: ImageFormatInfo| format_extensions(f)),
            texts(r@) == all.subrange(0, i as int).flatten(),
        decreases formats@.len() - i,
    {
        let mut ext = extensions_of(&formats[i]);
        let ghost before = r@;
        r.append(&mut ext);
        proof {
            assert(all.subrange(0, i + 1) =~= all.subrange(0, i as int).push(all[i as int]));
            all.subrange(0, i as int).lemma_flatten_push(all[i as int]);
            assert(texts(r@) =~= texts(before) + format_extensions(formats@[i as int]));
        }
        i = i + 1;
    }
    assert(all.subrange(0, formats@.len() as int) =~= all);
    r
}

/// Whether exporting the canvas first asks for the options of the chosen
/// image format: when the format has options, unless a silent export is
/// both allowed and possible for the canvas (in which case the image is
/// written at once).
pub fn export_opens_options(has_options: bool, allow_silent_export: bool, can_silent_export: bool) -> (r:
    bool)
    ensures
        r == (has_options && !(allow_silent_export && can_silent_export)),
{
    has_options && !(allow_silent_export && can_silent_export)
}

/// What a key press or release does to the current tool.
#[derive(Clone, Debug, PartialEq, Eq)]
pub enum ToolSwitch<T> {
    /// No binding matches the keys held: a temporary tool is dropped.
    ClearOverride,
    /// A temporary binding matches: its tool is used while the keys are
    /// held.
    Override(T),
    /// A permanent binding matches and a key went down: its tool becomes the
    /// current one.
    Switch(T),
    /// A permanent binding matches but a key went up: nothing changes.
    Keep,
}

/// What the keys held now do to the current tool, given the tool binding
/// that matches them (its tool and whether it is temporary), if any, and
/// whether a key went down or up.
pub fn tool_switch<T>(binding: Option<(T, bool)>, is_keydown: bool) -> (r: ToolSwitch<T>)
    ensures
        match binding {
            None => r == ToolSwitch::<T>::ClearOverride,
            Some((tool, is_temporary)) => if is_temporary {
                r == ToolSwitch::Override(tool)
            } else if is_keydown {
                r == ToolSwitch::Switch(tool)
            } else {
                r == ToolSwitch::<T>::Keep
            },
        },
{
    match binding {
        None => ToolSwitch::ClearOverride,
        Some((tool, is_temporary)) => {
            if is_temporary {
                ToolSwitch::Override(tool)
            } else if is_keydown {
                ToolSwitch::Switch(tool)
            } else {
                ToolSwitch::Keep
            }
        },
    }
}

} // verus!
