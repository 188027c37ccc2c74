use lapiz::actions::{
    all_format_extensions, export_opens_options, format_filters, tool_switch, ImageFormatInfo,
    ToolSwitch,
};
use lapiz::actions::{
    ActionFunctionRegistry, ActionId, ActionKind, ActionPlugin, ExportFileAction, UndoAction,
};

#[test]
fn plugin_registers_every_startup_action() {
    let mut registry = ActionFunctionRegistry::new();
    ActionPlugin.build(&mut registry);
    let undo = registry.get(&ActionId::new("undo_action".to_string()));
    assert_eq!(undo, Some(ActionKind::Undo));
    assert_eq!(
        registry.get(&ActionId::new("move_layer_up_action".to_string())),
        Some(ActionKind::MoveLayerUp)
    );
    assert_eq!(
        registry.get(&ActionId::new("toggle_filter_panel_action".to_string())),
        Some(ActionKind::ToggleFilterPanel)
    );
    // export is reached through its own menu entry, not the registry
    assert_eq!(registry.get(&ExportFileAction.id()), None);
    assert_eq!(registry.get(&ActionId::new("nothing".to_string())), None);
}

#[test]
fn registering_again_keeps_one_entry() {
    let mut registry = ActionFunctionRegistry::new();
    registry.register(ActionKind::Redo);
    registry.register(ActionKind::Redo);
    registry.register(ActionKind::Undo);
    assert_eq!(registry.get(&UndoAction.id()), Some(ActionKind::Undo));
    assert_eq!(
        registry.get(&ActionId::new("redo_action".to_string())),
        Some(ActionKind::Redo)
    );
}

#[test]
fn action_ids() {
    assert_eq!(UndoAction.id().0, "undo_action");
    assert_eq!(ActionKind::SelectPreviousLayer.id().0, "select_previous_layer_action");
    assert_eq!(ActionKind::PasteIntoNewLayer.id().0, "paste_into_new_layer_action");
}

#[test]
fn export_asks_for_options_unless_silent_export_applies() {
    assert!(export_opens_options(true, false, true));
    assert!(export_opens_options(true, true, false));
    assert!(!export_opens_options(true, true, true));
    assert!(!export_opens_options(false, false, false));
}

#[test]
fn tool_keys_switch_or_override_the_tool() {
    assert_eq!(tool_switch::<&str>(None, true), ToolSwitch::ClearOverride);
    assert_eq!(tool_switch(Some(("eraser", true)), false), ToolSwitch::Override("eraser"));
    assert_eq!(tool_switch(Some(("brush", false)), true), ToolSwitch::Switch("brush"));
    assert_eq!(tool_switch(Some(("brush", false)), false), ToolSwitch::Keep);
}

fn format(description: &str, extension: &str, aliases: &[&str]) -> ImageFormatInfo {
    ImageFormatInfo {
        description: description.to_string(),
        extension: extension.to_string(),
        aliases: aliases.iter().map(|a| a.to_string()).collect(),
    }
}

#[test]
fn dialog_filters_list_each_format_and_all_extensions() {
    let formats = vec![format("PNG image", "png", &[]), format("JPEG image", "jpg", &["jpeg", "jpe"])];
    let filters = format_filters(&formats);
    assert_eq!(filters.len(), 2);
    assert_eq!(filters[0], ("PNG image".to_string(), vec!["png".to_string()]));
    assert_eq!(
        filters[1],
        ("JPEG image".to_string(), vec!["jpg".to_string(), "jpeg".to_string(), "jpe".to_string()])
    );
    assert_eq!(all_format_extensions(&formats), vec!["png", "jpg", "jpeg", "jpe"]);
    assert_eq!(all_format_extensions(&Vec::new()), Vec::<String>::new());
}
