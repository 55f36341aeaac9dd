use photosquid::app::{key_action, key_press_plan, shortcut, window_title, Key, KeyAction, SaveMethod, ShortcutAction};

#[test]
fn ctrl_z_undoes_and_ctrl_shift_z_redoes() {
    assert_eq!(shortcut(Key::Z, false), Some(ShortcutAction::Undo));
    assert_eq!(shortcut(Key::Z, true), Some(ShortcutAction::Redo));
}

#[test]
fn ctrl_shortcuts_for_zoom_load_and_save() {
    assert_eq!(shortcut(Key::Equals, false), Some(ShortcutAction::IncreaseZoom));
    assert_eq!(shortcut(Key::Minus, true), Some(ShortcutAction::DecreaseZoom));
    assert_eq!(shortcut(Key::O, false), Some(ShortcutAction::Load));
    assert_eq!(shortcut(Key::S, false), Some(ShortcutAction::Save(SaveMethod::Save)));
    assert_eq!(shortcut(Key::S, true), Some(ShortcutAction::Save(SaveMethod::SaveAs)));
    assert_eq!(shortcut(Key::X, false), None);
    assert_eq!(shortcut(Key::Other, true), None);
}

#[test]
fn only_saving_lets_the_key_press_go_on() {
    assert!(ShortcutAction::Undo.ends_key_press());
    assert!(ShortcutAction::Load.ends_key_press());
    assert!(!ShortcutAction::Save(SaveMethod::SaveAs).ends_key_press());
}

#[test]
fn digit_keys_select_tools() {
    assert_eq!(key_action(Key::Key1, false), Some(KeyAction::SelectTool(1)));
    assert_eq!(key_action(Key::Key9, true), Some(KeyAction::SelectTool(9)));
    assert_eq!(key_action(Key::Key0, false), Some(KeyAction::SelectTool(0)));
}

#[test]
fn plain_keys_edit_the_selection() {
    assert_eq!(key_action(Key::X, false), Some(KeyAction::DeleteSelected));
    assert_eq!(key_action(Key::Escape, false), Some(KeyAction::CloseContextMenu));
    assert_eq!(key_action(Key::D, true), Some(KeyAction::DuplicateSelected));
    assert_eq!(key_action(Key::D, false), None);
    assert_eq!(key_action(Key::Z, false), None);
}

#[test]
fn window_title_names_the_file() {
    assert_eq!(window_title(None), "Photosquid :)");
    assert_eq!(window_title(Some("drawing.photosquid")), "Photosquid :) - drawing.photosquid");
}

#[test]
fn key_press_plan_runs_the_shortcut_first() {
    let plan = key_press_plan(Key::Z, true, false, false);
    assert_eq!(plan.shortcut, Some(ShortcutAction::Undo));
    assert!(!plan.offer_to_tool);
    assert_eq!(plan.binding_to_run(false, false), None);
}

#[test]
fn key_press_plan_goes_on_after_saving() {
    let plan = key_press_plan(Key::S, true, true, false);
    assert_eq!(plan.shortcut, Some(ShortcutAction::Save(SaveMethod::SaveAs)));
    assert!(plan.offer_to_tool);
    assert_eq!(plan.fallback, None);
}

#[test]
fn key_press_plan_offers_plain_keys_to_the_tool_first() {
    let plan = key_press_plan(Key::X, false, false, false);
    assert_eq!(plan.shortcut, None);
    assert!(plan.offer_to_tool);
    assert_eq!(plan.fallback, Some(KeyAction::DeleteSelected));
    assert_eq!(plan.binding_to_run(false, false), Some(KeyAction::DeleteSelected));
    assert_eq!(plan.binding_to_run(true, false), None);
    assert_eq!(plan.binding_to_run(false, true), None);
}

#[test]
fn key_press_plan_without_ctrl_ignores_shortcuts() {
    let plan = key_press_plan(Key::Z, false, false, false);
    assert_eq!(plan.shortcut, None);
    assert!(plan.offer_to_tool);
    assert_eq!(plan.binding_to_run(false, false), None);
    let plan = key_press_plan(Key::D, false, true, true);
    assert_eq!(plan.binding_to_run(false, false), Some(KeyAction::DuplicateSelected));
}
