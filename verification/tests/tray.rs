use noddo::tray::{launch_at_login_change, menu_action, tray_click_action, AutostartChange, MenuAction, TrayClick};

#[test]
fn menu_items_are_recognised() {
    assert_eq!(menu_action("quit"), MenuAction::Quit);
    assert_eq!(menu_action("launch_at_login"), MenuAction::ToggleLaunchAtLogin);
    assert_eq!(menu_action("separator"), MenuAction::Ignore);
    assert_eq!(menu_action(""), MenuAction::Ignore);
}

#[test]
fn launch_at_login_flips() {
    assert_eq!(launch_at_login_change(true), AutostartChange::Disable);
    assert_eq!(launch_at_login_change(false), AutostartChange::Enable);
}

#[test]
fn left_click_toggles_panel() {
    assert_eq!(tray_click_action(true, true), TrayClick::HidePanel);
    assert_eq!(tray_click_action(true, false), TrayClick::ShowBelowTray);
    assert_eq!(tray_click_action(false, true), TrayClick::Ignore);
    assert_eq!(tray_click_action(false, false), TrayClick::Ignore);
}
