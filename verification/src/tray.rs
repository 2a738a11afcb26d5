//! The decisions behind the tray icon and its menu.
use vstd::prelude::*;

use crate::models::same_text;

verus! {

/// What a click on a tray menu item asks for.
#[derive(Debug, Clone, Copy, PartialEq, Eq, Structural)]
pub enum MenuAction {
    /// "Quit Noddo".
    Quit,
    /// "Launch at Login": flip the autostart setting.
    ToggleLaunchAtLogin,
    /// Any other item: nothing to do.
    Ignore,
}

/// The menu action for the item whose id is `id`.
pub open spec fn menu_action_for(id: Seq<char>) -> MenuAction {
    if id == "quit"@ {
        MenuAction::Quit
    } else if id == "launch_at_login"@ {
        MenuAction::ToggleLaunchAtLogin
    } else {
        MenuAction::Ignore
    }
}

/// Reads a tray menu event by its item id.
pub fn menu_action(event_id: &str) -> (r: MenuAction)
    ensures
        r == menu_action_for(event_id@),
{
    if same_text(event_id, "quit") {
        MenuAction::Quit
    } else if same_text(event_id, "launch_at_login") {
        MenuAction::ToggleLaunchAtLogin
    } else {
        MenuAction::Ignore
    }
}

/// The change to the autostart setting.
#[derive(Debug, Clone, Copy, PartialEq, Eq, Structural)]
pub enum AutostartChange {
    Enable,
    Disable,
}

/// Flipping "Launch at Login": disable it when it is on, enable it otherwise
/// (a setting that cannot be read counts as off).
pub fn launch_at_login_change(currently_enabled: bool) -> (r: AutostartChange)
    ensures
        r == (if currently_enabled { AutostartChange::Disable } else { AutostartChange::Enable }),
{
    if currently_enabled {
        AutostartChange::Disable
    } else {
        AutostartChange::Enable
    }
}

/// What a click on the tray icon does to the popup panel.
#[derive(Debug, Clone, Copy, PartialEq, Eq, Structural)]
pub enum TrayClick {
    /// Not a left click: nothing happens.
    Ignore,
    /// Left click while the panel shows: hide it.
    HidePanel,
    /// Left click while the panel is hidden: place it below the icon and show it.
    ShowBelowTray,
}

/// The effect of a click on the tray icon: only the left button toggles the
/// panel.
pub fn tray_click_action(left_button: bool, panel_visible: bool) -> (r: TrayClick)
    ensures
        !left_button ==> r == TrayClick::Ignore,
        left_button && panel_visible ==> r == TrayClick::HidePanel,
        left_button && !panel_visible ==> r == TrayClick::ShowBelowTray,
{
    if !left_button {
        TrayClick::Ignore
    } else if panel_visible {
        TrayClick::HidePanel
    } else {
        TrayClick::ShowBelowTray
    }
}

} // verus!
