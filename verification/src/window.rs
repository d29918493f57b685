//! How the popup window reacts to the global hotkey, the tray menu and a
//! request to close a window.

use vstd::prelude::*;
use crate::text::str_eq;

verus! {

/// What toggling the popup does.
#[derive(Debug, PartialEq, Eq, Clone, Copy)]
pub enum WindowToggle {
    /// There is no popup window: nothing happens.
    Nothing,
    /// The popup is visible: it is hidden.
    Hide,
    /// The popup is hidden: it is shown, focused, and told it was shown.
    ShowAndFocus,
}

/// Toggling the popup: hide it when it is visible, show it otherwise (also
/// when its visibility cannot be read); nothing when there is no popup.
pub fn toggle_main_window(window_found: bool, visible: Option<bool>) -> (res: WindowToggle)
    ensures
        !window_found ==> res == WindowToggle::Nothing,
        window_found && visible == Some(true) ==> res == WindowToggle::Hide,
        window_found && visible != Some(true) ==> res == WindowToggle::ShowAndFocus,
{
    if !window_found {
        return WindowToggle::Nothing;
    }
    match visible {
        Some(true) => WindowToggle::Hide,
        _ => WindowToggle::ShowAndFocus,
    }
}

/// What a tray menu item does.
#[derive(Debug, PartialEq, Eq, Clone, Copy)]
pub enum TrayAction {
    ToggleMain,
    ShowSettings,
    Quit,
    Ignore,
}

/// The action of the tray menu item with id `id`.
pub fn tray_menu_action(id: &str) -> (res: TrayAction)
    ensures
        id@ == "show"@ ==> res == TrayAction::ToggleMain,
        id@ != "show"@ && id@ == "settings"@ ==> res == TrayAction::ShowSettings,
        id@ != "show"@ && id@ != "settings"@ && id@ == "quit"@ ==> res == TrayAction::Quit,
        id@ != "show"@ && id@ != "settings"@ && id@ != "quit"@ ==> res == TrayAction::Ignore,
{
    if str_eq(id, "show") {
        TrayAction::ToggleMain
    } else if str_eq(id, "settings") {
        TrayAction::ShowSettings
    } else if str_eq(id, "quit") {
        TrayAction::Quit
    } else {
        TrayAction::Ignore
    }
}

/// Whether closing the window labelled `label` only hides it: the popup
/// stays warm in the tray and the settings window stays alive so it can be
/// shown again; other windows close for real.
pub fn close_request_hides(label: &str) -> (res: bool)
    ensures
        res == (label@ == "main"@ || label@ == "settings"@),
{
    str_eq(label, "main") || str_eq(label, "settings")
}

} // verus!
