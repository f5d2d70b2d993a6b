//! The program in the tray.

use vstd::prelude::*;
use vstd::string::*;

use crate::config::ConfigFile;
use crate::lmstudio::AutoStartConfig;
use crate::runtime::Runtime;

verus! {

/// What the program in the tray works with.
pub struct TrayConfig {
    pub runtime: Runtime,
    pub lmstudio: Option<AutoStartConfig>,
    pub settings: ConfigFile,
}

impl TrayConfig {
    /// Whether the settings window is shown at the start: only on the first run, to be set up.
    pub fn shows_window(&self) -> (r: bool)
        ensures
            r == !self.settings.configured(),
    {
        !self.settings.is_configured()
    }
}

/// Whether dictation uses the overlay of this process; on Wayland it has its own.
pub fn uses_own_overlay(linux: bool, wayland: bool) -> (r: bool)
    ensures
        r == !(linux && wayland),
{
    !(linux && wayland)
}

/// What is shown on hovering over the tray icon.
pub fn tooltip(hotkey: &str) -> (r: String)
    ensures
        r@ == "Auto Voice  |  按住 "@ + hotkey@ + " 说话，松开后自动插入文字"@,
{
    let mut t = "Auto Voice  |  按住 ".to_owned();
    t.append(hotkey);
    t.append(" 说话，松开后自动插入文字");
    t
}

/// What happened to the tray icon.
#[derive(Clone, Copy, Debug, PartialEq, Eq, Structural)]
pub enum TrayEvent {
    /// A button was pressed or, if `up`, released.
    Click { left: bool, up: bool },
    DoubleClick { left: bool },
    Other,
}

/// Whether this opens the settings: a click or double click with the left button.
pub fn opens_settings(event: TrayEvent) -> (r: bool)
    ensures
        r == (match event {
            TrayEvent::Click { left, up } => left && up,
            TrayEvent::DoubleClick { left } => left,
            TrayEvent::Other => false,
        }),
{
    match event {
        TrayEvent::Click { left, up } => left && up,
        TrayEvent::DoubleClick { left } => left,
        TrayEvent::Other => false,
    }
}

}
