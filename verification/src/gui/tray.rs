//! The tray icon: what it shows and what its menu asks for.

use vstd::prelude::*;

use crate::tftp::server::ServerState;

verus! {

/// What the tray shows: running, stopped, or an error.
#[derive(Debug, Clone, Copy, PartialEq, Eq, Structural)]
pub enum TrayVisualState {
    Running,
    Stopped,
    Error,
}

/// What a tray menu entry asks for.
#[derive(Debug, Clone, Copy, PartialEq, Eq, Structural)]
pub enum TrayAction {
    Show,
    Stop,
    Quit,
}

/// What the tray shows for a server state and error count: an error when the
/// server failed or any transfer error was counted, else running or stopped.
pub open spec fn spec_tray_visual(state: ServerState, total_errors: u64) -> TrayVisualState {
    if state == ServerState::Error || total_errors > 0 {
        TrayVisualState::Error
    } else if state == ServerState::Running {
        TrayVisualState::Running
    } else {
        TrayVisualState::Stopped
    }
}

pub fn tray_visual(state: ServerState, total_errors: u64) -> (r: TrayVisualState)
    ensures
        r == spec_tray_visual(state, total_errors),
{
    if state == ServerState::Error || total_errors > 0 {
        TrayVisualState::Error
    } else if state == ServerState::Running {
        TrayVisualState::Running
    } else {
        TrayVisualState::Stopped
    }
}

/// The tooltip of the tray icon.
pub fn tray_tooltip(visual: TrayVisualState) -> (r: &'static str)
    ensures
        r@ == match visual {
            TrayVisualState::Running => "Fry TFTP Server - Running"@,
            TrayVisualState::Stopped => "Fry TFTP Server - Stopped"@,
            TrayVisualState::Error => "Fry TFTP Server - Error"@,
        },
{
    match visual {
        TrayVisualState::Running => "Fry TFTP Server - Running",
        TrayVisualState::Stopped => "Fry TFTP Server - Stopped",
        TrayVisualState::Error => "Fry TFTP Server - Error",
    }
}

} // verus!
