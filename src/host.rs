//! The host UI loop's side: what each event that reaches it asks for.
use vstd::prelude::*;

verus! {

/// Text of the icon shown before the first refresh ends.
pub const LOADING_ICON_TEXT: &'static str = "...";

/// Tooltip shown before the first refresh ends.
pub const LOADING_TOOLTIP: &'static str = "Exchange Rates - Loading...";

/// Text of the icon shown when a refresh or a render failed.
pub const ERROR_ICON_TEXT: &'static str = "Error";

/// Tooltip shown when a refresh or a render failed.
pub const ERROR_TOOLTIP: &'static str = "Error updating rates";

/// An event that reaches the host UI loop.
#[derive(Clone, Copy, Debug, PartialEq, Eq, Structural)]
pub enum HostEvent {
    /// The loop has started.
    Started,
    /// A refresh cycle committed new values.
    RefreshCompleted,
    /// A refresh cycle changed nothing.
    RefreshFailed,
    /// The user asked for a refresh now.
    ManualRefreshRequested,
    /// The user asked to quit.
    QuitRequested,
    /// Any other activity on the tray icon.
    TrayActivity,
}

/// What the host does on an event.
#[derive(Clone, Copy, Debug, PartialEq, Eq, Structural)]
pub enum HostAction {
    /// Show the loading icon and tooltip.
    ShowLoading,
    /// Render the composite icon from the store.
    Render,
    /// Show the error icon and tooltip.
    ShowError,
    /// Hand a refresh request to the orchestrator.
    RequestRefresh,
    /// Remove the icon and leave the loop.
    Exit,
    /// Nothing.
    Ignore,
}

pub open spec fn action_for(event: HostEvent) -> HostAction {
    match event {
        HostEvent::Started => HostAction::ShowLoading,
        HostEvent::RefreshCompleted => HostAction::Render,
        HostEvent::RefreshFailed => HostAction::ShowError,
        HostEvent::ManualRefreshRequested => HostAction::RequestRefresh,
        HostEvent::QuitRequested => HostAction::Exit,
        HostEvent::TrayActivity => HostAction::Ignore,
    }
}

/// What the host does on `event`.
pub fn dispatch(event: HostEvent) -> (r: HostAction)
    ensures
        r == action_for(event),
{
    match event {
        HostEvent::Started => HostAction::ShowLoading,
        HostEvent::RefreshCompleted => HostAction::Render,
        HostEvent::RefreshFailed => HostAction::ShowError,
        HostEvent::ManualRefreshRequested => HostAction::RequestRefresh,
        HostEvent::QuitRequested => HostAction::Exit,
        HostEvent::TrayActivity => HostAction::Ignore,
    }
}

/// Asks the host to redraw the tray after its icon changed. Event loops that
/// wake on their own need nothing; the macOS run loop is woken by the host
/// itself, through the platform's own interface.
pub fn request_macos_redraw() {
}

} // verus!
