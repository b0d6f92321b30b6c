//! What the accessibility API reports about windows: the events of the
//! observer, decoded from notification names, and which windows are
//! standard windows to tile.  The accessibility calls themselves stay
//! outside this crate.

use vstd::prelude::*;
use crate::text::str_eq;

verus! {

/// Events that the observer can report.
#[derive(Debug, Clone, Copy, PartialEq, Eq, Structural)]
pub enum WindowEvent {
    Created { pid: i32 },
    Destroyed { pid: i32 },
    Moved { pid: i32 },
    Resized { pid: i32 },
    FocusChanged { pid: i32 },
    AppActivated { pid: i32 },
    AppDeactivated { pid: i32 },
}

/// The event that a notification with this name reports, if any.
pub open spec fn notification_event(name: Seq<char>, pid: i32) -> Option<WindowEvent> {
    if name == "AXWindowCreated"@ {
        Some(WindowEvent::Created { pid })
    } else if name == "AXUIElementDestroyed"@ {
        Some(WindowEvent::Destroyed { pid })
    } else if name == "AXWindowMoved"@ {
        Some(WindowEvent::Moved { pid })
    } else if name == "AXWindowResized"@ {
        Some(WindowEvent::Resized { pid })
    } else if name == "AXFocusedWindowChanged"@ {
        Some(WindowEvent::FocusChanged { pid })
    } else if name == "AXApplicationActivated"@ {
        Some(WindowEvent::AppActivated { pid })
    } else if name == "AXApplicationDeactivated"@ {
        Some(WindowEvent::AppDeactivated { pid })
    } else {
        None
    }
}

/// Decode an accessibility notification name into the event it reports,
/// attributed to process `pid`; unknown names report nothing.
pub fn event_from_notification(name: &str, pid: i32) -> (r: Option<WindowEvent>)
    ensures
        r == notification_event(name@, pid),
{
    if str_eq(name, "AXWindowCreated") {
        Some(WindowEvent::Created { pid })
    } else if str_eq(name, "AXUIElementDestroyed") {
        Some(WindowEvent::Destroyed { pid })
    } else if str_eq(name, "AXWindowMoved") {
        Some(WindowEvent::Moved { pid })
    } else if str_eq(name, "AXWindowResized") {
        Some(WindowEvent::Resized { pid })
    } else if str_eq(name, "AXFocusedWindowChanged") {
        Some(WindowEvent::FocusChanged { pid })
    } else if str_eq(name, "AXApplicationActivated") {
        Some(WindowEvent::AppActivated { pid })
    } else if str_eq(name, "AXApplicationDeactivated") {
        Some(WindowEvent::AppDeactivated { pid })
    } else {
        None
    }
}

/// Whether an element with this role and subrole is a standard window,
/// the only kind that is listed for tiling.
pub open spec fn standard_window(role: Option<Seq<char>>, subrole: Option<Seq<char>>) -> bool {
    role == Some("AXWindow"@) && subrole == Some("AXStandardWindow"@)
}

/// Whether an element with this role and subrole (`None` where the element
/// has none) is a standard window.
pub fn is_standard_window(role: Option<&str>, subrole: Option<&str>) -> (r: bool)
    ensures
        r == standard_window(
            match role {
                Some(s) => Some(s@),
                None => None,
            },
            match subrole {
                Some(s) => Some(s@),
                None => None,
            },
        ),
{
    match (role, subrole) {
        (Some(role), Some(subrole)) => str_eq(role, "AXWindow") && str_eq(subrole, "AXStandardWindow"),
        _ => false,
    }
}

} // verus!
