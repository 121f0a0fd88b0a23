//! Window requests from the front-end, turned into the events the router
//! consumes.  The runner posts the returned event into the loop's queue.

use vstd::prelude::*;

use crate::events::{Event, WindowEvents};

verus! {

/// The event that adds a window showing `url`; the title doubles as the
/// window's identifier.
pub fn add_window(title: String, url: String) -> (e: Event)
    ensures
        e matches Event::WindowEvent(we) && we matches WindowEvents::AddWindow {
            window_title: t,
            content: c,
            identifier: i,
        } && t@ == title@ && c@ == url@ && i@ == title@,
{
    let identifier = title.clone();
    Event::WindowEvent(WindowEvents::AddWindow { window_title: title, content: url, identifier })
}

/// The event that closes the window with this identifier.
pub fn close_window(window_identifier: String) -> (e: Event)
    ensures
        e == Event::WindowEvent(WindowEvents::CloseWindow(window_identifier)),
{
    Event::WindowEvent(WindowEvents::CloseWindow(window_identifier))
}

/// The event that retitles the window with this identifier.
pub fn set_title(title: String, window_identifier: String) -> (e: Event)
    ensures
        e == Event::WindowEvent(
            WindowEvents::SetTitle { title: title, identifier: window_identifier },
        ),
{
    Event::WindowEvent(WindowEvents::SetTitle { title, identifier: window_identifier })
}

/// The event that maximizes or restores the window with this identifier.
pub fn maximize(flag: bool, window_identifier: String) -> (e: Event)
    ensures
        e == Event::WindowEvent(
            WindowEvents::Maximize { flag: flag, identifier: window_identifier },
        ),
{
    Event::WindowEvent(WindowEvents::Maximize { flag, identifier: window_identifier })
}

/// The event that minimizes or restores the window with this identifier.
pub fn minimize(flag: bool, window_identifier: String) -> (e: Event)
    ensures
        e == Event::WindowEvent(
            WindowEvents::Minimize { flag: flag, identifier: window_identifier },
        ),
{
    Event::WindowEvent(WindowEvents::Minimize { flag, identifier: window_identifier })
}

/// The event that makes the window with this identifier fullscreen.
pub fn fullscreen(window_identifier: String) -> (e: Event)
    ensures
        e == Event::WindowEvent(WindowEvents::SetFullscreen { identifier: window_identifier }),
{
    Event::WindowEvent(WindowEvents::SetFullscreen { identifier: window_identifier })
}

} // verus!
