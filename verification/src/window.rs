//! The registry's picture of one live native window and its webview.
//!
//! The native handles live with the toolkit outside this crate; the
//! registry tracks each window's identifier, its toolkit window id, and the
//! presentation state the event router has driven it to.

use vstd::prelude::*;

verus! {

/// One live window and webview pair, keyed by its identifier.
#[derive(Debug, Clone, PartialEq, Eq)]
pub struct WebviewWindow {
    /// The identifier a window is addressed by, for example `"main_window"`.
    pub identifier: String,
    /// The toolkit's id for the native window.
    pub window_id: u64,
    /// Whether the window is visible.
    pub visible: bool,
    /// Whether the window is fullscreen.
    pub fullscreen: bool,
    /// Whether the window is maximized.
    pub maximized: bool,
    /// Whether the window is minimized.
    pub minimized: bool,
    /// The window's title.
    pub title: String,
}

impl WebviewWindow {
    /// Makes the window fullscreen.
    pub fn fullscreen(&mut self)
        ensures
            *final(self) == (WebviewWindow { fullscreen: true, ..*old(self) }),
    {
        self.fullscreen = true;
    }

    /// Retitles the window.
    pub fn set_title(&mut self, title: String)
        ensures
            *final(self) == (WebviewWindow { title: title, ..*old(self) }),
    {
        self.title = title;
    }

    /// Maximizes or restores the window.
    pub fn maximize(&mut self, flag: bool)
        ensures
            *final(self) == (WebviewWindow { maximized: flag, ..*old(self) }),
    {
        self.maximized = flag;
    }

    /// Minimizes or restores the window.
    pub fn minimize(&mut self, flag: bool)
        ensures
            *final(self) == (WebviewWindow { minimized: flag, ..*old(self) }),
    {
        self.minimized = flag;
    }
}

} // verus!
