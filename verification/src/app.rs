//! The window registry and event router, and the application builder.
//!
//! The registry owns the set of live windows, keyed by a string identifier
//! that must be unique among them.  All mutation happens through the event
//! router, one event at a time; native work that only the toolkit can do is
//! handed back to the runner as an action.  Closing the distinguished
//! `"main_window"` is the one transition that terminates the event loop.

use vstd::prelude::*;

use crate::config::{config_text, parse_config, VeloxConfig};
use crate::codec::str_eq;
use crate::events::{Event, VeloxEvents, WindowEvents};
use crate::utils::ContentType;
use crate::window::WebviewWindow;
use crate::VeloxError;

verus! {

/// What the event loop does next: keep waiting, or exit.
#[derive(Debug, Clone, Copy, PartialEq, Eq, Structural)]
pub enum LoopControl {
    Wait,
    Exit,
}

/// Native work the runner must perform against the toolkit.
#[derive(Debug, Clone, PartialEq, Eq)]
pub enum NativeAction {
    /// Build a native window and webview, then register it.
    CreateWindow { identifier: String, title: String, content: String },
    /// Make the native window visible.
    ShowNative { window_id: u64 },
    /// Close the native window.
    CloseNative { window_id: u64 },
    /// Retitle the native window.
    SetTitleNative { window_id: u64, title: String },
    /// Make the native window fullscreen.
    FullscreenNative { window_id: u64 },
    /// Maximize or restore the native window.
    MaximizeNative { window_id: u64, flag: bool },
    /// Minimize or restore the native window.
    MinimizeNative { window_id: u64, flag: bool },
}

/// An incoming request from the front-end, as the runner hands it over.
#[derive(Debug, Clone, PartialEq, Eq)]
pub enum Request {
    /// A call of a named native function with JSON-encoded parameters.
    FunctionCall { method_name: String, params: Vec<String> },
    /// An event emitted by the front-end.
    Event(Event),
}

/// The registry of live windows, and the loop's control flag.
#[derive(Debug)]
pub struct Application {
    /// The live webview windows, identifiers unique.
    pub webviews: Vec<WebviewWindow>,
    /// Whether the event loop keeps running.
    pub control: LoopControl,
}

impl Application {
    /// Identifiers of live windows never repeat.
    pub open spec fn wf(&self) -> bool {
        forall|i: int, j: int|
            0 <= i < j < self.webviews@.len() ==> self.webviews@[i].identifier@
                != self.webviews@[j].identifier@
    }

    /// A window with this identifier is live.
    pub open spec fn has_window(&self, id: Seq<char>) -> bool {
        exists|i: int| 0 <= i < self.webviews@.len() && self.webviews@[i].identifier@ == id
    }

    /// The position of the live window with this identifier.
    pub open spec fn idx_of(&self, id: Seq<char>) -> int {
        choose|i: int| 0 <= i < self.webviews@.len() && self.webviews@[i].identifier@ == id
    }

    /// A fresh registry: no windows, loop waiting.
    pub fn new() -> (r: Application)
        ensures
            r.webviews@.len() == 0,
            r.control is Wait,
            r.wf(),
    {
        Application { webviews: Vec::new(), control: LoopControl::Wait }
    }

    /// Finds the position of a live window by identifier.
    fn find(&self, identifier: &str) -> (r: Option<usize>)
        ensures
            r matches Some(i) ==> i < self.webviews@.len() && self.webviews@[
                i as int
            ].identifier@ == identifier@,
            r is None ==> !self.has_window(identifier@),
    {
        let n = self.webviews.len();
        let mut i: usize = 0;
        while i < n
            invariant
                i <= n,
                n == self.webviews@.len(),
                forall|k: int| 0 <= k < i ==> self.webviews@[k].identifier@ != identifier@,
            decreases n - i,
        {
            if str_eq(self.webviews[i].identifier.as_str(), identifier) {
                return Some(i);
            }
            i = i + 1;
        }
        None
    }

    /// Registers a new window.
    ///
    /// An identifier that already denotes a live window is rejected: the
    /// older entry is never replaced or lost.
    pub fn add_window(&mut self, window: WebviewWindow) -> (r: Result<(), VeloxError>)
        requires
            old(self).wf(),
        ensures
            final(self).wf(),
            final(self).control == old(self).control,
            old(self).has_window(window.identifier@) ==> (r matches Err(e) && e is CommandError
                && final(self).webviews@ == old(self).webviews@),
            !old(self).has_window(window.identifier@) ==> r is Ok && final(self).webviews@ == old(
                self,
            ).webviews@.push(window),
    {
        match self.find(window.identifier.as_str()) {
            Some(_) => Err(
                VeloxError::CommandError {
                    detail: "a window with this identifier is already live".to_owned(),
                },
            ),
            None => {
                self.webviews.push(window);
                Ok(())
            },
        }
    }

    /// Removes the window with this identifier.
    ///
    /// A missing identifier is a lookup failure, reported as an error, never
    /// a crash.
    pub fn remove_window(&mut self, window_identifier: &str) -> (r: Result<u64, VeloxError>)
        requires
            old(self).wf(),
        ensures
            final(self).wf(),
            final(self).control == old(self).control,
            !old(self).has_window(window_identifier@) ==> r is Err && final(self).webviews@
                == old(self).webviews@,
            old(self).has_window(window_identifier@) ==> (r matches Ok(wid) && ({
                let i = old(self).idx_of(window_identifier@);
                &&& 0 <= i < old(self).webviews@.len()
                &&& old(self).webviews@[i].identifier@ == window_identifier@
                &&& wid == old(self).webviews@[i].window_id
                &&& final(self).webviews@ == old(self).webviews@.remove(i)
            }) && !final(self).has_window(window_identifier@)),
    {
        match self.find(window_identifier) {
            Some(i) => {
                let w = self.webviews.remove(i);
                proof {
                    let oi = old(self).idx_of(window_identifier@);
                    assert(old(self).webviews@[oi].identifier@ == window_identifier@);
                    assert(oi == i as int);
                    assert forall|k: int|
                        0 <= k < self.webviews@.len() implies self.webviews@[k].identifier@
                        != window_identifier@ by {
                        if k < i {
                            assert(self.webviews@[k] == old(self).webviews@[k]);
                        } else {
                            assert(self.webviews@[k] == old(self).webviews@[k + 1]);
                        }
                    }
                }
                Ok(w.window_id)
            },
            None => Err(
                VeloxError::CommandError {
                    detail: "no live window carries this identifier".to_owned(),
                },
            ),
        }
    }

    /// Makes the window with this identifier visible in the registry's
    /// model, handing back its native id.
    pub fn show_window(&mut self, window_identifier: &str) -> (r: Result<u64, VeloxError>)
        requires
            old(self).wf(),
        ensures
            final(self).wf(),
            final(self).control == old(self).control,
            !old(self).has_window(window_identifier@) ==> r is Err && final(self).webviews@
                == old(self).webviews@,
            old(self).has_window(window_identifier@) ==> (r matches Ok(wid) && ({
                let i = old(self).idx_of(window_identifier@);
                &&& 0 <= i < old(self).webviews@.len()
                &&& wid == old(self).webviews@[i].window_id
                &&& final(self).webviews@ == old(self).webviews@.update(
                    i,
                    (WebviewWindow { visible: true, ..old(self).webviews@[i] }),
                )
            })),
    {
        match self.find(window_identifier) {
            Some(i) => {
                let w = self.webviews.remove(i);
                let wid = w.window_id;
                let shown = WebviewWindow { visible: true, ..w };
                self.webviews.insert(i, shown);
                proof {
                    let oi = old(self).idx_of(window_identifier@);
                    assert(old(self).webviews@[oi].identifier@ == window_identifier@);
                    assert(oi == i as int);
                    assert(self.webviews@ =~= old(self).webviews@.update(i as int, shown));
                    assert forall|a: int, b: int|
                        0 <= a < b < self.webviews@.len() implies self.webviews@[a].identifier@
                        != self.webviews@[b].identifier@ by {
                        assert(self.webviews@[a].identifier@ == old(self).webviews@[a].identifier@);
                        assert(self.webviews@[b].identifier@ == old(self).webviews@[b].identifier@);
                    }
                }
                Ok(wid)
            },
            None => Err(
                VeloxError::CommandError {
                    detail: "no live window carries this identifier".to_owned(),
                },
            ),
        }
    }

    /// Applies one presentation change to the window at a found position.
    fn present(&mut self, i: usize, window: WebviewWindow) -> (wid: u64)
        requires
            i < old(self).webviews@.len(),
            window.identifier@ == old(self).webviews@[i as int].identifier@,
            old(self).wf(),
        ensures
            final(self).wf(),
            final(self).control == old(self).control,
            final(self).webviews@ == old(self).webviews@.update(i as int, window),
            wid == old(self).webviews@[i as int].window_id,
    {
        let w = self.webviews.remove(i);
        let wid = w.window_id;
        self.webviews.insert(i, window);
        proof {
            assert(self.webviews@ =~= old(self).webviews@.update(i as int, window));
            assert forall|a: int, b: int|
                0 <= a < b < self.webviews@.len() implies self.webviews@[a].identifier@ != self
                .webviews@[b].identifier@ by {
                assert(self.webviews@[a].identifier@ == old(self).webviews@[a].identifier@);
                assert(self.webviews@[b].identifier@ == old(self).webviews@[b].identifier@);
            }
        }
        wid
    }

    /// Routes one event through the registry.
    ///
    /// Lifecycle, resource and network events change nothing here.  Adding a
    /// window asks the runner to build it first; every other window event
    /// mutates the addressed window's model and hands the runner the
    /// matching native action.  An identifier that addresses no live window
    /// is a lookup failure: no window's state changes and no action is
    /// asked for.  Closing `"main_window"` always sets the loop to exit,
    /// however many windows remain live.
    pub fn handle_event(&mut self, event: &Event) -> (r: Option<NativeAction>)
        requires
            old(self).wf(),
        ensures
            final(self).wf(),
            !(event matches Event::WindowEvent(_)) ==> final(self).webviews@ == old(
                self,
            ).webviews@ && final(self).control == old(self).control && r is None,
            event matches Event::WindowEvent(WindowEvents::CloseWindow(id)) ==> (id@
                == "main_window"@ ==> final(self).control is Exit),
            event matches Event::WindowEvent(WindowEvents::CloseWindow(id)) ==> (id@
                != "main_window"@ ==> final(self).control == old(self).control && (old(
                self,
            ).has_window(id@) ==> !final(self).has_window(id@))),
            event matches Event::WindowEvent(WindowEvents::AddWindow {
                window_title,
                content,
                identifier,
            }) ==> final(self).webviews@ == old(self).webviews@ && final(self).control == old(
                self,
            ).control && (r matches Some(a) && a matches NativeAction::CreateWindow {
                identifier: i2,
                title: t2,
                content: c2,
            } && i2@ == identifier@ && t2@ == window_title@ && c2@ == content@),
            event matches Event::WindowEvent(WindowEvents::ShowWindow(id)) ==> (old(
                self,
            ).has_window(id@) ==> ({
                let i = old(self).idx_of(id@);
                final(self).webviews@ == old(self).webviews@.update(
                    i,
                    (WebviewWindow { visible: true, ..old(self).webviews@[i] }),
                ) && r == Some(
                    NativeAction::ShowNative { window_id: old(self).webviews@[i].window_id },
                )
            })),
            event matches Event::WindowEvent(WindowEvents::SetFullscreen { identifier }) ==> (old(
                self,
            ).has_window(identifier@) ==> ({
                let i = old(self).idx_of(identifier@);
                final(self).webviews@ == old(self).webviews@.update(
                    i,
                    (WebviewWindow { fullscreen: true, ..old(self).webviews@[i] }),
                ) && r == Some(
                    NativeAction::FullscreenNative {
                        window_id: old(self).webviews@[i].window_id,
                    },
                )
            })),
            event matches Event::WindowEvent(WindowEvents::SetTitle { title, identifier }) ==> (
            old(self).has_window(identifier@) ==> ({
                let i = old(self).idx_of(identifier@);
                &&& final(self).webviews@.len() == old(self).webviews@.len()
                &&& final(self).webviews@[i].title@ == title@
                &&& (r matches Some(a) && a matches NativeAction::SetTitleNative {
                    window_id,
                    title: t2,
                } && window_id == old(self).webviews@[i].window_id && t2@ == title@)
            })),
            event matches Event::WindowEvent(WindowEvents::Maximize { flag, identifier }) ==> (
            old(self).has_window(identifier@) ==> ({
                let i = old(self).idx_of(identifier@);
                final(self).webviews@ == old(self).webviews@.update(
                    i,
                    (WebviewWindow { maximized: *flag, ..old(self).webviews@[i] }),
                ) && r == Some(
                    NativeAction::MaximizeNative {
                        window_id: old(self).webviews@[i].window_id,
                        flag: *flag,
                    },
                )
            })),
            event matches Event::WindowEvent(WindowEvents::Minimize { flag, identifier }) ==> (
            old(self).has_window(identifier@) ==> ({
                let i = old(self).idx_of(identifier@);
                final(self).webviews@ == old(self).webviews@.update(
                    i,
                    (WebviewWindow { minimized: *flag, ..old(self).webviews@[i] }),
                ) && r == Some(
                    NativeAction::MinimizeNative {
                        window_id: old(self).webviews@[i].window_id,
                        flag: *flag,
                    },
                )
            })),
            event matches Event::WindowEvent(WindowEvents::CloseWindow(id)) ==> (id@
                == "main_window"@ ==> final(self).webviews@ == old(self).webviews@ && r is None),
            event matches Event::WindowEvent(WindowEvents::CloseWindow(id)) ==> (id@
                != "main_window"@ && !old(self).has_window(id@) ==> final(self).webviews@ == old(
                self,
            ).webviews@ && r is None),
            event matches Event::WindowEvent(WindowEvents::ShowWindow(id)) ==> (!old(
                self,
            ).has_window(id@) ==> final(self).webviews@ == old(self).webviews@ && final(self).control == old(self).control && r is None),
            event matches Event::WindowEvent(WindowEvents::HideWindow(_)) ==> final(self).webviews@ == old(self).webviews@ && final(self).control == old(self).control && r
                is None,
            event matches Event::WindowEvent(WindowEvents::SetTitle { title, identifier }) ==> (
            !old(self).has_window(identifier@) ==> final(self).webviews@ == old(self).webviews@
                && final(self).control == old(self).control && r is None),
            event matches Event::WindowEvent(WindowEvents::SetFullscreen { identifier }) ==> (
            !old(self).has_window(identifier@) ==> final(self).webviews@ == old(self).webviews@
                && final(self).control == old(self).control && r is None),
            event matches Event::WindowEvent(WindowEvents::Maximize { flag, identifier }) ==> (
            !old(self).has_window(identifier@) ==> final(self).webviews@ == old(self).webviews@
                && final(self).control == old(self).control && r is None),
            event matches Event::WindowEvent(WindowEvents::Minimize { flag, identifier }) ==> (
            !old(self).has_window(identifier@) ==> final(self).webviews@ == old(self).webviews@
                && final(self).control == old(self).control && r is None),
    {
        match event {
            Event::WindowEvent(we) => match we {
                WindowEvents::AddWindow { window_title, content, identifier } => Some(
                    NativeAction::CreateWindow {
                        identifier: identifier.clone(),
                        title: window_title.clone(),
                        content: content.clone(),
                    },
                ),
                WindowEvents::CloseWindow(id) => {
                    if str_eq(id.as_str(), "main_window") {
                        self.control = LoopControl::Exit;
                        None
                    } else {
                        match self.remove_window(id.as_str()) {
                            Ok(wid) => Some(NativeAction::CloseNative { window_id: wid }),
                            Err(_) => None,
                        }
                    }
                },
                WindowEvents::ShowWindow(id) => match self.show_window(id.as_str()) {
                    Ok(wid) => Some(NativeAction::ShowNative { window_id: wid }),
                    Err(_) => None,
                },
                WindowEvents::HideWindow(_) => None,
                WindowEvents::SetTitle { title, identifier } => {
                    match self.find(identifier.as_str()) {
                        Some(i) => {
                            proof {
                                let oi = old(self).idx_of(identifier@);
                                assert(old(self).webviews@[oi].identifier@ == identifier@);
                                assert(oi == i as int);
                            }
                            let w = self.webviews.remove(i);
                            let wid = w.window_id;
                            let retitled = WebviewWindow { title: title.clone(), ..w };
                            self.webviews.insert(i, retitled);
                            proof {
                                assert(self.webviews@ =~= old(self).webviews@.update(
                                    i as int,
                                    retitled,
                                ));
                                assert forall|a: int, b: int|
                                    0 <= a < b < self.webviews@.len() implies self.webviews@[
                                    a].identifier@ != self.webviews@[b].identifier@ by {
                                    assert(self.webviews@[a].identifier@ == old(self).webviews@[
                                    a].identifier@);
                                    assert(self.webviews@[b].identifier@ == old(self).webviews@[
                                    b].identifier@);
                                }
                            }
                            Some(NativeAction::SetTitleNative { window_id: wid, title: title.clone() })
                        },
                        None => None,
                    }
                },
                WindowEvents::SetFullscreen { identifier } => {
                    match self.find(identifier.as_str()) {
                        Some(i) => {
                            proof {
                                let oi = old(self).idx_of(identifier@);
                                assert(old(self).webviews@[oi].identifier@ == identifier@);
                                assert(oi == i as int);
                            }
                            let w = self.webviews.remove(i);
                            let wid = w.window_id;
                            self.webviews.insert(i, WebviewWindow { fullscreen: true, ..w });
                            proof {
                                assert(self.webviews@ =~= old(self).webviews@.update(
                                    i as int,
                                    (WebviewWindow {
                                        fullscreen: true,
                                        ..old(self).webviews@[i as int]
                                    }),
                                ));
                                assert forall|a: int, b: int|
                                    0 <= a < b < self.webviews@.len() implies self.webviews@[
                                    a].identifier@ != self.webviews@[b].identifier@ by {
                                    assert(self.webviews@[a].identifier@ == old(self).webviews@[
                                    a].identifier@);
                                    assert(self.webviews@[b].identifier@ == old(self).webviews@[
                                    b].identifier@);
                                }
                            }
                            Some(NativeAction::FullscreenNative { window_id: wid })
                        },
                        None => None,
                    }
                },
                WindowEvents::Maximize { flag, identifier } => {
                    match self.find(identifier.as_str()) {
                        Some(i) => {
                            proof {
                                let oi = old(self).idx_of(identifier@);
                                assert(old(self).webviews@[oi].identifier@ == identifier@);
                                assert(oi == i as int);
                            }
                            let w = self.webviews.remove(i);
                            let wid = w.window_id;
                            self.webviews.insert(i, WebviewWindow { maximized: *flag, ..w });
                            proof {
                                assert(self.webviews@ =~= old(self).webviews@.update(
                                    i as int,
                                    (WebviewWindow {
                                        maximized: *flag,
                                        ..old(self).webviews@[i as int]
                                    }),
                                ));
                                assert forall|a: int, b: int|
                                    0 <= a < b < self.webviews@.len() implies self.webviews@[
                                    a].identifier@ != self.webviews@[b].identifier@ by {
                                    assert(self.webviews@[a].identifier@ == old(self).webviews@[
                                    a].identifier@);
                                    assert(self.webviews@[b].identifier@ == old(self).webviews@[
                                    b].identifier@);
                                }
                            }
                            Some(NativeAction::MaximizeNative { window_id: wid, flag: *flag })
                        },
                        None => None,
                    }
                },
                WindowEvents::Minimize { flag, identifier } => {
                    match self.find(identifier.as_str()) {
                        Some(i) => {
                            proof {
                                let oi = old(self).idx_of(identifier@);
                                assert(old(self).webviews@[oi].identifier@ == identifier@);
                                assert(oi == i as int);
                            }
                            let w = self.webviews.remove(i);
                            let wid = w.window_id;
                            self.webviews.insert(i, WebviewWindow { minimized: *flag, ..w });
                            proof {
                                assert(self.webviews@ =~= old(self).webviews@.update(
                                    i as int,
                                    (WebviewWindow {
                                        minimized: *flag,
                                        ..old(self).webviews@[i as int]
                                    }),
                                ));
                                assert forall|a: int, b: int|
                                    0 <= a < b < self.webviews@.len() implies self.webviews@[
                                    a].identifier@ != self.webviews@[b].identifier@ by {
                                    assert(self.webviews@[a].identifier@ == old(self).webviews@[
                                    a].identifier@);
                                    assert(self.webviews@[b].identifier@ == old(self).webviews@[
                                    b].identifier@);
                                }
                            }
                            Some(NativeAction::MinimizeNative { window_id: wid, flag: *flag })
                        },
                        None => None,
                    }
                },
            },
            _ => None,
        }
    }

    /// A native window with this toolkit id is live.
    pub open spec fn has_native(&self, window_id: u64) -> bool {
        exists|i: int| 0 <= i < self.webviews@.len() && self.webviews@[i].window_id == window_id
    }

    /// The position of the first live window with this toolkit id.
    pub open spec fn native_idx(&self, window_id: u64) -> int {
        choose|i: int|
            0 <= i < self.webviews@.len() && self.webviews@[i].window_id == window_id && (forall|
                j: int,
            | 0 <= j < i ==> self.webviews@[j].window_id != window_id)
    }

    /// Reacts to the toolkit reporting a close request for a native window.
    ///
    /// The addressed window leaves the registry; only when it is the one
    /// registered as `"main_window"` does the loop terminate instead,
    /// however many windows remain live.  An id that matches no live
    /// window changes nothing.
    pub fn handle_close_requested(&mut self, window_id: u64)
        requires
            old(self).wf(),
        ensures
            final(self).wf(),
            !old(self).has_native(window_id) ==> final(self).webviews@ == old(self).webviews@
                && final(self).control == old(self).control,
            old(self).has_native(window_id) ==> ({
                let i = old(self).native_idx(window_id);
                &&& 0 <= i < old(self).webviews@.len()
                &&& old(self).webviews@[i].window_id == window_id
                &&& if old(self).webviews@[i].identifier@ == "main_window"@ {
                    final(self).control is Exit && final(self).webviews@ == old(self).webviews@
                } else {
                    final(self).control == old(self).control && final(self).webviews@ == old(
                        self,
                    ).webviews@.remove(i)
                }
            }),
    {
        let n = self.webviews.len();
        let mut i: usize = 0;
        while i < n
            invariant
                i <= n,
                n == self.webviews@.len(),
                self.webviews@ == old(self).webviews@,
                self.control == old(self).control,
                self.wf(),
                forall|k: int| 0 <= k < i ==> self.webviews@[k].window_id != window_id,
            decreases n - i,
        {
            if self.webviews[i].window_id == window_id {
                proof {
                    let fi = old(self).native_idx(window_id);
                    assert(0 <= fi < old(self).webviews@.len() && old(self).webviews@[
                    fi].window_id == window_id && (forall|j: int|
                        0 <= j < fi ==> old(self).webviews@[j].window_id != window_id));
                    if fi < i as int {
                        assert(old(self).webviews@[fi].window_id != window_id);
                    }
                    if fi > i as int {
                        assert(old(self).webviews@[i as int].window_id != window_id);
                    }
                    assert(fi == i as int);
                }
                if str_eq(self.webviews[i].identifier.as_str(), "main_window") {
                    self.control = LoopControl::Exit;
                } else {
                    self.webviews.remove(i);
                    proof {
                        assert forall|a: int, b: int|
                            0 <= a < b < self.webviews@.len() implies self.webviews@[
                        a].identifier@ != self.webviews@[b].identifier@ by {
                            if a < i {
                                assert(self.webviews@[a] == old(self).webviews@[a]);
                            } else {
                                assert(self.webviews@[a] == old(self).webviews@[a + 1]);
                            }
                            if b < i {
                                assert(self.webviews@[b] == old(self).webviews@[b]);
                            } else {
                                assert(self.webviews@[b] == old(self).webviews@[b + 1]);
                            }
                        }
                    }
                }
                return;
            }
            i = i + 1;
        }
    }
}

/// The application as built: its configuration snapshot.
#[derive(Debug)]
pub struct App {
    /// Name of the app.
    pub name: String,
    /// Whether the app is in debug mode.
    pub debug: bool,
    /// Whether a user-supplied invoke handler is registered with the runner.
    pub has_invoke_handler: bool,
    /// Where the front-end is hosted.
    pub content: Option<ContentType>,
    /// Content to display while the app is still loading.
    pub splashscreen: Option<String>,
}

/// The staged application builder.
#[derive(Debug)]
pub struct AppBuilder {
    pub name: String,
    pub debug: bool,
    pub has_invoke_handler: bool,
    pub content: Option<ContentType>,
    pub splashscreen: Option<String>,
}

impl AppBuilder {
    /// Starts a builder from a configuration document.
    ///
    /// A malformed document is fatal: startup cannot continue without one.
    pub fn from_config(config: &str) -> (r: Result<AppBuilder, VeloxError>)
        ensures
            forall|c: VeloxConfig| config@ == #[trigger] config_text(c) ==> (r matches Ok(b)
                && b.name@ == c.name@ && b.debug == c.debug && !b.has_invoke_handler && b.content
                is None && b.splashscreen is None),
            r matches Err(e) ==> e is ConfigError,
    {
        match parse_config(config) {
            Ok(c) => Ok(
                AppBuilder {
                    name: c.name,
                    debug: c.debug,
                    has_invoke_handler: false,
                    content: None,
                    splashscreen: None,
                },
            ),
            Err(e) => Err(e),
        }
    }

    /// Points the app at its front-end content.
    pub fn load(self, content: ContentType) -> (r: AppBuilder)
        ensures
            r.content == Some(content),
            r.name == self.name,
            r.debug == self.debug,
            r.has_invoke_handler == self.has_invoke_handler,
            r.splashscreen == self.splashscreen,
    {
        AppBuilder {
            name: self.name,
            debug: self.debug,
            has_invoke_handler: self.has_invoke_handler,
            content: Some(content),
            splashscreen: self.splashscreen,
        }
    }

    /// Shows a splash screen with custom HTML until the app has loaded.
    pub fn show_splashscreen(self, content: String) -> (r: AppBuilder)
        ensures
            r.splashscreen matches Some(s) && s@ == "data:text/html,"@ + content@,
            r.name == self.name,
            r.debug == self.debug,
            r.has_invoke_handler == self.has_invoke_handler,
            r.content == self.content,
    {
        let mut page = String::from_str("data:text/html,");
        page.append(content.as_str());
        AppBuilder {
            name: self.name,
            debug: self.debug,
            has_invoke_handler: self.has_invoke_handler,
            content: self.content,
            splashscreen: Some(page),
        }
    }

    /// Notes that the runner holds a user-supplied invoke handler.
    ///
    /// The handler itself is a closure over toolkit state, so it lives with
    /// the runner; the built app only records that the fallback exists.
    pub fn invoke_handler(self) -> (r: AppBuilder)
        ensures
            r.has_invoke_handler,
            r.name == self.name,
            r.debug == self.debug,
            r.content == self.content,
            r.splashscreen == self.splashscreen,
    {
        AppBuilder {
            name: self.name,
            debug: self.debug,
            has_invoke_handler: true,
            content: self.content,
            splashscreen: self.splashscreen,
        }
    }

    /// Finishes the builder.
    pub fn build(self) -> (r: App)
        ensures
            r.name == self.name,
            r.debug == self.debug,
            r.has_invoke_handler == self.has_invoke_handler,
            r.content == self.content,
            r.splashscreen == self.splashscreen,
    {
        App {
            name: self.name,
            debug: self.debug,
            has_invoke_handler: self.has_invoke_handler,
            content: self.content,
            splashscreen: self.splashscreen,
        }
    }
}

/// The bootstrap script injected into every page: once the page has loaded,
/// it notifies the native side with the canonical loaded event.
pub open spec fn init_script_text() -> Seq<char> {
    "window.addEventListener('load', function () { window.rpc.notify(JSON.stringify({\"veloxEvent\":\"loaded\"})) })"@
}

/// Produces the bootstrap script injected into every page.
pub fn init_script() -> (r: String)
    ensures
        r@ == init_script_text(),
{
    "window.addEventListener('load', function () { window.rpc.notify(JSON.stringify({\"veloxEvent\":\"loaded\"})) })".to_owned()
}


} // verus!
