//! The splash-screen rendezvous: a one-shot protocol that shows a loading
//! window until the front-end signals that its content has loaded.
//!
//! At startup the runner posts an add-window event for the splash window,
//! then feeds the event stream to a listener.  The listener waits for the
//! first loaded signal, answers it with exactly one close-splash and
//! show-main pair, and is done: loaded signals after the rendezvous cause
//! no further window transitions.

use vstd::prelude::*;

use crate::events::{Event, VeloxEvents, WindowEvents};

verus! {

/// The one-shot state of the rendezvous.
pub struct SplashScreen {
    /// Whether the rendezvous has already answered a loaded signal.
    pub done: bool,
}

/// The signal the rendezvous waits for.
pub open spec fn is_loaded(e: Event) -> bool {
    e matches Event::VeloxEvent(VeloxEvents::Loaded)
}

/// How many close-and-show pairs the rendezvous emits over a stream of
/// events, starting from the given state.
pub open spec fn splash_emissions(done: bool, events: Seq<Event>) -> nat
    decreases events.len(),
{
    if events.len() == 0 {
        0
    } else {
        (if !done && is_loaded(events[0]) {
            1nat
        } else {
            0nat
        }) + splash_emissions(done || is_loaded(events[0]), events.skip(1))
    }
}

/// The rendezvous is single-use: over any stream of events it emits its
/// close-and-show pair at most once, and a finished rendezvous never emits
/// again, however many loaded signals follow.
pub proof fn lemma_splash_once(done: bool, events: Seq<Event>)
    ensures
        splash_emissions(done, events) <= 1,
        done ==> splash_emissions(done, events) == 0,
    decreases events.len(),
{
    if events.len() > 0 {
        lemma_splash_once(done || is_loaded(events[0]), events.skip(1));
    }
}

impl SplashScreen {
    /// A fresh rendezvous, waiting for the first loaded signal.
    pub fn new() -> (r: SplashScreen)
        ensures
            !r.done,
    {
        SplashScreen { done: false }
    }

    /// Feeds one event to the rendezvous.
    ///
    /// The first loaded signal completes it and yields the pair of events
    /// to post: close the splash window, then show the main window.  Any
    /// other event, and any event once it is done, yields nothing.
    pub fn step(&mut self, event: &Event) -> (r: Option<(Event, Event)>)
        ensures
            final(self).done == (old(self).done || is_loaded(*event)),
            r is Some <==> (!old(self).done && is_loaded(*event)),
            r matches Some(p) ==> ({
                &&& p.0 matches Event::WindowEvent(we) && we matches WindowEvents::CloseWindow(id)
                    && id@ == "splash_window"@
                &&& p.1 matches Event::WindowEvent(we2) && we2 matches WindowEvents::ShowWindow(
                    id2,
                ) && id2@ == "main_window"@
            }),
    {
        match event {
            Event::VeloxEvent(VeloxEvents::Loaded) => {
                if self.done {
                    None
                } else {
                    self.done = true;
                    let close = Event::WindowEvent(
                        WindowEvents::CloseWindow(String::from_str("splash_window")),
                    );
                    let show = Event::WindowEvent(
                        WindowEvents::ShowWindow(String::from_str("main_window")),
                    );
                    Some((close, show))
                }
            },
            _ => None,
        }
    }
}

/// The event that opens the splash window at startup, shown before the main
/// window becomes visible.
pub fn show_splashscreen(window_title: &str, content: &str) -> (r: Event)
    ensures
        r matches Event::WindowEvent(we) && we matches WindowEvents::AddWindow {
            window_title: t2,
            content: c2,
            identifier: i2,
        } && t2@ == window_title@ && c2@ == content@ && i2@ == "splash_window"@,
{
    Event::WindowEvent(
        WindowEvents::AddWindow {
            window_title: window_title.to_owned(),
            content: content.to_owned(),
            identifier: String::from_str("splash_window"),
        },
    )
}

} // verus!
