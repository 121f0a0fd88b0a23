//! The event schema: framework-internal signals, distinct from commands.
//!
//! An event expects no reply.  It travels as one line of canonical JSON,
//! keyed first by family and then, for window events, by operation.  The
//! splash-screen rendezvous and the window registry are driven entirely by
//! these values.

use vstd::prelude::*;

use crate::codec::{
    bool_text, chars_of, lit_at, parse_bool, parse_qstr, quoted, str_eq, tag, write_bool,
    write_qstr, lemma_lit_split, lemma_str_neq, qstr_at,
};
use crate::VeloxError;

verus! {

/// The key under which a window is addressed.
pub type Identifier = String;

/// Signals about a loaded resource.
#[derive(Debug, Clone, PartialEq, Eq)]
pub enum ResourceEvent {
    Error,
    Abort,
    Load,
    Beforeunload,
    Unload,
}

/// Signals about network reachability.
#[derive(Debug, Clone, PartialEq, Eq)]
pub enum NetworkEvent {
    Online,
    Offline,
}

/// Lifecycle signals the front-end emits.
#[derive(Debug, Clone, PartialEq, Eq)]
pub enum VeloxEvents {
    Initialised,
    Loaded,
}

/// Window-management signals.
#[derive(Debug, Clone, PartialEq, Eq)]
pub enum WindowEvents {
    AddWindow { window_title: String, content: String, identifier: Identifier },
    CloseWindow(Identifier),
    ShowWindow(Identifier),
    HideWindow(Identifier),
    SetTitle { title: String, identifier: Identifier },
    SetFullscreen { identifier: Identifier },
    Maximize { flag: bool, identifier: Identifier },
    Minimize { flag: bool, identifier: Identifier },
}

/// A framework-internal notification: no reply is expected.
#[derive(Debug, Clone, PartialEq, Eq)]
pub enum Event {
    VeloxEvent(VeloxEvents),
    ResourceEvent(ResourceEvent),
    NetworkEvent(NetworkEvent),
    WindowEvent(WindowEvents),
}

/// The family tag under which an event is keyed on the wire.
pub open spec fn event_tag(e: Event) -> Seq<char> {
    match e {
        Event::VeloxEvent(_) => "veloxEvent"@,
        Event::ResourceEvent(_) => "resourceEvent"@,
        Event::NetworkEvent(_) => "networkEvent"@,
        Event::WindowEvent(_) => "windowEvent"@,
    }
}

/// The wire name of a lifecycle signal.
pub open spec fn velox_name(v: VeloxEvents) -> Seq<char> {
    match v {
        VeloxEvents::Initialised => "initialised"@,
        VeloxEvents::Loaded => "loaded"@,
    }
}

/// The wire name of a resource signal.
pub open spec fn resource_name(r: ResourceEvent) -> Seq<char> {
    match r {
        ResourceEvent::Error => "error"@,
        ResourceEvent::Abort => "abort"@,
        ResourceEvent::Load => "load"@,
        ResourceEvent::Beforeunload => "beforeunload"@,
        ResourceEvent::Unload => "unload"@,
    }
}

/// The wire name of a network signal.
pub open spec fn network_name(n: NetworkEvent) -> Seq<char> {
    match n {
        NetworkEvent::Online => "online"@,
        NetworkEvent::Offline => "offline"@,
    }
}

/// The operation tag of a window event.
pub open spec fn wevent_tag(w: WindowEvents) -> Seq<char> {
    match w {
        WindowEvents::AddWindow { .. } => "addWindow"@,
        WindowEvents::CloseWindow(_) => "closeWindow"@,
        WindowEvents::ShowWindow(_) => "showWindow"@,
        WindowEvents::HideWindow(_) => "hideWindow"@,
        WindowEvents::SetTitle { .. } => "setTitle"@,
        WindowEvents::SetFullscreen { .. } => "setFullscreen"@,
        WindowEvents::Maximize { .. } => "maximize"@,
        WindowEvents::Minimize { .. } => "minimize"@,
    }
}

/// The payload of the add-window event.
pub open spec fn add_payload(i: Seq<char>, t: Seq<char>, c: Seq<char>) -> Seq<char> {
    "{\"identifier\":"@ + quoted(i) + ",\"windowTitle\":"@ + quoted(t) + ",\"content\":"@
        + quoted(c) + "}"@
}

/// The payload of the set-title event.
pub open spec fn settitle_payload(t: Seq<char>, i: Seq<char>) -> Seq<char> {
    "{\"title\":"@ + quoted(t) + ",\"identifier\":"@ + quoted(i) + "}"@
}

/// The payload of the set-fullscreen event.
pub open spec fn setfs_payload(i: Seq<char>) -> Seq<char> {
    "{\"identifier\":"@ + quoted(i) + "}"@
}

/// The payload of the maximize and minimize events.
pub open spec fn flag_payload(f: bool, i: Seq<char>) -> Seq<char> {
    "{\"flag\":"@ + bool_text(f) + ",\"identifier\":"@ + quoted(i) + "}"@
}

/// The payload of a window event: what follows its operation tag.
pub open spec fn wevent_payload(w: WindowEvents) -> Seq<char> {
    match w {
        WindowEvents::AddWindow { window_title, content, identifier } => add_payload(
            identifier@,
            window_title@,
            content@,
        ),
        WindowEvents::CloseWindow(id) => quoted(id@),
        WindowEvents::ShowWindow(id) => quoted(id@),
        WindowEvents::HideWindow(id) => quoted(id@),
        WindowEvents::SetTitle { title, identifier } => settitle_payload(title@, identifier@),
        WindowEvents::SetFullscreen { identifier } => setfs_payload(identifier@),
        WindowEvents::Maximize { flag, identifier } => flag_payload(flag, identifier@),
        WindowEvents::Minimize { flag, identifier } => flag_payload(flag, identifier@),
    }
}

/// The canonical wire text of a window event.
pub open spec fn wevent_text(w: WindowEvents) -> Seq<char> {
    seq!['{'] + quoted(wevent_tag(w)) + seq![':'] + wevent_payload(w) + seq!['}']
}

/// The payload of an event: the value its family tag is keyed to.
pub open spec fn event_body(e: Event) -> Seq<char> {
    match e {
        Event::VeloxEvent(v) => quoted(velox_name(v)),
        Event::ResourceEvent(r) => quoted(resource_name(r)),
        Event::NetworkEvent(n) => quoted(network_name(n)),
        Event::WindowEvent(w) => wevent_text(w),
    }
}

/// The canonical wire text of an event.
pub open spec fn event_text(e: Event) -> Seq<char> {
    seq!['{'] + quoted(event_tag(e)) + seq![':'] + event_body(e) + seq!['}']
}

/// Two window events are the same operation on the same data.
pub open spec fn wevent_equiv(a: WindowEvents, b: WindowEvents) -> bool {
    match a {
        WindowEvents::AddWindow { window_title, content, identifier } => b matches WindowEvents::AddWindow {
            window_title: t2,
            content: c2,
            identifier: i2,
        } && window_title@ == t2@ && content@ == c2@ && identifier@ == i2@,
        WindowEvents::CloseWindow(id) => b matches WindowEvents::CloseWindow(id2) && id@ == id2@,
        WindowEvents::ShowWindow(id) => b matches WindowEvents::ShowWindow(id2) && id@ == id2@,
        WindowEvents::HideWindow(id) => b matches WindowEvents::HideWindow(id2) && id@ == id2@,
        WindowEvents::SetTitle { title, identifier } => b matches WindowEvents::SetTitle {
            title: t2,
            identifier: i2,
        } && title@ == t2@ && identifier@ == i2@,
        WindowEvents::SetFullscreen { identifier } => b matches WindowEvents::SetFullscreen {
            identifier: i2,
        } && identifier@ == i2@,
        WindowEvents::Maximize { flag, identifier } => b matches WindowEvents::Maximize {
            flag: f2,
            identifier: i2,
        } && flag == f2 && identifier@ == i2@,
        WindowEvents::Minimize { flag, identifier } => b matches WindowEvents::Minimize {
            flag: f2,
            identifier: i2,
        } && flag == f2 && identifier@ == i2@,
    }
}

/// Two events are the same signal on the same data.
pub open spec fn event_equiv(a: Event, b: Event) -> bool {
    match a {
        Event::VeloxEvent(v) => b matches Event::VeloxEvent(v2) && v == v2,
        Event::ResourceEvent(r) => b matches Event::ResourceEvent(r2) && r == r2,
        Event::NetworkEvent(n) => b matches Event::NetworkEvent(n2) && n == n2,
        Event::WindowEvent(w) => b matches Event::WindowEvent(w2) && wevent_equiv(w, w2),
    }
}

/// Produces the canonical wire text of an event.
#[verifier::rlimit(100)]
#[verifier::spinoff_prover]
pub fn encode_event(e: &Event) -> (r: String)
    ensures
        r@ == event_text(*e),
{
    let mut out = String::new();
    crate::codec::push_char(&mut out, '{');
    match e {
        Event::VeloxEvent(v) => {
            write_qstr(&mut out, "veloxEvent");
            crate::codec::push_char(&mut out, ':');
            match v {
                VeloxEvents::Initialised => {
                    write_qstr(&mut out, "initialised");
                },
                VeloxEvents::Loaded => {
                    write_qstr(&mut out, "loaded");
                },
            }
        },
        Event::ResourceEvent(res) => {
            write_qstr(&mut out, "resourceEvent");
            crate::codec::push_char(&mut out, ':');
            match res {
                ResourceEvent::Error => {
                    write_qstr(&mut out, "error");
                },
                ResourceEvent::Abort => {
                    write_qstr(&mut out, "abort");
                },
                ResourceEvent::Load => {
                    write_qstr(&mut out, "load");
                },
                ResourceEvent::Beforeunload => {
                    write_qstr(&mut out, "beforeunload");
                },
                ResourceEvent::Unload => {
                    write_qstr(&mut out, "unload");
                },
            }
        },
        Event::NetworkEvent(net) => {
            write_qstr(&mut out, "networkEvent");
            crate::codec::push_char(&mut out, ':');
            match net {
                NetworkEvent::Online => {
                    write_qstr(&mut out, "online");
                },
                NetworkEvent::Offline => {
                    write_qstr(&mut out, "offline");
                },
            }
        },
        Event::WindowEvent(w) => {
            write_qstr(&mut out, "windowEvent");
            crate::codec::push_char(&mut out, ':');
            write_wevent(&mut out, w);
        },
    }
    crate::codec::push_char(&mut out, '}');
    assert(out@ =~= event_text(*e));
    out
}

/// Appends the canonical text of a window event.
#[verifier::rlimit(100)]
#[verifier::spinoff_prover]
fn write_wevent(out: &mut String, w: &WindowEvents)
    ensures
        final(out)@ == old(out)@ + wevent_text(*w),
{
    crate::codec::push_char(out, '{');
    match w {
        WindowEvents::AddWindow { window_title, content, identifier } => {
            write_qstr(out, "addWindow");
            crate::codec::push_char(out, ':');
            out.append("{\"identifier\":");
            write_qstr(out, identifier.as_str());
            out.append(",\"windowTitle\":");
            write_qstr(out, window_title.as_str());
            out.append(",\"content\":");
            write_qstr(out, content.as_str());
            out.append("}");
            crate::codec::push_char(out, '}');
            assert(out@ =~= old(out)@ + wevent_text(*w));
        },
        WindowEvents::CloseWindow(id) => {
            write_qstr(out, "closeWindow");
            crate::codec::push_char(out, ':');
            write_qstr(out, id.as_str());
            crate::codec::push_char(out, '}');
            assert(out@ =~= old(out)@ + wevent_text(*w));
        },
        WindowEvents::ShowWindow(id) => {
            write_qstr(out, "showWindow");
            crate::codec::push_char(out, ':');
            write_qstr(out, id.as_str());
            crate::codec::push_char(out, '}');
            assert(out@ =~= old(out)@ + wevent_text(*w));
        },
        WindowEvents::HideWindow(id) => {
            write_qstr(out, "hideWindow");
            crate::codec::push_char(out, ':');
            write_qstr(out, id.as_str());
            crate::codec::push_char(out, '}');
            assert(out@ =~= old(out)@ + wevent_text(*w));
        },
        WindowEvents::SetTitle { title, identifier } => {
            write_qstr(out, "setTitle");
            crate::codec::push_char(out, ':');
            out.append("{\"title\":");
            write_qstr(out, title.as_str());
            out.append(",\"identifier\":");
            write_qstr(out, identifier.as_str());
            out.append("}");
            crate::codec::push_char(out, '}');
            assert(out@ =~= old(out)@ + wevent_text(*w));
        },
        WindowEvents::SetFullscreen { identifier } => {
            write_qstr(out, "setFullscreen");
            crate::codec::push_char(out, ':');
            out.append("{\"identifier\":");
            write_qstr(out, identifier.as_str());
            out.append("}");
            crate::codec::push_char(out, '}');
            assert(out@ =~= old(out)@ + wevent_text(*w));
        },
        WindowEvents::Maximize { flag, identifier } => {
            write_qstr(out, "maximize");
            crate::codec::push_char(out, ':');
            out.append("{\"flag\":");
            write_bool(out, *flag);
            out.append(",\"identifier\":");
            write_qstr(out, identifier.as_str());
            out.append("}");
            crate::codec::push_char(out, '}');
            assert(out@ =~= old(out)@ + wevent_text(*w));
        },
        WindowEvents::Minimize { flag, identifier } => {
            write_qstr(out, "minimize");
            crate::codec::push_char(out, ':');
            out.append("{\"flag\":");
            write_bool(out, *flag);
            out.append(",\"identifier\":");
            write_qstr(out, identifier.as_str());
            out.append("}");
            crate::codec::push_char(out, '}');
            assert(out@ =~= old(out)@ + wevent_text(*w));
        },
    }
}

/// Parses the add-window payload.
#[verifier::rlimit(100)]
#[verifier::spinoff_prover]
fn parse_add_payload(input: &Vec<char>, pos: usize) -> (r: Option<(String, String, String, usize)>)
    requires
        pos <= input@.len(),
    ensures
        r matches Some(t) ==> pos <= t.3 <= input@.len() && input@.subrange(
            pos as int,
            t.3 as int,
        ) == add_payload(t.0@, t.1@, t.2@),
        forall|i: Seq<char>, tt: Seq<char>, c: Seq<char>| lit_at(
            input@,
            pos as int,
            #[trigger] add_payload(i, tt, c),
        ) ==> (r matches Some(t) && t.0@ == i && t.1@ == tt && t.2@ == c && t.3 == pos
            + add_payload(i, tt, c).len()),
{
    proof {
        assert forall|i: Seq<char>, tt: Seq<char>, c: Seq<char>| lit_at(
            input@,
            pos as int,
            #[trigger] add_payload(i, tt, c),
        ) implies lit_at(input@, pos as int, "{\"identifier\":"@) && qstr_at(input@, pos as int + "{\"identifier\":"@.len(), i) && lit_at(input@, pos as int + "{\"identifier\":"@.len() + quoted(i).len(), ",\"windowTitle\":"@) && qstr_at(input@, pos as int + "{\"identifier\":"@.len() + quoted(i).len() + ",\"windowTitle\":"@.len(), tt) && lit_at(input@, pos as int + "{\"identifier\":"@.len() + quoted(i).len() + ",\"windowTitle\":"@.len() + quoted(tt).len(), ",\"content\":"@) && qstr_at(input@, pos as int + "{\"identifier\":"@.len() + quoted(i).len() + ",\"windowTitle\":"@.len() + quoted(tt).len() + ",\"content\":"@.len(), c) && lit_at(input@, pos as int + "{\"identifier\":"@.len() + quoted(i).len() + ",\"windowTitle\":"@.len() + quoted(tt).len() + ",\"content\":"@.len() + quoted(c).len(), "}"@) by {
            assert(add_payload(i, tt, c) =~= "{\"identifier\":"@ + (quoted(i) + (",\"windowTitle\":"@ + (quoted(tt) + (",\"content\":"@ + (quoted(c) + ("}"@)))))));
            lemma_lit_split(input@, pos as int, "{\"identifier\":"@, quoted(i) + (",\"windowTitle\":"@ + (quoted(tt) + (",\"content\":"@ + (quoted(c) + ("}"@))))));
            lemma_lit_split(input@, pos as int + "{\"identifier\":"@.len(), quoted(i), ",\"windowTitle\":"@ + (quoted(tt) + (",\"content\":"@ + (quoted(c) + ("}"@)))));
            lemma_lit_split(input@, pos as int + "{\"identifier\":"@.len() + quoted(i).len(), ",\"windowTitle\":"@, quoted(tt) + (",\"content\":"@ + (quoted(c) + ("}"@))));
            lemma_lit_split(input@, pos as int + "{\"identifier\":"@.len() + quoted(i).len() + ",\"windowTitle\":"@.len(), quoted(tt), ",\"content\":"@ + (quoted(c) + ("}"@)));
            lemma_lit_split(input@, pos as int + "{\"identifier\":"@.len() + quoted(i).len() + ",\"windowTitle\":"@.len() + quoted(tt).len(), ",\"content\":"@, quoted(c) + ("}"@));
            lemma_lit_split(input@, pos as int + "{\"identifier\":"@.len() + quoted(i).len() + ",\"windowTitle\":"@.len() + quoted(tt).len() + ",\"content\":"@.len(), quoted(c), "}"@);
        }
    }
    let p1 = match tag(input, pos, "{\"identifier\":") {
        Some(p) => p,
        None => { return None; },
    };
    let (identifier, p2) = match parse_qstr(input, p1) {
        Some(t) => t,
        None => { return None; },
    };
    let p3 = match tag(input, p2, ",\"windowTitle\":") {
        Some(p) => p,
        None => { return None; },
    };
    let (window_title, p4) = match parse_qstr(input, p3) {
        Some(t) => t,
        None => { return None; },
    };
    let p5 = match tag(input, p4, ",\"content\":") {
        Some(p) => p,
        None => { return None; },
    };
    let (content, p6) = match parse_qstr(input, p5) {
        Some(t) => t,
        None => { return None; },
    };
    let p7 = match tag(input, p6, "}") {
        Some(p) => p,
        None => { return None; },
    };
    proof {
        lemma_lit_split(input@, pos as int, "{\"identifier\":"@, quoted(identifier@));
        lemma_lit_split(input@, pos as int, ("{\"identifier\":"@) + quoted(identifier@), ",\"windowTitle\":"@);
        lemma_lit_split(input@, pos as int, (("{\"identifier\":"@) + quoted(identifier@)) + ",\"windowTitle\":"@, quoted(window_title@));
        lemma_lit_split(input@, pos as int, ((("{\"identifier\":"@) + quoted(identifier@)) + ",\"windowTitle\":"@) + quoted(window_title@), ",\"content\":"@);
        lemma_lit_split(input@, pos as int, (((("{\"identifier\":"@) + quoted(identifier@)) + ",\"windowTitle\":"@) + quoted(window_title@)) + ",\"content\":"@, quoted(content@));
        lemma_lit_split(input@, pos as int, ((((("{\"identifier\":"@) + quoted(identifier@)) + ",\"windowTitle\":"@) + quoted(window_title@)) + ",\"content\":"@) + quoted(content@), "}"@);
        assert((((((("{\"identifier\":"@) + quoted(identifier@)) + ",\"windowTitle\":"@) + quoted(window_title@)) + ",\"content\":"@) + quoted(content@)) + "}"@ =~= add_payload(identifier@, window_title@, content@));
        assert(input@.subrange(pos as int, p7 as int) == add_payload(identifier@, window_title@, content@));
    }
    Some((identifier, window_title, content, p7))
}

/// Parses the set-title payload.
#[verifier::rlimit(100)]
#[verifier::spinoff_prover]
fn parse_settitle_payload(input: &Vec<char>, pos: usize) -> (r: Option<(String, String, usize)>)
    requires
        pos <= input@.len(),
    ensures
        r matches Some(t) ==> pos <= t.2 <= input@.len() && input@.subrange(
            pos as int,
            t.2 as int,
        ) == settitle_payload(t.0@, t.1@),
        forall|tt: Seq<char>, i: Seq<char>| lit_at(
            input@,
            pos as int,
            #[trigger] settitle_payload(tt, i),
        ) ==> (r matches Some(t) && t.0@ == tt && t.1@ == i && t.2 == pos
            + settitle_payload(tt, i).len()),
{
    proof {
        assert forall|tt: Seq<char>, i: Seq<char>| lit_at(
            input@,
            pos as int,
            #[trigger] settitle_payload(tt, i),
        ) implies lit_at(input@, pos as int, "{\"title\":"@) && qstr_at(input@, pos as int + "{\"title\":"@.len(), tt) && lit_at(input@, pos as int + "{\"title\":"@.len() + quoted(tt).len(), ",\"identifier\":"@) && qstr_at(input@, pos as int + "{\"title\":"@.len() + quoted(tt).len() + ",\"identifier\":"@.len(), i) && lit_at(input@, pos as int + "{\"title\":"@.len() + quoted(tt).len() + ",\"identifier\":"@.len() + quoted(i).len(), "}"@) by {
            assert(settitle_payload(tt, i) =~= "{\"title\":"@ + (quoted(tt) + (",\"identifier\":"@ + (quoted(i) + ("}"@)))));
            lemma_lit_split(input@, pos as int, "{\"title\":"@, quoted(tt) + (",\"identifier\":"@ + (quoted(i) + ("}"@))));
            lemma_lit_split(input@, pos as int + "{\"title\":"@.len(), quoted(tt), ",\"identifier\":"@ + (quoted(i) + ("}"@)));
            lemma_lit_split(input@, pos as int + "{\"title\":"@.len() + quoted(tt).len(), ",\"identifier\":"@, quoted(i) + ("}"@));
            lemma_lit_split(input@, pos as int + "{\"title\":"@.len() + quoted(tt).len() + ",\"identifier\":"@.len(), quoted(i), "}"@);
        }
    }
    let p1 = match tag(input, pos, "{\"title\":") {
        Some(p) => p,
        None => { return None; },
    };
    let (title, p2) = match parse_qstr(input, p1) {
        Some(t) => t,
        None => { return None; },
    };
    let p3 = match tag(input, p2, ",\"identifier\":") {
        Some(p) => p,
        None => { return None; },
    };
    let (identifier, p4) = match parse_qstr(input, p3) {
        Some(t) => t,
        None => { return None; },
    };
    let p5 = match tag(input, p4, "}") {
        Some(p) => p,
        None => { return None; },
    };
    proof {
        lemma_lit_split(input@, pos as int, "{\"title\":"@, quoted(title@));
        lemma_lit_split(input@, pos as int, ("{\"title\":"@) + quoted(title@), ",\"identifier\":"@);
        lemma_lit_split(input@, pos as int, (("{\"title\":"@) + quoted(title@)) + ",\"identifier\":"@, quoted(identifier@));
        lemma_lit_split(input@, pos as int, ((("{\"title\":"@) + quoted(title@)) + ",\"identifier\":"@) + quoted(identifier@), "}"@);
        assert((((("{\"title\":"@) + quoted(title@)) + ",\"identifier\":"@) + quoted(identifier@)) + "}"@ =~= settitle_payload(title@, identifier@));
        assert(input@.subrange(pos as int, p5 as int) == settitle_payload(title@, identifier@));
    }
    Some((title, identifier, p5))
}

/// Parses the set-fullscreen payload.
#[verifier::rlimit(100)]
#[verifier::spinoff_prover]
fn parse_setfs_payload(input: &Vec<char>, pos: usize) -> (r: Option<(String, usize)>)
    requires
        pos <= input@.len(),
    ensures
        r matches Some(t) ==> pos <= t.1 <= input@.len() && input@.subrange(
            pos as int,
            t.1 as int,
        ) == setfs_payload(t.0@),
        forall|i: Seq<char>| lit_at(
            input@,
            pos as int,
            #[trigger] setfs_payload(i),
        ) ==> (r matches Some(t) && t.0@ == i && t.1 == pos
            + setfs_payload(i).len()),
{
    proof {
        assert forall|i: Seq<char>| lit_at(
            input@,
            pos as int,
            #[trigger] setfs_payload(i),
        ) implies lit_at(input@, pos as int, "{\"identifier\":"@) && qstr_at(input@, pos as int + "{\"identifier\":"@.len(), i) && lit_at(input@, pos as int + "{\"identifier\":"@.len() + quoted(i).len(), "}"@) by {
            assert(setfs_payload(i) =~= "{\"identifier\":"@ + (quoted(i) + ("}"@)));
            lemma_lit_split(input@, pos as int, "{\"identifier\":"@, quoted(i) + ("}"@));
            lemma_lit_split(input@, pos as int + "{\"identifier\":"@.len(), quoted(i), "}"@);
        }
    }
    let p1 = match tag(input, pos, "{\"identifier\":") {
        Some(p) => p,
        None => { return None; },
    };
    let (identifier, p2) = match parse_qstr(input, p1) {
        Some(t) => t,
        None => { return None; },
    };
    let p3 = match tag(input, p2, "}") {
        Some(p) => p,
        None => { return None; },
    };
    proof {
        lemma_lit_split(input@, pos as int, "{\"identifier\":"@, quoted(identifier@));
        lemma_lit_split(input@, pos as int, ("{\"identifier\":"@) + quoted(identifier@), "}"@);
        assert((("{\"identifier\":"@) + quoted(identifier@)) + "}"@ =~= setfs_payload(identifier@));
        assert(input@.subrange(pos as int, p3 as int) == setfs_payload(identifier@));
    }
    Some((identifier, p3))
}

/// Parses a flagged window payload.
#[verifier::rlimit(100)]
#[verifier::spinoff_prover]
fn parse_flag_payload(input: &Vec<char>, pos: usize) -> (r: Option<(bool, String, usize)>)
    requires
        pos <= input@.len(),
    ensures
        r matches Some(t) ==> pos <= t.2 <= input@.len() && input@.subrange(
            pos as int,
            t.2 as int,
        ) == flag_payload(t.0, t.1@),
        forall|f: bool, i: Seq<char>| lit_at(
            input@,
            pos as int,
            #[trigger] flag_payload(f, i),
        ) ==> (r matches Some(t) && t.0 == f && t.1@ == i && t.2 == pos
            + flag_payload(f, i).len()),
{
    proof {
        assert forall|f: bool, i: Seq<char>| lit_at(
            input@,
            pos as int,
            #[trigger] flag_payload(f, i),
        ) implies lit_at(input@, pos as int, "{\"flag\":"@) && lit_at(input@, pos as int + "{\"flag\":"@.len(), bool_text(f)) && lit_at(input@, pos as int + "{\"flag\":"@.len() + bool_text(f).len(), ",\"identifier\":"@) && qstr_at(input@, pos as int + "{\"flag\":"@.len() + bool_text(f).len() + ",\"identifier\":"@.len(), i) && lit_at(input@, pos as int + "{\"flag\":"@.len() + bool_text(f).len() + ",\"identifier\":"@.len() + quoted(i).len(), "}"@) by {
            assert(flag_payload(f, i) =~= "{\"flag\":"@ + (bool_text(f) + (",\"identifier\":"@ + (quoted(i) + ("}"@)))));
            lemma_lit_split(input@, pos as int, "{\"flag\":"@, bool_text(f) + (",\"identifier\":"@ + (quoted(i) + ("}"@))));
            lemma_lit_split(input@, pos as int + "{\"flag\":"@.len(), bool_text(f), ",\"identifier\":"@ + (quoted(i) + ("}"@)));
            lemma_lit_split(input@, pos as int + "{\"flag\":"@.len() + bool_text(f).len(), ",\"identifier\":"@, quoted(i) + ("}"@));
            lemma_lit_split(input@, pos as int + "{\"flag\":"@.len() + bool_text(f).len() + ",\"identifier\":"@.len(), quoted(i), "}"@);
        }
    }
    let p1 = match tag(input, pos, "{\"flag\":") {
        Some(p) => p,
        None => { return None; },
    };
    let (flag, p2) = match parse_bool(input, p1) {
        Some(t) => t,
        None => { return None; },
    };
    let p3 = match tag(input, p2, ",\"identifier\":") {
        Some(p) => p,
        None => { return None; },
    };
    let (identifier, p4) = match parse_qstr(input, p3) {
        Some(t) => t,
        None => { return None; },
    };
    let p5 = match tag(input, p4, "}") {
        Some(p) => p,
        None => { return None; },
    };
    proof {
        lemma_lit_split(input@, pos as int, "{\"flag\":"@, bool_text(flag));
        lemma_lit_split(input@, pos as int, ("{\"flag\":"@) + bool_text(flag), ",\"identifier\":"@);
        lemma_lit_split(input@, pos as int, (("{\"flag\":"@) + bool_text(flag)) + ",\"identifier\":"@, quoted(identifier@));
        lemma_lit_split(input@, pos as int, ((("{\"flag\":"@) + bool_text(flag)) + ",\"identifier\":"@) + quoted(identifier@), "}"@);
        assert((((("{\"flag\":"@) + bool_text(flag)) + ",\"identifier\":"@) + quoted(identifier@)) + "}"@ =~= flag_payload(flag, identifier@));
        assert(input@.subrange(pos as int, p5 as int) == flag_payload(flag, identifier@));
    }
    Some((flag, identifier, p5))
}

/// Concrete facts about event tags and names: lengths, and that names of
/// equal length differ.
proof fn lemma_event_tag_facts()
    ensures
        "{"@ == seq!['{'],
        "}"@ == seq!['}'],
        ":"@ == seq![':'],
        "veloxEvent"@.len() == 10,
        "resourceEvent"@.len() == 13,
        "networkEvent"@.len() == 12,
        "windowEvent"@.len() == 11,
        "initialised"@.len() == 11,
        "loaded"@.len() == 6,
        "error"@.len() == 5,
        "abort"@.len() == 5,
        "load"@.len() == 4,
        "beforeunload"@.len() == 12,
        "unload"@.len() == 6,
        "online"@.len() == 6,
        "offline"@.len() == 7,
        "addWindow"@.len() == 9,
        "closeWindow"@.len() == 11,
        "showWindow"@.len() == 10,
        "hideWindow"@.len() == 10,
        "setTitle"@.len() == 8,
        "setFullscreen"@.len() == 13,
        "maximize"@.len() == 8,
        "minimize"@.len() == 8,
        "error"@ != "abort"@,
        "loaded"@ != "unload"@,
        "loaded"@ != "online"@,
        "unload"@ != "online"@,
        "showWindow"@ != "hideWindow"@,
        "setTitle"@ != "maximize"@,
        "setTitle"@ != "minimize"@,
        "maximize"@ != "minimize"@,
{
    reveal_strlit("{");
    reveal_strlit("}");
    reveal_strlit(":");
    reveal_strlit("veloxEvent");
    reveal_strlit("resourceEvent");
    reveal_strlit("networkEvent");
    reveal_strlit("windowEvent");
    reveal_strlit("initialised");
    reveal_strlit("loaded");
    reveal_strlit("error");
    reveal_strlit("abort");
    reveal_strlit("load");
    reveal_strlit("beforeunload");
    reveal_strlit("unload");
    reveal_strlit("online");
    reveal_strlit("offline");
    reveal_strlit("addWindow");
    reveal_strlit("closeWindow");
    reveal_strlit("showWindow");
    reveal_strlit("hideWindow");
    reveal_strlit("setTitle");
    reveal_strlit("setFullscreen");
    reveal_strlit("maximize");
    reveal_strlit("minimize");
    assert("{"@ =~= seq!['{']);
    assert("}"@ =~= seq!['}']);
    assert(":"@ =~= seq![':']);
    lemma_str_neq("error"@, "abort"@, 0);
    lemma_str_neq("loaded"@, "unload"@, 0);
    lemma_str_neq("loaded"@, "online"@, 0);
    lemma_str_neq("unload"@, "online"@, 0);
    lemma_str_neq("showWindow"@, "hideWindow"@, 0);
    lemma_str_neq("setTitle"@, "maximize"@, 0);
    lemma_str_neq("setTitle"@, "minimize"@, 0);
    lemma_str_neq("maximize"@, "minimize"@, 1);
}

/// The window events this dispatcher group handles.
pub open spec fn wevent_in_a(w: WindowEvents) -> bool {
    w matches WindowEvents::AddWindow { .. } || w matches WindowEvents::CloseWindow(_)
}

/// The window events this dispatcher group handles.
pub open spec fn wevent_in_b(w: WindowEvents) -> bool {
    w matches WindowEvents::ShowWindow(_) || w matches WindowEvents::HideWindow(_)
}

/// The window events this dispatcher group handles.
pub open spec fn wevent_in_c(w: WindowEvents) -> bool {
    w matches WindowEvents::SetTitle { .. } || w matches WindowEvents::SetFullscreen { .. }
}

/// The window events this dispatcher group handles.
pub open spec fn wevent_in_d(w: WindowEvents) -> bool {
    w matches WindowEvents::Maximize { .. } || w matches WindowEvents::Minimize { .. }
}

/// One group of the window-event dispatch, keyed by the operation tag.
#[verifier::rlimit(100)]
#[verifier::spinoff_prover]
fn decode_wevent_a(input: &Vec<char>, pos: usize, p2: usize, tagname: &String) -> (r: Option<(WindowEvents, usize)>)
    requires
        pos + 2 <= p2 <= input@.len(),
        input@.subrange(pos as int, p2 as int) == (seq!['{'] + quoted(tagname@)) + seq![':'],
        forall|w: WindowEvents| lit_at(input@, pos as int, #[trigger] wevent_text(w))
            ==> wevent_tag(w) == tagname@ && lit_at(input@, p2 as int, wevent_payload(w))
            && lit_at(input@, p2 + wevent_payload(w).len(), "}"@) && p2 == pos + 2 + quoted(
            wevent_tag(w),
        ).len(),
    ensures
        r matches Some(t) ==> pos <= t.1 <= input@.len() && input@.subrange(
            pos as int,
            t.1 as int,
        ) == wevent_text(t.0) && wevent_in_a(t.0) && wevent_tag(t.0) == tagname@,
        forall|w: WindowEvents| wevent_in_a(w) && lit_at(input@, pos as int, #[trigger] wevent_text(w))
            ==> (r matches Some(t) && wevent_equiv(t.0, w) && t.1 == pos + wevent_text(w).len()),
{
    proof {
        lemma_event_tag_facts();
    }
    if str_eq(tagname.as_str(), "addWindow") {
        match parse_add_payload(input, p2) {
            Some((identifier, window_title, content, pp)) => {
                let p3 = match tag(input, pp, "}") {
                    Some(p) => p,
                    None => {
                        proof {
                            assert forall|w: WindowEvents| !(wevent_in_a(w) && lit_at(input@, pos as int, #[trigger] wevent_text(w))) by {
                                if wevent_in_a(w) && lit_at(input@, pos as int, wevent_text(w)) {
                                    match w {
                    WindowEvents::AddWindow { window_title, content, identifier } => {
                        assert(lit_at(input@, p2 as int, add_payload(identifier@, window_title@, content@)));
                    },
                    WindowEvents::CloseWindow(id) => {
                        assert(qstr_at(input@, p2 as int, id@));
                    },
                        _ => {},
                    }
                                }
                            }
                        }
                        return None;
                    },
                };
                let res = WindowEvents::AddWindow { window_title, content, identifier };
                proof {
                    assert(lit_at(input@, p2 as int, add_payload(identifier@, window_title@, content@)));
                    assert(lit_at(input@, pp as int, seq!['}'])) by {
                        assert(input@.subrange(pp as int, p3 as int) =~= seq!['}']);
                    }
                    lemma_lit_split(input@, pos as int, (seq!['{'] + quoted(tagname@)) + seq![':'], add_payload(identifier@, window_title@, content@));
                    lemma_lit_split(input@, pos as int, ((seq!['{'] + quoted(tagname@)) + seq![':']) + add_payload(identifier@, window_title@, content@), seq!['}']);
                    assert((((seq!['{'] + quoted(tagname@)) + seq![':']) + add_payload(identifier@, window_title@, content@)) + seq!['}'] =~= wevent_text(res));
                    assert(input@.subrange(pos as int, p3 as int) == wevent_text(res));
                    assert forall|w: WindowEvents| wevent_in_a(w) && lit_at(input@, pos as int, #[trigger] wevent_text(w)) implies (wevent_equiv(res, w) && pos + wevent_text(w).len() == p3) by {
                        match w {
                    WindowEvents::AddWindow { window_title, content, identifier } => {
                        assert(lit_at(input@, p2 as int, add_payload(identifier@, window_title@, content@)));
                    },
                    WindowEvents::CloseWindow(id) => {
                        assert(qstr_at(input@, p2 as int, id@));
                    },
                        _ => {},
                    }
                    }
                }
                Some((res, p3))
            },
            None => {
                proof {
                    assert forall|w: WindowEvents| !(wevent_in_a(w) && lit_at(input@, pos as int, #[trigger] wevent_text(w))) by {
                        if wevent_in_a(w) && lit_at(input@, pos as int, wevent_text(w)) {
                            match w {
                    WindowEvents::AddWindow { window_title, content, identifier } => {
                        assert(lit_at(input@, p2 as int, add_payload(identifier@, window_title@, content@)));
                    },
                    WindowEvents::CloseWindow(id) => {
                        assert(qstr_at(input@, p2 as int, id@));
                    },
                        _ => {},
                    }
                        }
                    }
                }
                None
            },
        }
    } else if str_eq(tagname.as_str(), "closeWindow") {
        match parse_qstr(input, p2) {
            Some((identifier, pp)) => {
                let p3 = match tag(input, pp, "}") {
                    Some(p) => p,
                    None => {
                        proof {
                            assert forall|w: WindowEvents| !(wevent_in_a(w) && lit_at(input@, pos as int, #[trigger] wevent_text(w))) by {
                                if wevent_in_a(w) && lit_at(input@, pos as int, wevent_text(w)) {
                                    match w {
                    WindowEvents::AddWindow { window_title, content, identifier } => {
                        assert(lit_at(input@, p2 as int, add_payload(identifier@, window_title@, content@)));
                    },
                    WindowEvents::CloseWindow(id) => {
                        assert(qstr_at(input@, p2 as int, id@));
                    },
                        _ => {},
                    }
                                }
                            }
                        }
                        return None;
                    },
                };
                let res = WindowEvents::CloseWindow(identifier);
                proof {
                    assert(lit_at(input@, p2 as int, quoted(identifier@)));
                    assert(lit_at(input@, pp as int, seq!['}'])) by {
                        assert(input@.subrange(pp as int, p3 as int) =~= seq!['}']);
                    }
                    lemma_lit_split(input@, pos as int, (seq!['{'] + quoted(tagname@)) + seq![':'], quoted(identifier@));
                    lemma_lit_split(input@, pos as int, ((seq!['{'] + quoted(tagname@)) + seq![':']) + quoted(identifier@), seq!['}']);
                    assert((((seq!['{'] + quoted(tagname@)) + seq![':']) + quoted(identifier@)) + seq!['}'] =~= wevent_text(res));
                    assert(input@.subrange(pos as int, p3 as int) == wevent_text(res));
                    assert forall|w: WindowEvents| wevent_in_a(w) && lit_at(input@, pos as int, #[trigger] wevent_text(w)) implies (wevent_equiv(res, w) && pos + wevent_text(w).len() == p3) by {
                        match w {
                    WindowEvents::AddWindow { window_title, content, identifier } => {
                        assert(lit_at(input@, p2 as int, add_payload(identifier@, window_title@, content@)));
                    },
                    WindowEvents::CloseWindow(id) => {
                        assert(qstr_at(input@, p2 as int, id@));
                    },
                        _ => {},
                    }
                    }
                }
                Some((res, p3))
            },
            None => {
                proof {
                    assert forall|w: WindowEvents| !(wevent_in_a(w) && lit_at(input@, pos as int, #[trigger] wevent_text(w))) by {
                        if wevent_in_a(w) && lit_at(input@, pos as int, wevent_text(w)) {
                            match w {
                    WindowEvents::AddWindow { window_title, content, identifier } => {
                        assert(lit_at(input@, p2 as int, add_payload(identifier@, window_title@, content@)));
                    },
                    WindowEvents::CloseWindow(id) => {
                        assert(qstr_at(input@, p2 as int, id@));
                    },
                        _ => {},
                    }
                        }
                    }
                }
                None
            },
        }
    } else {
        proof {
            assert forall|w: WindowEvents| !(wevent_in_a(w) && lit_at(input@, pos as int, #[trigger] wevent_text(w))) by {
                if wevent_in_a(w) && lit_at(input@, pos as int, wevent_text(w)) {
                }
            }
        }
        None
    }
}

/// One group of the window-event dispatch, keyed by the operation tag.
#[verifier::rlimit(100)]
#[verifier::spinoff_prover]
fn decode_wevent_b(input: &Vec<char>, pos: usize, p2: usize, tagname: &String) -> (r: Option<(WindowEvents, usize)>)
    requires
        pos + 2 <= p2 <= input@.len(),
        input@.subrange(pos as int, p2 as int) == (seq!['{'] + quoted(tagname@)) + seq![':'],
        forall|w: WindowEvents| lit_at(input@, pos as int, #[trigger] wevent_text(w))
            ==> wevent_tag(w) == tagname@ && lit_at(input@, p2 as int, wevent_payload(w))
            && lit_at(input@, p2 + wevent_payload(w).len(), "}"@) && p2 == pos + 2 + quoted(
            wevent_tag(w),
        ).len(),
    ensures
        r matches Some(t) ==> pos <= t.1 <= input@.len() && input@.subrange(
            pos as int,
            t.1 as int,
        ) == wevent_text(t.0) && wevent_in_b(t.0) && wevent_tag(t.0) == tagname@,
        forall|w: WindowEvents| wevent_in_b(w) && lit_at(input@, pos as int, #[trigger] wevent_text(w))
            ==> (r matches Some(t) && wevent_equiv(t.0, w) && t.1 == pos + wevent_text(w).len()),
{
    proof {
        lemma_event_tag_facts();
    }
    if str_eq(tagname.as_str(), "showWindow") {
        match parse_qstr(input, p2) {
            Some((identifier, pp)) => {
                let p3 = match tag(input, pp, "}") {
                    Some(p) => p,
                    None => {
                        proof {
                            assert forall|w: WindowEvents| !(wevent_in_b(w) && lit_at(input@, pos as int, #[trigger] wevent_text(w))) by {
                                if wevent_in_b(w) && lit_at(input@, pos as int, wevent_text(w)) {
                                    match w {
                    WindowEvents::ShowWindow(id) => {
                        assert(qstr_at(input@, p2 as int, id@));
                    },
                    WindowEvents::HideWindow(id) => {
                        assert(qstr_at(input@, p2 as int, id@));
                    },
                        _ => {},
                    }
                                }
                            }
                        }
                        return None;
                    },
                };
                let res = WindowEvents::ShowWindow(identifier);
                proof {
                    assert(lit_at(input@, p2 as int, quoted(identifier@)));
                    assert(lit_at(input@, pp as int, seq!['}'])) by {
                        assert(input@.subrange(pp as int, p3 as int) =~= seq!['}']);
                    }
                    lemma_lit_split(input@, pos as int, (seq!['{'] + quoted(tagname@)) + seq![':'], quoted(identifier@));
                    lemma_lit_split(input@, pos as int, ((seq!['{'] + quoted(tagname@)) + seq![':']) + quoted(identifier@), seq!['}']);
                    assert((((seq!['{'] + quoted(tagname@)) + seq![':']) + quoted(identifier@)) + seq!['}'] =~= wevent_text(res));
                    assert(input@.subrange(pos as int, p3 as int) == wevent_text(res));
                    assert forall|w: WindowEvents| wevent_in_b(w) && lit_at(input@, pos as int, #[trigger] wevent_text(w)) implies (wevent_equiv(res, w) && pos + wevent_text(w).len() == p3) by {
                        match w {
                    WindowEvents::ShowWindow(id) => {
                        assert(qstr_at(input@, p2 as int, id@));
                    },
                    WindowEvents::HideWindow(id) => {
                        assert(qstr_at(input@, p2 as int, id@));
                    },
                        _ => {},
                    }
                    }
                }
                Some((res, p3))
            },
            None => {
                proof {
                    assert forall|w: WindowEvents| !(wevent_in_b(w) && lit_at(input@, pos as int, #[trigger] wevent_text(w))) by {
                        if wevent_in_b(w) && lit_at(input@, pos as int, wevent_text(w)) {
                            match w {
                    WindowEvents::ShowWindow(id) => {
                        assert(qstr_at(input@, p2 as int, id@));
                    },
                    WindowEvents::HideWindow(id) => {
                        assert(qstr_at(input@, p2 as int, id@));
                    },
                        _ => {},
                    }
                        }
                    }
                }
                None
            },
        }
    } else if str_eq(tagname.as_str(), "hideWindow") {
        match parse_qstr(input, p2) {
            Some((identifier, pp)) => {
                let p3 = match tag(input, pp, "}") {
                    Some(p) => p,
                    None => {
                        proof {
                            assert forall|w: WindowEvents| !(wevent_in_b(w) && lit_at(input@, pos as int, #[trigger] wevent_text(w))) by {
                                if wevent_in_b(w) && lit_at(input@, pos as int, wevent_text(w)) {
                                    match w {
                    WindowEvents::ShowWindow(id) => {
                        assert(qstr_at(input@, p2 as int, id@));
                    },
                    WindowEvents::HideWindow(id) => {
                        assert(qstr_at(input@, p2 as int, id@));
                    },
                        _ => {},
                    }
                                }
                            }
                        }
                        return None;
                    },
                };
                let res = WindowEvents::HideWindow(identifier);
                proof {
                    assert(lit_at(input@, p2 as int, quoted(identifier@)));
                    assert(lit_at(input@, pp as int, seq!['}'])) by {
                        assert(input@.subrange(pp as int, p3 as int) =~= seq!['}']);
                    }
                    lemma_lit_split(input@, pos as int, (seq!['{'] + quoted(tagname@)) + seq![':'], quoted(identifier@));
                    lemma_lit_split(input@, pos as int, ((seq!['{'] + quoted(tagname@)) + seq![':']) + quoted(identifier@), seq!['}']);
                    assert((((seq!['{'] + quoted(tagname@)) + seq![':']) + quoted(identifier@)) + seq!['}'] =~= wevent_text(res));
                    assert(input@.subrange(pos as int, p3 as int) == wevent_text(res));
                    assert forall|w: WindowEvents| wevent_in_b(w) && lit_at(input@, pos as int, #[trigger] wevent_text(w)) implies (wevent_equiv(res, w) && pos + wevent_text(w).len() == p3) by {
                        match w {
                    WindowEvents::ShowWindow(id) => {
                        assert(qstr_at(input@, p2 as int, id@));
                    },
                    WindowEvents::HideWindow(id) => {
                        assert(qstr_at(input@, p2 as int, id@));
                    },
                        _ => {},
                    }
                    }
                }
                Some((res, p3))
            },
            None => {
                proof {
                    assert forall|w: WindowEvents| !(wevent_in_b(w) && lit_at(input@, pos as int, #[trigger] wevent_text(w))) by {
                        if wevent_in_b(w) && lit_at(input@, pos as int, wevent_text(w)) {
                            match w {
                    WindowEvents::ShowWindow(id) => {
                        assert(qstr_at(input@, p2 as int, id@));
                    },
                    WindowEvents::HideWindow(id) => {
                        assert(qstr_at(input@, p2 as int, id@));
                    },
                        _ => {},
                    }
                        }
                    }
                }
                None
            },
        }
    } else {
        proof {
            assert forall|w: WindowEvents| !(wevent_in_b(w) && lit_at(input@, pos as int, #[trigger] wevent_text(w))) by {
                if wevent_in_b(w) && lit_at(input@, pos as int, wevent_text(w)) {
                }
            }
        }
        None
    }
}

/// One group of the window-event dispatch, keyed by the operation tag.
#[verifier::rlimit(100)]
#[verifier::spinoff_prover]
fn decode_wevent_c(input: &Vec<char>, pos: usize, p2: usize, tagname: &String) -> (r: Option<(WindowEvents, usize)>)
    requires
        pos + 2 <= p2 <= input@.len(),
        input@.subrange(pos as int, p2 as int) == (seq!['{'] + quoted(tagname@)) + seq![':'],
        forall|w: WindowEvents| lit_at(input@, pos as int, #[trigger] wevent_text(w))
            ==> wevent_tag(w) == tagname@ && lit_at(input@, p2 as int, wevent_payload(w))
            && lit_at(input@, p2 + wevent_payload(w).len(), "}"@) && p2 == pos + 2 + quoted(
            wevent_tag(w),
        ).len(),
    ensures
        r matches Some(t) ==> pos <= t.1 <= input@.len() && input@.subrange(
            pos as int,
            t.1 as int,
        ) == wevent_text(t.0) && wevent_in_c(t.0) && wevent_tag(t.0) == tagname@,
        forall|w: WindowEvents| wevent_in_c(w) && lit_at(input@, pos as int, #[trigger] wevent_text(w))
            ==> (r matches Some(t) && wevent_equiv(t.0, w) && t.1 == pos + wevent_text(w).len()),
{
    proof {
        lemma_event_tag_facts();
    }
    if str_eq(tagname.as_str(), "setTitle") {
        match parse_settitle_payload(input, p2) {
            Some((title, identifier, pp)) => {
                let p3 = match tag(input, pp, "}") {
                    Some(p) => p,
                    None => {
                        proof {
                            assert forall|w: WindowEvents| !(wevent_in_c(w) && lit_at(input@, pos as int, #[trigger] wevent_text(w))) by {
                                if wevent_in_c(w) && lit_at(input@, pos as int, wevent_text(w)) {
                                    match w {
                    WindowEvents::SetTitle { title, identifier } => {
                        assert(lit_at(input@, p2 as int, settitle_payload(title@, identifier@)));
                    },
                    WindowEvents::SetFullscreen { identifier } => {
                        assert(lit_at(input@, p2 as int, setfs_payload(identifier@)));
                    },
                        _ => {},
                    }
                                }
                            }
                        }
                        return None;
                    },
                };
                let res = WindowEvents::SetTitle { title, identifier };
                proof {
                    assert(lit_at(input@, p2 as int, settitle_payload(title@, identifier@)));
                    assert(lit_at(input@, pp as int, seq!['}'])) by {
                        assert(input@.subrange(pp as int, p3 as int) =~= seq!['}']);
                    }
                    lemma_lit_split(input@, pos as int, (seq!['{'] + quoted(tagname@)) + seq![':'], settitle_payload(title@, identifier@));
                    lemma_lit_split(input@, pos as int, ((seq!['{'] + quoted(tagname@)) + seq![':']) + settitle_payload(title@, identifier@), seq!['}']);
                    assert((((seq!['{'] + quoted(tagname@)) + seq![':']) + settitle_payload(title@, identifier@)) + seq!['}'] =~= wevent_text(res));
                    assert(input@.subrange(pos as int, p3 as int) == wevent_text(res));
                    assert forall|w: WindowEvents| wevent_in_c(w) && lit_at(input@, pos as int, #[trigger] wevent_text(w)) implies (wevent_equiv(res, w) && pos + wevent_text(w).len() == p3) by {
                        match w {
                    WindowEvents::SetTitle { title, identifier } => {
                        assert(lit_at(input@, p2 as int, settitle_payload(title@, identifier@)));
                    },
                    WindowEvents::SetFullscreen { identifier } => {
                        assert(lit_at(input@, p2 as int, setfs_payload(identifier@)));
                    },
                        _ => {},
                    }
                    }
                }
                Some((res, p3))
            },
            None => {
                proof {
                    assert forall|w: WindowEvents| !(wevent_in_c(w) && lit_at(input@, pos as int, #[trigger] wevent_text(w))) by {
                        if wevent_in_c(w) && lit_at(input@, pos as int, wevent_text(w)) {
                            match w {
                    WindowEvents::SetTitle { title, identifier } => {
                        assert(lit_at(input@, p2 as int, settitle_payload(title@, identifier@)));
                    },
                    WindowEvents::SetFullscreen { identifier } => {
                        assert(lit_at(input@, p2 as int, setfs_payload(identifier@)));
                    },
                        _ => {},
                    }
                        }
                    }
                }
                None
            },
        }
    } else if str_eq(tagname.as_str(), "setFullscreen") {
        match parse_setfs_payload(input, p2) {
            Some((identifier, pp)) => {
                let p3 = match tag(input, pp, "}") {
                    Some(p) => p,
                    None => {
                        proof {
                            assert forall|w: WindowEvents| !(wevent_in_c(w) && lit_at(input@, pos as int, #[trigger] wevent_text(w))) by {
                                if wevent_in_c(w) && lit_at(input@, pos as int, wevent_text(w)) {
                                    match w {
                    WindowEvents::SetTitle { title, identifier } => {
                        assert(lit_at(input@, p2 as int, settitle_payload(title@, identifier@)));
                    },
                    WindowEvents::SetFullscreen { identifier } => {
                        assert(lit_at(input@, p2 as int, setfs_payload(identifier@)));
                    },
                        _ => {},
                    }
                                }
                            }
                        }
                        return None;
                    },
                };
                let res = WindowEvents::SetFullscreen { identifier };
                proof {
                    assert(lit_at(input@, p2 as int, setfs_payload(identifier@)));
                    assert(lit_at(input@, pp as int, seq!['}'])) by {
                        assert(input@.subrange(pp as int, p3 as int) =~= seq!['}']);
                    }
                    lemma_lit_split(input@, pos as int, (seq!['{'] + quoted(tagname@)) + seq![':'], setfs_payload(identifier@));
                    lemma_lit_split(input@, pos as int, ((seq!['{'] + quoted(tagname@)) + seq![':']) + setfs_payload(identifier@), seq!['}']);
                    assert((((seq!['{'] + quoted(tagname@)) + seq![':']) + setfs_payload(identifier@)) + seq!['}'] =~= wevent_text(res));
                    assert(input@.subrange(pos as int, p3 as int) == wevent_text(res));
                    assert forall|w: WindowEvents| wevent_in_c(w) && lit_at(input@, pos as int, #[trigger] wevent_text(w)) implies (wevent_equiv(res, w) && pos + wevent_text(w).len() == p3) by {
                        match w {
                    WindowEvents::SetTitle { title, identifier } => {
                        assert(lit_at(input@, p2 as int, settitle_payload(title@, identifier@)));
                    },
                    WindowEvents::SetFullscreen { identifier } => {
                        assert(lit_at(input@, p2 as int, setfs_payload(identifier@)));
                    },
                        _ => {},
                    }
                    }
                }
                Some((res, p3))
            },
            None => {
                proof {
                    assert forall|w: WindowEvents| !(wevent_in_c(w) && lit_at(input@, pos as int, #[trigger] wevent_text(w))) by {
                        if wevent_in_c(w) && lit_at(input@, pos as int, wevent_text(w)) {
                            match w {
                    WindowEvents::SetTitle { title, identifier } => {
                        assert(lit_at(input@, p2 as int, settitle_payload(title@, identifier@)));
                    },
                    WindowEvents::SetFullscreen { identifier } => {
                        assert(lit_at(input@, p2 as int, setfs_payload(identifier@)));
                    },
                        _ => {},
                    }
                        }
                    }
                }
                None
            },
        }
    } else {
        proof {
            assert forall|w: WindowEvents| !(wevent_in_c(w) && lit_at(input@, pos as int, #[trigger] wevent_text(w))) by {
                if wevent_in_c(w) && lit_at(input@, pos as int, wevent_text(w)) {
                }
            }
        }
        None
    }
}

/// One group of the window-event dispatch, keyed by the operation tag.
#[verifier::rlimit(100)]
#[verifier::spinoff_prover]
fn decode_wevent_d(input: &Vec<char>, pos: usize, p2: usize, tagname: &String) -> (r: Option<(WindowEvents, usize)>)
    requires
        pos + 2 <= p2 <= input@.len(),
        input@.subrange(pos as int, p2 as int) == (seq!['{'] + quoted(tagname@)) + seq![':'],
        forall|w: WindowEvents| lit_at(input@, pos as int, #[trigger] wevent_text(w))
            ==> wevent_tag(w) == tagname@ && lit_at(input@, p2 as int, wevent_payload(w))
            && lit_at(input@, p2 + wevent_payload(w).len(), "}"@) && p2 == pos + 2 + quoted(
            wevent_tag(w),
        ).len(),
    ensures
        r matches Some(t) ==> pos <= t.1 <= input@.len() && input@.subrange(
            pos as int,
            t.1 as int,
        ) == wevent_text(t.0) && wevent_in_d(t.0) && wevent_tag(t.0) == tagname@,
        forall|w: WindowEvents| wevent_in_d(w) && lit_at(input@, pos as int, #[trigger] wevent_text(w))
            ==> (r matches Some(t) && wevent_equiv(t.0, w) && t.1 == pos + wevent_text(w).len()),
{
    proof {
        lemma_event_tag_facts();
    }
    if str_eq(tagname.as_str(), "maximize") {
        match parse_flag_payload(input, p2) {
            Some((flag, identifier, pp)) => {
                let p3 = match tag(input, pp, "}") {
                    Some(p) => p,
                    None => {
                        proof {
                            assert forall|w: WindowEvents| !(wevent_in_d(w) && lit_at(input@, pos as int, #[trigger] wevent_text(w))) by {
                                if wevent_in_d(w) && lit_at(input@, pos as int, wevent_text(w)) {
                                    match w {
                    WindowEvents::Maximize { flag, identifier } => {
                        assert(lit_at(input@, p2 as int, flag_payload(flag, identifier@)));
                    },
                    WindowEvents::Minimize { flag, identifier } => {
                        assert(lit_at(input@, p2 as int, flag_payload(flag, identifier@)));
                    },
                        _ => {},
                    }
                                }
                            }
                        }
                        return None;
                    },
                };
                let res = WindowEvents::Maximize { flag, identifier };
                proof {
                    assert(lit_at(input@, p2 as int, flag_payload(flag, identifier@)));
                    assert(lit_at(input@, pp as int, seq!['}'])) by {
                        assert(input@.subrange(pp as int, p3 as int) =~= seq!['}']);
                    }
                    lemma_lit_split(input@, pos as int, (seq!['{'] + quoted(tagname@)) + seq![':'], flag_payload(flag, identifier@));
                    lemma_lit_split(input@, pos as int, ((seq!['{'] + quoted(tagname@)) + seq![':']) + flag_payload(flag, identifier@), seq!['}']);
                    assert((((seq!['{'] + quoted(tagname@)) + seq![':']) + flag_payload(flag, identifier@)) + seq!['}'] =~= wevent_text(res));
                    assert(input@.subrange(pos as int, p3 as int) == wevent_text(res));
                    assert forall|w: WindowEvents| wevent_in_d(w) && lit_at(input@, pos as int, #[trigger] wevent_text(w)) implies (wevent_equiv(res, w) && pos + wevent_text(w).len() == p3) by {
                        match w {
                    WindowEvents::Maximize { flag, identifier } => {
                        assert(lit_at(input@, p2 as int, flag_payload(flag, identifier@)));
                    },
                    WindowEvents::Minimize { flag, identifier } => {
                        assert(lit_at(input@, p2 as int, flag_payload(flag, identifier@)));
                    },
                        _ => {},
                    }
                    }
                }
                Some((res, p3))
            },
            None => {
                proof {
                    assert forall|w: WindowEvents| !(wevent_in_d(w) && lit_at(input@, pos as int, #[trigger] wevent_text(w))) by {
                        if wevent_in_d(w) && lit_at(input@, pos as int, wevent_text(w)) {
                            match w {
                    WindowEvents::Maximize { flag, identifier } => {
                        assert(lit_at(input@, p2 as int, flag_payload(flag, identifier@)));
                    },
                    WindowEvents::Minimize { flag, identifier } => {
                        assert(lit_at(input@, p2 as int, flag_payload(flag, identifier@)));
                    },
                        _ => {},
                    }
                        }
                    }
                }
                None
            },
        }
    } else if str_eq(tagname.as_str(), "minimize") {
        match parse_flag_payload(input, p2) {
            Some((flag, identifier, pp)) => {
                let p3 = match tag(input, pp, "}") {
                    Some(p) => p,
                    None => {
                        proof {
                            assert forall|w: WindowEvents| !(wevent_in_d(w) && lit_at(input@, pos as int, #[trigger] wevent_text(w))) by {
                                if wevent_in_d(w) && lit_at(input@, pos as int, wevent_text(w)) {
                                    match w {
                    WindowEvents::Maximize { flag, identifier } => {
                        assert(lit_at(input@, p2 as int, flag_payload(flag, identifier@)));
                    },
                    WindowEvents::Minimize { flag, identifier } => {
                        assert(lit_at(input@, p2 as int, flag_payload(flag, identifier@)));
                    },
                        _ => {},
                    }
                                }
                            }
                        }
                        return None;
                    },
                };
                let res = WindowEvents::Minimize { flag, identifier };
                proof {
                    assert(lit_at(input@, p2 as int, flag_payload(flag, identifier@)));
                    assert(lit_at(input@, pp as int, seq!['}'])) by {
                        assert(input@.subrange(pp as int, p3 as int) =~= seq!['}']);
                    }
                    lemma_lit_split(input@, pos as int, (seq!['{'] + quoted(tagname@)) + seq![':'], flag_payload(flag, identifier@));
                    lemma_lit_split(input@, pos as int, ((seq!['{'] + quoted(tagname@)) + seq![':']) + flag_payload(flag, identifier@), seq!['}']);
                    assert((((seq!['{'] + quoted(tagname@)) + seq![':']) + flag_payload(flag, identifier@)) + seq!['}'] =~= wevent_text(res));
                    assert(input@.subrange(pos as int, p3 as int) == wevent_text(res));
                    assert forall|w: WindowEvents| wevent_in_d(w) && lit_at(input@, pos as int, #[trigger] wevent_text(w)) implies (wevent_equiv(res, w) && pos + wevent_text(w).len() == p3) by {
                        match w {
                    WindowEvents::Maximize { flag, identifier } => {
                        assert(lit_at(input@, p2 as int, flag_payload(flag, identifier@)));
                    },
                    WindowEvents::Minimize { flag, identifier } => {
                        assert(lit_at(input@, p2 as int, flag_payload(flag, identifier@)));
                    },
                        _ => {},
                    }
                    }
                }
                Some((res, p3))
            },
            None => {
                proof {
                    assert forall|w: WindowEvents| !(wevent_in_d(w) && lit_at(input@, pos as int, #[trigger] wevent_text(w))) by {
                        if wevent_in_d(w) && lit_at(input@, pos as int, wevent_text(w)) {
                            match w {
                    WindowEvents::Maximize { flag, identifier } => {
                        assert(lit_at(input@, p2 as int, flag_payload(flag, identifier@)));
                    },
                    WindowEvents::Minimize { flag, identifier } => {
                        assert(lit_at(input@, p2 as int, flag_payload(flag, identifier@)));
                    },
                        _ => {},
                    }
                        }
                    }
                }
                None
            },
        }
    } else {
        proof {
            assert forall|w: WindowEvents| !(wevent_in_d(w) && lit_at(input@, pos as int, #[trigger] wevent_text(w))) by {
                if wevent_in_d(w) && lit_at(input@, pos as int, wevent_text(w)) {
                }
            }
        }
        None
    }
}

/// Decodes a window event at `pos`.
#[verifier::rlimit(100)]
#[verifier::spinoff_prover]
fn decode_wevent(input: &Vec<char>, pos: usize) -> (r: Option<(WindowEvents, usize)>)
    requires
        pos <= input@.len(),
    ensures
        r matches Some(t) ==> pos <= t.1 <= input@.len() && input@.subrange(
            pos as int,
            t.1 as int,
        ) == wevent_text(t.0),
        forall|w: WindowEvents| lit_at(input@, pos as int, #[trigger] wevent_text(w)) ==> (
        r matches Some(t) && wevent_equiv(t.0, w) && t.1 == pos + wevent_text(w).len()),
{
    proof {
        lemma_event_tag_facts();
        assert forall|w: WindowEvents| lit_at(
            input@,
            pos as int,
            #[trigger] wevent_text(w),
        ) implies lit_at(input@, pos as int, "{"@) && qstr_at(input@, pos + 1, wevent_tag(w))
            && lit_at(input@, pos + 1 + quoted(wevent_tag(w)).len() as int, ":"@) && lit_at(
            input@,
            pos + 2 + quoted(wevent_tag(w)).len() as int,
            wevent_payload(w),
        ) && lit_at(
            input@,
            pos + 2 + quoted(wevent_tag(w)).len() as int + wevent_payload(w).len() as int,
            "}"@,
        ) by {
            assert(wevent_text(w) =~= seq!['{'] + (quoted(wevent_tag(w)) + (seq![':'] + (
            wevent_payload(w) + seq!['}']))));
            lemma_lit_split(
                input@,
                pos as int,
                seq!['{'],
                quoted(wevent_tag(w)) + (seq![':'] + (wevent_payload(w) + seq!['}'])),
            );
            lemma_lit_split(
                input@,
                pos + 1,
                quoted(wevent_tag(w)),
                seq![':'] + (wevent_payload(w) + seq!['}']),
            );
            lemma_lit_split(
                input@,
                pos + 1 + quoted(wevent_tag(w)).len() as int,
                seq![':'],
                wevent_payload(w) + seq!['}'],
            );
            lemma_lit_split(
                input@,
                pos + 2 + quoted(wevent_tag(w)).len() as int,
                wevent_payload(w),
                seq!['}'],
            );
        }
    }
    let p0 = match tag(input, pos, "{") {
        Some(p) => p,
        None => { return None; },
    };
    let (tagname, p1) = match parse_qstr(input, p0) {
        Some(t) => t,
        None => { return None; },
    };
    let p2 = match tag(input, p1, ":") {
        Some(p) => p,
        None => { return None; },
    };
    proof {
        assert(lit_at(input@, pos as int, seq!['{'])) by {
            assert(input@.subrange(pos as int, p0 as int) =~= seq!['{']);
        }
        assert(lit_at(input@, p0 as int, quoted(tagname@)));
        assert(lit_at(input@, p1 as int, seq![':'])) by {
            assert(input@.subrange(p1 as int, p2 as int) =~= seq![':']);
        }
        lemma_lit_split(input@, pos as int, seq!['{'], quoted(tagname@));
        lemma_lit_split(input@, pos as int, seq!['{'] + quoted(tagname@), seq![':']);
        assert(input@.subrange(pos as int, p2 as int) == (seq!['{'] + quoted(tagname@))
            + seq![':']);
    }
    if let Some(t) = decode_wevent_a(input, pos, p2, &tagname) {
        return Some(t);
    }
    if let Some(t) = decode_wevent_b(input, pos, p2, &tagname) {
        return Some(t);
    }
    if let Some(t) = decode_wevent_c(input, pos, p2, &tagname) {
        return Some(t);
    }
    if let Some(t) = decode_wevent_d(input, pos, p2, &tagname) {
        return Some(t);
    }
    None
}

/// Finishes decoding once the family tag reads `veloxEvent`.
#[verifier::rlimit(100)]
#[verifier::spinoff_prover]
fn family_velox(input: &Vec<char>, n: usize, p2: usize, tagname: &String) -> (r: Result<Event, VeloxError>)
    requires
        n == input@.len(),
        p2 <= n,
        tagname@ == "veloxEvent"@,
        input@.subrange(0, p2 as int) == (seq!['{'] + quoted(tagname@)) + seq![':'],
        forall|e: Event| input@ == #[trigger] event_text(e) ==> event_tag(e) == tagname@
            && lit_at(input@, p2 as int, event_body(e)) && lit_at(
            input@,
            p2 + event_body(e).len(),
            "}"@,
        ) && n == event_text(e).len(),
    ensures
        r matches Ok(e) ==> input@ == event_text(e),
        forall|e: Event| input@ == #[trigger] event_text(e) ==> (r matches Ok(e2) && event_equiv(
            e2,
            e,
        )),
        r matches Err(er) ==> er is DecodeError,
{
    proof {
        lemma_event_tag_facts();
        assert forall|e: Event| input@ == #[trigger] event_text(e) implies (e matches Event::VeloxEvent(v2) && qstr_at(input@, p2 as int, velox_name(v2))) by {
            match e {
                Event::VeloxEvent(v) => {
                    assert(qstr_at(input@, p2 as int, velox_name(v)));
                },
                _ => {},
            }
        }
    }
    let (name, p3) = match parse_qstr(input, p2) {
        Some(t) => t,
        None => { return Err(event_err()); },
    };
    let p4 = match tag(input, p3, "}") {
        Some(p) => p,
        None => { return Err(event_err()); },
    };
    if p4 != n {
        return Err(event_err());
    }
    if str_eq(name.as_str(), "initialised") {
        let res = Event::VeloxEvent(VeloxEvents::Initialised);
        proof {
            assert(lit_at(input@, p2 as int, quoted(name@)));
            assert(lit_at(input@, p3 as int, seq!['}'])) by {
                assert(input@.subrange(p3 as int, p4 as int) =~= seq!['}']);
            }
            lemma_lit_split(input@, 0, (seq!['{'] + quoted(tagname@)) + seq![':'], quoted(name@));
            lemma_lit_split(input@, 0, ((seq!['{'] + quoted(tagname@)) + seq![':']) + quoted(name@), seq!['}']);
            assert((((seq!['{'] + quoted(tagname@)) + seq![':']) + quoted(name@)) + seq!['}'] =~= event_text(res));
            assert(input@.subrange(0, p4 as int) == event_text(res));
            assert(input@ =~= input@.subrange(0, n as int));
        }
        Ok(res)
    } else if str_eq(name.as_str(), "loaded") {
        let res = Event::VeloxEvent(VeloxEvents::Loaded);
        proof {
            assert(lit_at(input@, p2 as int, quoted(name@)));
            assert(lit_at(input@, p3 as int, seq!['}'])) by {
                assert(input@.subrange(p3 as int, p4 as int) =~= seq!['}']);
            }
            lemma_lit_split(input@, 0, (seq!['{'] + quoted(tagname@)) + seq![':'], quoted(name@));
            lemma_lit_split(input@, 0, ((seq!['{'] + quoted(tagname@)) + seq![':']) + quoted(name@), seq!['}']);
            assert((((seq!['{'] + quoted(tagname@)) + seq![':']) + quoted(name@)) + seq!['}'] =~= event_text(res));
            assert(input@.subrange(0, p4 as int) == event_text(res));
            assert(input@ =~= input@.subrange(0, n as int));
        }
        Ok(res)
    } else {
        proof {
            assert forall|e: Event| input@ != #[trigger] event_text(e) by {
                if input@ == event_text(e) {
                }
            }
        }
        Err(event_err())
    }
}

/// Finishes decoding once the family tag reads `resourceEvent`.
#[verifier::rlimit(100)]
#[verifier::spinoff_prover]
fn family_resource(input: &Vec<char>, n: usize, p2: usize, tagname: &String) -> (r: Result<Event, VeloxError>)
    requires
        n == input@.len(),
        p2 <= n,
        tagname@ == "resourceEvent"@,
        input@.subrange(0, p2 as int) == (seq!['{'] + quoted(tagname@)) + seq![':'],
        forall|e: Event| input@ == #[trigger] event_text(e) ==> event_tag(e) == tagname@
            && lit_at(input@, p2 as int, event_body(e)) && lit_at(
            input@,
            p2 + event_body(e).len(),
            "}"@,
        ) && n == event_text(e).len(),
    ensures
        r matches Ok(e) ==> input@ == event_text(e),
        forall|e: Event| input@ == #[trigger] event_text(e) ==> (r matches Ok(e2) && event_equiv(
            e2,
            e,
        )),
        r matches Err(er) ==> er is DecodeError,
{
    proof {
        lemma_event_tag_facts();
        assert forall|e: Event| input@ == #[trigger] event_text(e) implies (e matches Event::ResourceEvent(v2) && qstr_at(input@, p2 as int, resource_name(v2))) by {
            match e {
                Event::ResourceEvent(v) => {
                    assert(qstr_at(input@, p2 as int, resource_name(v)));
                },
                _ => {},
            }
        }
    }
    let (name, p3) = match parse_qstr(input, p2) {
        Some(t) => t,
        None => { return Err(event_err()); },
    };
    let p4 = match tag(input, p3, "}") {
        Some(p) => p,
        None => { return Err(event_err()); },
    };
    if p4 != n {
        return Err(event_err());
    }
    if str_eq(name.as_str(), "error") {
        let res = Event::ResourceEvent(ResourceEvent::Error);
        proof {
            assert(lit_at(input@, p2 as int, quoted(name@)));
            assert(lit_at(input@, p3 as int, seq!['}'])) by {
                assert(input@.subrange(p3 as int, p4 as int) =~= seq!['}']);
            }
            lemma_lit_split(input@, 0, (seq!['{'] + quoted(tagname@)) + seq![':'], quoted(name@));
            lemma_lit_split(input@, 0, ((seq!['{'] + quoted(tagname@)) + seq![':']) + quoted(name@), seq!['}']);
            assert((((seq!['{'] + quoted(tagname@)) + seq![':']) + quoted(name@)) + seq!['}'] =~= event_text(res));
            assert(input@.subrange(0, p4 as int) == event_text(res));
            assert(input@ =~= input@.subrange(0, n as int));
        }
        Ok(res)
    } else if str_eq(name.as_str(), "abort") {
        let res = Event::ResourceEvent(ResourceEvent::Abort);
        proof {
            assert(lit_at(input@, p2 as int, quoted(name@)));
            assert(lit_at(input@, p3 as int, seq!['}'])) by {
                assert(input@.subrange(p3 as int, p4 as int) =~= seq!['}']);
            }
            lemma_lit_split(input@, 0, (seq!['{'] + quoted(tagname@)) + seq![':'], quoted(name@));
            lemma_lit_split(input@, 0, ((seq!['{'] + quoted(tagname@)) + seq![':']) + quoted(name@), seq!['}']);
            assert((((seq!['{'] + quoted(tagname@)) + seq![':']) + quoted(name@)) + seq!['}'] =~= event_text(res));
            assert(input@.subrange(0, p4 as int) == event_text(res));
            assert(input@ =~= input@.subrange(0, n as int));
        }
        Ok(res)
    } else if str_eq(name.as_str(), "load") {
        let res = Event::ResourceEvent(ResourceEvent::Load);
        proof {
            assert(lit_at(input@, p2 as int, quoted(name@)));
            assert(lit_at(input@, p3 as int, seq!['}'])) by {
                assert(input@.subrange(p3 as int, p4 as int) =~= seq!['}']);
            }
            lemma_lit_split(input@, 0, (seq!['{'] + quoted(tagname@)) + seq![':'], quoted(name@));
            lemma_lit_split(input@, 0, ((seq!['{'] + quoted(tagname@)) + seq![':']) + quoted(name@), seq!['}']);
            assert((((seq!['{'] + quoted(tagname@)) + seq![':']) + quoted(name@)) + seq!['}'] =~= event_text(res));
            assert(input@.subrange(0, p4 as int) == event_text(res));
            assert(input@ =~= input@.subrange(0, n as int));
        }
        Ok(res)
    } else if str_eq(name.as_str(), "beforeunload") {
        let res = Event::ResourceEvent(ResourceEvent::Beforeunload);
        proof {
            assert(lit_at(input@, p2 as int, quoted(name@)));
            assert(lit_at(input@, p3 as int, seq!['}'])) by {
                assert(input@.subrange(p3 as int, p4 as int) =~= seq!['}']);
            }
            lemma_lit_split(input@, 0, (seq!['{'] + quoted(tagname@)) + seq![':'], quoted(name@));
            lemma_lit_split(input@, 0, ((seq!['{'] + quoted(tagname@)) + seq![':']) + quoted(name@), seq!['}']);
            assert((((seq!['{'] + quoted(tagname@)) + seq![':']) + quoted(name@)) + seq!['}'] =~= event_text(res));
            assert(input@.subrange(0, p4 as int) == event_text(res));
            assert(input@ =~= input@.subrange(0, n as int));
        }
        Ok(res)
    } else if str_eq(name.as_str(), "unload") {
        let res = Event::ResourceEvent(ResourceEvent::Unload);
        proof {
            assert(lit_at(input@, p2 as int, quoted(name@)));
            assert(lit_at(input@, p3 as int, seq!['}'])) by {
                assert(input@.subrange(p3 as int, p4 as int) =~= seq!['}']);
            }
            lemma_lit_split(input@, 0, (seq!['{'] + quoted(tagname@)) + seq![':'], quoted(name@));
            lemma_lit_split(input@, 0, ((seq!['{'] + quoted(tagname@)) + seq![':']) + quoted(name@), seq!['}']);
            assert((((seq!['{'] + quoted(tagname@)) + seq![':']) + quoted(name@)) + seq!['}'] =~= event_text(res));
            assert(input@.subrange(0, p4 as int) == event_text(res));
            assert(input@ =~= input@.subrange(0, n as int));
        }
        Ok(res)
    } else {
        proof {
            assert forall|e: Event| input@ != #[trigger] event_text(e) by {
                if input@ == event_text(e) {
                }
            }
        }
        Err(event_err())
    }
}

/// Finishes decoding once the family tag reads `networkEvent`.
#[verifier::rlimit(100)]
#[verifier::spinoff_prover]
fn family_network(input: &Vec<char>, n: usize, p2: usize, tagname: &String) -> (r: Result<Event, VeloxError>)
    requires
        n == input@.len(),
        p2 <= n,
        tagname@ == "networkEvent"@,
        input@.subrange(0, p2 as int) == (seq!['{'] + quoted(tagname@)) + seq![':'],
        forall|e: Event| input@ == #[trigger] event_text(e) ==> event_tag(e) == tagname@
            && lit_at(input@, p2 as int, event_body(e)) && lit_at(
            input@,
            p2 + event_body(e).len(),
            "}"@,
        ) && n == event_text(e).len(),
    ensures
        r matches Ok(e) ==> input@ == event_text(e),
        forall|e: Event| input@ == #[trigger] event_text(e) ==> (r matches Ok(e2) && event_equiv(
            e2,
            e,
        )),
        r matches Err(er) ==> er is DecodeError,
{
    proof {
        lemma_event_tag_facts();
        assert forall|e: Event| input@ == #[trigger] event_text(e) implies (e matches Event::NetworkEvent(v2) && qstr_at(input@, p2 as int, network_name(v2))) by {
            match e {
                Event::NetworkEvent(v) => {
                    assert(qstr_at(input@, p2 as int, network_name(v)));
                },
                _ => {},
            }
        }
    }
    let (name, p3) = match parse_qstr(input, p2) {
        Some(t) => t,
        None => { return Err(event_err()); },
    };
    let p4 = match tag(input, p3, "}") {
        Some(p) => p,
        None => { return Err(event_err()); },
    };
    if p4 != n {
        return Err(event_err());
    }
    if str_eq(name.as_str(), "online") {
        let res = Event::NetworkEvent(NetworkEvent::Online);
        proof {
            assert(lit_at(input@, p2 as int, quoted(name@)));
            assert(lit_at(input@, p3 as int, seq!['}'])) by {
                assert(input@.subrange(p3 as int, p4 as int) =~= seq!['}']);
            }
            lemma_lit_split(input@, 0, (seq!['{'] + quoted(tagname@)) + seq![':'], quoted(name@));
            lemma_lit_split(input@, 0, ((seq!['{'] + quoted(tagname@)) + seq![':']) + quoted(name@), seq!['}']);
            assert((((seq!['{'] + quoted(tagname@)) + seq![':']) + quoted(name@)) + seq!['}'] =~= event_text(res));
            assert(input@.subrange(0, p4 as int) == event_text(res));
            assert(input@ =~= input@.subrange(0, n as int));
        }
        Ok(res)
    } else if str_eq(name.as_str(), "offline") {
        let res = Event::NetworkEvent(NetworkEvent::Offline);
        proof {
            assert(lit_at(input@, p2 as int, quoted(name@)));
            assert(lit_at(input@, p3 as int, seq!['}'])) by {
                assert(input@.subrange(p3 as int, p4 as int) =~= seq!['}']);
            }
            lemma_lit_split(input@, 0, (seq!['{'] + quoted(tagname@)) + seq![':'], quoted(name@));
            lemma_lit_split(input@, 0, ((seq!['{'] + quoted(tagname@)) + seq![':']) + quoted(name@), seq!['}']);
            assert((((seq!['{'] + quoted(tagname@)) + seq![':']) + quoted(name@)) + seq!['}'] =~= event_text(res));
            assert(input@.subrange(0, p4 as int) == event_text(res));
            assert(input@ =~= input@.subrange(0, n as int));
        }
        Ok(res)
    } else {
        proof {
            assert forall|e: Event| input@ != #[trigger] event_text(e) by {
                if input@ == event_text(e) {
                }
            }
        }
        Err(event_err())
    }
}

/// Finishes decoding once the family tag reads `windowEvent`.
#[verifier::rlimit(100)]
#[verifier::spinoff_prover]
fn family_window_event(input: &Vec<char>, n: usize, p2: usize, tagname: &String) -> (r: Result<
    Event,
    VeloxError,
>)
    requires
        n == input@.len(),
        p2 <= n,
        tagname@ == "windowEvent"@,
        input@.subrange(0, p2 as int) == (seq!['{'] + quoted(tagname@)) + seq![':'],
        forall|e: Event| input@ == #[trigger] event_text(e) ==> event_tag(e) == tagname@
            && lit_at(input@, p2 as int, event_body(e)) && lit_at(
            input@,
            p2 + event_body(e).len(),
            "}"@,
        ) && n == event_text(e).len(),
    ensures
        r matches Ok(e) ==> input@ == event_text(e),
        forall|e: Event| input@ == #[trigger] event_text(e) ==> (r matches Ok(e2) && event_equiv(
            e2,
            e,
        )),
        r matches Err(er) ==> er is DecodeError,
{
    proof {
        lemma_event_tag_facts();
        assert forall|e: Event| input@ == #[trigger] event_text(e) implies (e matches Event::WindowEvent(w2) && lit_at(input@, p2 as int, wevent_text(w2))) by {
            match e {
                Event::WindowEvent(w) => {
                    assert(lit_at(input@, p2 as int, wevent_text(w)));
                },
                _ => {},
            }
        }
    }
    match decode_wevent(input, p2) {
        Some((w, p3)) => {
            let p4 = match tag(input, p3, "}") {
                Some(p) => p,
                None => { return Err(event_err()); },
            };
            if p4 != n {
                return Err(event_err());
            }
            let res = Event::WindowEvent(w);
            proof {
                assert(lit_at(input@, p2 as int, wevent_text(w)));
                assert(lit_at(input@, p3 as int, seq!['}'])) by {
                    assert(input@.subrange(p3 as int, p4 as int) =~= seq!['}']);
                }
                lemma_lit_split(
                    input@,
                    0,
                    (seq!['{'] + quoted(tagname@)) + seq![':'],
                    wevent_text(w),
                );
                lemma_lit_split(
                    input@,
                    0,
                    ((seq!['{'] + quoted(tagname@)) + seq![':']) + wevent_text(w),
                    seq!['}'],
                );
                assert((((seq!['{'] + quoted(tagname@)) + seq![':']) + wevent_text(w))
                    + seq!['}'] =~= event_text(res));
                assert(input@.subrange(0, p4 as int) == event_text(res));
                assert(input@ =~= input@.subrange(0, n as int));
            }
            Ok(res)
        },
        None => {
            proof {
                assert forall|e: Event| input@ != #[trigger] event_text(e) by {
                    if input@ == event_text(e) {
                    }
                }
            }
            Err(event_err())
        },
    }
}

/// A fresh decode error for events.
fn event_err() -> (r: VeloxError)
    ensures
        r is DecodeError,
{
    VeloxError::DecodeError { detail: "the string does not hold a canonical event".to_owned() }
}

/// Parses an event sent from the front-end.
///
/// Exactly the canonical encodings decode: whenever `arg` is the canonical
/// text of an event, parsing returns that event with every field unchanged,
/// and whatever parsing accepts is the canonical text of the returned event.
/// Everything else is a decode error.
#[verifier::rlimit(100)]
#[verifier::spinoff_prover]
pub fn parse_event(arg: &str) -> (r: Result<Event, VeloxError>)
    ensures
        r matches Ok(e) ==> arg@ == event_text(e),
        forall|e: Event| arg@ == #[trigger] event_text(e) ==> (r matches Ok(e2) && event_equiv(
            e2,
            e,
        )),
        r matches Err(er) ==> er is DecodeError,
{
    let input = chars_of(arg);
    let n = input.len();
    proof {
        lemma_event_tag_facts();
        assert forall|e: Event| arg@ == #[trigger] event_text(e) implies {
            &&& lit_at(input@, 0, "{"@)
            &&& qstr_at(input@, 1, event_tag(e))
            &&& lit_at(input@, 1 + quoted(event_tag(e)).len() as int, ":"@)
            &&& lit_at(input@, 2 + quoted(event_tag(e)).len() as int, event_body(e))
            &&& lit_at(
                input@,
                2 + quoted(event_tag(e)).len() as int + event_body(e).len() as int,
                "}"@,
            )
            &&& n == event_text(e).len()
        } by {
            assert(lit_at(input@, 0, event_text(e))) by {
                assert(input@.subrange(0, event_text(e).len() as int) =~= event_text(e));
            }
            assert(event_text(e) =~= seq!['{'] + (quoted(event_tag(e)) + (seq![':'] + (
            event_body(e) + seq!['}']))));
            lemma_lit_split(
                input@,
                0,
                seq!['{'],
                quoted(event_tag(e)) + (seq![':'] + (event_body(e) + seq!['}'])),
            );
            lemma_lit_split(
                input@,
                1,
                quoted(event_tag(e)),
                seq![':'] + (event_body(e) + seq!['}']),
            );
            lemma_lit_split(
                input@,
                1 + quoted(event_tag(e)).len() as int,
                seq![':'],
                event_body(e) + seq!['}'],
            );
            lemma_lit_split(input@, 2 + quoted(event_tag(e)).len() as int, event_body(e), seq!['}']);
        }
    }
    let p0 = match tag(&input, 0, "{") {
        Some(p) => p,
        None => { return Err(event_err()); },
    };
    let (tagname, p1) = match parse_qstr(&input, p0) {
        Some(t) => t,
        None => { return Err(event_err()); },
    };
    let p2 = match tag(&input, p1, ":") {
        Some(p) => p,
        None => { return Err(event_err()); },
    };
    proof {
        assert(lit_at(input@, 0, seq!['{'])) by {
            assert(input@.subrange(0, p0 as int) =~= seq!['{']);
        }
        assert(lit_at(input@, p0 as int, quoted(tagname@)));
        assert(lit_at(input@, p1 as int, seq![':'])) by {
            assert(input@.subrange(p1 as int, p2 as int) =~= seq![':']);
        }
        lemma_lit_split(input@, 0, seq!['{'], quoted(tagname@));
        lemma_lit_split(input@, 0, seq!['{'] + quoted(tagname@), seq![':']);
        assert(input@.subrange(0, p2 as int) == (seq!['{'] + quoted(tagname@)) + seq![':']);
        assert(input@ == arg@);
    }
    if str_eq(tagname.as_str(), "veloxEvent") {
        family_velox(&input, n, p2, &tagname)
    } else if str_eq(tagname.as_str(), "resourceEvent") {
        family_resource(&input, n, p2, &tagname)
    } else if str_eq(tagname.as_str(), "networkEvent") {
        family_network(&input, n, p2, &tagname)
    } else if str_eq(tagname.as_str(), "windowEvent") {
        family_window_event(&input, n, p2, &tagname)
    } else {
        proof {
            assert forall|e: Event| arg@ != #[trigger] event_text(e) by {
                if arg@ == event_text(e) {
                }
            }
        }
        Err(event_err())
    }
}

} // verus!
