//! The dispatcher: routes a decoded request to exactly one native operation.
//!
//! Two channels exist at the transport level.  An identified call names an
//! operation and carries JSON-encoded parameters; it is resolved by
//! `call_func` into a native operation descriptor, or into the command error
//! that signals "fall through to the user's invoke handler".  An
//! unidentified notification carries an event; `route_message` decodes it
//! along the ordered chain: command first, then event, then the fallback.

use vstd::prelude::*;

use crate::cmd::{cmd_equiv, cmd_text, Cmd, FsApi, Notify, Process, WindowProxy};
use crate::codec::{
    chars_of, lit_at, parse_bool, parse_i32, parse_qstr, parse_barr, quoted, bool_text, int_text,
    barr_text, str_eq,
};
use crate::events::{event_equiv, event_text, parse_event, Event, WindowEvents};
use crate::VeloxError;

verus! {

/// One native operation, with its parameters decoded and validated.
#[derive(Debug, Clone, PartialEq, Eq)]
pub enum NativeOp {
    ReadDir { path: String },
    ReadTextFile { path: String },
    CreateDir { path: String },
    CreateFile { path: String },
    RemoveFile { path: String },
    RemoveDir { path: String },
    CopyFile { from: String, to: String },
    RenameFile { from: String, to: String },
    OpenDialog { multiple: bool },
    OpenFile { path: String, format: Option<Vec<String>> },
    OpenMultipleFile { path: String, format: Option<Vec<String>> },
    OpenDir { path: String },
    SelectFolder,
    SaveFile { path: String, content: Vec<u8>, mode: String },
    ShowNotification { summary: String, body: String, timeout: i32 },
    Exec { cmd: String, cwd: String, stream_output: bool },
    EmitEvent { event: Event },
}

/// Where an operation runs: inline on the event-loop thread, or on a worker.
#[derive(Debug, Clone, Copy, PartialEq, Eq, Structural)]
pub enum ExecClass {
    /// Fast, purely in-memory work: runs on the dispatch thread.
    Inline,
    /// Filesystem, subprocess and notification work: must never block the
    /// event loop, so it is submitted to a worker.
    Worker,
}

/// A dispatched command: the operation, where it runs, and the callbacks
/// that receive its outcome.
pub struct DispatchPlan {
    pub op: NativeOp,
    pub exec_class: ExecClass,
    pub success_callback: String,
    pub error_callback: String,
}

/// Where a command's operation runs: only window commands stay inline.
pub open spec fn class_of(c: Cmd) -> ExecClass {
    match c {
        Cmd::Window(_) => ExecClass::Inline,
        _ => ExecClass::Worker,
    }
}

/// The operation a command maps to, related field by field.
pub open spec fn plan_matches(c: Cmd, r: DispatchPlan) -> bool {
    match c {
        Cmd::FileSystem(f) => match f {
            FsApi::ReadDir { path, success_callback, error_callback } => r.op
                matches NativeOp::ReadDir { path: p2 } && p2@ == path@ && r.success_callback@
                == success_callback@ && r.error_callback@ == error_callback@,
            FsApi::ReadTextFile { path, success_callback, error_callback } => r.op
                matches NativeOp::ReadTextFile { path: p2 } && p2@ == path@
                && r.success_callback@ == success_callback@ && r.error_callback@
                == error_callback@,
            FsApi::CopyFile { from, to, success_callback, error_callback } => r.op
                matches NativeOp::CopyFile { from: f2, to: t2 } && f2@ == from@ && t2@ == to@
                && r.success_callback@ == success_callback@ && r.error_callback@
                == error_callback@,
            FsApi::RenameFile { from, to, success_callback, error_callback } => r.op
                matches NativeOp::RenameFile { from: f2, to: t2 } && f2@ == from@ && t2@ == to@
                && r.success_callback@ == success_callback@ && r.error_callback@
                == error_callback@,
            FsApi::OpenDialog { multiple, filter, success_callback, error_callback } => r.op
                matches NativeOp::OpenDialog { multiple: m2 } && m2 == multiple
                && r.success_callback@ == success_callback@ && r.error_callback@
                == error_callback@,
            FsApi::OpenFile { path, format } => r.op matches NativeOp::OpenFile {
                path: p2,
                format: f2,
            } && p2@ == path@ && crate::cmd::opt_equiv(f2, format),
            FsApi::CreateDir { path, success_callback, error_callback } => r.op
                matches NativeOp::CreateDir { path: p2 } && p2@ == path@ && r.success_callback@
                == success_callback@ && r.error_callback@ == error_callback@,
            FsApi::CreateFile { path, success_callback, error_callback } => r.op
                matches NativeOp::CreateFile { path: p2 } && p2@ == path@ && r.success_callback@
                == success_callback@ && r.error_callback@ == error_callback@,
            FsApi::RemoveDir { path, success_callback, error_callback } => r.op
                matches NativeOp::RemoveDir { path: p2 } && p2@ == path@ && r.success_callback@
                == success_callback@ && r.error_callback@ == error_callback@,
            FsApi::RemoveFile { path, success_callback, error_callback } => r.op
                matches NativeOp::RemoveFile { path: p2 } && p2@ == path@ && r.success_callback@
                == success_callback@ && r.error_callback@ == error_callback@,
            FsApi::OpenMultipleFile { path, format } => r.op matches NativeOp::OpenMultipleFile {
                path: p2,
                format: f2,
            } && p2@ == path@ && crate::cmd::opt_equiv(f2, format),
            FsApi::OpenDir { path } => r.op matches NativeOp::OpenDir { path: p2 } && p2@
                == path@,
            FsApi::SelectFolder { success_callback, error_callback } => r.op
                matches NativeOp::SelectFolder && r.success_callback@ == success_callback@
                && r.error_callback@ == error_callback@,
            FsApi::SaveFile { path, content, mode, success_callback, error_callback } => r.op
                matches NativeOp::SaveFile { path: p2, content: c2, mode: m2 } && p2@ == path@
                && c2@ == content@ && m2@ == mode@ && r.success_callback@ == success_callback@
                && r.error_callback@ == error_callback@,
        },
        Cmd::Notification(n) => match n {
            Notify::ShowNotification {
                summary,
                body,
                timeout,
                success_callback,
                error_callback,
            } => r.op matches NativeOp::ShowNotification { summary: a2, body: b2, timeout: t2 }
                && a2@ == summary@ && b2@ == body@ && t2 == timeout && r.success_callback@
                == success_callback@ && r.error_callback@ == error_callback@,
        },
        Cmd::SubProcess(p) => match p {
            Process::Exec { cmd, cwd, stream_output, success_callback, error_callback } => r.op
                matches NativeOp::Exec { cmd: c2, cwd: w2, stream_output: s2 } && c2@ == cmd@
                && w2@ == cwd@ && s2 == stream_output && r.success_callback@ == success_callback@
                && r.error_callback@ == error_callback@,
        },
        Cmd::Window(w) => match w {
            WindowProxy::SetTitle { title, success_callback, error_callback } => r.op
                matches NativeOp::EmitEvent { event } && event matches Event::WindowEvent(we)
                && we matches WindowEvents::SetTitle { title: t2, identifier: i2 } && t2@
                == title@ && i2@ == "main_window"@ && r.success_callback@ == success_callback@
                && r.error_callback@ == error_callback@,
            WindowProxy::SetFullscreen { fullscreen, success_callback, error_callback } => r.op
                matches NativeOp::EmitEvent { event } && event matches Event::WindowEvent(we)
                && we matches WindowEvents::SetFullscreen { identifier: i2 } && i2@
                == "main_window"@ && r.success_callback@ == success_callback@
                && r.error_callback@ == error_callback@,
        },
    }
}

/// Maps a decoded command to its native operation, one to one.
///
/// Window commands run inline; filesystem, subprocess and notification
/// commands are classed for a worker, so a slow operation never blocks the
/// event-loop thread.
pub fn dispatch(c: &Cmd) -> (r: DispatchPlan)
    ensures
        plan_matches(*c, r),
        r.exec_class == class_of(*c),
{
    match c {
        Cmd::FileSystem(f) => {
            let (op, success_callback, error_callback): (NativeOp, String, String) = match f {
                FsApi::ReadDir { path, success_callback, error_callback } => (
                    NativeOp::ReadDir { path: path.clone() },
                    success_callback.clone(),
                    error_callback.clone(),
                ),
                FsApi::ReadTextFile { path, success_callback, error_callback } => (
                    NativeOp::ReadTextFile { path: path.clone() },
                    success_callback.clone(),
                    error_callback.clone(),
                ),
                FsApi::CopyFile { from, to, success_callback, error_callback } => (
                    NativeOp::CopyFile { from: from.clone(), to: to.clone() },
                    success_callback.clone(),
                    error_callback.clone(),
                ),
                FsApi::RenameFile { from, to, success_callback, error_callback } => (
                    NativeOp::RenameFile { from: from.clone(), to: to.clone() },
                    success_callback.clone(),
                    error_callback.clone(),
                ),
                FsApi::OpenDialog { multiple, filter, success_callback, error_callback } => (
                    NativeOp::OpenDialog { multiple: *multiple },
                    success_callback.clone(),
                    error_callback.clone(),
                ),
                FsApi::OpenFile { path, format } => (
                    NativeOp::OpenFile { path: path.clone(), format: clone_opt(format) },
                    String::new(),
                    String::new(),
                ),
                FsApi::CreateDir { path, success_callback, error_callback } => (
                    NativeOp::CreateDir { path: path.clone() },
                    success_callback.clone(),
                    error_callback.clone(),
                ),
                FsApi::CreateFile { path, success_callback, error_callback } => (
                    NativeOp::CreateFile { path: path.clone() },
                    success_callback.clone(),
                    error_callback.clone(),
                ),
                FsApi::RemoveDir { path, success_callback, error_callback } => (
                    NativeOp::RemoveDir { path: path.clone() },
                    success_callback.clone(),
                    error_callback.clone(),
                ),
                FsApi::RemoveFile { path, success_callback, error_callback } => (
                    NativeOp::RemoveFile { path: path.clone() },
                    success_callback.clone(),
                    error_callback.clone(),
                ),
                FsApi::OpenMultipleFile { path, format } => (
                    NativeOp::OpenMultipleFile { path: path.clone(), format: clone_opt(format) },
                    String::new(),
                    String::new(),
                ),
                FsApi::OpenDir { path } => (
                    NativeOp::OpenDir { path: path.clone() },
                    String::new(),
                    String::new(),
                ),
                FsApi::SelectFolder { success_callback, error_callback } => (
                    NativeOp::SelectFolder,
                    success_callback.clone(),
                    error_callback.clone(),
                ),
                FsApi::SaveFile { path, content, mode, success_callback, error_callback } => (
                    NativeOp::SaveFile {
                        path: path.clone(),
                        content: content.clone(),
                        mode: mode.clone(),
                    },
                    success_callback.clone(),
                    error_callback.clone(),
                ),
            };
            DispatchPlan { op, exec_class: ExecClass::Worker, success_callback, error_callback }
        },
        Cmd::Notification(n) => {
            match n {
                Notify::ShowNotification {
                    summary,
                    body,
                    timeout,
                    success_callback,
                    error_callback,
                } => DispatchPlan {
                    op: NativeOp::ShowNotification {
                        summary: summary.clone(),
                        body: body.clone(),
                        timeout: *timeout,
                    },
                    exec_class: ExecClass::Worker,
                    success_callback: success_callback.clone(),
                    error_callback: error_callback.clone(),
                },
            }
        },
        Cmd::SubProcess(p) => {
            match p {
                Process::Exec { cmd, cwd, stream_output, success_callback, error_callback } => DispatchPlan {
                    op: NativeOp::Exec {
                        cmd: cmd.clone(),
                        cwd: cwd.clone(),
                        stream_output: *stream_output,
                    },
                    exec_class: ExecClass::Worker,
                    success_callback: success_callback.clone(),
                    error_callback: error_callback.clone(),
                },
            }
        },
        Cmd::Window(w) => {
            match w {
                WindowProxy::SetTitle { title, success_callback, error_callback } => DispatchPlan {
                    op: NativeOp::EmitEvent {
                        event: Event::WindowEvent(
                            WindowEvents::SetTitle {
                                title: title.clone(),
                                identifier: main_window_id(),
                            },
                        ),
                    },
                    exec_class: ExecClass::Inline,
                    success_callback: success_callback.clone(),
                    error_callback: error_callback.clone(),
                },
                WindowProxy::SetFullscreen { fullscreen, success_callback, error_callback } => DispatchPlan {
                    op: NativeOp::EmitEvent {
                        event: Event::WindowEvent(
                            WindowEvents::SetFullscreen { identifier: main_window_id() },
                        ),
                    },
                    exec_class: ExecClass::Inline,
                    success_callback: success_callback.clone(),
                    error_callback: error_callback.clone(),
                },
            }
        },
    }
}

/// The identifier of the distinguished main window.
pub fn main_window_id() -> (r: String)
    ensures
        r@ == "main_window"@,
{
    String::from_str("main_window")
}

/// Clones an optional list of strings, keeping every view.
fn clone_opt(o: &Option<Vec<String>>) -> (r: Option<Vec<String>>)
    ensures
        crate::cmd::opt_equiv(r, *o),
{
    match o {
        Option::None => None,
        Option::Some(v) => {
            let mut out: Vec<String> = Vec::new();
            let n = v.len();
            let mut i: usize = 0;
            while i < n
                invariant
                    i <= n,
                    n == v@.len(),
                    out@.len() == i,
                    forall|k: int| 0 <= k < i ==> out@[k]@ == v@[k]@,
                decreases n - i,
            {
                out.push(v[i].clone());
                i = i + 1;
            }
            proof {
                assert(crate::codec::str_views(out@) =~= crate::codec::str_views(v@));
            }
            Some(out)
        },
    }
}

/// Where a raw message is routed: it decoded as a command, as an event, or
/// it falls through to the user-supplied invoke handler.
#[derive(Debug, Clone, PartialEq, Eq)]
pub enum Routed {
    Command(Cmd),
    Notification(Event),
    Fallback,
}

/// Routes a raw message along the ordered decode chain.
///
/// The command schema is tried first; a string that fails it but decodes as
/// an event takes the event path, never an error; a string that fails both
/// is left to the invoke-handler fallback.
pub fn route_message(raw: &str) -> (r: Routed)
    ensures
        forall|c: Cmd| raw@ == #[trigger] cmd_text(c) ==> (r matches Routed::Command(c2)
            && cmd_equiv(c2, c)),
        forall|e: Event| raw@ == #[trigger] event_text(e) && (forall|c: Cmd| raw@ != cmd_text(c))
            ==> (r matches Routed::Notification(e2) && event_equiv(e2, e)),
        ((forall|c: Cmd| raw@ != cmd_text(c)) && (forall|e: Event| raw@ != event_text(e))) ==> r
            is Fallback,
        r matches Routed::Command(c) ==> raw@ == cmd_text(c),
        r matches Routed::Notification(e) ==> raw@ == event_text(e),
{
    match crate::cmd::decode_cmd(raw) {
        Ok(c) => Routed::Command(c),
        Err(_) => match parse_event(raw) {
            Ok(e) => Routed::Notification(e),
            Err(_) => Routed::Fallback,
        },
    }
}


/// Reads a JSON string parameter: the whole parameter must be one
/// canonical quoted string.
#[verifier::rlimit(100)]
#[verifier::spinoff_prover]
fn param_str(params: &Vec<String>, i: usize) -> (r: Option<String>)
    ensures
        r matches Some(s) ==> i < params@.len() && crate::codec::str_views(params@)[i as int]
            == quoted(s@),
        forall|p: Seq<char>| i < params@.len() && crate::codec::str_views(params@)[i as int]
            == #[trigger] quoted(p) ==> (r matches Some(s) && s@ == p),
{
    if i >= params.len() {
        return None;
    }
    let input = chars_of(params[i].as_str());
    let n = input.len();
    proof {
        assert forall|p: Seq<char>| crate::codec::str_views(params@)[i as int] == #[trigger] quoted(
            p,
        ) implies crate::codec::qstr_at(input@, 0, p) by {
            assert(input@.subrange(0, quoted(p).len() as int) =~= quoted(p));
        }
    }
    match parse_qstr(&input, 0) {
        Some((s, p)) => {
            if p == n {
                proof {
                    assert(crate::codec::str_views(params@)[i as int] =~= input@.subrange(
                        0,
                        n as int,
                    ));
                }
                Some(s)
            } else {
                None
            }
        },
        None => None,
    }
}

/// Reads a JSON boolean parameter.
#[verifier::rlimit(100)]
#[verifier::spinoff_prover]
fn param_bool(params: &Vec<String>, i: usize) -> (r: Option<bool>)
    ensures
        r matches Some(b) ==> i < params@.len() && crate::codec::str_views(params@)[i as int]
            == bool_text(b),
        forall|b: bool| i < params@.len() && crate::codec::str_views(params@)[i as int]
            == #[trigger] bool_text(b) ==> r == Some(b),
{
    if i >= params.len() {
        return None;
    }
    let input = chars_of(params[i].as_str());
    let n = input.len();
    proof {
        assert forall|b: bool| crate::codec::str_views(params@)[i as int] == #[trigger] bool_text(
            b,
        ) implies lit_at(input@, 0, bool_text(b)) by {
            assert(input@.subrange(0, bool_text(b).len() as int) =~= bool_text(b));
        }
    }
    match parse_bool(&input, 0) {
        Some((b, p)) => {
            if p == n {
                proof {
                    assert(crate::codec::str_views(params@)[i as int] =~= input@.subrange(
                        0,
                        n as int,
                    ));
                }
                Some(b)
            } else {
                None
            }
        },
        None => None,
    }
}

/// Reads a JSON number parameter as a 32-bit signed value.
#[verifier::rlimit(100)]
#[verifier::spinoff_prover]
fn param_i32(params: &Vec<String>, i: usize) -> (r: Option<i32>)
    ensures
        r matches Some(v) ==> i < params@.len() && crate::codec::str_views(params@)[i as int]
            == int_text(v as int),
        forall|v: i32| i < params@.len() && crate::codec::str_views(params@)[i as int]
            == #[trigger] int_text(v as int) ==> r == Some(v),
{
    if i >= params.len() {
        return None;
    }
    let input = chars_of(params[i].as_str());
    let n = input.len();
    proof {
        assert forall|v: i32| crate::codec::str_views(params@)[i as int] == #[trigger] int_text(
            v as int,
        ) implies crate::codec::int_at(input@, 0, v as int) && 0 + int_text(v as int).len()
            <= input@.len() by {
            assert(input@ =~= int_text(v as int));
            assert(lit_at(input@, 0, int_text(v as int))) by {
                assert(input@.subrange(0, int_text(v as int).len() as int) =~= int_text(
                    v as int,
                ));
            }
            if (v as int) < 0 {
                assert(int_text(v as int) =~= seq!['-'] + crate::codec::dec((-(v as int)) as nat));
                crate::codec::lemma_lit_split(
                    input@,
                    0,
                    seq!['-'],
                    crate::codec::dec((-(v as int)) as nat),
                );
                assert(input@[0] == '-') by {
                    assert(input@.subrange(0, 1)[0] == '-');
                }
                assert(lit_at(input@, 1, crate::codec::dec((-(v as int)) as nat)));
                assert(crate::codec::num_at(input@, 1, (-(v as int)) as nat));
            } else {
                assert(lit_at(input@, 0, crate::codec::dec((v as int) as nat)));
                assert(crate::codec::num_at(input@, 0, (v as int) as nat));
            }
        }
    }
    match parse_i32(&input, 0) {
        Some((v, p)) => {
            if p == n {
                proof {
                    assert(crate::codec::str_views(params@)[i as int] =~= input@.subrange(
                        0,
                        n as int,
                    ));
                }
                Some(v)
            } else {
                None
            }
        },
        None => None,
    }
}

/// Reads a JSON byte-array parameter.
#[verifier::rlimit(100)]
#[verifier::spinoff_prover]
fn param_bytes(params: &Vec<String>, i: usize) -> (r: Option<Vec<u8>>)
    ensures
        r matches Some(v) ==> i < params@.len() && crate::codec::str_views(params@)[i as int]
            == barr_text(v@),
        forall|bs: Seq<u8>| i < params@.len() && crate::codec::str_views(params@)[i as int]
            == #[trigger] barr_text(bs) ==> (r matches Some(v) && v@ == bs),
{
    if i >= params.len() {
        return None;
    }
    let input = chars_of(params[i].as_str());
    let n = input.len();
    proof {
        assert forall|bs: Seq<u8>| crate::codec::str_views(params@)[i as int]
            == #[trigger] barr_text(bs) implies lit_at(input@, 0, barr_text(bs)) by {
            assert(input@.subrange(0, barr_text(bs).len() as int) =~= barr_text(bs));
        }
    }
    match parse_barr(&input, 0) {
        Some((v, p)) => {
            if p == n {
                proof {
                    assert(crate::codec::str_views(params@)[i as int] =~= input@.subrange(
                        0,
                        n as int,
                    ));
                }
                Some(v)
            } else {
                None
            }
        },
        None => None,
    }
}


/// The operation names the dispatcher knows.
pub open spec fn known_method(name: Seq<char>) -> bool {
    ||| name == "add_window"@
    ||| name == "close_window"@
    ||| name == "set_title"@
    ||| name == "set_fullscreen"@
    ||| name == "show_notification"@
    ||| name == "exec"@
    ||| name == "read_dir"@
    ||| name == "read_text_file"@
    ||| name == "create_dir"@
    ||| name == "create_file"@
    ||| name == "remove_file"@
    ||| name == "remove_dir"@
    ||| name == "copy_file"@
    ||| name == "rename_file"@
    ||| name == "open_dialog"@
    ||| name == "select_folder"@
    ||| name == "save_file"@
}

/// How an operation relates to a method name and its JSON parameters: the
/// parameters are exactly the canonical texts of the operation's fields.
pub open spec fn op_params_match(name: Seq<char>, params: Seq<Seq<char>>, op: NativeOp) -> bool {
    if name == "add_window"@ {
        op matches NativeOp::EmitEvent { event } && event matches Event::WindowEvent(we)
            && we matches WindowEvents::AddWindow { window_title: t, content: c, identifier: i }
            && params.len() == 2 && params[0] == quoted(t@) && params[1] == quoted(c@) && i@
            == t@
    } else if name == "close_window"@ {
        op matches NativeOp::EmitEvent { event } && event matches Event::WindowEvent(we)
            && we matches WindowEvents::CloseWindow(id) && params.len() == 1 && params[0]
            == quoted(id@)
    } else if name == "set_title"@ {
        op matches NativeOp::EmitEvent { event } && event matches Event::WindowEvent(we)
            && we matches WindowEvents::SetTitle { title: t, identifier: i } && params.len() == 2
            && params[0] == quoted(t@) && params[1] == quoted(i@)
    } else if name == "set_fullscreen"@ {
        op matches NativeOp::EmitEvent { event } && event matches Event::WindowEvent(we)
            && we matches WindowEvents::SetFullscreen { identifier: i } && params.len() == 2
            && params[0] == quoted(i@) && (params[1] == bool_text(true) || params[1] == bool_text(
            false,
        ))
    } else if name == "show_notification"@ {
        op matches NativeOp::ShowNotification { summary, body, timeout } && params.len() == 3
            && params[0] == quoted(summary@) && params[1] == quoted(body@) && params[2]
            == int_text(timeout as int)
    } else if name == "exec"@ {
        op matches NativeOp::Exec { cmd, cwd, stream_output } && params.len() == 3 && params[0]
            == quoted(cmd@) && params[1] == quoted(cwd@) && params[2] == bool_text(stream_output)
    } else if name == "read_dir"@ {
        op matches NativeOp::ReadDir { path } && params.len() == 1 && params[0] == quoted(path@)
    } else if name == "read_text_file"@ {
        op matches NativeOp::ReadTextFile { path } && params.len() == 1 && params[0] == quoted(
            path@,
        )
    } else if name == "create_dir"@ {
        op matches NativeOp::CreateDir { path } && params.len() == 1 && params[0] == quoted(path@)
    } else if name == "create_file"@ {
        op matches NativeOp::CreateFile { path } && params.len() == 1 && params[0] == quoted(
            path@,
        )
    } else if name == "remove_file"@ {
        op matches NativeOp::RemoveFile { path } && params.len() == 1 && params[0] == quoted(
            path@,
        )
    } else if name == "remove_dir"@ {
        op matches NativeOp::RemoveDir { path } && params.len() == 1 && params[0] == quoted(path@)
    } else if name == "copy_file"@ {
        op matches NativeOp::CopyFile { from, to } && params.len() == 2 && params[0] == quoted(
            from@,
        ) && params[1] == quoted(to@)
    } else if name == "rename_file"@ {
        op matches NativeOp::RenameFile { from, to } && params.len() == 2 && params[0] == quoted(
            from@,
        ) && params[1] == quoted(to@)
    } else if name == "open_dialog"@ {
        op matches NativeOp::OpenDialog { multiple } && params.len() == 1 && params[0]
            == bool_text(multiple)
    } else if name == "select_folder"@ {
        op matches NativeOp::SelectFolder
    } else if name == "save_file"@ {
        op matches NativeOp::SaveFile { path, content, mode } && params.len() == 3 && params[0]
            == quoted(path@) && params[1] == barr_text(content@) && params[2] == quoted(mode@)
    } else {
        false
    }
}

/// The error for parameters that do not fit the named operation.
fn invalid_params() -> (r: VeloxError)
    ensures
        r is DecodeError,
{
    VeloxError::DecodeError { detail: "the parameters do not fit the operation".to_owned() }
}

/// Resolves a named native call against the fixed operation table.
///
/// An unknown name is the command error that sends the request to the
/// user's invoke handler; a known name with parameters that do not fit is
/// a decode error; and whenever the parameters are exactly the canonical
/// texts of some operation's fields, that operation is returned.
#[verifier::rlimit(100)]
#[verifier::spinoff_prover]
pub fn call_func(func_name: &str, params: &Vec<String>) -> (r: Result<NativeOp, VeloxError>)
    ensures
        r matches Ok(op) ==> op_params_match(
            func_name@,
            crate::codec::str_views(params@),
            op,
        ),
        !known_method(func_name@) ==> (r matches Err(e) && e is CommandError),
        known_method(func_name@) ==> (r matches Ok(_) || (r matches Err(e) && e is DecodeError)),
        forall|op: NativeOp| #[trigger] op_params_match(
            func_name@,
            crate::codec::str_views(params@),
            op,
        ) ==> r is Ok,
{
    if str_eq(func_name, "add_window") {
        let title = match param_str(params, 0) {
            Some(s) => s,
            None => { return Err(invalid_params()); },
        };
        let url = match param_str(params, 1) {
            Some(s) => s,
            None => { return Err(invalid_params()); },
        };
        if params.len() != 2 {
            return Err(invalid_params());
        }
        let identifier = title.clone();
        Ok(NativeOp::EmitEvent {
            event: Event::WindowEvent(
                WindowEvents::AddWindow { window_title: title, content: url, identifier },
            ),
        })
    } else if str_eq(func_name, "close_window") {
        let id = match param_str(params, 0) {
            Some(s) => s,
            None => { return Err(invalid_params()); },
        };
        if params.len() != 1 {
            return Err(invalid_params());
        }
        Ok(NativeOp::EmitEvent { event: Event::WindowEvent(WindowEvents::CloseWindow(id)) })
    } else if str_eq(func_name, "set_title") {
        let title = match param_str(params, 0) {
            Some(s) => s,
            None => { return Err(invalid_params()); },
        };
        let identifier = match param_str(params, 1) {
            Some(s) => s,
            None => { return Err(invalid_params()); },
        };
        if params.len() != 2 {
            return Err(invalid_params());
        }
        Ok(NativeOp::EmitEvent {
            event: Event::WindowEvent(WindowEvents::SetTitle { title, identifier }),
        })
    } else if str_eq(func_name, "set_fullscreen") {
        let identifier = match param_str(params, 0) {
            Some(s) => s,
            None => { return Err(invalid_params()); },
        };
        let flag = match param_bool(params, 1) {
            Some(x) => x,
            None => { return Err(invalid_params()); },
        };
        if params.len() != 2 {
            return Err(invalid_params());
        }
        Ok(NativeOp::EmitEvent {
            event: Event::WindowEvent(WindowEvents::SetFullscreen { identifier }),
        })
    } else if str_eq(func_name, "show_notification") {
        let summary = match param_str(params, 0) {
            Some(s) => s,
            None => { return Err(invalid_params()); },
        };
        let body = match param_str(params, 1) {
            Some(s) => s,
            None => { return Err(invalid_params()); },
        };
        let timeout = match param_i32(params, 2) {
            Some(v) => v,
            None => { return Err(invalid_params()); },
        };
        if params.len() != 3 {
            return Err(invalid_params());
        }
        Ok(NativeOp::ShowNotification { summary, body, timeout })
    } else if str_eq(func_name, "exec") {
        let cmd = match param_str(params, 0) {
            Some(s) => s,
            None => { return Err(invalid_params()); },
        };
        let cwd = match param_str(params, 1) {
            Some(s) => s,
            None => { return Err(invalid_params()); },
        };
        let stream_output = match param_bool(params, 2) {
            Some(x) => x,
            None => { return Err(invalid_params()); },
        };
        if params.len() != 3 {
            return Err(invalid_params());
        }
        Ok(NativeOp::Exec { cmd, cwd, stream_output })
    } else if str_eq(func_name, "read_dir") {
        let path = match param_str(params, 0) {
            Some(s) => s,
            None => { return Err(invalid_params()); },
        };
        if params.len() != 1 {
            return Err(invalid_params());
        }
        Ok(NativeOp::ReadDir { path })
    } else if str_eq(func_name, "read_text_file") {
        let path = match param_str(params, 0) {
            Some(s) => s,
            None => { return Err(invalid_params()); },
        };
        if params.len() != 1 {
            return Err(invalid_params());
        }
        Ok(NativeOp::ReadTextFile { path })
    } else if str_eq(func_name, "create_dir") {
        let path = match param_str(params, 0) {
            Some(s) => s,
            None => { return Err(invalid_params()); },
        };
        if params.len() != 1 {
            return Err(invalid_params());
        }
        Ok(NativeOp::CreateDir { path })
    } else if str_eq(func_name, "create_file") {
        let path = match param_str(params, 0) {
            Some(s) => s,
            None => { return Err(invalid_params()); },
        };
        if params.len() != 1 {
            return Err(invalid_params());
        }
        Ok(NativeOp::CreateFile { path })
    } else if str_eq(func_name, "remove_file") {
        let path = match param_str(params, 0) {
            Some(s) => s,
            None => { return Err(invalid_params()); },
        };
        if params.len() != 1 {
            return Err(invalid_params());
        }
        Ok(NativeOp::RemoveFile { path })
    } else if str_eq(func_name, "remove_dir") {
        let path = match param_str(params, 0) {
            Some(s) => s,
            None => { return Err(invalid_params()); },
        };
        if params.len() != 1 {
            return Err(invalid_params());
        }
        Ok(NativeOp::RemoveDir { path })
    } else if str_eq(func_name, "copy_file") {
        let from = match param_str(params, 0) {
            Some(s) => s,
            None => { return Err(invalid_params()); },
        };
        let to = match param_str(params, 1) {
            Some(s) => s,
            None => { return Err(invalid_params()); },
        };
        if params.len() != 2 {
            return Err(invalid_params());
        }
        Ok(NativeOp::CopyFile { from, to })
    } else if str_eq(func_name, "rename_file") {
        let from = match param_str(params, 0) {
            Some(s) => s,
            None => { return Err(invalid_params()); },
        };
        let to = match param_str(params, 1) {
            Some(s) => s,
            None => { return Err(invalid_params()); },
        };
        if params.len() != 2 {
            return Err(invalid_params());
        }
        Ok(NativeOp::RenameFile { from, to })
    } else if str_eq(func_name, "open_dialog") {
        let multiple = match param_bool(params, 0) {
            Some(x) => x,
            None => { return Err(invalid_params()); },
        };
        if params.len() != 1 {
            return Err(invalid_params());
        }
        Ok(NativeOp::OpenDialog { multiple })
    } else if str_eq(func_name, "select_folder") {
        Ok(NativeOp::SelectFolder)
    } else if str_eq(func_name, "save_file") {
        let path = match param_str(params, 0) {
            Some(s) => s,
            None => { return Err(invalid_params()); },
        };
        let content = match param_bytes(params, 1) {
            Some(v) => v,
            None => { return Err(invalid_params()); },
        };
        let mode = match param_str(params, 2) {
            Some(s) => s,
            None => { return Err(invalid_params()); },
        };
        if params.len() != 3 {
            return Err(invalid_params());
        }
        Ok(NativeOp::SaveFile { path, content, mode })
    } else {
        Err(
            VeloxError::CommandError { detail: "Invalid command".to_owned() },
        )
    }
}

} // verus!
