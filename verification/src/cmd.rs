//! The command schema: the closed set of requests a front-end can make, and
//! its wire codec.
//!
//! A command travels as one line of canonical JSON, tagged first by family
//! and then by operation, exactly as the front-end's `JSON.stringify` writes
//! it.  `encode_cmd` produces that canonical text and `decode_cmd` accepts
//! exactly it, so decoding an encoded command always returns the original.

use vstd::prelude::*;

use crate::codec::{
    bool_text, chars_of, int_text, lit_at, parse_bool, parse_i32, parse_qstr, parse_sarr, quoted,
    sarr_text, str_eq, str_views, tag, write_bool, write_i32, write_qstr, write_sarr, write_barr,
    parse_barr, barr_text, lemma_lit_split, lemma_str_neq, qstr_at, dec,
};
use crate::VeloxError;

verus! {

/// A request from the front-end, expecting a reply through named callbacks.
#[derive(Debug, Clone, PartialEq, Eq)]
pub enum Cmd {
    /// Filesystem work: reading, writing, dialogs.
    FileSystem(FsApi),
    /// A desktop notification.
    Notification(Notify),
    /// Running a shell command.
    SubProcess(Process),
    /// Driving the native window.
    Window(WindowProxy),
}

/// Window presentation requests.
#[derive(Debug, Clone, PartialEq, Eq)]
pub enum WindowProxy {
    SetTitle { title: String, success_callback: String, error_callback: String },
    SetFullscreen { fullscreen: bool, success_callback: String, error_callback: String },
}

/// Desktop notification requests.
#[derive(Debug, Clone, PartialEq, Eq)]
pub enum Notify {
    ShowNotification {
        summary: String,
        body: String,
        timeout: i32,
        success_callback: String,
        error_callback: String,
    },
}

/// Subprocess requests.
#[derive(Debug, Clone, PartialEq, Eq)]
pub enum Process {
    Exec {
        cmd: String,
        cwd: String,
        stream_output: bool,
        success_callback: String,
        error_callback: String,
    },
}

/// Filesystem requests.
#[derive(Debug, Clone, PartialEq, Eq)]
pub enum FsApi {
    ReadDir { path: String, success_callback: String, error_callback: String },
    ReadTextFile { path: String, success_callback: String, error_callback: String },
    CopyFile { from: String, to: String, success_callback: String, error_callback: String },
    RenameFile { from: String, to: String, success_callback: String, error_callback: String },
    OpenDialog {
        multiple: bool,
        filter: Option<Vec<String>>,
        success_callback: String,
        error_callback: String,
    },
    OpenFile { path: String, format: Option<Vec<String>> },
    CreateDir { path: String, success_callback: String, error_callback: String },
    CreateFile { path: String, success_callback: String, error_callback: String },
    RemoveDir { path: String, success_callback: String, error_callback: String },
    RemoveFile { path: String, success_callback: String, error_callback: String },
    OpenMultipleFile { path: String, format: Option<Vec<String>> },
    OpenDir { path: String },
    SelectFolder { success_callback: String, error_callback: String },
    SaveFile {
        path: String,
        content: Vec<u8>,
        mode: String,
        success_callback: String,
        error_callback: String,
    },
}

/// The family tag under which a command is keyed on the wire.
pub open spec fn cmd_tag(c: Cmd) -> Seq<char> {
    match c {
        Cmd::FileSystem(_) => "fileSystem"@,
        Cmd::Notification(_) => "notification"@,
        Cmd::SubProcess(_) => "subProcess"@,
        Cmd::Window(_) => "window"@,
    }
}

/// The operation tag of a filesystem request.
pub open spec fn fs_tag(f: FsApi) -> Seq<char> {
    match f {
        FsApi::ReadDir { .. } => "readDir"@,
        FsApi::ReadTextFile { .. } => "readTextFile"@,
        FsApi::CopyFile { .. } => "copyFile"@,
        FsApi::RenameFile { .. } => "renameFile"@,
        FsApi::OpenDialog { .. } => "openDialog"@,
        FsApi::OpenFile { .. } => "openFile"@,
        FsApi::CreateDir { .. } => "createDir"@,
        FsApi::CreateFile { .. } => "createFile"@,
        FsApi::RemoveDir { .. } => "removeDir"@,
        FsApi::RemoveFile { .. } => "removeFile"@,
        FsApi::OpenMultipleFile { .. } => "openMultipleFile"@,
        FsApi::OpenDir { .. } => "openDir"@,
        FsApi::SelectFolder { .. } => "selectFolder"@,
        FsApi::SaveFile { .. } => "saveFile"@,
    }
}

/// The trailing callback fields every replying operation carries.
pub open spec fn cb_text(s: Seq<char>, e: Seq<char>) -> Seq<char> {
    ",\"successCallback\":"@ + quoted(s) + ",\"errorCallback\":"@ + quoted(e) + "}}"@
}

/// The text of an optional string array: `null` when absent.
pub open spec fn opt_sarr_text(o: Option<Seq<Seq<char>>>) -> Seq<char> {
    match o {
        Option::None => "null"@,
        Option::Some(ts) => sarr_text(ts),
    }
}

/// The views of an optional vector of strings.
pub open spec fn opt_views(o: Option<Vec<String>>) -> Option<Seq<Seq<char>>> {
    match o {
        Option::None => Option::None,
        Option::Some(v) => Option::Some(str_views(v@)),
    }
}


/// The payload shape `{"path": ...}` with trailing callbacks.
pub open spec fn path_cbs_text(x: Seq<char>, s: Seq<char>, e: Seq<char>) -> Seq<char> {
    ":{\"path\":"@ + quoted(x) + cb_text(s, e)
}

/// The payload shape `{"from": ..., "to": ...}` with trailing callbacks.
pub open spec fn two_s_cbs_text(a: Seq<char>, b: Seq<char>, s: Seq<char>, e: Seq<char>) -> Seq<
    char,
> {
    ":{\"from\":"@ + quoted(a) + ",\"to\":"@ + quoted(b) + cb_text(s, e)
}

/// The payload shape of the dialog request.
pub open spec fn dialog_text(m: bool, o: Option<Seq<Seq<char>>>, s: Seq<char>, e: Seq<char>) -> Seq<
    char,
> {
    ":{\"multiple\":"@ + bool_text(m) + ",\"filter\":"@ + opt_sarr_text(o) + cb_text(s, e)
}

/// The payload shape `{"path": ...}` without callbacks.
pub open spec fn path_only_text(x: Seq<char>) -> Seq<char> {
    ":{\"path\":"@ + quoted(x) + "}}"@
}

/// The payload shape of the folder chooser: callbacks only.
pub open spec fn sel_text(s: Seq<char>, e: Seq<char>) -> Seq<char> {
    ":{\"successCallback\":"@ + quoted(s) + ",\"errorCallback\":"@ + quoted(e) + "}}"@
}

/// The payload shape of the save request.
pub open spec fn save_text(
    x: Seq<char>,
    bs: Seq<u8>,
    m: Seq<char>,
    s: Seq<char>,
    e: Seq<char>,
) -> Seq<char> {
    ":{\"path\":"@ + quoted(x) + ",\"content\":"@ + barr_text(bs) + ",\"mode\":"@ + quoted(m)
        + cb_text(s, e)
}

/// The payload shape `{"path": ..., "format": ...}` without callbacks.
pub open spec fn path_fmt_text(x: Seq<char>, o: Option<Seq<Seq<char>>>) -> Seq<char> {
    ":{\"path\":"@ + quoted(x) + ",\"format\":"@ + opt_sarr_text(o) + "}}"@
}

/// The payload of a filesystem request: everything after its operation tag.
pub open spec fn fs_rest(f: FsApi) -> Seq<char> {
    match f {
        FsApi::ReadDir { path, success_callback, error_callback } => path_cbs_text(
            path@,
            success_callback@,
            error_callback@,
        ),
        FsApi::ReadTextFile { path, success_callback, error_callback } => path_cbs_text(
            path@,
            success_callback@,
            error_callback@,
        ),
        FsApi::CopyFile { from, to, success_callback, error_callback } => two_s_cbs_text(
            from@,
            to@,
            success_callback@,
            error_callback@,
        ),
        FsApi::RenameFile { from, to, success_callback, error_callback } => two_s_cbs_text(
            from@,
            to@,
            success_callback@,
            error_callback@,
        ),
        FsApi::OpenDialog { multiple, filter, success_callback, error_callback } => dialog_text(
            multiple,
            opt_views(filter),
            success_callback@,
            error_callback@,
        ),
        FsApi::OpenFile { path, format } => path_fmt_text(path@, opt_views(format)),
        FsApi::CreateDir { path, success_callback, error_callback } => path_cbs_text(
            path@,
            success_callback@,
            error_callback@,
        ),
        FsApi::CreateFile { path, success_callback, error_callback } => path_cbs_text(
            path@,
            success_callback@,
            error_callback@,
        ),
        FsApi::RemoveDir { path, success_callback, error_callback } => path_cbs_text(
            path@,
            success_callback@,
            error_callback@,
        ),
        FsApi::RemoveFile { path, success_callback, error_callback } => path_cbs_text(
            path@,
            success_callback@,
            error_callback@,
        ),
        FsApi::OpenMultipleFile { path, format } => path_fmt_text(path@, opt_views(format)),
        FsApi::OpenDir { path } => path_only_text(path@),
        FsApi::SelectFolder { success_callback, error_callback } => sel_text(
            success_callback@,
            error_callback@,
        ),
        FsApi::SaveFile { path, content, mode, success_callback, error_callback } => save_text(
            path@,
            content@,
            mode@,
            success_callback@,
            error_callback@,
        ),
    }
}

/// The canonical wire text of a filesystem request.
pub open spec fn fs_text(f: FsApi) -> Seq<char> {
    seq!['{'] + quoted(fs_tag(f)) + fs_rest(f)
}

/// The operation tag of a window request.
pub open spec fn win_tag(w: WindowProxy) -> Seq<char> {
    match w {
        WindowProxy::SetTitle { .. } => "setTitle"@,
        WindowProxy::SetFullscreen { .. } => "setFullscreen"@,
    }
}

/// The payload shape `{"title": ...}` with trailing callbacks.
pub open spec fn title_cbs_text(x: Seq<char>, s: Seq<char>, e: Seq<char>) -> Seq<char> {
    ":{\"title\":"@ + quoted(x) + cb_text(s, e)
}

/// The payload shape `{"fullscreen": ...}` with trailing callbacks.
pub open spec fn fullscreen_cbs_text(m: bool, s: Seq<char>, e: Seq<char>) -> Seq<char> {
    ":{\"fullscreen\":"@ + bool_text(m) + cb_text(s, e)
}

/// The payload of a window request: everything after its operation tag.
pub open spec fn win_rest(w: WindowProxy) -> Seq<char> {
    match w {
        WindowProxy::SetTitle { title, success_callback, error_callback } => title_cbs_text(
            title@,
            success_callback@,
            error_callback@,
        ),
        WindowProxy::SetFullscreen { fullscreen, success_callback, error_callback } => {
            fullscreen_cbs_text(fullscreen, success_callback@, error_callback@)
        },
    }
}

/// The canonical wire text of a window request.
pub open spec fn window_text(w: WindowProxy) -> Seq<char> {
    seq!['{'] + quoted(win_tag(w)) + win_rest(w)
}

/// The payload shape of the notification request.
pub open spec fn notify_rest_text(
    a: Seq<char>,
    b: Seq<char>,
    t: int,
    s: Seq<char>,
    e: Seq<char>,
) -> Seq<char> {
    ":{\"summary\":"@ + quoted(a) + ",\"body\":"@ + quoted(b) + ",\"timeout\":"@ + int_text(t)
        + cb_text(s, e)
}

/// The canonical wire text of a notification request.
pub open spec fn notify_text(n: Notify) -> Seq<char> {
    match n {
        Notify::ShowNotification { summary, body, timeout, success_callback, error_callback } => {
            seq!['{'] + quoted("showNotification"@) + notify_rest_text(
                summary@,
                body@,
                timeout as int,
                success_callback@,
                error_callback@,
            )
        },
    }
}

/// The payload shape of the subprocess request.
pub open spec fn exec_rest_text(
    a: Seq<char>,
    b: Seq<char>,
    m: bool,
    s: Seq<char>,
    e: Seq<char>,
) -> Seq<char> {
    ":{\"cmd\":"@ + quoted(a) + ",\"cwd\":"@ + quoted(b) + ",\"streamOutput\":"@ + bool_text(m)
        + cb_text(s, e)
}

/// The canonical wire text of a subprocess request.
pub open spec fn process_text(p: Process) -> Seq<char> {
    match p {
        Process::Exec { cmd, cwd, stream_output, success_callback, error_callback } => {
            seq!['{'] + quoted("exec"@) + exec_rest_text(
                cmd@,
                cwd@,
                stream_output,
                success_callback@,
                error_callback@,
            )
        },
    }
}

/// The payload of a command: the full text of its family.
pub open spec fn cmd_body(c: Cmd) -> Seq<char> {
    match c {
        Cmd::FileSystem(f) => fs_text(f),
        Cmd::Notification(n) => notify_text(n),
        Cmd::SubProcess(p) => process_text(p),
        Cmd::Window(w) => window_text(w),
    }
}

/// The canonical wire text of a command.
pub open spec fn cmd_text(c: Cmd) -> Seq<char> {
    seq!['{'] + quoted(cmd_tag(c)) + seq![':'] + cmd_body(c) + seq!['}']
}

/// Appends the trailing callback fields.
fn write_cbs(out: &mut String, success_callback: &str, error_callback: &str)
    ensures
        final(out)@ == old(out)@ + cb_text(success_callback@, error_callback@),
{
    out.append(",\"successCallback\":");
    write_qstr(out, success_callback);
    out.append(",\"errorCallback\":");
    write_qstr(out, error_callback);
    out.append("}}");
    assert(final(out)@ =~= old(out)@ + cb_text(success_callback@, error_callback@));
}

/// Appends the text of an optional string array.
fn write_opt_sarr(out: &mut String, o: &Option<Vec<String>>)
    ensures
        final(out)@ == old(out)@ + opt_sarr_text(opt_views(*o)),
{
    match o {
        Option::None => {
            out.append("null");
        },
        Option::Some(items) => {
            write_sarr(out, items);
        },
    }
}

/// Appends the canonical text of a filesystem request.
#[verifier::rlimit(100)]
#[verifier::spinoff_prover]
fn write_fs(out: &mut String, f: &FsApi)
    ensures
        final(out)@ == old(out)@ + fs_text(*f),
{
    push_str_char(out, '{');
    match f {
        FsApi::ReadDir { path, success_callback, error_callback } => {
            write_qstr(out, "readDir");
            out.append(":{\"path\":");
            write_qstr(out, path.as_str());
            write_cbs(out, success_callback.as_str(), error_callback.as_str());
            assert(out@ =~= old(out)@ + fs_text(*f));
        },
        FsApi::ReadTextFile { path, success_callback, error_callback } => {
            write_qstr(out, "readTextFile");
            out.append(":{\"path\":");
            write_qstr(out, path.as_str());
            write_cbs(out, success_callback.as_str(), error_callback.as_str());
            assert(out@ =~= old(out)@ + fs_text(*f));
        },
        FsApi::CopyFile { from, to, success_callback, error_callback } => {
            write_qstr(out, "copyFile");
            out.append(":{\"from\":");
            write_qstr(out, from.as_str());
            out.append(",\"to\":");
            write_qstr(out, to.as_str());
            write_cbs(out, success_callback.as_str(), error_callback.as_str());
            assert(out@ =~= old(out)@ + fs_text(*f));
        },
        FsApi::RenameFile { from, to, success_callback, error_callback } => {
            write_qstr(out, "renameFile");
            out.append(":{\"from\":");
            write_qstr(out, from.as_str());
            out.append(",\"to\":");
            write_qstr(out, to.as_str());
            write_cbs(out, success_callback.as_str(), error_callback.as_str());
            assert(out@ =~= old(out)@ + fs_text(*f));
        },
        FsApi::OpenDialog { multiple, filter, success_callback, error_callback } => {
            write_qstr(out, "openDialog");
            out.append(":{\"multiple\":");
            write_bool(out, *multiple);
            out.append(",\"filter\":");
            write_opt_sarr(out, filter);
            write_cbs(out, success_callback.as_str(), error_callback.as_str());
            assert(out@ =~= old(out)@ + fs_text(*f));
        },
        FsApi::OpenFile { path, format } => {
            write_qstr(out, "openFile");
            out.append(":{\"path\":");
            write_qstr(out, path.as_str());
            out.append(",\"format\":");
            write_opt_sarr(out, format);
            out.append("}}");
            assert(out@ =~= old(out)@ + fs_text(*f));
        },
        FsApi::CreateDir { path, success_callback, error_callback } => {
            write_qstr(out, "createDir");
            out.append(":{\"path\":");
            write_qstr(out, path.as_str());
            write_cbs(out, success_callback.as_str(), error_callback.as_str());
            assert(out@ =~= old(out)@ + fs_text(*f));
        },
        FsApi::CreateFile { path, success_callback, error_callback } => {
            write_qstr(out, "createFile");
            out.append(":{\"path\":");
            write_qstr(out, path.as_str());
            write_cbs(out, success_callback.as_str(), error_callback.as_str());
            assert(out@ =~= old(out)@ + fs_text(*f));
        },
        FsApi::RemoveDir { path, success_callback, error_callback } => {
            write_qstr(out, "removeDir");
            out.append(":{\"path\":");
            write_qstr(out, path.as_str());
            write_cbs(out, success_callback.as_str(), error_callback.as_str());
            assert(out@ =~= old(out)@ + fs_text(*f));
        },
        FsApi::RemoveFile { path, success_callback, error_callback } => {
            write_qstr(out, "removeFile");
            out.append(":{\"path\":");
            write_qstr(out, path.as_str());
            write_cbs(out, success_callback.as_str(), error_callback.as_str());
            assert(out@ =~= old(out)@ + fs_text(*f));
        },
        FsApi::OpenMultipleFile { path, format } => {
            write_qstr(out, "openMultipleFile");
            out.append(":{\"path\":");
            write_qstr(out, path.as_str());
            out.append(",\"format\":");
            write_opt_sarr(out, format);
            out.append("}}");
            assert(out@ =~= old(out)@ + fs_text(*f));
        },
        FsApi::OpenDir { path } => {
            write_qstr(out, "openDir");
            out.append(":{\"path\":");
            write_qstr(out, path.as_str());
            out.append("}}");
            assert(out@ =~= old(out)@ + fs_text(*f));
        },
        FsApi::SelectFolder { success_callback, error_callback } => {
            write_qstr(out, "selectFolder");
            out.append(":{\"successCallback\":");
            write_qstr(out, success_callback.as_str());
            out.append(",\"errorCallback\":");
            write_qstr(out, error_callback.as_str());
            out.append("}}");
            assert(out@ =~= old(out)@ + fs_text(*f));
        },
        FsApi::SaveFile { path, content, mode, success_callback, error_callback } => {
            write_qstr(out, "saveFile");
            out.append(":{\"path\":");
            write_qstr(out, path.as_str());
            out.append(",\"content\":");
            write_barr(out, content);
            out.append(",\"mode\":");
            write_qstr(out, mode.as_str());
            write_cbs(out, success_callback.as_str(), error_callback.as_str());
            assert(out@ =~= old(out)@ + fs_text(*f));
        },
    }
}

/// Appends one character to the output.
fn push_str_char(out: &mut String, c: char)
    ensures
        final(out)@ == old(out)@.push(c),
{
    crate::codec::push_char(out, c);
}

/// Produces the canonical wire text of a command.
#[verifier::rlimit(100)]
pub fn encode_cmd(c: &Cmd) -> (r: String)
    ensures
        r@ == cmd_text(*c),
{
    let mut out = String::new();
    push_str_char(&mut out, '{');
    match c {
        Cmd::FileSystem(f) => {
            write_qstr(&mut out, "fileSystem");
            push_str_char(&mut out, ':');
            write_fs(&mut out, f);
        },
        Cmd::Notification(n) => {
            write_qstr(&mut out, "notification");
            push_str_char(&mut out, ':');
            match n {
                Notify::ShowNotification {
                    summary,
                    body,
                    timeout,
                    success_callback,
                    error_callback,
                } => {
                    push_str_char(&mut out, '{');
                    write_qstr(&mut out, "showNotification");
                    out.append(":{\"summary\":");
                    write_qstr(&mut out, summary.as_str());
                    out.append(",\"body\":");
                    write_qstr(&mut out, body.as_str());
                    out.append(",\"timeout\":");
                    write_i32(&mut out, *timeout);
                    write_cbs(&mut out, success_callback.as_str(), error_callback.as_str());
                },
            }
        },
        Cmd::SubProcess(p) => {
            write_qstr(&mut out, "subProcess");
            push_str_char(&mut out, ':');
            match p {
                Process::Exec { cmd, cwd, stream_output, success_callback, error_callback } => {
                    push_str_char(&mut out, '{');
                    write_qstr(&mut out, "exec");
                    out.append(":{\"cmd\":");
                    write_qstr(&mut out, cmd.as_str());
                    out.append(",\"cwd\":");
                    write_qstr(&mut out, cwd.as_str());
                    out.append(",\"streamOutput\":");
                    write_bool(&mut out, *stream_output);
                    write_cbs(&mut out, success_callback.as_str(), error_callback.as_str());
                },
            }
        },
        Cmd::Window(w) => {
            write_qstr(&mut out, "window");
            push_str_char(&mut out, ':');
            match w {
                WindowProxy::SetTitle { title, success_callback, error_callback } => {
                    push_str_char(&mut out, '{');
                    write_qstr(&mut out, "setTitle");
                    out.append(":{\"title\":");
                    write_qstr(&mut out, title.as_str());
                    write_cbs(&mut out, success_callback.as_str(), error_callback.as_str());
                },
                WindowProxy::SetFullscreen { fullscreen, success_callback, error_callback } => {
                    push_str_char(&mut out, '{');
                    write_qstr(&mut out, "setFullscreen");
                    out.append(":{\"fullscreen\":");
                    write_bool(&mut out, *fullscreen);
                    write_cbs(&mut out, success_callback.as_str(), error_callback.as_str());
                },
            }
        },
    }
    push_str_char(&mut out, '}');
    assert(out@ =~= cmd_text(*c));
    out
}

/// Parses the trailing callback fields.
#[verifier::rlimit(100)]
#[verifier::spinoff_prover]
fn parse_cbs(input: &Vec<char>, pos: usize) -> (r: Option<(String, String, usize)>)
    requires
        pos <= input@.len(),
    ensures
        r matches Some(t) ==> pos <= t.2 <= input@.len() && input@.subrange(
            pos as int,
            t.2 as int,
        ) == cb_text(t.0@, t.1@),
        forall|s: Seq<char>, e: Seq<char>| lit_at(input@, pos as int, #[trigger] cb_text(s, e))
            ==> (r matches Some(t) && t.0@ == s && t.1@ == e && t.2 == pos + cb_text(s, e).len()),
{
    proof {
        assert forall|s: Seq<char>, e: Seq<char>| lit_at(
            input@,
            pos as int,
            #[trigger] cb_text(s, e),
        ) implies lit_at(input@, pos as int, ",\"successCallback\":"@) && qstr_at(
            input@,
            pos + ",\"successCallback\":"@.len(),
            s,
        ) && lit_at(
            input@,
            pos + ",\"successCallback\":"@.len() + quoted(s).len(),
            ",\"errorCallback\":"@ + (quoted(e) + "}}"@),
        ) by {
            assert(cb_text(s, e) =~= ",\"successCallback\":"@ + (quoted(s) + (
            ",\"errorCallback\":"@ + (quoted(e) + "}}"@))));
            lemma_lit_split(
                input@,
                pos as int,
                ",\"successCallback\":"@,
                quoted(s) + (",\"errorCallback\":"@ + (quoted(e) + "}}"@)),
            );
            lemma_lit_split(
                input@,
                pos + ",\"successCallback\":"@.len(),
                quoted(s),
                ",\"errorCallback\":"@ + (quoted(e) + "}}"@),
            );
        }
    }
    let p1 = match tag(input, pos, ",\"successCallback\":") {
        Some(p) => p,
        None => {
            return None;
        },
    };
    let (success_callback, p2) = match parse_qstr(input, p1) {
        Some(t) => t,
        None => {
            return None;
        },
    };
    proof {
        assert forall|s: Seq<char>, e: Seq<char>| lit_at(
            input@,
            pos as int,
            #[trigger] cb_text(s, e),
        ) implies s == success_callback@ && lit_at(input@, p2 as int, ",\"errorCallback\":"@)
            && qstr_at(input@, p2 + ",\"errorCallback\":"@.len(), e) && lit_at(
            input@,
            p2 + ",\"errorCallback\":"@.len() + quoted(e).len(),
            "}}"@,
        ) by {
            lemma_lit_split(
                input@,
                p2 as int,
                ",\"errorCallback\":"@,
                quoted(e) + "}}"@,
            );
            lemma_lit_split(input@, p2 + ",\"errorCallback\":"@.len(), quoted(e), "}}"@);
        }
    }
    let p3 = match tag(input, p2, ",\"errorCallback\":") {
        Some(p) => p,
        None => {
            return None;
        },
    };
    let (error_callback, p4) = match parse_qstr(input, p3) {
        Some(t) => t,
        None => {
            return None;
        },
    };
    let p5 = match tag(input, p4, "}}") {
        Some(p) => p,
        None => {
            return None;
        },
    };
    proof {
        lemma_lit_split(input@, pos as int, ",\"successCallback\":"@, quoted(success_callback@));
        lemma_lit_split(
            input@,
            pos as int,
            ",\"successCallback\":"@ + quoted(success_callback@),
            ",\"errorCallback\":"@,
        );
        lemma_lit_split(
            input@,
            pos as int,
            (",\"successCallback\":"@ + quoted(success_callback@)) + ",\"errorCallback\":"@,
            quoted(error_callback@),
        );
        lemma_lit_split(
            input@,
            pos as int,
            ((",\"successCallback\":"@ + quoted(success_callback@)) + ",\"errorCallback\":"@)
                + quoted(error_callback@),
            "}}"@,
        );
        assert((((",\"successCallback\":"@ + quoted(success_callback@)) + ",\"errorCallback\":"@)
            + quoted(error_callback@)) + "}}"@ =~= cb_text(success_callback@, error_callback@));
        assert(input@.subrange(pos as int, p5 as int) == cb_text(
            success_callback@,
            error_callback@,
        ));
    }
    Some((success_callback, error_callback, p5))
}

/// Parses the `{"path": ...}` payload with trailing callbacks.
#[verifier::rlimit(100)]
#[verifier::spinoff_prover]
fn parse_path_cbs(input: &Vec<char>, pos: usize) -> (r: Option<(String, String, String, usize)>)
    requires
        pos <= input@.len(),
    ensures
        r matches Some(t) ==> pos <= t.3 <= input@.len() && input@.subrange(
            pos as int,
            t.3 as int,
        ) == path_cbs_text(t.0@, t.1@, t.2@),
        forall|x: Seq<char>, s: Seq<char>, e: Seq<char>| lit_at(
            input@,
            pos as int,
            #[trigger] path_cbs_text(x, s, e),
        ) ==> (r matches Some(t) && t.0@ == x && t.1@ == s && t.2@ == e && t.3 == pos
            + path_cbs_text(x, s, e).len()),
{
    proof {
        assert forall|x: Seq<char>, s: Seq<char>, e: Seq<char>| lit_at(
            input@,
            pos as int,
            #[trigger] path_cbs_text(x, s, e),
        ) implies lit_at(input@, pos as int, ":{\"path\":"@) && qstr_at(
            input@,
            pos + ":{\"path\":"@.len(),
            x,
        ) && lit_at(input@, pos + ":{\"path\":"@.len() + quoted(x).len(), cb_text(s, e)) by {
            assert(path_cbs_text(x, s, e) =~= ":{\"path\":"@ + (quoted(x) + cb_text(s, e)));
            lemma_lit_split(input@, pos as int, ":{\"path\":"@, quoted(x) + cb_text(s, e));
            lemma_lit_split(input@, pos + ":{\"path\":"@.len(), quoted(x), cb_text(s, e));
        }
    }
    let p1 = match tag(input, pos, ":{\"path\":") {
        Some(p) => p,
        None => {
            return None;
        },
    };
    let (path, p2) = match parse_qstr(input, p1) {
        Some(t) => t,
        None => {
            return None;
        },
    };
    let (success_callback, error_callback, p3) = match parse_cbs(input, p2) {
        Some(t) => t,
        None => {
            return None;
        },
    };
    proof {
        lemma_lit_split(input@, pos as int, ":{\"path\":"@, quoted(path@));
        lemma_lit_split(
            input@,
            pos as int,
            ":{\"path\":"@ + quoted(path@),
            cb_text(success_callback@, error_callback@),
        );
        assert((":{\"path\":"@ + quoted(path@)) + cb_text(success_callback@, error_callback@)
            =~= path_cbs_text(path@, success_callback@, error_callback@));
        assert(input@.subrange(pos as int, p3 as int) == path_cbs_text(
            path@,
            success_callback@,
            error_callback@,
        ));
    }
    Some((path, success_callback, error_callback, p3))
}

/// Parses the `{"from": ..., "to": ...}` payload with trailing callbacks.
#[verifier::rlimit(100)]
#[verifier::spinoff_prover]
fn parse_2s_cbs(input: &Vec<char>, pos: usize) -> (r: Option<
    (String, String, String, String, usize),
>)
    requires
        pos <= input@.len(),
    ensures
        r matches Some(t) ==> pos <= t.4 <= input@.len() && input@.subrange(
            pos as int,
            t.4 as int,
        ) == two_s_cbs_text(t.0@, t.1@, t.2@, t.3@),
        forall|a: Seq<char>, b: Seq<char>, s: Seq<char>, e: Seq<char>| lit_at(
            input@,
            pos as int,
            #[trigger] two_s_cbs_text(a, b, s, e),
        ) ==> (r matches Some(t) && t.0@ == a && t.1@ == b && t.2@ == s && t.3@ == e && t.4 == pos
            + two_s_cbs_text(a, b, s, e).len()),
{
    proof {
        assert forall|a: Seq<char>, b: Seq<char>, s: Seq<char>, e: Seq<char>| lit_at(
            input@,
            pos as int,
            #[trigger] two_s_cbs_text(a, b, s, e),
        ) implies lit_at(input@, pos as int, ":{\"from\":"@) && qstr_at(
            input@,
            pos + ":{\"from\":"@.len(),
            a,
        ) && lit_at(input@, pos + ":{\"from\":"@.len() + quoted(a).len(), ",\"to\":"@) && qstr_at(
            input@,
            pos + ":{\"from\":"@.len() + quoted(a).len() + ",\"to\":"@.len(),
            b,
        ) && lit_at(
            input@,
            pos + ":{\"from\":"@.len() + quoted(a).len() + ",\"to\":"@.len() + quoted(b).len(),
            cb_text(s, e),
        ) by {
            assert(two_s_cbs_text(a, b, s, e) =~= ":{\"from\":"@ + (quoted(a) + (",\"to\":"@ + (
            quoted(b) + cb_text(s, e)))));
            lemma_lit_split(
                input@,
                pos as int,
                ":{\"from\":"@,
                quoted(a) + (",\"to\":"@ + (quoted(b) + cb_text(s, e))),
            );
            lemma_lit_split(
                input@,
                pos + ":{\"from\":"@.len(),
                quoted(a),
                ",\"to\":"@ + (quoted(b) + cb_text(s, e)),
            );
            lemma_lit_split(
                input@,
                pos + ":{\"from\":"@.len() + quoted(a).len(),
                ",\"to\":"@,
                quoted(b) + cb_text(s, e),
            );
            lemma_lit_split(
                input@,
                pos + ":{\"from\":"@.len() + quoted(a).len() + ",\"to\":"@.len(),
                quoted(b),
                cb_text(s, e),
            );
        }
    }
    let p1 = match tag(input, pos, ":{\"from\":") {
        Some(p) => p,
        None => {
            return None;
        },
    };
    let (from, p2) = match parse_qstr(input, p1) {
        Some(t) => t,
        None => {
            return None;
        },
    };
    let p3 = match tag(input, p2, ",\"to\":") {
        Some(p) => p,
        None => {
            return None;
        },
    };
    let (to, p4) = match parse_qstr(input, p3) {
        Some(t) => t,
        None => {
            return None;
        },
    };
    let (success_callback, error_callback, p5) = match parse_cbs(input, p4) {
        Some(t) => t,
        None => {
            return None;
        },
    };
    proof {
        lemma_lit_split(input@, pos as int, ":{\"from\":"@, quoted(from@));
        lemma_lit_split(input@, pos as int, ":{\"from\":"@ + quoted(from@), ",\"to\":"@);
        lemma_lit_split(
            input@,
            pos as int,
            (":{\"from\":"@ + quoted(from@)) + ",\"to\":"@,
            quoted(to@),
        );
        lemma_lit_split(
            input@,
            pos as int,
            ((":{\"from\":"@ + quoted(from@)) + ",\"to\":"@) + quoted(to@),
            cb_text(success_callback@, error_callback@),
        );
        assert((((":{\"from\":"@ + quoted(from@)) + ",\"to\":"@) + quoted(to@)) + cb_text(
            success_callback@,
            error_callback@,
        ) =~= two_s_cbs_text(from@, to@, success_callback@, error_callback@));
        assert(input@.subrange(pos as int, p5 as int) == two_s_cbs_text(
            from@,
            to@,
            success_callback@,
            error_callback@,
        ));
    }
    Some((from, to, success_callback, error_callback, p5))
}

/// Parses an optional string array: `null` or a canonical array.
#[verifier::rlimit(100)]
#[verifier::spinoff_prover]
fn parse_opt_sarr(input: &Vec<char>, pos: usize) -> (r: Option<(Option<Vec<String>>, usize)>)
    requires
        pos <= input@.len(),
    ensures
        r matches Some(t) ==> pos <= t.1 <= input@.len() && input@.subrange(
            pos as int,
            t.1 as int,
        ) == opt_sarr_text(opt_views(t.0)),
        forall|o: Option<Seq<Seq<char>>>| lit_at(input@, pos as int, #[trigger] opt_sarr_text(o))
            ==> (r matches Some(t) && opt_views(t.0) == o && t.1 == pos + opt_sarr_text(o).len()),
{
    proof {
        reveal_strlit("null");
        reveal_strlit("[");
        assert("null"@.len() == 4);
    }
    if let Some(p) = tag(input, pos, "null") {
        proof {
            assert forall|o: Option<Seq<Seq<char>>>| lit_at(
                input@,
                pos as int,
                #[trigger] opt_sarr_text(o),
            ) implies o is None && pos + opt_sarr_text(o).len() == p by {
                match o {
                    Option::Some(ts) => {
                        assert(input@.subrange(pos as int, pos + sarr_text(ts).len())[0]
                            == sarr_text(ts)[0]);
                        assert(input@.subrange(pos as int, pos + 4)[0] == 'n');
                        assert(sarr_text(ts)[0] == '[');
                    },
                    Option::None => {},
                }
            }
            assert(opt_views(Option::<Vec<String>>::None) == Option::<Seq<Seq<char>>>::None);
        }
        Some((None, p))
    } else {
        match parse_sarr(input, pos) {
            Some((items, p)) => {
                proof {
                    assert forall|o: Option<Seq<Seq<char>>>| lit_at(
                        input@,
                        pos as int,
                        #[trigger] opt_sarr_text(o),
                    ) implies o == opt_views(Option::Some(items)) && pos + opt_sarr_text(o).len()
                        == p by {
                        if o is None {
                            assert(lit_at(input@, pos as int, "null"@));
                        }
                    }
                }
                Some((Some(items), p))
            },
            None => {
                proof {
                    assert forall|o: Option<Seq<Seq<char>>>| !lit_at(
                        input@,
                        pos as int,
                        #[trigger] opt_sarr_text(o),
                    ) by {
                        if lit_at(input@, pos as int, opt_sarr_text(o)) {
                            match o {
                                Option::Some(ts) => {
                                    assert(lit_at(input@, pos as int, sarr_text(ts)));
                                },
                                Option::None => {
                                    assert(lit_at(input@, pos as int, "null"@));
                                },
                            }
                        }
                    }
                }
                None
            },
        }
    }
}

/// Parses the `{"path": ..., "format": ...}` payload.
#[verifier::rlimit(100)]
#[verifier::spinoff_prover]
fn parse_path_fmt(input: &Vec<char>, pos: usize) -> (r: Option<
    (String, Option<Vec<String>>, usize),
>)
    requires
        pos <= input@.len(),
    ensures
        r matches Some(t) ==> pos <= t.2 <= input@.len() && input@.subrange(
            pos as int,
            t.2 as int,
        ) == path_fmt_text(t.0@, opt_views(t.1)),
        forall|x: Seq<char>, o: Option<Seq<Seq<char>>>| lit_at(
            input@,
            pos as int,
            #[trigger] path_fmt_text(x, o),
        ) ==> (r matches Some(t) && t.0@ == x && opt_views(t.1) == o && t.2 == pos + path_fmt_text(
            x,
            o,
        ).len()),
{
    proof {
        assert forall|x: Seq<char>, o: Option<Seq<Seq<char>>>| lit_at(
            input@,
            pos as int,
            #[trigger] path_fmt_text(x, o),
        ) implies lit_at(input@, pos as int, ":{\"path\":"@) && qstr_at(
            input@,
            pos + ":{\"path\":"@.len(),
            x,
        ) && lit_at(input@, pos + ":{\"path\":"@.len() + quoted(x).len(), ",\"format\":"@)
            && lit_at(
            input@,
            pos + ":{\"path\":"@.len() + quoted(x).len() + ",\"format\":"@.len(),
            opt_sarr_text(o),
        ) && lit_at(
            input@,
            pos + ":{\"path\":"@.len() + quoted(x).len() + ",\"format\":"@.len() + opt_sarr_text(
                o,
            ).len(),
            "}}"@,
        ) by {
            assert(path_fmt_text(x, o) =~= ":{\"path\":"@ + (quoted(x) + (",\"format\":"@ + (
            opt_sarr_text(o) + "}}"@))));
            lemma_lit_split(
                input@,
                pos as int,
                ":{\"path\":"@,
                quoted(x) + (",\"format\":"@ + (opt_sarr_text(o) + "}}"@)),
            );
            lemma_lit_split(
                input@,
                pos + ":{\"path\":"@.len(),
                quoted(x),
                ",\"format\":"@ + (opt_sarr_text(o) + "}}"@),
            );
            lemma_lit_split(
                input@,
                pos + ":{\"path\":"@.len() + quoted(x).len(),
                ",\"format\":"@,
                opt_sarr_text(o) + "}}"@,
            );
            lemma_lit_split(
                input@,
                pos + ":{\"path\":"@.len() + quoted(x).len() + ",\"format\":"@.len(),
                opt_sarr_text(o),
                "}}"@,
            );
        }
    }
    let p1 = match tag(input, pos, ":{\"path\":") {
        Some(p) => p,
        None => {
            return None;
        },
    };
    let (path, p2) = match parse_qstr(input, p1) {
        Some(t) => t,
        None => {
            return None;
        },
    };
    let p3 = match tag(input, p2, ",\"format\":") {
        Some(p) => p,
        None => {
            return None;
        },
    };
    let (format, p4) = match parse_opt_sarr(input, p3) {
        Some(t) => t,
        None => {
            return None;
        },
    };
    let p5 = match tag(input, p4, "}}") {
        Some(p) => p,
        None => {
            return None;
        },
    };
    proof {
        lemma_lit_split(input@, pos as int, ":{\"path\":"@, quoted(path@));
        lemma_lit_split(input@, pos as int, ":{\"path\":"@ + quoted(path@), ",\"format\":"@);
        lemma_lit_split(
            input@,
            pos as int,
            (":{\"path\":"@ + quoted(path@)) + ",\"format\":"@,
            opt_sarr_text(opt_views(format)),
        );
        lemma_lit_split(
            input@,
            pos as int,
            ((":{\"path\":"@ + quoted(path@)) + ",\"format\":"@) + opt_sarr_text(
                opt_views(format),
            ),
            "}}"@,
        );
        assert((((":{\"path\":"@ + quoted(path@)) + ",\"format\":"@) + opt_sarr_text(
            opt_views(format),
        )) + "}}"@ =~= path_fmt_text(path@, opt_views(format)));
        assert(input@.subrange(pos as int, p5 as int) == path_fmt_text(
            path@,
            opt_views(format),
        ));
    }
    Some((path, format, p5))
}

/// Parses the dialog payload.
#[verifier::rlimit(100)]
#[verifier::spinoff_prover]
fn parse_dialog(input: &Vec<char>, pos: usize) -> (r: Option<(bool, Option<Vec<String>>, String, String, usize)>)
    requires
        pos <= input@.len(),
    ensures
        r matches Some(t) ==> pos <= t.4 <= input@.len() && input@.subrange(
            pos as int,
            t.4 as int,
        ) == dialog_text(t.0, opt_views(t.1), t.2@, t.3@),
        forall|m: bool, o: Option<Seq<Seq<char>>>, s: Seq<char>, e: Seq<char>| lit_at(
            input@,
            pos as int,
            #[trigger] dialog_text(m, o, s, e),
        ) ==> (r matches Some(t) && t.0 == m && opt_views(t.1) == o && t.2@ == s && t.3@ == e && t.4 == pos
            + dialog_text(m, o, s, e).len()),
{
    proof {
        assert forall|m: bool, o: Option<Seq<Seq<char>>>, s: Seq<char>, e: Seq<char>| lit_at(
            input@,
            pos as int,
            #[trigger] dialog_text(m, o, s, e),
        ) implies lit_at(input@, pos as int, ":{\"multiple\":"@) && lit_at(input@, pos as int + ":{\"multiple\":"@.len(), bool_text(m)) && lit_at(input@, pos as int + ":{\"multiple\":"@.len() + bool_text(m).len(), ",\"filter\":"@) && lit_at(input@, pos as int + ":{\"multiple\":"@.len() + bool_text(m).len() + ",\"filter\":"@.len(), opt_sarr_text(o)) && lit_at(input@, pos as int + ":{\"multiple\":"@.len() + bool_text(m).len() + ",\"filter\":"@.len() + opt_sarr_text(o).len(), cb_text(s, e)) by {
            assert(dialog_text(m, o, s, e) =~= ":{\"multiple\":"@ + (bool_text(m) + (",\"filter\":"@ + (opt_sarr_text(o) + (cb_text(s, e))))));
            lemma_lit_split(input@, pos as int, ":{\"multiple\":"@, bool_text(m) + (",\"filter\":"@ + (opt_sarr_text(o) + (cb_text(s, e)))));
            lemma_lit_split(input@, pos as int + ":{\"multiple\":"@.len(), bool_text(m), ",\"filter\":"@ + (opt_sarr_text(o) + (cb_text(s, e))));
            lemma_lit_split(input@, pos as int + ":{\"multiple\":"@.len() + bool_text(m).len(), ",\"filter\":"@, opt_sarr_text(o) + (cb_text(s, e)));
            lemma_lit_split(input@, pos as int + ":{\"multiple\":"@.len() + bool_text(m).len() + ",\"filter\":"@.len(), opt_sarr_text(o), cb_text(s, e));
        }
    }
    let p1 = match tag(input, pos, ":{\"multiple\":") {
        Some(p) => p,
        None => { return None; },
    };
    let (multiple, p2) = match parse_bool(input, p1) {
        Some(t) => t,
        None => { return None; },
    };
    let p3 = match tag(input, p2, ",\"filter\":") {
        Some(p) => p,
        None => { return None; },
    };
    let (filter, p4) = match parse_opt_sarr(input, p3) {
        Some(t) => t,
        None => { return None; },
    };
    let (success_callback, error_callback, p5) = match parse_cbs(input, p4) {
        Some(t) => t,
        None => { return None; },
    };
    proof {
        lemma_lit_split(input@, pos as int, ":{\"multiple\":"@, bool_text(multiple));
        lemma_lit_split(input@, pos as int, (":{\"multiple\":"@) + bool_text(multiple), ",\"filter\":"@);
        lemma_lit_split(input@, pos as int, ((":{\"multiple\":"@) + bool_text(multiple)) + ",\"filter\":"@, opt_sarr_text(opt_views(filter)));
        lemma_lit_split(input@, pos as int, (((":{\"multiple\":"@) + bool_text(multiple)) + ",\"filter\":"@) + opt_sarr_text(opt_views(filter)), cb_text(success_callback@, error_callback@));
        assert(((((":{\"multiple\":"@) + bool_text(multiple)) + ",\"filter\":"@) + opt_sarr_text(opt_views(filter))) + cb_text(success_callback@, error_callback@) =~= dialog_text(multiple, opt_views(filter), success_callback@, error_callback@));
        assert(input@.subrange(pos as int, p5 as int) == dialog_text(multiple, opt_views(filter), success_callback@, error_callback@));
    }
    Some((multiple, filter, success_callback, error_callback, p5))
}

/// Parses the bare path payload.
#[verifier::rlimit(100)]
#[verifier::spinoff_prover]
fn parse_path_only(input: &Vec<char>, pos: usize) -> (r: Option<(String, usize)>)
    requires
        pos <= input@.len(),
    ensures
        r matches Some(t) ==> pos <= t.1 <= input@.len() && input@.subrange(
            pos as int,
            t.1 as int,
        ) == path_only_text(t.0@),
        forall|x: Seq<char>| lit_at(
            input@,
            pos as int,
            #[trigger] path_only_text(x),
        ) ==> (r matches Some(t) && t.0@ == x && t.1 == pos
            + path_only_text(x).len()),
{
    proof {
        assert forall|x: Seq<char>| lit_at(
            input@,
            pos as int,
            #[trigger] path_only_text(x),
        ) implies lit_at(input@, pos as int, ":{\"path\":"@) && qstr_at(input@, pos as int + ":{\"path\":"@.len(), x) && lit_at(input@, pos as int + ":{\"path\":"@.len() + quoted(x).len(), "}}"@) by {
            assert(path_only_text(x) =~= ":{\"path\":"@ + (quoted(x) + ("}}"@)));
            lemma_lit_split(input@, pos as int, ":{\"path\":"@, quoted(x) + ("}}"@));
            lemma_lit_split(input@, pos as int + ":{\"path\":"@.len(), quoted(x), "}}"@);
        }
    }
    let p1 = match tag(input, pos, ":{\"path\":") {
        Some(p) => p,
        None => { return None; },
    };
    let (path, p2) = match parse_qstr(input, p1) {
        Some(t) => t,
        None => { return None; },
    };
    let p3 = match tag(input, p2, "}}") {
        Some(p) => p,
        None => { return None; },
    };
    proof {
        lemma_lit_split(input@, pos as int, ":{\"path\":"@, quoted(path@));
        lemma_lit_split(input@, pos as int, (":{\"path\":"@) + quoted(path@), "}}"@);
        assert(((":{\"path\":"@) + quoted(path@)) + "}}"@ =~= path_only_text(path@));
        assert(input@.subrange(pos as int, p3 as int) == path_only_text(path@));
    }
    Some((path, p3))
}

/// Parses the folder-chooser payload: callbacks only.
#[verifier::rlimit(100)]
#[verifier::spinoff_prover]
fn parse_sel(input: &Vec<char>, pos: usize) -> (r: Option<(String, String, usize)>)
    requires
        pos <= input@.len(),
    ensures
        r matches Some(t) ==> pos <= t.2 <= input@.len() && input@.subrange(
            pos as int,
            t.2 as int,
        ) == sel_text(t.0@, t.1@),
        forall|s: Seq<char>, e: Seq<char>| lit_at(
            input@,
            pos as int,
            #[trigger] sel_text(s, e),
        ) ==> (r matches Some(t) && t.0@ == s && t.1@ == e && t.2 == pos
            + sel_text(s, e).len()),
{
    proof {
        assert forall|s: Seq<char>, e: Seq<char>| lit_at(
            input@,
            pos as int,
            #[trigger] sel_text(s, e),
        ) implies lit_at(input@, pos as int, ":{\"successCallback\":"@) && qstr_at(input@, pos as int + ":{\"successCallback\":"@.len(), s) && lit_at(input@, pos as int + ":{\"successCallback\":"@.len() + quoted(s).len(), ",\"errorCallback\":"@) && qstr_at(input@, pos as int + ":{\"successCallback\":"@.len() + quoted(s).len() + ",\"errorCallback\":"@.len(), e) && lit_at(input@, pos as int + ":{\"successCallback\":"@.len() + quoted(s).len() + ",\"errorCallback\":"@.len() + quoted(e).len(), "}}"@) by {
            assert(sel_text(s, e) =~= ":{\"successCallback\":"@ + (quoted(s) + (",\"errorCallback\":"@ + (quoted(e) + ("}}"@)))));
            lemma_lit_split(input@, pos as int, ":{\"successCallback\":"@, quoted(s) + (",\"errorCallback\":"@ + (quoted(e) + ("}}"@))));
            lemma_lit_split(input@, pos as int + ":{\"successCallback\":"@.len(), quoted(s), ",\"errorCallback\":"@ + (quoted(e) + ("}}"@)));
            lemma_lit_split(input@, pos as int + ":{\"successCallback\":"@.len() + quoted(s).len(), ",\"errorCallback\":"@, quoted(e) + ("}}"@));
            lemma_lit_split(input@, pos as int + ":{\"successCallback\":"@.len() + quoted(s).len() + ",\"errorCallback\":"@.len(), quoted(e), "}}"@);
        }
    }
    let p1 = match tag(input, pos, ":{\"successCallback\":") {
        Some(p) => p,
        None => { return None; },
    };
    let (success_callback, p2) = match parse_qstr(input, p1) {
        Some(t) => t,
        None => { return None; },
    };
    let p3 = match tag(input, p2, ",\"errorCallback\":") {
        Some(p) => p,
        None => { return None; },
    };
    let (error_callback, p4) = match parse_qstr(input, p3) {
        Some(t) => t,
        None => { return None; },
    };
    let p5 = match tag(input, p4, "}}") {
        Some(p) => p,
        None => { return None; },
    };
    proof {
        lemma_lit_split(input@, pos as int, ":{\"successCallback\":"@, quoted(success_callback@));
        lemma_lit_split(input@, pos as int, (":{\"successCallback\":"@) + quoted(success_callback@), ",\"errorCallback\":"@);
        lemma_lit_split(input@, pos as int, ((":{\"successCallback\":"@) + quoted(success_callback@)) + ",\"errorCallback\":"@, quoted(error_callback@));
        lemma_lit_split(input@, pos as int, (((":{\"successCallback\":"@) + quoted(success_callback@)) + ",\"errorCallback\":"@) + quoted(error_callback@), "}}"@);
        assert(((((":{\"successCallback\":"@) + quoted(success_callback@)) + ",\"errorCallback\":"@) + quoted(error_callback@)) + "}}"@ =~= sel_text(success_callback@, error_callback@));
        assert(input@.subrange(pos as int, p5 as int) == sel_text(success_callback@, error_callback@));
    }
    Some((success_callback, error_callback, p5))
}

/// Parses the save payload.
#[verifier::rlimit(100)]
#[verifier::spinoff_prover]
fn parse_save(input: &Vec<char>, pos: usize) -> (r: Option<(String, Vec<u8>, String, String, String, usize)>)
    requires
        pos <= input@.len(),
    ensures
        r matches Some(t) ==> pos <= t.5 <= input@.len() && input@.subrange(
            pos as int,
            t.5 as int,
        ) == save_text(t.0@, t.1@, t.2@, t.3@, t.4@),
        forall|x: Seq<char>, bs: Seq<u8>, m: Seq<char>, s: Seq<char>, e: Seq<char>| lit_at(
            input@,
            pos as int,
            #[trigger] save_text(x, bs, m, s, e),
        ) ==> (r matches Some(t) && t.0@ == x && t.1@ == bs && t.2@ == m && t.3@ == s && t.4@ == e && t.5 == pos
            + save_text(x, bs, m, s, e).len()),
{
    proof {
        assert forall|x: Seq<char>, bs: Seq<u8>, m: Seq<char>, s: Seq<char>, e: Seq<char>| lit_at(
            input@,
            pos as int,
            #[trigger] save_text(x, bs, m, s, e),
        ) implies lit_at(input@, pos as int, ":{\"path\":"@) && qstr_at(input@, pos as int + ":{\"path\":"@.len(), x) && lit_at(input@, pos as int + ":{\"path\":"@.len() + quoted(x).len(), ",\"content\":"@) && lit_at(input@, pos as int + ":{\"path\":"@.len() + quoted(x).len() + ",\"content\":"@.len(), barr_text(bs)) && lit_at(input@, pos as int + ":{\"path\":"@.len() + quoted(x).len() + ",\"content\":"@.len() + barr_text(bs).len(), ",\"mode\":"@) && qstr_at(input@, pos as int + ":{\"path\":"@.len() + quoted(x).len() + ",\"content\":"@.len() + barr_text(bs).len() + ",\"mode\":"@.len(), m) && lit_at(input@, pos as int + ":{\"path\":"@.len() + quoted(x).len() + ",\"content\":"@.len() + barr_text(bs).len() + ",\"mode\":"@.len() + quoted(m).len(), cb_text(s, e)) by {
            assert(save_text(x, bs, m, s, e) =~= ":{\"path\":"@ + (quoted(x) + (",\"content\":"@ + (barr_text(bs) + (",\"mode\":"@ + (quoted(m) + (cb_text(s, e))))))));
            lemma_lit_split(input@, pos as int, ":{\"path\":"@, quoted(x) + (",\"content\":"@ + (barr_text(bs) + (",\"mode\":"@ + (quoted(m) + (cb_text(s, e)))))));
            lemma_lit_split(input@, pos as int + ":{\"path\":"@.len(), quoted(x), ",\"content\":"@ + (barr_text(bs) + (",\"mode\":"@ + (quoted(m) + (cb_text(s, e))))));
            lemma_lit_split(input@, pos as int + ":{\"path\":"@.len() + quoted(x).len(), ",\"content\":"@, barr_text(bs) + (",\"mode\":"@ + (quoted(m) + (cb_text(s, e)))));
            lemma_lit_split(input@, pos as int + ":{\"path\":"@.len() + quoted(x).len() + ",\"content\":"@.len(), barr_text(bs), ",\"mode\":"@ + (quoted(m) + (cb_text(s, e))));
            lemma_lit_split(input@, pos as int + ":{\"path\":"@.len() + quoted(x).len() + ",\"content\":"@.len() + barr_text(bs).len(), ",\"mode\":"@, quoted(m) + (cb_text(s, e)));
            lemma_lit_split(input@, pos as int + ":{\"path\":"@.len() + quoted(x).len() + ",\"content\":"@.len() + barr_text(bs).len() + ",\"mode\":"@.len(), quoted(m), cb_text(s, e));
        }
    }
    let p1 = match tag(input, pos, ":{\"path\":") {
        Some(p) => p,
        None => { return None; },
    };
    let (path, p2) = match parse_qstr(input, p1) {
        Some(t) => t,
        None => { return None; },
    };
    let p3 = match tag(input, p2, ",\"content\":") {
        Some(p) => p,
        None => { return None; },
    };
    let (content, p4) = match parse_barr(input, p3) {
        Some(t) => t,
        None => { return None; },
    };
    let p5 = match tag(input, p4, ",\"mode\":") {
        Some(p) => p,
        None => { return None; },
    };
    let (mode, p6) = match parse_qstr(input, p5) {
        Some(t) => t,
        None => { return None; },
    };
    let (success_callback, error_callback, p7) = match parse_cbs(input, p6) {
        Some(t) => t,
        None => { return None; },
    };
    proof {
        lemma_lit_split(input@, pos as int, ":{\"path\":"@, quoted(path@));
        lemma_lit_split(input@, pos as int, (":{\"path\":"@) + quoted(path@), ",\"content\":"@);
        lemma_lit_split(input@, pos as int, ((":{\"path\":"@) + quoted(path@)) + ",\"content\":"@, barr_text(content@));
        lemma_lit_split(input@, pos as int, (((":{\"path\":"@) + quoted(path@)) + ",\"content\":"@) + barr_text(content@), ",\"mode\":"@);
        lemma_lit_split(input@, pos as int, ((((":{\"path\":"@) + quoted(path@)) + ",\"content\":"@) + barr_text(content@)) + ",\"mode\":"@, quoted(mode@));
        lemma_lit_split(input@, pos as int, (((((":{\"path\":"@) + quoted(path@)) + ",\"content\":"@) + barr_text(content@)) + ",\"mode\":"@) + quoted(mode@), cb_text(success_callback@, error_callback@));
        assert(((((((":{\"path\":"@) + quoted(path@)) + ",\"content\":"@) + barr_text(content@)) + ",\"mode\":"@) + quoted(mode@)) + cb_text(success_callback@, error_callback@) =~= save_text(path@, content@, mode@, success_callback@, error_callback@));
        assert(input@.subrange(pos as int, p7 as int) == save_text(path@, content@, mode@, success_callback@, error_callback@));
    }
    Some((path, content, mode, success_callback, error_callback, p7))
}


/// Two optional string lists carry the same strings.
pub open spec fn opt_equiv(a: Option<Vec<String>>, b: Option<Vec<String>>) -> bool {
    opt_views(a) == opt_views(b)
}

/// Two filesystem requests are the same operation on the same data.
pub open spec fn fs_equiv(a: FsApi, b: FsApi) -> bool {
    match a {
        FsApi::ReadDir { path, success_callback, error_callback } => b matches FsApi::ReadDir {
            path: p2,
            success_callback: s2,
            error_callback: e2,
        } && path@ == p2@ && success_callback@ == s2@ && error_callback@ == e2@,
        FsApi::ReadTextFile { path, success_callback, error_callback } => b matches FsApi::ReadTextFile {
            path: p2,
            success_callback: s2,
            error_callback: e2,
        } && path@ == p2@ && success_callback@ == s2@ && error_callback@ == e2@,
        FsApi::CopyFile { from, to, success_callback, error_callback } => b matches FsApi::CopyFile {
            from: f2,
            to: t2,
            success_callback: s2,
            error_callback: e2,
        } && from@ == f2@ && to@ == t2@ && success_callback@ == s2@ && error_callback@ == e2@,
        FsApi::RenameFile { from, to, success_callback, error_callback } => b matches FsApi::RenameFile {
            from: f2,
            to: t2,
            success_callback: s2,
            error_callback: e2,
        } && from@ == f2@ && to@ == t2@ && success_callback@ == s2@ && error_callback@ == e2@,
        FsApi::OpenDialog { multiple, filter, success_callback, error_callback } => b matches FsApi::OpenDialog {
            multiple: m2,
            filter: f2,
            success_callback: s2,
            error_callback: e2,
        } && multiple == m2 && opt_equiv(filter, f2) && success_callback@ == s2@
            && error_callback@ == e2@,
        FsApi::OpenFile { path, format } => b matches FsApi::OpenFile { path: p2, format: f2 }
            && path@ == p2@ && opt_equiv(format, f2),
        FsApi::CreateDir { path, success_callback, error_callback } => b matches FsApi::CreateDir {
            path: p2,
            success_callback: s2,
            error_callback: e2,
        } && path@ == p2@ && success_callback@ == s2@ && error_callback@ == e2@,
        FsApi::CreateFile { path, success_callback, error_callback } => b matches FsApi::CreateFile {
            path: p2,
            success_callback: s2,
            error_callback: e2,
        } && path@ == p2@ && success_callback@ == s2@ && error_callback@ == e2@,
        FsApi::RemoveDir { path, success_callback, error_callback } => b matches FsApi::RemoveDir {
            path: p2,
            success_callback: s2,
            error_callback: e2,
        } && path@ == p2@ && success_callback@ == s2@ && error_callback@ == e2@,
        FsApi::RemoveFile { path, success_callback, error_callback } => b matches FsApi::RemoveFile {
            path: p2,
            success_callback: s2,
            error_callback: e2,
        } && path@ == p2@ && success_callback@ == s2@ && error_callback@ == e2@,
        FsApi::OpenMultipleFile { path, format } => b matches FsApi::OpenMultipleFile {
            path: p2,
            format: f2,
        } && path@ == p2@ && opt_equiv(format, f2),
        FsApi::OpenDir { path } => b matches FsApi::OpenDir { path: p2 } && path@ == p2@,
        FsApi::SelectFolder { success_callback, error_callback } => b matches FsApi::SelectFolder {
            success_callback: s2,
            error_callback: e2,
        } && success_callback@ == s2@ && error_callback@ == e2@,
        FsApi::SaveFile { path, content, mode, success_callback, error_callback } => b matches FsApi::SaveFile {
            path: p2,
            content: c2,
            mode: m2,
            success_callback: s2,
            error_callback: e2,
        } && path@ == p2@ && content@ == c2@ && mode@ == m2@ && success_callback@ == s2@
            && error_callback@ == e2@,
    }
}

/// Two window requests are the same operation on the same data.
pub open spec fn win_equiv(a: WindowProxy, b: WindowProxy) -> bool {
    match a {
        WindowProxy::SetTitle { title, success_callback, error_callback } => b matches WindowProxy::SetTitle {
            title: t2,
            success_callback: s2,
            error_callback: e2,
        } && title@ == t2@ && success_callback@ == s2@ && error_callback@ == e2@,
        WindowProxy::SetFullscreen { fullscreen, success_callback, error_callback } => b matches WindowProxy::SetFullscreen {
            fullscreen: f2,
            success_callback: s2,
            error_callback: e2,
        } && fullscreen == f2 && success_callback@ == s2@ && error_callback@ == e2@,
    }
}

/// Two notification requests carry the same data.
pub open spec fn notify_equiv(a: Notify, b: Notify) -> bool {
    match a {
        Notify::ShowNotification { summary, body, timeout, success_callback, error_callback } => {
            b matches Notify::ShowNotification {
                summary: a2,
                body: b2,
                timeout: t2,
                success_callback: s2,
                error_callback: e2,
            } && summary@ == a2@ && body@ == b2@ && timeout == t2 && success_callback@ == s2@
                && error_callback@ == e2@
        },
    }
}

/// Two subprocess requests carry the same data.
pub open spec fn process_equiv(a: Process, b: Process) -> bool {
    match a {
        Process::Exec { cmd, cwd, stream_output, success_callback, error_callback } => {
            b matches Process::Exec {
                cmd: c2,
                cwd: w2,
                stream_output: o2,
                success_callback: s2,
                error_callback: e2,
            } && cmd@ == c2@ && cwd@ == w2@ && stream_output == o2 && success_callback@ == s2@
                && error_callback@ == e2@
        },
    }
}

/// Two commands are the same request on the same data.
pub open spec fn cmd_equiv(a: Cmd, b: Cmd) -> bool {
    match a {
        Cmd::FileSystem(f) => b matches Cmd::FileSystem(f2) && fs_equiv(f, f2),
        Cmd::Notification(n) => b matches Cmd::Notification(n2) && notify_equiv(n, n2),
        Cmd::SubProcess(p) => b matches Cmd::SubProcess(p2) && process_equiv(p, p2),
        Cmd::Window(w) => b matches Cmd::Window(w2) && win_equiv(w, w2),
    }
}


/// Concrete facts about the wire tags: their lengths, and that tags of equal
/// length differ.
proof fn lemma_tag_facts()
    ensures
        "{"@ == seq!['{'],
        "}"@ == seq!['}'],
        ":"@ == seq![':'],
        "readDir"@.len() == 7,
        "readTextFile"@.len() == 12,
        "copyFile"@.len() == 8,
        "renameFile"@.len() == 10,
        "openDialog"@.len() == 10,
        "openFile"@.len() == 8,
        "createDir"@.len() == 9,
        "createFile"@.len() == 10,
        "removeDir"@.len() == 9,
        "removeFile"@.len() == 10,
        "openMultipleFile"@.len() == 16,
        "openDir"@.len() == 7,
        "selectFolder"@.len() == 12,
        "saveFile"@.len() == 8,
        "setTitle"@.len() == 8,
        "setFullscreen"@.len() == 13,
        "showNotification"@.len() == 16,
        "exec"@.len() == 4,
        "fileSystem"@.len() == 10,
        "notification"@.len() == 12,
        "subProcess"@.len() == 10,
        "window"@.len() == 6,
        "readDir"@ != "openDir"@,
        "copyFile"@ != "openFile"@,
        "copyFile"@ != "saveFile"@,
        "openFile"@ != "saveFile"@,
        "createDir"@ != "removeDir"@,
        "renameFile"@ != "openDialog"@,
        "renameFile"@ != "createFile"@,
        "renameFile"@ != "removeFile"@,
        "openDialog"@ != "createFile"@,
        "openDialog"@ != "removeFile"@,
        "createFile"@ != "removeFile"@,
        "readTextFile"@ != "selectFolder"@,
        "fileSystem"@ != "subProcess"@,
{
    reveal_strlit("{");
    reveal_strlit("}");
    reveal_strlit(":");
    reveal_strlit("readDir");
    reveal_strlit("readTextFile");
    reveal_strlit("copyFile");
    reveal_strlit("renameFile");
    reveal_strlit("openDialog");
    reveal_strlit("openFile");
    reveal_strlit("createDir");
    reveal_strlit("createFile");
    reveal_strlit("removeDir");
    reveal_strlit("removeFile");
    reveal_strlit("openMultipleFile");
    reveal_strlit("openDir");
    reveal_strlit("selectFolder");
    reveal_strlit("saveFile");
    reveal_strlit("setTitle");
    reveal_strlit("setFullscreen");
    reveal_strlit("showNotification");
    reveal_strlit("exec");
    reveal_strlit("fileSystem");
    reveal_strlit("notification");
    reveal_strlit("subProcess");
    reveal_strlit("window");
    assert("{"@ =~= seq!['{']);
    assert("}"@ =~= seq!['}']);
    assert(":"@ =~= seq![':']);
    lemma_str_neq("readDir"@, "openDir"@, 0);
    lemma_str_neq("copyFile"@, "openFile"@, 0);
    lemma_str_neq("copyFile"@, "saveFile"@, 0);
    lemma_str_neq("openFile"@, "saveFile"@, 0);
    lemma_str_neq("createDir"@, "removeDir"@, 0);
    lemma_str_neq("renameFile"@, "openDialog"@, 0);
    lemma_str_neq("renameFile"@, "createFile"@, 0);
    lemma_str_neq("renameFile"@, "removeFile"@, 2);
    lemma_str_neq("openDialog"@, "createFile"@, 0);
    lemma_str_neq("openDialog"@, "removeFile"@, 0);
    lemma_str_neq("createFile"@, "removeFile"@, 0);
    lemma_str_neq("readTextFile"@, "selectFolder"@, 0);
    lemma_str_neq("fileSystem"@, "subProcess"@, 0);
}

/// A signed number followed by the callback tail is delimited as `int_at`
/// asks: the character after its digits is a comma.
proof fn lemma_int_then_cb(inp: Seq<char>, at: int, v: int, s: Seq<char>, e: Seq<char>)
    requires
        lit_at(inp, at, int_text(v)),
        lit_at(inp, at + int_text(v).len(), cb_text(s, e)),
    ensures
        crate::codec::int_at(inp, at, v),
{
    reveal_strlit(",\"successCallback\":");
    let after = at + int_text(v).len();
    assert(inp[after] == ',') by {
        assert(inp.subrange(after, after + cb_text(s, e).len())[0] == cb_text(s, e)[0]);
        assert(cb_text(s, e)[0] == ',');
    }
    if v < 0 {
        assert(int_text(v) =~= seq!['-'] + dec((-v) as nat));
        lemma_lit_split(inp, at, seq!['-'], dec((-v) as nat));
        assert(inp[at] == '-') by {
            assert(inp.subrange(at, at + 1)[0] == '-');
        }
        assert(crate::codec::num_at(inp, at + 1, (-v) as nat));
    } else {
        assert(int_text(v) == dec(v as nat));
        assert(crate::codec::num_at(inp, at, v as nat));
    }
}

/// Parses the title payload with trailing callbacks.
#[verifier::rlimit(100)]
#[verifier::spinoff_prover]
fn parse_title_cbs(input: &Vec<char>, pos: usize) -> (r: Option<(String, String, String, usize)>)
    requires
        pos <= input@.len(),
    ensures
        r matches Some(t) ==> pos <= t.3 <= input@.len() && input@.subrange(
            pos as int,
            t.3 as int,
        ) == title_cbs_text(t.0@, t.1@, t.2@),
        forall|x: Seq<char>, s: Seq<char>, e: Seq<char>| lit_at(
            input@,
            pos as int,
            #[trigger] title_cbs_text(x, s, e),
        ) ==> (r matches Some(t) && t.0@ == x && t.1@ == s && t.2@ == e && t.3 == pos
            + title_cbs_text(x, s, e).len()),
{
    proof {
        assert forall|x: Seq<char>, s: Seq<char>, e: Seq<char>| lit_at(
            input@,
            pos as int,
            #[trigger] title_cbs_text(x, s, e),
        ) implies lit_at(input@, pos as int, ":{\"title\":"@) && qstr_at(input@, pos as int + ":{\"title\":"@.len(), x) && lit_at(input@, pos as int + ":{\"title\":"@.len() + quoted(x).len(), cb_text(s, e)) by {
            assert(title_cbs_text(x, s, e) =~= ":{\"title\":"@ + (quoted(x) + (cb_text(s, e))));
            lemma_lit_split(input@, pos as int, ":{\"title\":"@, quoted(x) + (cb_text(s, e)));
            lemma_lit_split(input@, pos as int + ":{\"title\":"@.len(), quoted(x), cb_text(s, e));
        }
    }
    let p1 = match tag(input, pos, ":{\"title\":") {
        Some(p) => p,
        None => { return None; },
    };
    let (title, p2) = match parse_qstr(input, p1) {
        Some(t) => t,
        None => { return None; },
    };
    let (success_callback, error_callback, p3) = match parse_cbs(input, p2) {
        Some(t) => t,
        None => { return None; },
    };
    proof {
        lemma_lit_split(input@, pos as int, ":{\"title\":"@, quoted(title@));
        lemma_lit_split(input@, pos as int, (":{\"title\":"@) + quoted(title@), cb_text(success_callback@, error_callback@));
        assert(((":{\"title\":"@) + quoted(title@)) + cb_text(success_callback@, error_callback@) =~= title_cbs_text(title@, success_callback@, error_callback@));
        assert(input@.subrange(pos as int, p3 as int) == title_cbs_text(title@, success_callback@, error_callback@));
    }
    Some((title, success_callback, error_callback, p3))
}

/// Parses the fullscreen payload with trailing callbacks.
#[verifier::rlimit(100)]
#[verifier::spinoff_prover]
fn parse_fullscreen_cbs(input: &Vec<char>, pos: usize) -> (r: Option<(bool, String, String, usize)>)
    requires
        pos <= input@.len(),
    ensures
        r matches Some(t) ==> pos <= t.3 <= input@.len() && input@.subrange(
            pos as int,
            t.3 as int,
        ) == fullscreen_cbs_text(t.0, t.1@, t.2@),
        forall|m: bool, s: Seq<char>, e: Seq<char>| lit_at(
            input@,
            pos as int,
            #[trigger] fullscreen_cbs_text(m, s, e),
        ) ==> (r matches Some(t) && t.0 == m && t.1@ == s && t.2@ == e && t.3 == pos
            + fullscreen_cbs_text(m, s, e).len()),
{
    proof {
        assert forall|m: bool, s: Seq<char>, e: Seq<char>| lit_at(
            input@,
            pos as int,
            #[trigger] fullscreen_cbs_text(m, s, e),
        ) implies lit_at(input@, pos as int, ":{\"fullscreen\":"@) && lit_at(input@, pos as int + ":{\"fullscreen\":"@.len(), bool_text(m)) && lit_at(input@, pos as int + ":{\"fullscreen\":"@.len() + bool_text(m).len(), cb_text(s, e)) by {
            assert(fullscreen_cbs_text(m, s, e) =~= ":{\"fullscreen\":"@ + (bool_text(m) + (cb_text(s, e))));
            lemma_lit_split(input@, pos as int, ":{\"fullscreen\":"@, bool_text(m) + (cb_text(s, e)));
            lemma_lit_split(input@, pos as int + ":{\"fullscreen\":"@.len(), bool_text(m), cb_text(s, e));
        }
    }
    let p1 = match tag(input, pos, ":{\"fullscreen\":") {
        Some(p) => p,
        None => { return None; },
    };
    let (fullscreen, p2) = match parse_bool(input, p1) {
        Some(t) => t,
        None => { return None; },
    };
    let (success_callback, error_callback, p3) = match parse_cbs(input, p2) {
        Some(t) => t,
        None => { return None; },
    };
    proof {
        lemma_lit_split(input@, pos as int, ":{\"fullscreen\":"@, bool_text(fullscreen));
        lemma_lit_split(input@, pos as int, (":{\"fullscreen\":"@) + bool_text(fullscreen), cb_text(success_callback@, error_callback@));
        assert(((":{\"fullscreen\":"@) + bool_text(fullscreen)) + cb_text(success_callback@, error_callback@) =~= fullscreen_cbs_text(fullscreen, success_callback@, error_callback@));
        assert(input@.subrange(pos as int, p3 as int) == fullscreen_cbs_text(fullscreen, success_callback@, error_callback@));
    }
    Some((fullscreen, success_callback, error_callback, p3))
}

/// Parses the notification payload.
#[verifier::rlimit(100)]
#[verifier::spinoff_prover]
fn parse_notify_rest(input: &Vec<char>, pos: usize) -> (r: Option<(String, String, i32, String, String, usize)>)
    requires
        pos <= input@.len(),
    ensures
        r matches Some(t) ==> pos <= t.5 <= input@.len() && input@.subrange(
            pos as int,
            t.5 as int,
        ) == notify_rest_text(t.0@, t.1@, t.2 as int, t.3@, t.4@),
        forall|a: Seq<char>, b: Seq<char>, ti: int, s: Seq<char>, e: Seq<char>|
            -2147483648 <= ti <= 2147483647 && lit_at(
                input@,
                pos as int,
                #[trigger] notify_rest_text(a, b, ti, s, e),
            ) ==> (r matches Some(t) && t.0@ == a && t.1@ == b && t.2 as int == ti && t.3@ == s && t.4@ == e && t.5 == pos
            + notify_rest_text(a, b, ti, s, e).len()),
{
    proof {
        assert forall|a: Seq<char>, b: Seq<char>, ti: int, s: Seq<char>, e: Seq<char>|
            -2147483648 <= ti <= 2147483647 && lit_at(
                input@,
                pos as int,
                #[trigger] notify_rest_text(a, b, ti, s, e),
            ) implies crate::codec::int_at(
            input@,
            pos as int + ":{\"summary\":"@.len() + quoted(a).len() + ",\"body\":"@.len()
                + quoted(b).len() + ",\"timeout\":"@.len(),
            (ti as i32) as int,
        ) && ((ti as i32) as int == ti) by {
            assert(notify_rest_text(a, b, ti, s, e) =~= ":{\"summary\":"@ + (quoted(a) + (
            ",\"body\":"@ + (quoted(b) + (",\"timeout\":"@ + (int_text(ti) + cb_text(s, e)))))));
            lemma_lit_split(input@, pos as int, ":{\"summary\":"@, quoted(a) + (",\"body\":"@
                + (quoted(b) + (",\"timeout\":"@ + (int_text(ti) + cb_text(s, e))))));
            lemma_lit_split(input@, pos as int + ":{\"summary\":"@.len(), quoted(a),
                ",\"body\":"@ + (quoted(b) + (",\"timeout\":"@ + (int_text(ti) + cb_text(s, e)))));
            lemma_lit_split(input@, pos as int + ":{\"summary\":"@.len() + quoted(a).len(),
                ",\"body\":"@, quoted(b) + (",\"timeout\":"@ + (int_text(ti) + cb_text(s, e))));
            lemma_lit_split(input@, pos as int + ":{\"summary\":"@.len() + quoted(a).len()
                + ",\"body\":"@.len(), quoted(b), ",\"timeout\":"@ + (int_text(ti) + cb_text(s, e)));
            lemma_lit_split(input@, pos as int + ":{\"summary\":"@.len() + quoted(a).len()
                + ",\"body\":"@.len() + quoted(b).len(), ",\"timeout\":"@, int_text(ti) + cb_text(s, e));
            let at = pos as int + ":{\"summary\":"@.len() + quoted(a).len() + ",\"body\":"@.len()
                + quoted(b).len() + ",\"timeout\":"@.len();
            lemma_lit_split(input@, at, int_text(ti), cb_text(s, e));
            lemma_int_then_cb(input@, at, ti, s, e);
            assert((ti as i32) as int == ti);
        }

        assert forall|a: Seq<char>, b: Seq<char>, ti: int, s: Seq<char>, e: Seq<char>| lit_at(
            input@,
            pos as int,
            #[trigger] notify_rest_text(a, b, ti, s, e),
        ) implies lit_at(input@, pos as int, ":{\"summary\":"@) && qstr_at(input@, pos as int + ":{\"summary\":"@.len(), a) && lit_at(input@, pos as int + ":{\"summary\":"@.len() + quoted(a).len(), ",\"body\":"@) && qstr_at(input@, pos as int + ":{\"summary\":"@.len() + quoted(a).len() + ",\"body\":"@.len(), b) && lit_at(input@, pos as int + ":{\"summary\":"@.len() + quoted(a).len() + ",\"body\":"@.len() + quoted(b).len(), ",\"timeout\":"@) && lit_at(input@, pos as int + ":{\"summary\":"@.len() + quoted(a).len() + ",\"body\":"@.len() + quoted(b).len() + ",\"timeout\":"@.len(), int_text(ti)) && lit_at(input@, pos as int + ":{\"summary\":"@.len() + quoted(a).len() + ",\"body\":"@.len() + quoted(b).len() + ",\"timeout\":"@.len() + int_text(ti).len(), cb_text(s, e)) by {
            assert(notify_rest_text(a, b, ti, s, e) =~= ":{\"summary\":"@ + (quoted(a) + (",\"body\":"@ + (quoted(b) + (",\"timeout\":"@ + (int_text(ti) + (cb_text(s, e))))))));
            lemma_lit_split(input@, pos as int, ":{\"summary\":"@, quoted(a) + (",\"body\":"@ + (quoted(b) + (",\"timeout\":"@ + (int_text(ti) + (cb_text(s, e)))))));
            lemma_lit_split(input@, pos as int + ":{\"summary\":"@.len(), quoted(a), ",\"body\":"@ + (quoted(b) + (",\"timeout\":"@ + (int_text(ti) + (cb_text(s, e))))));
            lemma_lit_split(input@, pos as int + ":{\"summary\":"@.len() + quoted(a).len(), ",\"body\":"@, quoted(b) + (",\"timeout\":"@ + (int_text(ti) + (cb_text(s, e)))));
            lemma_lit_split(input@, pos as int + ":{\"summary\":"@.len() + quoted(a).len() + ",\"body\":"@.len(), quoted(b), ",\"timeout\":"@ + (int_text(ti) + (cb_text(s, e))));
            lemma_lit_split(input@, pos as int + ":{\"summary\":"@.len() + quoted(a).len() + ",\"body\":"@.len() + quoted(b).len(), ",\"timeout\":"@, int_text(ti) + (cb_text(s, e)));
            lemma_lit_split(input@, pos as int + ":{\"summary\":"@.len() + quoted(a).len() + ",\"body\":"@.len() + quoted(b).len() + ",\"timeout\":"@.len(), int_text(ti), cb_text(s, e));
        }
    }
    let p1 = match tag(input, pos, ":{\"summary\":") {
        Some(p) => p,
        None => { return None; },
    };
    let (summary, p2) = match parse_qstr(input, p1) {
        Some(t) => t,
        None => { return None; },
    };
    let p3 = match tag(input, p2, ",\"body\":") {
        Some(p) => p,
        None => { return None; },
    };
    let (body, p4) = match parse_qstr(input, p3) {
        Some(t) => t,
        None => { return None; },
    };
    let p5 = match tag(input, p4, ",\"timeout\":") {
        Some(p) => p,
        None => { return None; },
    };
    let (timeout, p6) = match parse_i32(input, p5) {
        Some(t) => t,
        None => { return None; },
    };
    let (success_callback, error_callback, p7) = match parse_cbs(input, p6) {
        Some(t) => t,
        None => { return None; },
    };
    proof {
        lemma_lit_split(input@, pos as int, ":{\"summary\":"@, quoted(summary@));
        lemma_lit_split(input@, pos as int, (":{\"summary\":"@) + quoted(summary@), ",\"body\":"@);
        lemma_lit_split(input@, pos as int, ((":{\"summary\":"@) + quoted(summary@)) + ",\"body\":"@, quoted(body@));
        lemma_lit_split(input@, pos as int, (((":{\"summary\":"@) + quoted(summary@)) + ",\"body\":"@) + quoted(body@), ",\"timeout\":"@);
        lemma_lit_split(input@, pos as int, ((((":{\"summary\":"@) + quoted(summary@)) + ",\"body\":"@) + quoted(body@)) + ",\"timeout\":"@, int_text(timeout as int));
        lemma_lit_split(input@, pos as int, (((((":{\"summary\":"@) + quoted(summary@)) + ",\"body\":"@) + quoted(body@)) + ",\"timeout\":"@) + int_text(timeout as int), cb_text(success_callback@, error_callback@));
        assert(((((((":{\"summary\":"@) + quoted(summary@)) + ",\"body\":"@) + quoted(body@)) + ",\"timeout\":"@) + int_text(timeout as int)) + cb_text(success_callback@, error_callback@) =~= notify_rest_text(summary@, body@, timeout as int, success_callback@, error_callback@));
        assert(input@.subrange(pos as int, p7 as int) == notify_rest_text(summary@, body@, timeout as int, success_callback@, error_callback@));
    }
    Some((summary, body, timeout, success_callback, error_callback, p7))
}

/// Parses the subprocess payload.
#[verifier::rlimit(100)]
#[verifier::spinoff_prover]
fn parse_exec_rest(input: &Vec<char>, pos: usize) -> (r: Option<(String, String, bool, String, String, usize)>)
    requires
        pos <= input@.len(),
    ensures
        r matches Some(t) ==> pos <= t.5 <= input@.len() && input@.subrange(
            pos as int,
            t.5 as int,
        ) == exec_rest_text(t.0@, t.1@, t.2, t.3@, t.4@),
        forall|a: Seq<char>, b: Seq<char>, m: bool, s: Seq<char>, e: Seq<char>| lit_at(
            input@,
            pos as int,
            #[trigger] exec_rest_text(a, b, m, s, e),
        ) ==> (r matches Some(t) && t.0@ == a && t.1@ == b && t.2 == m && t.3@ == s && t.4@ == e && t.5 == pos
            + exec_rest_text(a, b, m, s, e).len()),
{
    proof {
        assert forall|a: Seq<char>, b: Seq<char>, m: bool, s: Seq<char>, e: Seq<char>| lit_at(
            input@,
            pos as int,
            #[trigger] exec_rest_text(a, b, m, s, e),
        ) implies lit_at(input@, pos as int, ":{\"cmd\":"@) && qstr_at(input@, pos as int + ":{\"cmd\":"@.len(), a) && lit_at(input@, pos as int + ":{\"cmd\":"@.len() + quoted(a).len(), ",\"cwd\":"@) && qstr_at(input@, pos as int + ":{\"cmd\":"@.len() + quoted(a).len() + ",\"cwd\":"@.len(), b) && lit_at(input@, pos as int + ":{\"cmd\":"@.len() + quoted(a).len() + ",\"cwd\":"@.len() + quoted(b).len(), ",\"streamOutput\":"@) && lit_at(input@, pos as int + ":{\"cmd\":"@.len() + quoted(a).len() + ",\"cwd\":"@.len() + quoted(b).len() + ",\"streamOutput\":"@.len(), bool_text(m)) && lit_at(input@, pos as int + ":{\"cmd\":"@.len() + quoted(a).len() + ",\"cwd\":"@.len() + quoted(b).len() + ",\"streamOutput\":"@.len() + bool_text(m).len(), cb_text(s, e)) by {
            assert(exec_rest_text(a, b, m, s, e) =~= ":{\"cmd\":"@ + (quoted(a) + (",\"cwd\":"@ + (quoted(b) + (",\"streamOutput\":"@ + (bool_text(m) + (cb_text(s, e))))))));
            lemma_lit_split(input@, pos as int, ":{\"cmd\":"@, quoted(a) + (",\"cwd\":"@ + (quoted(b) + (",\"streamOutput\":"@ + (bool_text(m) + (cb_text(s, e)))))));
            lemma_lit_split(input@, pos as int + ":{\"cmd\":"@.len(), quoted(a), ",\"cwd\":"@ + (quoted(b) + (",\"streamOutput\":"@ + (bool_text(m) + (cb_text(s, e))))));
            lemma_lit_split(input@, pos as int + ":{\"cmd\":"@.len() + quoted(a).len(), ",\"cwd\":"@, quoted(b) + (",\"streamOutput\":"@ + (bool_text(m) + (cb_text(s, e)))));
            lemma_lit_split(input@, pos as int + ":{\"cmd\":"@.len() + quoted(a).len() + ",\"cwd\":"@.len(), quoted(b), ",\"streamOutput\":"@ + (bool_text(m) + (cb_text(s, e))));
            lemma_lit_split(input@, pos as int + ":{\"cmd\":"@.len() + quoted(a).len() + ",\"cwd\":"@.len() + quoted(b).len(), ",\"streamOutput\":"@, bool_text(m) + (cb_text(s, e)));
            lemma_lit_split(input@, pos as int + ":{\"cmd\":"@.len() + quoted(a).len() + ",\"cwd\":"@.len() + quoted(b).len() + ",\"streamOutput\":"@.len(), bool_text(m), cb_text(s, e));
        }
    }
    let p1 = match tag(input, pos, ":{\"cmd\":") {
        Some(p) => p,
        None => { return None; },
    };
    let (cmd_line, p2) = match parse_qstr(input, p1) {
        Some(t) => t,
        None => { return None; },
    };
    let p3 = match tag(input, p2, ",\"cwd\":") {
        Some(p) => p,
        None => { return None; },
    };
    let (cwd, p4) = match parse_qstr(input, p3) {
        Some(t) => t,
        None => { return None; },
    };
    let p5 = match tag(input, p4, ",\"streamOutput\":") {
        Some(p) => p,
        None => { return None; },
    };
    let (stream_output, p6) = match parse_bool(input, p5) {
        Some(t) => t,
        None => { return None; },
    };
    let (success_callback, error_callback, p7) = match parse_cbs(input, p6) {
        Some(t) => t,
        None => { return None; },
    };
    proof {
        lemma_lit_split(input@, pos as int, ":{\"cmd\":"@, quoted(cmd_line@));
        lemma_lit_split(input@, pos as int, (":{\"cmd\":"@) + quoted(cmd_line@), ",\"cwd\":"@);
        lemma_lit_split(input@, pos as int, ((":{\"cmd\":"@) + quoted(cmd_line@)) + ",\"cwd\":"@, quoted(cwd@));
        lemma_lit_split(input@, pos as int, (((":{\"cmd\":"@) + quoted(cmd_line@)) + ",\"cwd\":"@) + quoted(cwd@), ",\"streamOutput\":"@);
        lemma_lit_split(input@, pos as int, ((((":{\"cmd\":"@) + quoted(cmd_line@)) + ",\"cwd\":"@) + quoted(cwd@)) + ",\"streamOutput\":"@, bool_text(stream_output));
        lemma_lit_split(input@, pos as int, (((((":{\"cmd\":"@) + quoted(cmd_line@)) + ",\"cwd\":"@) + quoted(cwd@)) + ",\"streamOutput\":"@) + bool_text(stream_output), cb_text(success_callback@, error_callback@));
        assert(((((((":{\"cmd\":"@) + quoted(cmd_line@)) + ",\"cwd\":"@) + quoted(cwd@)) + ",\"streamOutput\":"@) + bool_text(stream_output)) + cb_text(success_callback@, error_callback@) =~= exec_rest_text(cmd_line@, cwd@, stream_output, success_callback@, error_callback@));
        assert(input@.subrange(pos as int, p7 as int) == exec_rest_text(cmd_line@, cwd@, stream_output, success_callback@, error_callback@));
    }
    Some((cmd_line, cwd, stream_output, success_callback, error_callback, p7))
}

/// The filesystem operations this dispatcher group handles.
pub open spec fn fs_in_a(f: FsApi) -> bool {
    f matches FsApi::ReadDir { .. } || f matches FsApi::ReadTextFile { .. } || f matches FsApi::CopyFile { .. } || f matches FsApi::RenameFile { .. } || f matches FsApi::OpenDialog { .. }
}

/// The filesystem operations this dispatcher group handles.
pub open spec fn fs_in_b(f: FsApi) -> bool {
    f matches FsApi::OpenFile { .. } || f matches FsApi::CreateDir { .. } || f matches FsApi::CreateFile { .. } || f matches FsApi::RemoveDir { .. } || f matches FsApi::RemoveFile { .. }
}

/// The filesystem operations this dispatcher group handles.
pub open spec fn fs_in_c(f: FsApi) -> bool {
    f matches FsApi::OpenMultipleFile { .. } || f matches FsApi::OpenDir { .. } || f matches FsApi::SelectFolder { .. } || f matches FsApi::SaveFile { .. }
}

/// One group of the filesystem dispatch, keyed by the operation tag.
#[verifier::rlimit(100)]
#[verifier::spinoff_prover]
fn decode_fs_a(input: &Vec<char>, pos: usize, p1: usize, tagname: &String) -> (r: Option<(FsApi, usize)>)
    requires
        pos + 1 <= p1 <= input@.len(),
        input@.subrange(pos as int, p1 as int) == seq!['{'] + quoted(tagname@),
        forall|f: FsApi| lit_at(input@, pos as int, #[trigger] fs_text(f)) ==> fs_tag(f)
            == tagname@ && lit_at(input@, p1 as int, fs_rest(f)) && p1 == pos + 1 + quoted(
            fs_tag(f),
        ).len(),
    ensures
        r matches Some(t) ==> pos <= t.1 <= input@.len() && input@.subrange(
            pos as int,
            t.1 as int,
        ) == fs_text(t.0) && fs_in_a(t.0) && fs_tag(t.0) == tagname@,
        forall|f: FsApi| fs_in_a(f) && lit_at(input@, pos as int, #[trigger] fs_text(f))
            ==> (r matches Some(t) && fs_equiv(t.0, f) && t.1 == pos + fs_text(f).len()),
{
    proof {
        lemma_tag_facts();
    }
    if str_eq(tagname.as_str(), "readDir") {
        match parse_path_cbs(input, p1) {
            Some((path, success_callback, error_callback, pe)) => {
                let res = FsApi::ReadDir { path, success_callback, error_callback };
                proof {
                    lemma_lit_split(input@, pos as int, seq!['{'] + quoted(tagname@), path_cbs_text(path@, success_callback@, error_callback@));
                    assert((seq!['{'] + quoted(tagname@)) + path_cbs_text(path@, success_callback@, error_callback@) =~= fs_text(res));
                    assert(input@.subrange(pos as int, pe as int) == fs_text(res));
                }
                Some((res, pe))
            },
            None => {
                proof {
                    assert forall|f: FsApi| !(fs_in_a(f) && lit_at(input@, pos as int, #[trigger] fs_text(f))) by {
                        if fs_in_a(f) && lit_at(input@, pos as int, fs_text(f)) {
                        }
                    }
                }
                None
            },
        }
    } else if str_eq(tagname.as_str(), "readTextFile") {
        match parse_path_cbs(input, p1) {
            Some((path, success_callback, error_callback, pe)) => {
                let res = FsApi::ReadTextFile { path, success_callback, error_callback };
                proof {
                    lemma_lit_split(input@, pos as int, seq!['{'] + quoted(tagname@), path_cbs_text(path@, success_callback@, error_callback@));
                    assert((seq!['{'] + quoted(tagname@)) + path_cbs_text(path@, success_callback@, error_callback@) =~= fs_text(res));
                    assert(input@.subrange(pos as int, pe as int) == fs_text(res));
                }
                Some((res, pe))
            },
            None => {
                proof {
                    assert forall|f: FsApi| !(fs_in_a(f) && lit_at(input@, pos as int, #[trigger] fs_text(f))) by {
                        if fs_in_a(f) && lit_at(input@, pos as int, fs_text(f)) {
                        }
                    }
                }
                None
            },
        }
    } else if str_eq(tagname.as_str(), "copyFile") {
        match parse_2s_cbs(input, p1) {
            Some((from, to, success_callback, error_callback, pe)) => {
                let res = FsApi::CopyFile { from, to, success_callback, error_callback };
                proof {
                    lemma_lit_split(input@, pos as int, seq!['{'] + quoted(tagname@), two_s_cbs_text(from@, to@, success_callback@, error_callback@));
                    assert((seq!['{'] + quoted(tagname@)) + two_s_cbs_text(from@, to@, success_callback@, error_callback@) =~= fs_text(res));
                    assert(input@.subrange(pos as int, pe as int) == fs_text(res));
                }
                Some((res, pe))
            },
            None => {
                proof {
                    assert forall|f: FsApi| !(fs_in_a(f) && lit_at(input@, pos as int, #[trigger] fs_text(f))) by {
                        if fs_in_a(f) && lit_at(input@, pos as int, fs_text(f)) {
                        }
                    }
                }
                None
            },
        }
    } else if str_eq(tagname.as_str(), "renameFile") {
        match parse_2s_cbs(input, p1) {
            Some((from, to, success_callback, error_callback, pe)) => {
                let res = FsApi::RenameFile { from, to, success_callback, error_callback };
                proof {
                    lemma_lit_split(input@, pos as int, seq!['{'] + quoted(tagname@), two_s_cbs_text(from@, to@, success_callback@, error_callback@));
                    assert((seq!['{'] + quoted(tagname@)) + two_s_cbs_text(from@, to@, success_callback@, error_callback@) =~= fs_text(res));
                    assert(input@.subrange(pos as int, pe as int) == fs_text(res));
                }
                Some((res, pe))
            },
            None => {
                proof {
                    assert forall|f: FsApi| !(fs_in_a(f) && lit_at(input@, pos as int, #[trigger] fs_text(f))) by {
                        if fs_in_a(f) && lit_at(input@, pos as int, fs_text(f)) {
                        }
                    }
                }
                None
            },
        }
    } else if str_eq(tagname.as_str(), "openDialog") {
        match parse_dialog(input, p1) {
            Some((multiple, filter, success_callback, error_callback, pe)) => {
                let res = FsApi::OpenDialog { multiple, filter, success_callback, error_callback };
                proof {
                    lemma_lit_split(input@, pos as int, seq!['{'] + quoted(tagname@), dialog_text(multiple, opt_views(filter), success_callback@, error_callback@));
                    assert((seq!['{'] + quoted(tagname@)) + dialog_text(multiple, opt_views(filter), success_callback@, error_callback@) =~= fs_text(res));
                    assert(input@.subrange(pos as int, pe as int) == fs_text(res));
                }
                Some((res, pe))
            },
            None => {
                proof {
                    assert forall|f: FsApi| !(fs_in_a(f) && lit_at(input@, pos as int, #[trigger] fs_text(f))) by {
                        if fs_in_a(f) && lit_at(input@, pos as int, fs_text(f)) {
                        }
                    }
                }
                None
            },
        }
    } else {
        proof {
            assert forall|f: FsApi| !(fs_in_a(f) && lit_at(input@, pos as int, #[trigger] fs_text(f))) by {
                if fs_in_a(f) && lit_at(input@, pos as int, fs_text(f)) {
                }
            }
        }
        None
    }
}

/// One group of the filesystem dispatch, keyed by the operation tag.
#[verifier::rlimit(100)]
#[verifier::spinoff_prover]
fn decode_fs_b(input: &Vec<char>, pos: usize, p1: usize, tagname: &String) -> (r: Option<(FsApi, usize)>)
    requires
        pos + 1 <= p1 <= input@.len(),
        input@.subrange(pos as int, p1 as int) == seq!['{'] + quoted(tagname@),
        forall|f: FsApi| lit_at(input@, pos as int, #[trigger] fs_text(f)) ==> fs_tag(f)
            == tagname@ && lit_at(input@, p1 as int, fs_rest(f)) && p1 == pos + 1 + quoted(
            fs_tag(f),
        ).len(),
    ensures
        r matches Some(t) ==> pos <= t.1 <= input@.len() && input@.subrange(
            pos as int,
            t.1 as int,
        ) == fs_text(t.0) && fs_in_b(t.0) && fs_tag(t.0) == tagname@,
        forall|f: FsApi| fs_in_b(f) && lit_at(input@, pos as int, #[trigger] fs_text(f))
            ==> (r matches Some(t) && fs_equiv(t.0, f) && t.1 == pos + fs_text(f).len()),
{
    proof {
        lemma_tag_facts();
    }
    if str_eq(tagname.as_str(), "openFile") {
        match parse_path_fmt(input, p1) {
            Some((path, format, pe)) => {
                let res = FsApi::OpenFile { path, format };
                proof {
                    lemma_lit_split(input@, pos as int, seq!['{'] + quoted(tagname@), path_fmt_text(path@, opt_views(format)));
                    assert((seq!['{'] + quoted(tagname@)) + path_fmt_text(path@, opt_views(format)) =~= fs_text(res));
                    assert(input@.subrange(pos as int, pe as int) == fs_text(res));
                }
                Some((res, pe))
            },
            None => {
                proof {
                    assert forall|f: FsApi| !(fs_in_b(f) && lit_at(input@, pos as int, #[trigger] fs_text(f))) by {
                        if fs_in_b(f) && lit_at(input@, pos as int, fs_text(f)) {
                        }
                    }
                }
                None
            },
        }
    } else if str_eq(tagname.as_str(), "createDir") {
        match parse_path_cbs(input, p1) {
            Some((path, success_callback, error_callback, pe)) => {
                let res = FsApi::CreateDir { path, success_callback, error_callback };
                proof {
                    lemma_lit_split(input@, pos as int, seq!['{'] + quoted(tagname@), path_cbs_text(path@, success_callback@, error_callback@));
                    assert((seq!['{'] + quoted(tagname@)) + path_cbs_text(path@, success_callback@, error_callback@) =~= fs_text(res));
                    assert(input@.subrange(pos as int, pe as int) == fs_text(res));
                }
                Some((res, pe))
            },
            None => {
                proof {
                    assert forall|f: FsApi| !(fs_in_b(f) && lit_at(input@, pos as int, #[trigger] fs_text(f))) by {
                        if fs_in_b(f) && lit_at(input@, pos as int, fs_text(f)) {
                        }
                    }
                }
                None
            },
        }
    } else if str_eq(tagname.as_str(), "createFile") {
        match parse_path_cbs(input, p1) {
            Some((path, success_callback, error_callback, pe)) => {
                let res = FsApi::CreateFile { path, success_callback, error_callback };
                proof {
                    lemma_lit_split(input@, pos as int, seq!['{'] + quoted(tagname@), path_cbs_text(path@, success_callback@, error_callback@));
                    assert((seq!['{'] + quoted(tagname@)) + path_cbs_text(path@, success_callback@, error_callback@) =~= fs_text(res));
                    assert(input@.subrange(pos as int, pe as int) == fs_text(res));
                }
                Some((res, pe))
            },
            None => {
                proof {
                    assert forall|f: FsApi| !(fs_in_b(f) && lit_at(input@, pos as int, #[trigger] fs_text(f))) by {
                        if fs_in_b(f) && lit_at(input@, pos as int, fs_text(f)) {
                        }
                    }
                }
                None
            },
        }
    } else if str_eq(tagname.as_str(), "removeDir") {
        match parse_path_cbs(input, p1) {
            Some((path, success_callback, error_callback, pe)) => {
                let res = FsApi::RemoveDir { path, success_callback, error_callback };
                proof {
                    lemma_lit_split(input@, pos as int, seq!['{'] + quoted(tagname@), path_cbs_text(path@, success_callback@, error_callback@));
                    assert((seq!['{'] + quoted(tagname@)) + path_cbs_text(path@, success_callback@, error_callback@) =~= fs_text(res));
                    assert(input@.subrange(pos as int, pe as int) == fs_text(res));
                }
                Some((res, pe))
            },
            None => {
                proof {
                    assert forall|f: FsApi| !(fs_in_b(f) && lit_at(input@, pos as int, #[trigger] fs_text(f))) by {
                        if fs_in_b(f) && lit_at(input@, pos as int, fs_text(f)) {
                        }
                    }
                }
                None
            },
        }
    } else if str_eq(tagname.as_str(), "removeFile") {
        match parse_path_cbs(input, p1) {
            Some((path, success_callback, error_callback, pe)) => {
                let res = FsApi::RemoveFile { path, success_callback, error_callback };
                proof {
                    lemma_lit_split(input@, pos as int, seq!['{'] + quoted(tagname@), path_cbs_text(path@, success_callback@, error_callback@));
                    assert((seq!['{'] + quoted(tagname@)) + path_cbs_text(path@, success_callback@, error_callback@) =~= fs_text(res));
                    assert(input@.subrange(pos as int, pe as int) == fs_text(res));
                }
                Some((res, pe))
            },
            None => {
                proof {
                    assert forall|f: FsApi| !(fs_in_b(f) && lit_at(input@, pos as int, #[trigger] fs_text(f))) by {
                        if fs_in_b(f) && lit_at(input@, pos as int, fs_text(f)) {
                        }
                    }
                }
                None
            },
        }
    } else {
        proof {
            assert forall|f: FsApi| !(fs_in_b(f) && lit_at(input@, pos as int, #[trigger] fs_text(f))) by {
                if fs_in_b(f) && lit_at(input@, pos as int, fs_text(f)) {
                }
            }
        }
        None
    }
}

/// One group of the filesystem dispatch, keyed by the operation tag.
#[verifier::rlimit(100)]
#[verifier::spinoff_prover]
fn decode_fs_c(input: &Vec<char>, pos: usize, p1: usize, tagname: &String) -> (r: Option<(FsApi, usize)>)
    requires
        pos + 1 <= p1 <= input@.len(),
        input@.subrange(pos as int, p1 as int) == seq!['{'] + quoted(tagname@),
        forall|f: FsApi| lit_at(input@, pos as int, #[trigger] fs_text(f)) ==> fs_tag(f)
            == tagname@ && lit_at(input@, p1 as int, fs_rest(f)) && p1 == pos + 1 + quoted(
            fs_tag(f),
        ).len(),
    ensures
        r matches Some(t) ==> pos <= t.1 <= input@.len() && input@.subrange(
            pos as int,
            t.1 as int,
        ) == fs_text(t.0) && fs_in_c(t.0) && fs_tag(t.0) == tagname@,
        forall|f: FsApi| fs_in_c(f) && lit_at(input@, pos as int, #[trigger] fs_text(f))
            ==> (r matches Some(t) && fs_equiv(t.0, f) && t.1 == pos + fs_text(f).len()),
{
    proof {
        lemma_tag_facts();
    }
    if str_eq(tagname.as_str(), "openMultipleFile") {
        match parse_path_fmt(input, p1) {
            Some((path, format, pe)) => {
                let res = FsApi::OpenMultipleFile { path, format };
                proof {
                    lemma_lit_split(input@, pos as int, seq!['{'] + quoted(tagname@), path_fmt_text(path@, opt_views(format)));
                    assert((seq!['{'] + quoted(tagname@)) + path_fmt_text(path@, opt_views(format)) =~= fs_text(res));
                    assert(input@.subrange(pos as int, pe as int) == fs_text(res));
                }
                Some((res, pe))
            },
            None => {
                proof {
                    assert forall|f: FsApi| !(fs_in_c(f) && lit_at(input@, pos as int, #[trigger] fs_text(f))) by {
                        if fs_in_c(f) && lit_at(input@, pos as int, fs_text(f)) {
                        }
                    }
                }
                None
            },
        }
    } else if str_eq(tagname.as_str(), "openDir") {
        match parse_path_only(input, p1) {
            Some((path, pe)) => {
                let res = FsApi::OpenDir { path };
                proof {
                    lemma_lit_split(input@, pos as int, seq!['{'] + quoted(tagname@), path_only_text(path@));
                    assert((seq!['{'] + quoted(tagname@)) + path_only_text(path@) =~= fs_text(res));
                    assert(input@.subrange(pos as int, pe as int) == fs_text(res));
                }
                Some((res, pe))
            },
            None => {
                proof {
                    assert forall|f: FsApi| !(fs_in_c(f) && lit_at(input@, pos as int, #[trigger] fs_text(f))) by {
                        if fs_in_c(f) && lit_at(input@, pos as int, fs_text(f)) {
                        }
                    }
                }
                None
            },
        }
    } else if str_eq(tagname.as_str(), "selectFolder") {
        match parse_sel(input, p1) {
            Some((success_callback, error_callback, pe)) => {
                let res = FsApi::SelectFolder { success_callback, error_callback };
                proof {
                    lemma_lit_split(input@, pos as int, seq!['{'] + quoted(tagname@), sel_text(success_callback@, error_callback@));
                    assert((seq!['{'] + quoted(tagname@)) + sel_text(success_callback@, error_callback@) =~= fs_text(res));
                    assert(input@.subrange(pos as int, pe as int) == fs_text(res));
                }
                Some((res, pe))
            },
            None => {
                proof {
                    assert forall|f: FsApi| !(fs_in_c(f) && lit_at(input@, pos as int, #[trigger] fs_text(f))) by {
                        if fs_in_c(f) && lit_at(input@, pos as int, fs_text(f)) {
                        }
                    }
                }
                None
            },
        }
    } else if str_eq(tagname.as_str(), "saveFile") {
        match parse_save(input, p1) {
            Some((path, content, mode, success_callback, error_callback, pe)) => {
                let res = FsApi::SaveFile { path, content, mode, success_callback, error_callback };
                proof {
                    lemma_lit_split(input@, pos as int, seq!['{'] + quoted(tagname@), save_text(path@, content@, mode@, success_callback@, error_callback@));
                    assert((seq!['{'] + quoted(tagname@)) + save_text(path@, content@, mode@, success_callback@, error_callback@) =~= fs_text(res));
                    assert(input@.subrange(pos as int, pe as int) == fs_text(res));
                }
                Some((res, pe))
            },
            None => {
                proof {
                    assert forall|f: FsApi| !(fs_in_c(f) && lit_at(input@, pos as int, #[trigger] fs_text(f))) by {
                        if fs_in_c(f) && lit_at(input@, pos as int, fs_text(f)) {
                        }
                    }
                }
                None
            },
        }
    } else {
        proof {
            assert forall|f: FsApi| !(fs_in_c(f) && lit_at(input@, pos as int, #[trigger] fs_text(f))) by {
                if fs_in_c(f) && lit_at(input@, pos as int, fs_text(f)) {
                }
            }
        }
        None
    }
}

/// Decodes a filesystem request at `pos`: consumes exactly its canonical
/// text, and accepts every canonical text.
#[verifier::rlimit(100)]
#[verifier::spinoff_prover]
fn decode_fs(input: &Vec<char>, pos: usize) -> (r: Option<(FsApi, usize)>)
    requires
        pos <= input@.len(),
    ensures
        r matches Some(t) ==> pos <= t.1 <= input@.len() && input@.subrange(
            pos as int,
            t.1 as int,
        ) == fs_text(t.0),
        forall|f: FsApi| lit_at(input@, pos as int, #[trigger] fs_text(f)) ==> (r matches Some(t)
            && fs_equiv(t.0, f) && t.1 == pos + fs_text(f).len()),
{
    proof {
        lemma_tag_facts();
        assert forall|f: FsApi| lit_at(input@, pos as int, #[trigger] fs_text(f)) implies lit_at(
            input@,
            pos as int,
            "{"@,
        ) && qstr_at(input@, pos + 1, fs_tag(f)) && lit_at(
            input@,
            pos + 1 + quoted(fs_tag(f)).len(),
            fs_rest(f),
        ) by {
            assert(fs_text(f) =~= seq!['{'] + (quoted(fs_tag(f)) + fs_rest(f)));
            lemma_lit_split(input@, pos as int, seq!['{'], quoted(fs_tag(f)) + fs_rest(f));
            lemma_lit_split(input@, pos + 1, quoted(fs_tag(f)), fs_rest(f));
        }
    }
    let p0 = match tag(input, pos, "{") {
        Some(p) => p,
        None => { return None; },
    };
    let (tagname, p1) = match parse_qstr(input, p0) {
        Some(t) => t,
        None => { return None; },
    };
    proof {
        assert(lit_at(input@, pos as int, seq!['{'])) by {
            assert(input@.subrange(pos as int, p0 as int) =~= seq!['{']);
        }
        assert(lit_at(input@, p0 as int, quoted(tagname@)));
        lemma_lit_split(input@, pos as int, seq!['{'], quoted(tagname@));
        assert(input@.subrange(pos as int, p1 as int) == seq!['{'] + quoted(tagname@));
    }
    if let Some(t) = decode_fs_a(input, pos, p1, &tagname) {
        return Some(t);
    }
    if let Some(t) = decode_fs_b(input, pos, p1, &tagname) {
        return Some(t);
    }
    if let Some(t) = decode_fs_c(input, pos, p1, &tagname) {
        return Some(t);
    }
    None
}



/// Decodes a window request at `pos`.
#[verifier::rlimit(100)]
#[verifier::spinoff_prover]
fn decode_window(input: &Vec<char>, pos: usize) -> (r: Option<(WindowProxy, usize)>)
    requires
        pos <= input@.len(),
    ensures
        r matches Some(t) ==> pos <= t.1 <= input@.len() && input@.subrange(
            pos as int,
            t.1 as int,
        ) == window_text(t.0),
        forall|w: WindowProxy| lit_at(input@, pos as int, #[trigger] window_text(w)) ==> (
        r matches Some(t) && win_equiv(t.0, w) && t.1 == pos + window_text(w).len()),
{
    proof {
        lemma_tag_facts();
        assert forall|w: WindowProxy| lit_at(
            input@,
            pos as int,
            #[trigger] window_text(w),
        ) implies lit_at(input@, pos as int, "{"@) && qstr_at(input@, pos + 1, win_tag(w))
            && lit_at(input@, pos + 1 + quoted(win_tag(w)).len(), win_rest(w)) by {
            assert(window_text(w) =~= seq!['{'] + (quoted(win_tag(w)) + win_rest(w)));
            lemma_lit_split(input@, pos as int, seq!['{'], quoted(win_tag(w)) + win_rest(w));
            lemma_lit_split(input@, pos + 1, quoted(win_tag(w)), win_rest(w));
        }
    }
    let p0 = match tag(input, pos, "{") {
        Some(p) => p,
        None => { return None; },
    };
    let (tagname, p1) = match parse_qstr(input, p0) {
        Some(t) => t,
        None => { return None; },
    };
    proof {
        assert(lit_at(input@, pos as int, seq!['{'])) by {
            assert(input@.subrange(pos as int, p0 as int) =~= seq!['{']);
        }
        assert(lit_at(input@, p0 as int, quoted(tagname@)));
        lemma_lit_split(input@, pos as int, seq!['{'], quoted(tagname@));
    }
    if str_eq(tagname.as_str(), "setTitle") {
        match parse_title_cbs(input, p1) {
            Some((title, success_callback, error_callback, pe)) => {
                let res = WindowProxy::SetTitle { title, success_callback, error_callback };
                proof {
                    lemma_lit_split(
                        input@,
                        pos as int,
                        seq!['{'] + quoted(tagname@),
                        title_cbs_text(title@, success_callback@, error_callback@),
                    );
                    assert((seq!['{'] + quoted(tagname@)) + title_cbs_text(
                        title@,
                        success_callback@,
                        error_callback@,
                    ) =~= window_text(res));
                    assert(input@.subrange(pos as int, pe as int) == window_text(res));
                }
                Some((res, pe))
            },
            None => {
                proof {
                    assert forall|w: WindowProxy| !lit_at(
                        input@,
                        pos as int,
                        #[trigger] window_text(w),
                    ) by {
                        if lit_at(input@, pos as int, window_text(w)) {
                        }
                    }
                }
                None
            },
        }
    } else if str_eq(tagname.as_str(), "setFullscreen") {
        match parse_fullscreen_cbs(input, p1) {
            Some((fullscreen, success_callback, error_callback, pe)) => {
                let res = WindowProxy::SetFullscreen { fullscreen, success_callback, error_callback };
                proof {
                    lemma_lit_split(
                        input@,
                        pos as int,
                        seq!['{'] + quoted(tagname@),
                        fullscreen_cbs_text(fullscreen, success_callback@, error_callback@),
                    );
                    assert((seq!['{'] + quoted(tagname@)) + fullscreen_cbs_text(
                        fullscreen,
                        success_callback@,
                        error_callback@,
                    ) =~= window_text(res));
                    assert(input@.subrange(pos as int, pe as int) == window_text(res));
                }
                Some((res, pe))
            },
            None => {
                proof {
                    assert forall|w: WindowProxy| !lit_at(
                        input@,
                        pos as int,
                        #[trigger] window_text(w),
                    ) by {
                        if lit_at(input@, pos as int, window_text(w)) {
                        }
                    }
                }
                None
            },
        }
    } else {
        proof {
            assert forall|w: WindowProxy| !lit_at(
                input@,
                pos as int,
                #[trigger] window_text(w),
            ) by {
                if lit_at(input@, pos as int, window_text(w)) {
                }
            }
        }
        None
    }
}

/// Decodes a notification request at `pos`.
#[verifier::rlimit(100)]
#[verifier::spinoff_prover]
fn decode_notify(input: &Vec<char>, pos: usize) -> (r: Option<(Notify, usize)>)
    requires
        pos <= input@.len(),
    ensures
        r matches Some(t) ==> pos <= t.1 <= input@.len() && input@.subrange(
            pos as int,
            t.1 as int,
        ) == notify_text(t.0),
        forall|n: Notify| lit_at(input@, pos as int, #[trigger] notify_text(n)) ==> (
        r matches Some(t) && notify_equiv(t.0, n) && t.1 == pos + notify_text(n).len()),
{
    proof {
        lemma_tag_facts();
        assert forall|n: Notify| lit_at(
            input@,
            pos as int,
            #[trigger] notify_text(n),
        ) implies lit_at(input@, pos as int, "{"@) && qstr_at(
            input@,
            pos + 1,
            "showNotification"@,
        ) && (n matches Notify::ShowNotification {
            summary,
            body,
            timeout,
            success_callback,
            error_callback,
        } ==> lit_at(
            input@,
            pos + 1 + quoted("showNotification"@).len(),
            notify_rest_text(
                summary@,
                body@,
                timeout as int,
                success_callback@,
                error_callback@,
            ),
        )) by {
            match n {
                Notify::ShowNotification {
                    summary,
                    body,
                    timeout,
                    success_callback,
                    error_callback,
                } => {
                    let rest = notify_rest_text(
                        summary@,
                        body@,
                        timeout as int,
                        success_callback@,
                        error_callback@,
                    );
                    assert(notify_text(n) =~= seq!['{'] + (quoted("showNotification"@) + rest));
                    lemma_lit_split(
                        input@,
                        pos as int,
                        seq!['{'],
                        quoted("showNotification"@) + rest,
                    );
                    lemma_lit_split(input@, pos + 1, quoted("showNotification"@), rest);
                },
            }
        }
    }
    let p0 = match tag(input, pos, "{") {
        Some(p) => p,
        None => { return None; },
    };
    let (tagname, p1) = match parse_qstr(input, p0) {
        Some(t) => t,
        None => { return None; },
    };
    proof {
        assert(lit_at(input@, pos as int, seq!['{'])) by {
            assert(input@.subrange(pos as int, p0 as int) =~= seq!['{']);
        }
        assert(lit_at(input@, p0 as int, quoted(tagname@)));
        lemma_lit_split(input@, pos as int, seq!['{'], quoted(tagname@));
    }
    if str_eq(tagname.as_str(), "showNotification") {
        match parse_notify_rest(input, p1) {
            Some((summary, body, timeout, success_callback, error_callback, pe)) => {
                let res = Notify::ShowNotification {
                    summary,
                    body,
                    timeout,
                    success_callback,
                    error_callback,
                };
                proof {
                    lemma_lit_split(
                        input@,
                        pos as int,
                        seq!['{'] + quoted(tagname@),
                        notify_rest_text(
                            summary@,
                            body@,
                            timeout as int,
                            success_callback@,
                            error_callback@,
                        ),
                    );
                    assert((seq!['{'] + quoted(tagname@)) + notify_rest_text(
                        summary@,
                        body@,
                        timeout as int,
                        success_callback@,
                        error_callback@,
                    ) =~= notify_text(res));
                    assert(input@.subrange(pos as int, pe as int) == notify_text(res));
                }
                Some((res, pe))
            },
            None => {
                proof {
                    assert forall|n: Notify| !lit_at(
                        input@,
                        pos as int,
                        #[trigger] notify_text(n),
                    ) by {
                        if lit_at(input@, pos as int, notify_text(n)) {
                        }
                    }
                }
                None
            },
        }
    } else {
        proof {
            assert forall|n: Notify| !lit_at(input@, pos as int, #[trigger] notify_text(n)) by {
                if lit_at(input@, pos as int, notify_text(n)) {
                }
            }
        }
        None
    }
}

/// Decodes a subprocess request at `pos`.
#[verifier::rlimit(100)]
#[verifier::spinoff_prover]
fn decode_process(input: &Vec<char>, pos: usize) -> (r: Option<(Process, usize)>)
    requires
        pos <= input@.len(),
    ensures
        r matches Some(t) ==> pos <= t.1 <= input@.len() && input@.subrange(
            pos as int,
            t.1 as int,
        ) == process_text(t.0),
        forall|p: Process| lit_at(input@, pos as int, #[trigger] process_text(p)) ==> (
        r matches Some(t) && process_equiv(t.0, p) && t.1 == pos + process_text(p).len()),
{
    proof {
        lemma_tag_facts();
        assert forall|p: Process| lit_at(
            input@,
            pos as int,
            #[trigger] process_text(p),
        ) implies lit_at(input@, pos as int, "{"@) && qstr_at(input@, pos + 1, "exec"@) && (
        p matches Process::Exec {
            cmd,
            cwd,
            stream_output,
            success_callback,
            error_callback,
        } ==> lit_at(
            input@,
            pos + 1 + quoted("exec"@).len(),
            exec_rest_text(cmd@, cwd@, stream_output, success_callback@, error_callback@),
        )) by {
            match p {
                Process::Exec { cmd, cwd, stream_output, success_callback, error_callback } => {
                    let rest = exec_rest_text(
                        cmd@,
                        cwd@,
                        stream_output,
                        success_callback@,
                        error_callback@,
                    );
                    assert(process_text(p) =~= seq!['{'] + (quoted("exec"@) + rest));
                    lemma_lit_split(input@, pos as int, seq!['{'], quoted("exec"@) + rest);
                    lemma_lit_split(input@, pos + 1, quoted("exec"@), rest);
                },
            }
        }
    }
    let p0 = match tag(input, pos, "{") {
        Some(p) => p,
        None => { return None; },
    };
    let (tagname, p1) = match parse_qstr(input, p0) {
        Some(t) => t,
        None => { return None; },
    };
    proof {
        assert(lit_at(input@, pos as int, seq!['{'])) by {
            assert(input@.subrange(pos as int, p0 as int) =~= seq!['{']);
        }
        assert(lit_at(input@, p0 as int, quoted(tagname@)));
        lemma_lit_split(input@, pos as int, seq!['{'], quoted(tagname@));
    }
    if str_eq(tagname.as_str(), "exec") {
        match parse_exec_rest(input, p1) {
            Some((cmd, cwd, stream_output, success_callback, error_callback, pe)) => {
                let res = Process::Exec { cmd, cwd, stream_output, success_callback, error_callback };
                proof {
                    lemma_lit_split(
                        input@,
                        pos as int,
                        seq!['{'] + quoted(tagname@),
                        exec_rest_text(
                            cmd@,
                            cwd@,
                            stream_output,
                            success_callback@,
                            error_callback@,
                        ),
                    );
                    assert((seq!['{'] + quoted(tagname@)) + exec_rest_text(
                        cmd@,
                        cwd@,
                        stream_output,
                        success_callback@,
                        error_callback@,
                    ) =~= process_text(res));
                    assert(input@.subrange(pos as int, pe as int) == process_text(res));
                }
                Some((res, pe))
            },
            None => {
                proof {
                    assert forall|p: Process| !lit_at(
                        input@,
                        pos as int,
                        #[trigger] process_text(p),
                    ) by {
                        if lit_at(input@, pos as int, process_text(p)) {
                        }
                    }
                }
                None
            },
        }
    } else {
        proof {
            assert forall|p: Process| !lit_at(input@, pos as int, #[trigger] process_text(p)) by {
                if lit_at(input@, pos as int, process_text(p)) {
                }
            }
        }
        None
    }
}

/// A fresh decode error.
fn decode_err() -> (r: VeloxError)
    ensures
        r is DecodeError,
{
    VeloxError::DecodeError { detail: "the string does not hold a canonical command".to_owned() }
}

/// Finishes decoding once the family tag reads `fileSystem`.
#[verifier::rlimit(100)]
#[verifier::spinoff_prover]
fn family_filesystem(input: &Vec<char>, n: usize, p2: usize, tagname: &String) -> (r:
    Result<Cmd, VeloxError>)
    requires
        n == input@.len(),
        p2 <= n,
        tagname@ == "fileSystem"@,
        input@.subrange(0, p2 as int) == (seq!['{'] + quoted(tagname@)) + seq![':'],
        forall|c: Cmd| input@ == #[trigger] cmd_text(c) ==> cmd_tag(c) == tagname@ && lit_at(
            input@,
            p2 as int,
            cmd_body(c),
        ) && lit_at(input@, p2 + cmd_body(c).len(), "}"@) && n == cmd_text(c).len(),
    ensures
        r matches Ok(c) ==> input@ == cmd_text(c),
        forall|c: Cmd| input@ == #[trigger] cmd_text(c) ==> (r matches Ok(c2) && cmd_equiv(
            c2,
            c,
        )),
        r matches Err(e) ==> e is DecodeError,
{
    proof {
        lemma_tag_facts();
    }
    match decode_fs(input, p2) {
        Some((fv, p3)) => {
            let p4 = match tag(input, p3, "}") {
                Some(p) => p,
                None => { return Err(decode_err()); },
            };
            if p4 != n {
                return Err(decode_err());
            }
            let res = Cmd::FileSystem(fv);
            proof {
                assert(lit_at(input@, p2 as int, fs_text(fv)));
                assert(lit_at(input@, p3 as int, seq!['}'])) by {
                    assert(input@.subrange(p3 as int, p4 as int) =~= seq!['}']);
                }
                lemma_lit_split(
                    input@,
                    0,
                    (seq!['{'] + quoted(tagname@)) + seq![':'],
                    fs_text(fv),
                );
                lemma_lit_split(
                    input@,
                    0,
                    ((seq!['{'] + quoted(tagname@)) + seq![':']) + fs_text(fv),
                    seq!['}'],
                );
                assert((((seq!['{'] + quoted(tagname@)) + seq![':']) + fs_text(fv))
                    + seq!['}'] =~= cmd_text(res));
                assert(input@.subrange(0, p4 as int) == cmd_text(res));
                assert(input@ =~= input@.subrange(0, n as int));
            }
            Ok(res)
        },
        None => {
            proof {
                assert forall|c: Cmd| input@ != #[trigger] cmd_text(c) by {
                    if input@ == cmd_text(c) {
                    }
                }
            }
            Err(decode_err())
        },
    }
}

/// Finishes decoding once the family tag reads `notification`.
#[verifier::rlimit(100)]
#[verifier::spinoff_prover]
fn family_notification(input: &Vec<char>, n: usize, p2: usize, tagname: &String) -> (r:
    Result<Cmd, VeloxError>)
    requires
        n == input@.len(),
        p2 <= n,
        tagname@ == "notification"@,
        input@.subrange(0, p2 as int) == (seq!['{'] + quoted(tagname@)) + seq![':'],
        forall|c: Cmd| input@ == #[trigger] cmd_text(c) ==> cmd_tag(c) == tagname@ && lit_at(
            input@,
            p2 as int,
            cmd_body(c),
        ) && lit_at(input@, p2 + cmd_body(c).len(), "}"@) && n == cmd_text(c).len(),
    ensures
        r matches Ok(c) ==> input@ == cmd_text(c),
        forall|c: Cmd| input@ == #[trigger] cmd_text(c) ==> (r matches Ok(c2) && cmd_equiv(
            c2,
            c,
        )),
        r matches Err(e) ==> e is DecodeError,
{
    proof {
        lemma_tag_facts();
    }
    match decode_notify(input, p2) {
        Some((nv, p3)) => {
            let p4 = match tag(input, p3, "}") {
                Some(p) => p,
                None => { return Err(decode_err()); },
            };
            if p4 != n {
                return Err(decode_err());
            }
            let res = Cmd::Notification(nv);
            proof {
                assert(lit_at(input@, p2 as int, notify_text(nv)));
                assert(lit_at(input@, p3 as int, seq!['}'])) by {
                    assert(input@.subrange(p3 as int, p4 as int) =~= seq!['}']);
                }
                lemma_lit_split(
                    input@,
                    0,
                    (seq!['{'] + quoted(tagname@)) + seq![':'],
                    notify_text(nv),
                );
                lemma_lit_split(
                    input@,
                    0,
                    ((seq!['{'] + quoted(tagname@)) + seq![':']) + notify_text(nv),
                    seq!['}'],
                );
                assert((((seq!['{'] + quoted(tagname@)) + seq![':']) + notify_text(nv))
                    + seq!['}'] =~= cmd_text(res));
                assert(input@.subrange(0, p4 as int) == cmd_text(res));
                assert(input@ =~= input@.subrange(0, n as int));
            }
            Ok(res)
        },
        None => {
            proof {
                assert forall|c: Cmd| input@ != #[trigger] cmd_text(c) by {
                    if input@ == cmd_text(c) {
                    }
                }
            }
            Err(decode_err())
        },
    }
}

/// Finishes decoding once the family tag reads `subProcess`.
#[verifier::rlimit(100)]
#[verifier::spinoff_prover]
fn family_subprocess(input: &Vec<char>, n: usize, p2: usize, tagname: &String) -> (r:
    Result<Cmd, VeloxError>)
    requires
        n == input@.len(),
        p2 <= n,
        tagname@ == "subProcess"@,
        input@.subrange(0, p2 as int) == (seq!['{'] + quoted(tagname@)) + seq![':'],
        forall|c: Cmd| input@ == #[trigger] cmd_text(c) ==> cmd_tag(c) == tagname@ && lit_at(
            input@,
            p2 as int,
            cmd_body(c),
        ) && lit_at(input@, p2 + cmd_body(c).len(), "}"@) && n == cmd_text(c).len(),
    ensures
        r matches Ok(c) ==> input@ == cmd_text(c),
        forall|c: Cmd| input@ == #[trigger] cmd_text(c) ==> (r matches Ok(c2) && cmd_equiv(
            c2,
            c,
        )),
        r matches Err(e) ==> e is DecodeError,
{
    proof {
        lemma_tag_facts();
    }
    match decode_process(input, p2) {
        Some((pv, p3)) => {
            let p4 = match tag(input, p3, "}") {
                Some(p) => p,
                None => { return Err(decode_err()); },
            };
            if p4 != n {
                return Err(decode_err());
            }
            let res = Cmd::SubProcess(pv);
            proof {
                assert(lit_at(input@, p2 as int, process_text(pv)));
                assert(lit_at(input@, p3 as int, seq!['}'])) by {
                    assert(input@.subrange(p3 as int, p4 as int) =~= seq!['}']);
                }
                lemma_lit_split(
                    input@,
                    0,
                    (seq!['{'] + quoted(tagname@)) + seq![':'],
                    process_text(pv),
                );
                lemma_lit_split(
                    input@,
                    0,
                    ((seq!['{'] + quoted(tagname@)) + seq![':']) + process_text(pv),
                    seq!['}'],
                );
                assert((((seq!['{'] + quoted(tagname@)) + seq![':']) + process_text(pv))
                    + seq!['}'] =~= cmd_text(res));
                assert(input@.subrange(0, p4 as int) == cmd_text(res));
                assert(input@ =~= input@.subrange(0, n as int));
            }
            Ok(res)
        },
        None => {
            proof {
                assert forall|c: Cmd| input@ != #[trigger] cmd_text(c) by {
                    if input@ == cmd_text(c) {
                    }
                }
            }
            Err(decode_err())
        },
    }
}

/// Finishes decoding once the family tag reads `window`.
#[verifier::rlimit(100)]
#[verifier::spinoff_prover]
fn family_window(input: &Vec<char>, n: usize, p2: usize, tagname: &String) -> (r:
    Result<Cmd, VeloxError>)
    requires
        n == input@.len(),
        p2 <= n,
        tagname@ == "window"@,
        input@.subrange(0, p2 as int) == (seq!['{'] + quoted(tagname@)) + seq![':'],
        forall|c: Cmd| input@ == #[trigger] cmd_text(c) ==> cmd_tag(c) == tagname@ && lit_at(
            input@,
            p2 as int,
            cmd_body(c),
        ) && lit_at(input@, p2 + cmd_body(c).len(), "}"@) && n == cmd_text(c).len(),
    ensures
        r matches Ok(c) ==> input@ == cmd_text(c),
        forall|c: Cmd| input@ == #[trigger] cmd_text(c) ==> (r matches Ok(c2) && cmd_equiv(
            c2,
            c,
        )),
        r matches Err(e) ==> e is DecodeError,
{
    proof {
        lemma_tag_facts();
    }
    match decode_window(input, p2) {
        Some((wv, p3)) => {
            let p4 = match tag(input, p3, "}") {
                Some(p) => p,
                None => { return Err(decode_err()); },
            };
            if p4 != n {
                return Err(decode_err());
            }
            let res = Cmd::Window(wv);
            proof {
                assert(lit_at(input@, p2 as int, window_text(wv)));
                assert(lit_at(input@, p3 as int, seq!['}'])) by {
                    assert(input@.subrange(p3 as int, p4 as int) =~= seq!['}']);
                }
                lemma_lit_split(
                    input@,
                    0,
                    (seq!['{'] + quoted(tagname@)) + seq![':'],
                    window_text(wv),
                );
                lemma_lit_split(
                    input@,
                    0,
                    ((seq!['{'] + quoted(tagname@)) + seq![':']) + window_text(wv),
                    seq!['}'],
                );
                assert((((seq!['{'] + quoted(tagname@)) + seq![':']) + window_text(wv))
                    + seq!['}'] =~= cmd_text(res));
                assert(input@.subrange(0, p4 as int) == cmd_text(res));
                assert(input@ =~= input@.subrange(0, n as int));
            }
            Ok(res)
        },
        None => {
            proof {
                assert forall|c: Cmd| input@ != #[trigger] cmd_text(c) by {
                    if input@ == cmd_text(c) {
                    }
                }
            }
            Err(decode_err())
        },
    }
}

/// Decodes one command from its canonical wire text.
///
/// Exactly the canonical encodings decode: whenever `s` is the canonical
/// text of a command, decoding returns that command with every field
/// unchanged, and whatever decoding accepts is the canonical text of the
/// returned command.  Everything else is a decode error.
#[verifier::rlimit(100)]
#[verifier::spinoff_prover]
pub fn decode_cmd(s: &str) -> (r: Result<Cmd, VeloxError>)
    ensures
        r matches Ok(c) ==> s@ == cmd_text(c),
        forall|c: Cmd| s@ == #[trigger] cmd_text(c) ==> (r matches Ok(c2) && cmd_equiv(c2, c)),
        r matches Err(e) ==> e is DecodeError,
{
    let input = chars_of(s);
    let n = input.len();
    proof {
        lemma_tag_facts();
        assert forall|c: Cmd| s@ == #[trigger] cmd_text(c) implies {
            &&& lit_at(input@, 0, "{"@)
            &&& qstr_at(input@, 1, cmd_tag(c))
            &&& lit_at(input@, 1 + quoted(cmd_tag(c)).len() as int, ":"@)
            &&& lit_at(input@, 2 + quoted(cmd_tag(c)).len() as int, cmd_body(c))
            &&& lit_at(input@, 2 + quoted(cmd_tag(c)).len() as int + cmd_body(c).len() as int, "}"@)
            &&& n == cmd_text(c).len()
        } by {
            assert(lit_at(input@, 0, cmd_text(c))) by {
                assert(input@.subrange(0, cmd_text(c).len() as int) =~= cmd_text(c));
            }
            assert(cmd_text(c) =~= seq!['{'] + (quoted(cmd_tag(c)) + (seq![':'] + (cmd_body(c)
                + seq!['}']))));
            lemma_lit_split(
                input@,
                0,
                seq!['{'],
                quoted(cmd_tag(c)) + (seq![':'] + (cmd_body(c) + seq!['}'])),
            );
            lemma_lit_split(input@, 1, quoted(cmd_tag(c)), seq![':'] + (cmd_body(c) + seq!['}']));
            lemma_lit_split(
                input@,
                1 + quoted(cmd_tag(c)).len() as int,
                seq![':'],
                cmd_body(c) + seq!['}'],
            );
            lemma_lit_split(input@, 2 + quoted(cmd_tag(c)).len() as int, cmd_body(c), seq!['}']);
        }
    }
    let p0 = match tag(&input, 0, "{") {
        Some(p) => p,
        None => { return Err(decode_err()); },
    };
    let (tagname, p1) = match parse_qstr(&input, p0) {
        Some(t) => t,
        None => { return Err(decode_err()); },
    };
    let p2 = match tag(&input, p1, ":") {
        Some(p) => p,
        None => { return Err(decode_err()); },
    };
    proof {
        assert(lit_at(input@, 0, seq!['{'])) by {
            assert(input@.subrange(0, p0 as int) =~= seq!['{']);
        }
        assert(lit_at(input@, p0 as int, quoted(tagname@)));
        assert(lit_at(input@, p1 as int, seq![':'])) by {
            assert(input@.subrange(p1 as int, p2 as int) =~= seq![':']);
        }
        lemma_lit_split(input@, 0, seq!['{'], quoted(tagname@));
        lemma_lit_split(input@, 0, seq!['{'] + quoted(tagname@), seq![':']);
        assert(input@.subrange(0, p2 as int) == (seq!['{'] + quoted(tagname@)) + seq![':']);
        assert(input@ == s@);
    }
    if str_eq(tagname.as_str(), "fileSystem") {
        family_filesystem(&input, n, p2, &tagname)
    } else if str_eq(tagname.as_str(), "notification") {
        family_notification(&input, n, p2, &tagname)
    } else if str_eq(tagname.as_str(), "subProcess") {
        family_subprocess(&input, n, p2, &tagname)
    } else if str_eq(tagname.as_str(), "window") {
        family_window(&input, n, p2, &tagname)
    } else {
        proof {
            assert forall|c: Cmd| s@ != #[trigger] cmd_text(c) by {
                if s@ == cmd_text(c) {
                }
            }
        }
        Err(decode_err())
    }
}


} // verus!
