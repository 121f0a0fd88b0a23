//! The decisions around running a shell command: how the command line is
//! assembled, where streamed output is served, and which callback an exit
//! feeds.  Spawning and reading the process is the runner's work.

use vstd::prelude::*;

use crate::codec::{dec, write_u64};
use crate::VeloxError;

verus! {

/// The program and arguments that run `cmd` under the platform's shell.
pub fn shell_invocation(windows: bool, cmd: &str) -> (r: (String, Vec<String>))
    ensures
        windows ==> r.0@ == "cmd"@ && r.1@.len() == 2 && r.1@[0]@ == "/C"@ && r.1@[1]@ == cmd@,
        !windows ==> r.0@ == "sh"@ && r.1@.len() == 2 && r.1@[0]@ == "-c"@ && r.1@[1]@ == cmd@,
{
    let mut args: Vec<String> = Vec::new();
    if windows {
        args.push("/C".to_owned());
        args.push(cmd.to_owned());
        ("cmd".to_owned(), args)
    } else {
        args.push("-c".to_owned());
        args.push(cmd.to_owned());
        ("sh".to_owned(), args)
    }
}

/// The websocket address streamed output is served on, for a picked port.
pub fn ws_url(port: u16) -> (r: String)
    ensures
        r@ == "ws://127.0.0.1:"@ + dec(port as nat),
{
    let mut out = String::from_str("ws://127.0.0.1:");
    write_u64(&mut out, port as u64);
    out
}

/// Settles a finished subprocess: its standard output on a clean exit, and
/// otherwise an error carrying its standard error.
///
/// A nonzero exit deliberately flows to the error callback: the captured
/// standard error is the error's detail, never a success payload.
pub fn exec_output(status_success: bool, stdout: String, stderr: String) -> (r: Result<
    String,
    VeloxError,
>)
    ensures
        status_success ==> (r matches Ok(s) && s == stdout),
        !status_success ==> (r matches Err(e) && e is SubProcessError && e.detail_text()
            == stderr@),
{
    if status_success {
        Ok(stdout)
    } else {
        Err(VeloxError::SubProcessError { detail: stderr })
    }
}

} // verus!
