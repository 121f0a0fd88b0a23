//! Core of a thin desktop-application shell: a webview front-end drives native
//! operations through a fixed command protocol, and native code drives the
//! front-end back through window events and injected callback invocations.
//!
//! This crate holds the verified heart of that shell: the wire codec for
//! commands and events, the dispatcher that routes a decoded request to
//! exactly one native operation, the callback bridge that formats results as
//! JavaScript statements, and the window-registry state machine.  The native
//! toolkit, the filesystem, dialogs, notifications and sockets are collaborators
//! behind this boundary; they are driven by a thin unverified runner.

pub mod api;
pub mod app;
pub mod assets;
pub mod cmd;
pub mod codec;
pub mod config;
pub mod events;
pub mod handler;
pub mod helper;
pub mod server;
pub mod splashscreen;
pub mod utils;
pub mod window;

use vstd::prelude::*;

verus! {

/// Errors surfaced by the shell's operations.
///
/// Decode failures and dialog cancellations are normal outcomes that flow back
/// to the front-end as `{"error": ...}` payloads; only a malformed startup
/// configuration is fatal.
#[derive(Debug, Clone, PartialEq, Eq)]
pub enum VeloxError {
    /// A string failed to decode against the command or event schema.
    DecodeError { detail: String },
    /// An operation name that no command variant carries.
    CommandError { detail: String },
    /// A filesystem or OS failure, with the underlying message.
    IoError { detail: String },
    /// The user dismissed a native chooser without selecting anything.
    DialogError { detail: String },
    /// The native notification subsystem failed.
    NotificationError { detail: String },
    /// A subprocess could not be spawned or exited abnormally.
    SubProcessError { detail: String },
    /// The startup configuration was malformed; startup aborts.
    ConfigError { detail: String },
}

impl VeloxError {
    /// The human-readable detail carried by every error variant.
    pub fn message(&self) -> (r: &String)
        ensures
            r@ == self.detail_text(),
    {
        match self {
            VeloxError::DecodeError { detail } => detail,
            VeloxError::CommandError { detail } => detail,
            VeloxError::IoError { detail } => detail,
            VeloxError::DialogError { detail } => detail,
            VeloxError::NotificationError { detail } => detail,
            VeloxError::SubProcessError { detail } => detail,
            VeloxError::ConfigError { detail } => detail,
        }
    }

    /// The detail text of an error, whatever its variant.
    pub open spec fn detail_text(&self) -> Seq<char> {
        match self {
            VeloxError::DecodeError { detail } => detail@,
            VeloxError::CommandError { detail } => detail@,
            VeloxError::IoError { detail } => detail@,
            VeloxError::DialogError { detail } => detail@,
            VeloxError::NotificationError { detail } => detail@,
            VeloxError::SubProcessError { detail } => detail@,
            VeloxError::ConfigError { detail } => detail@,
        }
    }
}

} // verus!
