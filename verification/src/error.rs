use vstd::prelude::*;

use crate::text::str_to_string;

verus! {

/// Category of a failure reported by the library.
#[derive(Debug, Clone, Copy, PartialEq, Eq, Structural)]
#[non_exhaustive]
pub enum ErrorKind {
    /// Please report this as bug to upstream
    Bug,
    /// Inter-process communication remote end closed
    IpcClosed,
    /// Inter-process communication failure
    IpcFailure,
    /// Data send through the IPC connection exceeded the maximum size
    IpcMessageTooLarge,
    /// Invalid log level
    InvalidLogLevel,
    /// Invalid UUID format
    InvalidUuid,
    /// Invalid schema version
    InvalidSchemaVersion,
    /// Invalid argument
    InvalidArgument,
    /// Timeout
    Timeout,
    /// Not supported
    NoSupport,
    /// Plugin failure
    PluginFailure,
    /// Daemon failure
    DaemonFailure,
    /// Post applied state does not match with desired state
    VerificationError,
    /// Permission deny
    PermissionDeny,
}

/// The kebab-case name of an error kind, as used on the wire.
pub open spec fn error_kind_name(k: ErrorKind) -> Seq<char> {
    match k {
        ErrorKind::Bug => "bug"@,
        ErrorKind::IpcClosed => "ipc-closed"@,
        ErrorKind::IpcFailure => "ipc-failure"@,
        ErrorKind::IpcMessageTooLarge => "ipc-message-too-large"@,
        ErrorKind::InvalidLogLevel => "invalid-log-level"@,
        ErrorKind::InvalidUuid => "invalid-uuid"@,
        ErrorKind::InvalidSchemaVersion => "invalid-schema-version"@,
        ErrorKind::InvalidArgument => "invalid-argument"@,
        ErrorKind::Timeout => "timeout"@,
        ErrorKind::NoSupport => "no-support"@,
        ErrorKind::PluginFailure => "plugin-failure"@,
        ErrorKind::DaemonFailure => "daemon-failure"@,
        ErrorKind::VerificationError => "verification-error"@,
        ErrorKind::PermissionDeny => "permission-deny"@,
    }
}

impl ErrorKind {
    /// The kebab-case name of this kind.
    pub fn as_str(&self) -> (r: &'static str)
        ensures
            r@ == error_kind_name(*self),
    {
        match self {
            ErrorKind::Bug => "bug",
            ErrorKind::IpcClosed => "ipc-closed",
            ErrorKind::IpcFailure => "ipc-failure",
            ErrorKind::IpcMessageTooLarge => "ipc-message-too-large",
            ErrorKind::InvalidLogLevel => "invalid-log-level",
            ErrorKind::InvalidUuid => "invalid-uuid",
            ErrorKind::InvalidSchemaVersion => "invalid-schema-version",
            ErrorKind::InvalidArgument => "invalid-argument",
            ErrorKind::Timeout => "timeout",
            ErrorKind::NoSupport => "no-support",
            ErrorKind::PluginFailure => "plugin-failure",
            ErrorKind::DaemonFailure => "daemon-failure",
            ErrorKind::VerificationError => "verification-error",
            ErrorKind::PermissionDeny => "permission-deny",
        }
    }
}

/// Error of the library: a kind and a human readable message.
#[derive(Debug, Clone, PartialEq, Eq)]
#[non_exhaustive]
pub struct NipartError {
    pub kind: ErrorKind,
    pub msg: String,
}

impl NipartError {
    /// Wire name of an error message.
    pub const IPC_KIND: &'static str = "error";

    pub fn new(kind: ErrorKind, msg: String) -> (r: Self)
        ensures
            r.kind == kind,
            r.msg == msg,
    {
        Self { kind, msg }
    }

    /// Build an error from a message given as a string slice.
    pub fn from_str_msg(kind: ErrorKind, msg: &str) -> (r: Self)
        ensures
            r.kind == kind,
            r.msg@ == msg@,
    {
        Self { kind, msg: str_to_string(msg) }
    }

    pub fn kind(&self) -> (r: ErrorKind)
        ensures
            r == self.kind,
    {
        self.kind
    }

    pub fn msg(&self) -> (r: &str)
        ensures
            r@ == self.msg@,
    {
        self.msg.as_str()
    }

    /// The wire name of this message kind.
    pub fn ipc_kind(&self) -> (r: String)
        ensures
            r@ == "error"@,
    {
        proof { reveal_strlit("error"); }
        str_to_string("error")
    }

    /// Human readable text: the kind name, a colon, a space and the message.
    pub fn to_display_string(&self) -> (r: String)
        ensures
            r@ == error_kind_name(self.kind) + ": "@ + self.msg@,
    {
        let mut s = str_to_string(self.kind.as_str());
        s.append(": ");
        s.append(self.msg.as_str());
        s
    }
}

} // verus!
