use vstd::prelude::*;
use vstd::string::*;

use crate::error::{ErrorKind, NipartError};
use crate::logging::NipartLogEntry;
use crate::nmstate::net_state::NetworkState;
use crate::nmstate::state_options::{NipartstateApplyOption, NipartstateQueryOption};
use crate::text::{str_eq, str_to_string};

verus! {

/// The largest IPC message accepted: 10 MiB.
pub const IPC_MAX_SIZE: usize = 10485760;

/// Default timeout of an IPC exchange, in milliseconds.
pub const DEFAULT_TIMEOUT_MS: u32 = 30000;

/// A value that can be sent over IPC, tagged with the name of its kind.
pub trait NipartCanIpc {
    fn ipc_kind(&self) -> String;
}

impl NipartCanIpc for NipartError {
    fn ipc_kind(&self) -> String {
        str_to_string("error")
    }
}

impl NipartCanIpc for NipartLogEntry {
    fn ipc_kind(&self) -> String {
        str_to_string("log")
    }
}

impl NipartCanIpc for NetworkState {
    fn ipc_kind(&self) -> String {
        str_to_string("network_state")
    }
}

impl NipartCanIpc for String {
    fn ipc_kind(&self) -> String {
        self.clone()
    }
}

/// A command from a client to the daemon.
#[non_exhaustive]
pub enum NipartClientCmd {
    Ping,
    QueryNetworkState(Box<NipartstateQueryOption>),
    ApplyNetworkState(Box<(NetworkState, NipartstateApplyOption)>),
}

/// The wire name of a client command.
pub open spec fn client_cmd_kind(c: NipartClientCmd) -> Seq<char> {
    match c {
        NipartClientCmd::Ping => "ping"@,
        NipartClientCmd::QueryNetworkState(_) => "query-network-state"@,
        NipartClientCmd::ApplyNetworkState(_) => "apply-network-state"@,
    }
}

impl NipartClientCmd {
    /// The wire name of the command.
    pub fn cmd_kind(&self) -> (r: String)
        ensures
            r@ == client_cmd_kind(*self),
    {
        match self {
            NipartClientCmd::Ping => str_to_string("ping"),
            NipartClientCmd::QueryNetworkState(_) => str_to_string("query-network-state"),
            NipartClientCmd::ApplyNetworkState(_) => str_to_string("apply-network-state"),
        }
    }

    /// Hide the secrets of a network state to apply.
    pub fn hide_secrets(&mut self)
        ensures
            (*old(self) is Ping) ==> *final(self) is Ping,
            (*old(self) is QueryNetworkState) ==> *final(self) == *old(self),
            (*old(self) is ApplyNetworkState) ==> *final(self) is ApplyNetworkState,
    {
        if let NipartClientCmd::ApplyNetworkState(cmd) = self {
            let _ = cmd.0.hide_secrets();
        }
    }
}

impl NipartCanIpc for NipartClientCmd {
    fn ipc_kind(&self) -> String {
        self.cmd_kind()
    }
}

/// The big-endian bytes of a 32-bit value.
pub open spec fn be_bytes(n: int) -> Seq<u8> {
    seq![
        (n / 16777216) as u8,
        ((n / 65536) % 256) as u8,
        ((n / 256) % 256) as u8,
        (n % 256) as u8,
    ]
}

/// The 32-bit value of four big-endian bytes.
pub open spec fn be_value(b: Seq<u8>) -> int {
    b[0] * 16777216 + b[1] * 65536 + b[2] * 256 + b[3]
}

/// Frame a message for sending: its length as four big-endian bytes, then
/// the message. A message over 10 MiB is refused.
pub fn frame_message(data: &Vec<u8>) -> (r: Result<Vec<u8>, NipartError>)
    ensures
        r is Err <==> data@.len() > IPC_MAX_SIZE,
        r matches Err(e) ==> e.kind == ErrorKind::IpcMessageTooLarge,
        r matches Ok(v) ==> v@ == be_bytes(data@.len() as int) + data@,
{
    if data.len() > IPC_MAX_SIZE {
        return Err(
            NipartError::from_str_msg(
                ErrorKind::IpcMessageTooLarge,
                "Size of IPC message exceeded the maximum support",
            ),
        );
    }
    let n: usize = data.len();
    let mut out: Vec<u8> = Vec::new();
    out.push((n / 16777216) as u8);
    out.push(((n / 65536) % 256) as u8);
    out.push(((n / 256) % 256) as u8);
    out.push((n % 256) as u8);
    let mut i: usize = 0;
    while i < data.len()
        invariant
            i <= data.len(),
            n == data@.len(),
            n <= IPC_MAX_SIZE,
            out@ == be_bytes(n as int) + data@.subrange(0, i as int),
        decreases data.len() - i,
    {
        out.push(data[i]);
        proof {
            assert(data@.subrange(0, i + 1) =~= data@.subrange(0, i as int).push(data@[i as int]));
        }
        i += 1;
    }
    proof {
        assert(data@.subrange(0, data@.len() as int) =~= data@);
    }
    Ok(out)
}

/// Read the size of an incoming message from its four big-endian length
/// bytes: 0 means the connection was closed by the remote end, 10 MiB or
/// more is refused.
pub fn parse_message_size(b: [u8; 4]) -> (r: Result<usize, NipartError>)
    ensures
        r is Ok <==> 0 < be_value(b@) < IPC_MAX_SIZE,
        r matches Ok(n) ==> n == be_value(b@),
        be_value(b@) == 0 ==> r is Err && r->Err_0.kind == ErrorKind::IpcFailure,
        be_value(b@) >= IPC_MAX_SIZE ==> r is Err && r->Err_0.kind == ErrorKind::IpcMessageTooLarge,
{
    let v: u64 = (b[0] as u64) * 16777216 + (b[1] as u64) * 65536 + (b[2] as u64) * 256 + (b[3] as u64);
    if v == 0 {
        return Err(NipartError::from_str_msg(ErrorKind::IpcFailure, "Connection is closed by remote"));
    }
    if v >= IPC_MAX_SIZE as u64 {
        return Err(
            NipartError::from_str_msg(
                ErrorKind::IpcMessageTooLarge,
                "Received size of IPC message exceeded the maximum support",
            ),
        );
    }
    Ok(v as usize)
}

/// The size read back from a frame's header is the length of the framed
/// message, for every message that can be framed and is not empty.
pub proof fn lemma_frame_size_round_trip(len: int)
    requires
        0 <= len <= IPC_MAX_SIZE,
    ensures
        be_value(be_bytes(len)) == len,
{
    let b = be_bytes(len);
    assert(b[0] == len / 16777216);
    assert(b[1] == (len / 65536) % 256);
    assert(b[2] == (len / 256) % 256);
    assert(b[3] == len % 256);
    assert(be_value(b) == len) by (nonlinear_arith)
        requires
            0 <= len <= 10485760,
            b[0] == len / 16777216,
            b[1] == (len / 65536) % 256,
            b[2] == (len / 256) % 256,
            b[3] == len % 256,
            be_value(b) == b[0] * 16777216 + b[1] * 65536 + b[2] * 256 + b[3],
    ;
}

/// The kind of an IPC message.
#[derive(Debug, Clone, Copy, PartialEq, Eq, Structural)]
pub enum NipartMessageKind {
    Error,
    Log,
    Data,
}

/// Tell an incoming message's kind from its `kind` tag, given the kind of
/// data expected: `error`, `log`, or the expected data kind; any other tag
/// is a bug.
pub fn classify_message(kind: &str, data_kind: &str) -> (r: Result<NipartMessageKind, NipartError>)
    ensures
        kind@ == "error"@ ==> r == Ok::<NipartMessageKind, NipartError>(NipartMessageKind::Error),
        kind@ != "error"@ && kind@ == "log"@ ==> r == Ok::<NipartMessageKind, NipartError>(NipartMessageKind::Log),
        kind@ != "error"@ && kind@ != "log"@ ==> (r is Ok <==> kind@ == data_kind@),
        kind@ != "error"@ && kind@ != "log"@ && kind@ == data_kind@ ==> r == Ok::<
            NipartMessageKind,
            NipartError,
        >(NipartMessageKind::Data),
        r matches Err(e) ==> e.kind == ErrorKind::Bug,
{
    if str_eq(kind, "error") {
        Ok(NipartMessageKind::Error)
    } else if str_eq(kind, "log") {
        Ok(NipartMessageKind::Log)
    } else if str_eq(kind, data_kind) {
        Ok(NipartMessageKind::Data)
    } else {
        let mut msg = str_to_string("Expecting 'kind' set to ");
        msg.append(data_kind);
        msg.append(" but got ");
        msg.append(kind);
        Err(NipartError::new(ErrorKind::Bug, msg))
    }
}

} // verus!
