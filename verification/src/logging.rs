use vstd::prelude::*;
use vstd::string::*;

use crate::error::{ErrorKind, NipartError};
use crate::text::{str_eq, str_to_string};

verus! {

/// Log level, from quietest to most verbose.
#[derive(Debug, Clone, Copy, PartialEq, Eq, Structural, PartialOrd, Ord)]
pub enum NipartLogLevel {
    Off,
    Error,
    Warn,
    Info,
    Debug,
    Trace,
}

/// The name of a log level.
pub open spec fn log_level_name(l: NipartLogLevel) -> Seq<char> {
    match l {
        NipartLogLevel::Off => "off"@,
        NipartLogLevel::Error => "error"@,
        NipartLogLevel::Warn => "warn"@,
        NipartLogLevel::Info => "info"@,
        NipartLogLevel::Debug => "debug"@,
        NipartLogLevel::Trace => "trace"@,
    }
}

/// The log level a name stands for, if any.
pub open spec fn log_level_of_name(s: Seq<char>) -> Option<NipartLogLevel> {
    if s == "off"@ {
        Some(NipartLogLevel::Off)
    } else if s == "error"@ {
        Some(NipartLogLevel::Error)
    } else if s == "warn"@ {
        Some(NipartLogLevel::Warn)
    } else if s == "info"@ {
        Some(NipartLogLevel::Info)
    } else if s == "debug"@ {
        Some(NipartLogLevel::Debug)
    } else if s == "trace"@ {
        Some(NipartLogLevel::Trace)
    } else {
        None
    }
}

impl NipartLogLevel {
    /// The name of the level.
    pub fn as_str(&self) -> (r: &'static str)
        ensures
            r@ == log_level_name(*self),
    {
        proof {
            reveal_strlit("off");
            reveal_strlit("error");
            reveal_strlit("warn");
            reveal_strlit("info");
            reveal_strlit("debug");
            reveal_strlit("trace");
        }
        match self {
            NipartLogLevel::Off => "off",
            NipartLogLevel::Error => "error",
            NipartLogLevel::Warn => "warn",
            NipartLogLevel::Info => "info",
            NipartLogLevel::Debug => "debug",
            NipartLogLevel::Trace => "trace",
        }
    }

    /// The level a name stands for; any other name is refused.
    pub fn from_name(s: &str) -> (r: Result<Self, NipartError>)
        ensures
            r is Ok <==> log_level_of_name(s@) is Some,
            r matches Ok(l) ==> log_level_of_name(s@) == Some(l),
            r matches Err(e) ==> e.kind == ErrorKind::InvalidLogLevel,
    {
        if str_eq(s, "off") {
            Ok(NipartLogLevel::Off)
        } else if str_eq(s, "error") {
            Ok(NipartLogLevel::Error)
        } else if str_eq(s, "warn") {
            Ok(NipartLogLevel::Warn)
        } else if str_eq(s, "info") {
            Ok(NipartLogLevel::Info)
        } else if str_eq(s, "debug") {
            Ok(NipartLogLevel::Debug)
        } else if str_eq(s, "trace") {
            Ok(NipartLogLevel::Trace)
        } else {
            let mut msg = str_to_string("Invalid logging level ");
            msg.append(s);
            Err(NipartError::new(ErrorKind::InvalidLogLevel, msg))
        }
    }
}

/// The name of a log level names that level again: reading back what
/// [NipartLogLevel::as_str] gives always yields the same level.
pub proof fn lemma_log_level_name_round_trip(l: NipartLogLevel)
    ensures
        log_level_of_name(log_level_name(l)) == Some(l),
{
    reveal_strlit("off");
    reveal_strlit("error");
    reveal_strlit("warn");
    reveal_strlit("info");
    reveal_strlit("debug");
    reveal_strlit("trace");
    assert("warn"@[0] != "info"@[0]);
    assert("error"@[0] != "debug"@[0]);
    assert("error"@[0] != "trace"@[0]);
    assert("debug"@[0] != "trace"@[0]);
    assert("off"@.len() != "warn"@.len());
    assert("off"@.len() != "error"@.len());
    assert("warn"@.len() != "error"@.len());
}

/// The target text of a log destination.
pub open spec fn target_text(t: (String, NipartLogLevel)) -> Seq<char> {
    t.0@
}

/// The level of a log destination.
pub open spec fn target_level(t: (String, NipartLogLevel)) -> NipartLogLevel {
    t.1
}

/// A log message with its source and level.
#[derive(Debug)]
pub struct NipartLogEntry {
    pub source: String,
    pub level: NipartLogLevel,
    pub message: String,
}

impl Clone for NipartLogEntry {
    fn clone(&self) -> (r: Self)
        ensures
            r == *self,
    {
        NipartLogEntry { source: self.source.clone(), level: self.level, message: self.message.clone() }
    }
}

impl NipartLogEntry {
    /// Wire name of a log message.
    pub const IPC_KIND: &'static str = "log";

    pub fn new(source: String, level: NipartLogLevel, message: String) -> (r: Self)
        ensures
            r == (NipartLogEntry { source, level, message }),
    {
        NipartLogEntry { source, level, message }
    }

    pub fn new_trace(source: String, message: String) -> (r: Self)
        ensures
            r == (NipartLogEntry { source, level: NipartLogLevel::Trace, message }),
    {
        NipartLogEntry { level: NipartLogLevel::Trace, source, message }
    }

    pub fn new_debug(source: String, message: String) -> (r: Self)
        ensures
            r == (NipartLogEntry { source, level: NipartLogLevel::Debug, message }),
    {
        NipartLogEntry { level: NipartLogLevel::Debug, source, message }
    }

    pub fn new_info(source: String, message: String) -> (r: Self)
        ensures
            r == (NipartLogEntry { source, level: NipartLogLevel::Info, message }),
    {
        NipartLogEntry { level: NipartLogLevel::Info, source, message }
    }

    pub fn new_warn(source: String, message: String) -> (r: Self)
        ensures
            r == (NipartLogEntry { source, level: NipartLogLevel::Warn, message }),
    {
        NipartLogEntry { level: NipartLogLevel::Warn, source, message }
    }

    pub fn new_error(source: String, message: String) -> (r: Self)
        ensures
            r == (NipartLogEntry { source, level: NipartLogLevel::Error, message }),
    {
        NipartLogEntry { level: NipartLogLevel::Error, source, message }
    }

    /// Where the entry is logged: under the target `nipart.` followed by its
    /// source, at its level; nothing is logged at level off.
    pub fn emit_target(&self) -> (r: Option<(String, NipartLogLevel)>)
        ensures
            self.level == NipartLogLevel::Off ==> r is None,
            self.level != NipartLogLevel::Off ==> r is Some && target_text(r->0) == "nipart."@ + self.source@
                && target_level(r->0) == self.level,
    {
        if self.level == NipartLogLevel::Off {
            return None;
        }
        let mut target = str_to_string("nipart.");
        target.append(self.source.as_str());
        Some((target, self.level))
    }

    /// The wire name of this message kind.
    pub fn ipc_kind(&self) -> (r: String)
        ensures
            r@ == "log"@,
    {
        str_to_string("log")
    }
}

} // verus!
