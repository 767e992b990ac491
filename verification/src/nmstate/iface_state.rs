use vstd::prelude::*;
use vstd::string::*;

use crate::text::str_eq;

verus! {

/// The state of interface
#[derive(Debug, Clone, Copy, PartialEq, Eq, Structural)]
#[non_exhaustive]
pub enum InterfaceState {
    /// Interface is marked as up.
    Up,
    /// Interface is marked as down.
    Down,
    /// Only for apply action to remove configuration and bring interface to
    /// down state.
    Absent,
    /// Interface is not managed by backend.
    Ignore,
    /// Interface is up but not managed by backend.
    UpIgnore,
    /// Interface is down but not managed by backend.
    DownIgnore,
    /// Unknown state, treated as ignore when applying.
    Unknown,
}

impl Default for InterfaceState {
    fn default() -> (r: Self)
        ensures
            r == InterfaceState::Up,
    {
        InterfaceState::Up
    }
}

/// Whether the state means the interface is not managed.
pub open spec fn state_is_ignore(s: InterfaceState) -> bool {
    s == InterfaceState::Ignore || s == InterfaceState::UpIgnore || s == InterfaceState::DownIgnore
        || s == InterfaceState::Unknown
}

/// The state a name stands for; an unknown name is treated as `ignore`.
pub open spec fn state_of_name(s: Seq<char>) -> InterfaceState {
    if s == "up"@ {
        InterfaceState::Up
    } else if s == "down"@ {
        InterfaceState::Down
    } else if s == "absent"@ {
        InterfaceState::Absent
    } else if s == "ignore"@ {
        InterfaceState::Ignore
    } else if s == "up-ignore"@ {
        InterfaceState::UpIgnore
    } else if s == "down-ignore"@ {
        InterfaceState::DownIgnore
    } else if s == "unknown"@ {
        InterfaceState::Unknown
    } else {
        InterfaceState::Ignore
    }
}

impl InterfaceState {
    /// Whether interface is in [InterfaceState::Ignore] or
    /// [InterfaceState::UpIgnore] or [InterfaceState::DownIgnore] or
    /// [InterfaceState::Unknown] state.
    pub fn is_ignore(&self) -> (r: bool)
        ensures
            r == state_is_ignore(*self),
    {
        matches!(self, Self::Ignore | Self::UpIgnore | Self::DownIgnore | Self::Unknown)
    }

    /// Whether interface is up and managed
    pub fn is_up(&self) -> (r: bool)
        ensures
            r == (*self == InterfaceState::Up),
    {
        matches!(self, Self::Up)
    }

    pub fn is_down(&self) -> (r: bool)
        ensures
            r == (*self == InterfaceState::Down),
    {
        matches!(self, Self::Down)
    }

    pub fn is_absent(&self) -> (r: bool)
        ensures
            r == (*self == InterfaceState::Absent),
    {
        matches!(self, Self::Absent)
    }

    /// The state a name stands for: `up`, `down`, `absent`, `ignore`,
    /// `up-ignore`, `down-ignore`, `unknown`; any other name is treated as
    /// `ignore`.
    pub fn from_name(s: &str) -> (r: Self)
        ensures
            r == state_of_name(s@),
    {
        if str_eq(s, "up") {
            Self::Up
        } else if str_eq(s, "down") {
            Self::Down
        } else if str_eq(s, "absent") {
            Self::Absent
        } else if str_eq(s, "ignore") {
            Self::Ignore
        } else if str_eq(s, "up-ignore") {
            Self::UpIgnore
        } else if str_eq(s, "down-ignore") {
            Self::DownIgnore
        } else if str_eq(s, "unknown") {
            Self::Unknown
        } else {
            Self::Ignore
        }
    }
}

} // verus!
