use vstd::prelude::*;

verus! {

/// The schema version of the network state written by this library.
pub const CUR_SCHEMA_VERSION: u32 = 1;

/// Which network state to query.
#[derive(Debug, Clone, Copy, PartialEq, Eq, Structural)]
#[non_exhaustive]
pub enum NipartstateStateKind {
    RunningNetworkState,
    SavedNetworkState,
}

impl Default for NipartstateStateKind {
    fn default() -> (r: Self)
        ensures
            r == NipartstateStateKind::RunningNetworkState,
    {
        NipartstateStateKind::RunningNetworkState
    }
}

/// Options of a network state query.
#[derive(Debug, Clone, Copy, PartialEq, Eq, Structural)]
#[non_exhaustive]
pub struct NipartstateQueryOption {
    pub version: u32,
    pub kind: NipartstateStateKind,
    pub include_secrets: bool,
}

impl Default for NipartstateQueryOption {
    fn default() -> (r: Self)
        ensures
            r == (NipartstateQueryOption {
                version: CUR_SCHEMA_VERSION,
                kind: NipartstateStateKind::RunningNetworkState,
                include_secrets: false,
            }),
    {
        NipartstateQueryOption {
            version: CUR_SCHEMA_VERSION,
            kind: NipartstateStateKind::RunningNetworkState,
            include_secrets: false,
        }
    }
}

impl NipartstateQueryOption {
    /// Query the running network state.
    pub fn running() -> (r: Self)
        ensures
            r == (NipartstateQueryOption {
                version: CUR_SCHEMA_VERSION,
                kind: NipartstateStateKind::RunningNetworkState,
                include_secrets: false,
            }),
    {
        NipartstateQueryOption { kind: NipartstateStateKind::RunningNetworkState, ..Default::default() }
    }

    /// Query the saved network state.
    pub fn saved() -> (r: Self)
        ensures
            r == (NipartstateQueryOption {
                version: CUR_SCHEMA_VERSION,
                kind: NipartstateStateKind::SavedNetworkState,
                include_secrets: false,
            }),
    {
        NipartstateQueryOption { kind: NipartstateStateKind::SavedNetworkState, ..Default::default() }
    }

    /// Whether secrets are included in the reply.
    pub fn include_secrets(self, value: bool) -> (r: Self)
        ensures
            r == (NipartstateQueryOption { include_secrets: value, ..self }),
    {
        NipartstateQueryOption { include_secrets: value, ..self }
    }
}

/// Options of applying a network state.
#[derive(Debug, Clone, Copy, PartialEq, Eq, Structural)]
#[non_exhaustive]
pub struct NipartstateApplyOption {
    pub skip_verify: bool,
    pub memory_only: bool,
    pub dhcp_in_no_daemon: bool,
}

impl Default for NipartstateApplyOption {
    fn default() -> (r: Self)
        ensures
            r == (NipartstateApplyOption { skip_verify: false, memory_only: false, dhcp_in_no_daemon: false }),
    {
        NipartstateApplyOption { skip_verify: false, memory_only: false, dhcp_in_no_daemon: false }
    }
}

impl NipartstateApplyOption {
    /// All options off.
    pub fn new() -> (r: Self)
        ensures
            r == (NipartstateApplyOption { skip_verify: false, memory_only: false, dhcp_in_no_daemon: false }),
    {
        Self::default()
    }

    /// Skip verification after applying.
    pub fn skip_verify(self) -> (r: Self)
        ensures
            r == (NipartstateApplyOption { skip_verify: true, ..self }),
    {
        NipartstateApplyOption { skip_verify: true, ..self }
    }

    /// Apply to memory only, not to persistent storage.
    pub fn memory_only(self) -> (r: Self)
        ensures
            r == (NipartstateApplyOption { memory_only: true, ..self }),
    {
        NipartstateApplyOption { memory_only: true, ..self }
    }

    /// Invoke DHCP in no-daemon mode.
    pub fn dhcp_in_no_daemon(self) -> (r: Self)
        ensures
            r == (NipartstateApplyOption { dhcp_in_no_daemon: true, ..self }),
    {
        NipartstateApplyOption { dhcp_in_no_daemon: true, ..self }
    }
}

} // verus!
