use vstd::prelude::*;
use vstd::string::*;

use crate::error::{ErrorKind, NipartError};
use crate::nmstate::iface_type::InterfaceType;
use crate::text::{clone_opt_str, decimal_string, decimal_text, opt_str_view, str_eq, str_to_string};
use crate::uuid::NipartUuid;

verus! {

/// Something that can be locked while a change is applied.
#[non_exhaustive]
pub enum NipartLockEntry {
    Interface(Box<(String, InterfaceType)>),
    Dns,
    Route,
    RouteRule,
}

impl NipartLockEntry {
    /// The lock of an interface.
    pub fn new_iface(iface_name: String, iface_type: InterfaceType) -> (r: Self)
        ensures
            r matches NipartLockEntry::Interface(b) && b.0 == iface_name && b.1 == iface_type,
    {
        NipartLockEntry::Interface(Box::new((iface_name, iface_type)))
    }
}

/// Options of taking a lock.
#[derive(Debug, Clone, Copy, PartialEq, Eq, Structural, Hash)]
#[non_exhaustive]
pub struct NipartLockOption {
    pub timeout_seconds: u32,
}

impl NipartLockOption {
    pub fn new(timeout_seconds: u32) -> (r: Self)
        ensures
            r.timeout_seconds == timeout_seconds,
    {
        NipartLockOption { timeout_seconds }
    }

    /// Text form: `lock_option.timeout:` followed by the seconds and `s`.
    pub fn to_display_string(&self) -> (r: String)
        ensures
            r@ == "lock_option.timeout:"@ + decimal_text(self.timeout_seconds as nat) + "s"@,
    {
        let mut s = str_to_string("lock_option.timeout:");
        let d = decimal_string(self.timeout_seconds as u64);
        s.append(d.as_str());
        s.append("s");
        s
    }
}

/// Timeout of a DHCP request, in seconds, unless set otherwise.
pub const DEFAULT_DHCP_TIMEOUT: u32 = 30;

/// DHCPv6 settings of an interface.
#[non_exhaustive]
pub struct NipartDhcpConfigV6 {
    pub iface: String,
    pub enabled: bool,
    pub timeout: u32,
}

/// DHCPv4 settings of an interface.
#[non_exhaustive]
pub struct NipartDhcpConfigV4 {
    pub iface: String,
    pub client_id: Option<String>,
    pub enabled: bool,
    pub timeout: u32,
}

/// DHCP settings of either IP family.
#[non_exhaustive]
pub enum NipartDhcpConfig {
    V4(NipartDhcpConfigV4),
    V6(NipartDhcpConfigV6),
}

/// The word shown for a DHCP switch.
pub open spec fn enabled_word(b: bool) -> Seq<char> {
    if b {
        "enabled"@
    } else {
        "disable"@
    }
}

fn push_enabled(s: &mut String, b: bool)
    ensures
        final(s)@ == old(s)@ + enabled_word(b),
{
    if b {
        s.append("enabled");
    } else {
        s.append("disable");
    }
}

impl Default for NipartDhcpConfigV6 {
    fn default() -> (r: Self)
        ensures
            r.iface@ == Seq::<char>::empty(),
            !r.enabled,
            r.timeout == DEFAULT_DHCP_TIMEOUT,
    {
        NipartDhcpConfigV6 { iface: String::new(), enabled: false, timeout: DEFAULT_DHCP_TIMEOUT }
    }
}

impl NipartDhcpConfigV6 {
    pub fn new(iface: String, enabled: bool) -> (r: Self)
        ensures
            r.iface == iface,
            r.enabled == enabled,
            r.timeout == DEFAULT_DHCP_TIMEOUT,
    {
        NipartDhcpConfigV6 { iface, enabled, timeout: DEFAULT_DHCP_TIMEOUT }
    }

    /// Text form: the interface, a colon, and `enabled` or `disable`.
    pub fn to_display_string(&self) -> (r: String)
        ensures
            r@ == self.iface@ + ":"@ + enabled_word(self.enabled),
    {
        let mut s = self.iface.clone();
        s.append(":");
        push_enabled(&mut s, self.enabled);
        s
    }
}

impl Default for NipartDhcpConfigV4 {
    fn default() -> (r: Self)
        ensures
            r.iface@ == Seq::<char>::empty(),
            r.client_id is None,
            !r.enabled,
            r.timeout == DEFAULT_DHCP_TIMEOUT,
    {
        NipartDhcpConfigV4 { iface: String::new(), client_id: None, enabled: false, timeout: DEFAULT_DHCP_TIMEOUT }
    }
}

impl NipartDhcpConfigV4 {
    pub fn new(iface: String, enabled: bool) -> (r: Self)
        ensures
            r.iface == iface,
            r.client_id is None,
            r.enabled == enabled,
            r.timeout == DEFAULT_DHCP_TIMEOUT,
    {
        NipartDhcpConfigV4 { iface, client_id: None, enabled, timeout: DEFAULT_DHCP_TIMEOUT }
    }

    /// Text form: the interface, a colon, and `enabled` or `disable`.
    pub fn to_display_string(&self) -> (r: String)
        ensures
            r@ == self.iface@ + ":"@ + enabled_word(self.enabled),
    {
        let mut s = self.iface.clone();
        s.append(":");
        push_enabled(&mut s, self.enabled);
        s
    }
}

impl NipartDhcpConfig {
    /// Text form: `dhcpv4:` or `dhcpv6:` followed by the settings' text.
    pub fn to_display_string(&self) -> (r: String)
        ensures
            r@ == match self {
                NipartDhcpConfig::V4(c) => "dhcpv4:"@ + c.iface@ + ":"@ + enabled_word(c.enabled),
                NipartDhcpConfig::V6(c) => "dhcpv6:"@ + c.iface@ + ":"@ + enabled_word(c.enabled),
            },
    {
        match self {
            NipartDhcpConfig::V4(c) => {
                let mut s = str_to_string("dhcpv4:");
                let t = c.to_display_string();
                s.append(t.as_str());
                s
            },
            NipartDhcpConfig::V6(c) => {
                let mut s = str_to_string("dhcpv6:");
                let t = c.to_display_string();
                s.append(t.as_str());
                s
            },
        }
    }
}

/// Address of an event: who sends or receives it.
#[derive(Debug)]
#[non_exhaustive]
pub enum NipartEventAddress {
    User,
    Unicast(String),
    Daemon,
    Commander,
    Dhcp,
    AllPlugins,
    Locker,
}

/// The text of an event address.
pub open spec fn address_text(a: NipartEventAddress) -> Seq<char> {
    match a {
        NipartEventAddress::User => "user"@,
        NipartEventAddress::Unicast(v) => v@,
        NipartEventAddress::Daemon => "daemon"@,
        NipartEventAddress::Commander => "commander"@,
        NipartEventAddress::Dhcp => "dhcp"@,
        NipartEventAddress::AllPlugins => "all_plugins"@,
        NipartEventAddress::Locker => "locker"@,
    }
}

impl Clone for NipartEventAddress {
    fn clone(&self) -> (r: Self)
        ensures
            r == *self,
    {
        match self {
            NipartEventAddress::User => NipartEventAddress::User,
            NipartEventAddress::Unicast(v) => NipartEventAddress::Unicast(v.clone()),
            NipartEventAddress::Daemon => NipartEventAddress::Daemon,
            NipartEventAddress::Commander => NipartEventAddress::Commander,
            NipartEventAddress::Dhcp => NipartEventAddress::Dhcp,
            NipartEventAddress::AllPlugins => NipartEventAddress::AllPlugins,
            NipartEventAddress::Locker => NipartEventAddress::Locker,
        }
    }
}

impl NipartEventAddress {
    /// Text form of the address.
    pub fn to_display_string(&self) -> (r: String)
        ensures
            r@ == address_text(*self),
    {
        match self {
            NipartEventAddress::User => str_to_string("user"),
            NipartEventAddress::Unicast(v) => v.clone(),
            NipartEventAddress::Daemon => str_to_string("daemon"),
            NipartEventAddress::Commander => str_to_string("commander"),
            NipartEventAddress::Dhcp => str_to_string("dhcp"),
            NipartEventAddress::AllPlugins => str_to_string("all_plugins"),
            NipartEventAddress::Locker => str_to_string("locker"),
        }
    }
}

/// What an event asks for.
#[derive(Debug, Clone, Copy, PartialEq, Eq, Structural)]
#[non_exhaustive]
pub enum NipartEventAction {
    Request,
    Done,
    Cancle,
}

/// Events every plugin handles.
#[derive(Debug, Clone, Copy, PartialEq, Eq, Structural)]
#[non_exhaustive]
pub enum NipartPluginCommonEvent {
    QueryPluginInfo,
    Quit,
}

/// A rule for watching a link go up or down.
#[derive(Debug)]
#[non_exhaustive]
pub struct NipartLinkMonitorRule {
    pub requestee: NipartEventAddress,
    pub uuid: u128,
    pub iface: String,
}

impl NipartLinkMonitorRule {
    pub fn new(requestee: NipartEventAddress, uuid: u128, iface: String) -> (r: Self)
        ensures
            r == (NipartLinkMonitorRule { requestee, uuid, iface }),
    {
        NipartLinkMonitorRule { requestee, uuid, iface }
    }
}

/// Which commits a query asks for: the last `count` ones, or those listed.
#[derive(Debug)]
#[non_exhaustive]
pub struct NetworkCommitQueryOption {
    pub count: u32,
    pub uuids: Vec<NipartUuid>,
}

impl Default for NetworkCommitQueryOption {
    fn default() -> (r: Self)
        ensures
            r.count == 0,
            r.uuids@.len() == 0,
    {
        NetworkCommitQueryOption { count: 0, uuids: Vec::new() }
    }
}

/// A saved connection profile: its configuration text, with a name and UUID.
#[derive(Debug)]
pub struct NipartConnection {
    pub uuid: Option<String>,
    pub name: Option<String>,
    pub config: String,
}

/// Whether a profile to merge names another profile: a name or UUID that
/// differs from this one's.
pub open spec fn conflicting_profile(name: Seq<char>, uuid: Seq<char>, other: NipartConnection) -> bool {
    (other.name matches Some(n) && n@ != name) || (other.uuid matches Some(u) && u@ != uuid)
}

impl NipartConnection {
    /// A profile with the given configuration and no name or UUID.
    pub fn new(config: String) -> (r: Self)
        ensures
            r.uuid is None && r.name is None && r.config == config,
    {
        NipartConnection { uuid: None, name: None, config }
    }

    /// Check profiles to merge into this one and list the configuration
    /// texts to merge, this profile's first. This profile must have a name
    /// and a UUID (else a bug); a profile naming another name or UUID is
    /// refused as a plugin failure.
    pub fn merge_sources(&self, nip_cons: &Vec<NipartConnection>) -> (r: Result<Vec<String>, NipartError>)
        ensures
            (self.name is None || self.uuid is None) ==> r is Err && r->Err_0.kind == ErrorKind::Bug,
            (self.name is Some && self.uuid is Some) ==> {
                &&& r is Err <==> exists|k: int|
                    0 <= k < nip_cons@.len() && #[trigger] conflicting_profile(
                        self.name->0@,
                        self.uuid->0@,
                        nip_cons@[k],
                    )
                &&& r matches Err(e) ==> e.kind == ErrorKind::PluginFailure
                &&& r matches Ok(v) ==> v@.len() == nip_cons@.len() + 1 && v@[0] == self.config && forall|k: int|
                    0 <= k < nip_cons@.len() ==> #[trigger] v@[k + 1] == nip_cons@[k].config
            },
    {
        let self_name = match &self.name {
            Some(n) => n,
            None => return Err(NipartError::from_str_msg(ErrorKind::Bug, "Self NipartConnection has no name")),
        };
        let self_uuid = match &self.uuid {
            Some(u) => u,
            None => return Err(NipartError::from_str_msg(ErrorKind::Bug, "Self NipartConnection has no uuid")),
        };
        let mut out: Vec<String> = Vec::new();
        out.push(self.config.clone());
        let mut i: usize = 0;
        while i < nip_cons.len()
            invariant
                i <= nip_cons.len(),
                self.name == Some(*self_name),
                self.uuid == Some(*self_uuid),
                out@.len() == i + 1,
                out@[0] == self.config,
                forall|k: int| 0 <= k < i ==> #[trigger] out@[k + 1] == nip_cons@[k].config,
                forall|k: int| 0 <= k < i ==> !#[trigger] conflicting_profile(self_name@, self_uuid@, nip_cons@[k]),
            decreases nip_cons.len() - i,
        {
            let c = &nip_cons[i];
            if let Some(name) = &c.name {
                if !str_eq(name.as_str(), self_name.as_str()) {
                    let mut msg = str_to_string(
                        "NipartConnection to merge is holding different name: origin ",
                    );
                    msg.append(self_name.as_str());
                    msg.append(", to merge ");
                    msg.append(name.as_str());
                    proof {
                        assert(conflicting_profile(self.name->0@, self.uuid->0@, nip_cons@[i as int]));
                    }
                    return Err(NipartError::new(ErrorKind::PluginFailure, msg));
                }
            }
            if let Some(uuid) = &c.uuid {
                if !str_eq(uuid.as_str(), self_uuid.as_str()) {
                    let mut msg = str_to_string(
                        "NipartConnection to merge is holding different uuid: origin ",
                    );
                    msg.append(self_uuid.as_str());
                    msg.append(", to merge ");
                    msg.append(uuid.as_str());
                    proof {
                        assert(conflicting_profile(self.name->0@, self.uuid->0@, nip_cons@[i as int]));
                    }
                    return Err(NipartError::new(ErrorKind::PluginFailure, msg));
                }
            }
            out.push(c.config.clone());
            i += 1;
        }
        Ok(out)
    }
}

} // verus!
