use vstd::prelude::*;
use vstd::string::*;

use crate::text::{str_eq, str_to_string};

verus! {

/// Interface type
#[derive(Debug)]
#[non_exhaustive]
pub enum InterfaceType {
    Bond,
    LinuxBridge,
    Dummy,
    Ethernet,
    Hsr,
    Loopback,
    MacVlan,
    MacVtap,
    OvsBridge,
    OvsInterface,
    Veth,
    Vlan,
    Vrf,
    Vxlan,
    InfiniBand,
    Tun,
    MacSec,
    Ipsec,
    Xfrm,
    IpVlan,
    WifiPhy,
    WifiCfg,
    /// Interface type unknown, with the name it was given.
    Unknown(String),
}

/// Identity of an interface type: the variant number, and the name for an
/// unknown type. Two types are the same when their keys are.
pub open spec fn type_key(t: InterfaceType) -> (int, Seq<char>) {
    match t {
        InterfaceType::Bond => (0, Seq::empty()),
        InterfaceType::LinuxBridge => (1, Seq::empty()),
        InterfaceType::Dummy => (2, Seq::empty()),
        InterfaceType::Ethernet => (3, Seq::empty()),
        InterfaceType::Hsr => (4, Seq::empty()),
        InterfaceType::Loopback => (5, Seq::empty()),
        InterfaceType::MacVlan => (6, Seq::empty()),
        InterfaceType::MacVtap => (7, Seq::empty()),
        InterfaceType::OvsBridge => (8, Seq::empty()),
        InterfaceType::OvsInterface => (9, Seq::empty()),
        InterfaceType::Veth => (10, Seq::empty()),
        InterfaceType::Vlan => (11, Seq::empty()),
        InterfaceType::Vrf => (12, Seq::empty()),
        InterfaceType::Vxlan => (13, Seq::empty()),
        InterfaceType::InfiniBand => (14, Seq::empty()),
        InterfaceType::Tun => (15, Seq::empty()),
        InterfaceType::MacSec => (16, Seq::empty()),
        InterfaceType::Ipsec => (17, Seq::empty()),
        InterfaceType::Xfrm => (18, Seq::empty()),
        InterfaceType::IpVlan => (19, Seq::empty()),
        InterfaceType::WifiPhy => (20, Seq::empty()),
        InterfaceType::WifiCfg => (21, Seq::empty()),
        InterfaceType::Unknown(s) => (22, s@),
    }
}

/// Whether two interface types are the same.
pub open spec fn same_type(a: InterfaceType, b: InterfaceType) -> bool {
    type_key(a) == type_key(b)
}

/// Whether the type is only known to userspace: unknown, OVS bridge, WiFi
/// configuration.
pub open spec fn type_is_userspace(t: InterfaceType) -> bool {
    t is Unknown || t is OvsBridge || t is WifiCfg
}

impl Clone for InterfaceType {
    fn clone(&self) -> (r: Self)
        ensures
            r == *self,
    {
        match self {
            InterfaceType::Bond => InterfaceType::Bond,
            InterfaceType::LinuxBridge => InterfaceType::LinuxBridge,
            InterfaceType::Dummy => InterfaceType::Dummy,
            InterfaceType::Ethernet => InterfaceType::Ethernet,
            InterfaceType::Hsr => InterfaceType::Hsr,
            InterfaceType::Loopback => InterfaceType::Loopback,
            InterfaceType::MacVlan => InterfaceType::MacVlan,
            InterfaceType::MacVtap => InterfaceType::MacVtap,
            InterfaceType::OvsBridge => InterfaceType::OvsBridge,
            InterfaceType::OvsInterface => InterfaceType::OvsInterface,
            InterfaceType::Veth => InterfaceType::Veth,
            InterfaceType::Vlan => InterfaceType::Vlan,
            InterfaceType::Vrf => InterfaceType::Vrf,
            InterfaceType::Vxlan => InterfaceType::Vxlan,
            InterfaceType::InfiniBand => InterfaceType::InfiniBand,
            InterfaceType::Tun => InterfaceType::Tun,
            InterfaceType::MacSec => InterfaceType::MacSec,
            InterfaceType::Ipsec => InterfaceType::Ipsec,
            InterfaceType::Xfrm => InterfaceType::Xfrm,
            InterfaceType::IpVlan => InterfaceType::IpVlan,
            InterfaceType::WifiPhy => InterfaceType::WifiPhy,
            InterfaceType::WifiCfg => InterfaceType::WifiCfg,
            InterfaceType::Unknown(s) => InterfaceType::Unknown(s.clone()),
        }
    }
}

impl Default for InterfaceType {
    fn default() -> (r: Self)
        ensures
            r matches InterfaceType::Unknown(s) && s@ == "unknown"@,
    {
        InterfaceType::Unknown(str_to_string("unknown"))
    }
}

fn variant_number(t: &InterfaceType) -> (r: u8)
    ensures
        r as int == type_key(*t).0,
{
    match t {
        InterfaceType::Bond => 0,
        InterfaceType::LinuxBridge => 1,
        InterfaceType::Dummy => 2,
        InterfaceType::Ethernet => 3,
        InterfaceType::Hsr => 4,
        InterfaceType::Loopback => 5,
        InterfaceType::MacVlan => 6,
        InterfaceType::MacVtap => 7,
        InterfaceType::OvsBridge => 8,
        InterfaceType::OvsInterface => 9,
        InterfaceType::Veth => 10,
        InterfaceType::Vlan => 11,
        InterfaceType::Vrf => 12,
        InterfaceType::Vxlan => 13,
        InterfaceType::InfiniBand => 14,
        InterfaceType::Tun => 15,
        InterfaceType::MacSec => 16,
        InterfaceType::Ipsec => 17,
        InterfaceType::Xfrm => 18,
        InterfaceType::IpVlan => 19,
        InterfaceType::WifiPhy => 20,
        InterfaceType::WifiCfg => 21,
        InterfaceType::Unknown(_) => 22,
    }
}

impl InterfaceType {
    /// Whether both are the same type (unknown types by their name).
    pub fn same_as(&self, other: &Self) -> (r: bool)
        ensures
            r == same_type(*self, *other),
    {
        match (self, other) {
            (InterfaceType::Unknown(a), InterfaceType::Unknown(b)) => str_eq(a.as_str(), b.as_str()),
            _ => variant_number(self) == variant_number(other),
        }
    }

    pub fn is_unknown(&self) -> (r: bool)
        ensures
            r == (*self is Unknown),
    {
        matches!(self, InterfaceType::Unknown(_))
    }

    /// Whether interface only exist in userspace configuration without
    /// any kernel interface index.
    pub fn is_userspace(&self) -> (r: bool)
        ensures
            r == type_is_userspace(*self),
    {
        matches!(self, InterfaceType::Unknown(_) | InterfaceType::OvsBridge | InterfaceType::WifiCfg)
    }

    pub fn is_controller(&self) -> (r: bool)
        ensures
            r == (*self is OvsBridge || *self is Bond || *self is Hsr || *self is Vrf),
    {
        matches!(self, InterfaceType::OvsBridge | InterfaceType::Bond | InterfaceType::Hsr | InterfaceType::Vrf)
    }

    pub fn is_supported(&self) -> (r: bool)
        ensures
            r == (*self is Ethernet || *self is LinuxBridge || *self is OvsBridge || *self is OvsInterface
                || *self is Veth || *self is Loopback || *self is Dummy || *self is Vlan || *self is WifiPhy
                || *self is Bond),
    {
        matches!(
            self,
            InterfaceType::Ethernet | InterfaceType::LinuxBridge | InterfaceType::OvsBridge
                | InterfaceType::OvsInterface | InterfaceType::Veth | InterfaceType::Loopback
                | InterfaceType::Dummy | InterfaceType::Vlan | InterfaceType::WifiPhy | InterfaceType::Bond
        )
    }

    /// OVS interface cannot live without controller.
    pub fn need_controller(&self) -> (r: bool)
        ensures
            r == (*self is OvsInterface),
    {
        matches!(self, InterfaceType::OvsInterface)
    }
}

} // verus!

verus! {

impl PartialEq for InterfaceType {
    fn eq(&self, other: &Self) -> (r: bool) {
        self.same_as(other)
    }
}

impl vstd::std_specs::cmp::PartialEqSpecImpl for InterfaceType {
    open spec fn obeys_eq_spec() -> bool {
        true
    }

    open spec fn eq_spec(&self, other: &Self) -> bool {
        same_type(*self, *other)
    }
}

} // verus!
