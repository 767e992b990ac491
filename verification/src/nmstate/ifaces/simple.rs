use vstd::prelude::*;
use vstd::string::*;

use crate::error::{ErrorKind, NipartError};
use crate::nmstate::iface_ip::{or_else, InterfaceIpAddr, InterfaceIpv4, InterfaceIpv6};
use crate::nmstate::iface_state::InterfaceState;
use crate::nmstate::iface_type::InterfaceType;
use crate::nmstate::ifaces::base::{bare_base, BaseInterface, BaseInterfaceView};
use crate::nmstate::ip::{IpAddr, Ipv6Segments};
use crate::text::{str_eq, str_to_string};

verus! {

/// Dummy interface
#[derive(Debug)]
#[non_exhaustive]
pub struct DummyInterface {
    pub base: BaseInterface,
}

impl Clone for DummyInterface {
    fn clone(&self) -> (r: Self)
        ensures
            r.base@ == self.base@,
    {
        DummyInterface { base: self.base.clone() }
    }
}

impl DummyInterface {
    /// A dummy interface with the given name.
    pub fn new(name: String) -> (r: Self)
        ensures
            r.base@ == bare_base(name, InterfaceType::Dummy, InterfaceState::Up),
    {
        DummyInterface { base: BaseInterface::new(name, InterfaceType::Dummy) }
    }
}

/// Ethernet(IEEE 802.3) interface, or a veth when its veth section is set.
#[derive(Debug)]
#[non_exhaustive]
pub struct EthernetInterface {
    pub base: BaseInterface,
    pub ethernet: Option<EthernetConfig>,
    pub veth: Option<VethConfig>,
}

/// Ethernet link settings.
#[derive(Debug, Clone, Copy, PartialEq, Eq, Structural, Default)]
#[non_exhaustive]
pub struct EthernetConfig {
    pub auto_neg: Option<bool>,
    pub speed: Option<u32>,
    pub duplex: Option<EthernetDuplex>,
}

/// Ethernet duplex mode.
#[derive(Debug, Clone, Copy, PartialEq, Eq, Structural)]
#[non_exhaustive]
pub enum EthernetDuplex {
    Full,
    Half,
}

/// Veth settings: the peer interface.
#[derive(Debug, Default)]
#[non_exhaustive]
pub struct VethConfig {
    pub peer: String,
}

impl Clone for VethConfig {
    fn clone(&self) -> (r: Self)
        ensures
            r == *self,
    {
        VethConfig { peer: self.peer.clone() }
    }
}

fn clone_opt_veth(v: &Option<VethConfig>) -> (r: Option<VethConfig>)
    ensures
        r == *v,
{
    match v {
        None => None,
        Some(x) => Some(x.clone()),
    }
}

impl Clone for EthernetInterface {
    fn clone(&self) -> (r: Self)
        ensures
            r.base@ == self.base@,
            r.ethernet == self.ethernet,
            r.veth == self.veth,
    {
        EthernetInterface { base: self.base.clone(), ethernet: self.ethernet, veth: clone_opt_veth(&self.veth) }
    }
}

/// Ethernet settings with undefined properties taken from `prev`.
pub open spec fn ethernet_merged(new: Option<EthernetConfig>, prev: Option<EthernetConfig>) -> Option<
    EthernetConfig,
> {
    match (new, prev) {
        (Some(n), Some(o)) => Some(
            EthernetConfig {
                auto_neg: or_else(n.auto_neg, o.auto_neg),
                speed: or_else(n.speed, o.speed),
                duplex: or_else(n.duplex, o.duplex),
            },
        ),
        (n, o) => or_else(n, o),
    }
}

impl EthernetInterface {
    /// An ethernet interface from its base and ethernet settings.
    pub fn new(base: BaseInterface, ethernet: Option<EthernetConfig>) -> (r: Self)
        ensures
            r.base@ == base@,
            r.ethernet == ethernet,
            r.veth is None,
    {
        EthernetInterface { base, ethernet, veth: None }
    }

    /// A veth interface from its base and peer name.
    pub fn new_veth(base: BaseInterface, veth_peer: &str) -> (r: Self)
        ensures
            r.base@ == base@,
            r.ethernet is None,
            r.veth matches Some(v) && v.peer@ == veth_peer@,
    {
        EthernetInterface { base, ethernet: None, veth: Some(VethConfig { peer: str_to_string(veth_peer) }) }
    }

    /// A new ethernet interface that is up must be a veth (a veth section to
    /// create it); an existing one needs nothing.
    pub fn sanitize_iface_specfic(&mut self, current: Option<&Self>) -> (r: Result<(), NipartError>)
        ensures
            r is Err <==> (old(self).base.state == InterfaceState::Up && current is None && old(self).veth is None),
            r matches Err(e) ==> e.kind == ErrorKind::InvalidArgument,
            final(self).base@ == old(self).base@,
            final(self).veth == old(self).veth,
            final(self).ethernet == old(self).ethernet,
    {
        if matches!(self.base.state, InterfaceState::Up) && current.is_none() && self.veth.is_none() {
            return Err(
                NipartError::from_str_msg(
                    ErrorKind::InvalidArgument,
                    "Interface does not exist and veth section is not defined to create it",
                ),
            );
        }
        Ok(())
    }

    /// A veth must be deleted before its peer changes.
    pub fn need_delete_before_change(&self, current: &Self) -> (r: bool)
        ensures
            r == (self.veth matches Some(d) && current.veth matches Some(c) && d.peer@ != c.peer@),
    {
        match (&self.veth, &current.veth) {
            (Some(d), Some(c)) => !str_eq(d.peer.as_str(), c.peer.as_str()),
            _ => false,
        }
    }

    /// The type specific part of the generic merge: ethernet settings merged,
    /// a veth section taken from `prev` when undefined.
    pub fn merged_specific(&self, prev: &Self) -> (r: (Option<EthernetConfig>, Option<VethConfig>))
        ensures
            r.0 == ethernet_merged(self.ethernet, prev.ethernet),
            r.1 == or_else(self.veth, prev.veth),
    {
        let eth = match (self.ethernet, prev.ethernet) {
            (Some(n), Some(o)) => Some(
                EthernetConfig {
                    auto_neg: if n.auto_neg.is_some() { n.auto_neg } else { o.auto_neg },
                    speed: if n.speed.is_some() { n.speed } else { o.speed },
                    duplex: if n.duplex.is_some() { n.duplex } else { o.duplex },
                },
            ),
            (Some(n), None) => Some(n),
            (None, o) => o,
        };
        let veth = if self.veth.is_some() { clone_opt_veth(&self.veth) } else { clone_opt_veth(&prev.veth) };
        (eth, veth)
    }
}

/// Loopback interface.
#[derive(Debug)]
#[non_exhaustive]
pub struct LoopbackInterface {
    pub base: BaseInterface,
}

impl Clone for LoopbackInterface {
    fn clone(&self) -> (r: Self)
        ensures
            r.base@ == self.base@,
    {
        LoopbackInterface { base: self.base.clone() }
    }
}

/// `127.0.0.1/8`.
pub open spec fn lo_ipv4_addr() -> InterfaceIpAddr {
    InterfaceIpAddr { ip: IpAddr::V4(0x7f000001), prefix_length: 8, valid_life_time: None, preferred_life_time: None }
}

/// `::1/128`.
pub open spec fn lo_ipv6_addr() -> InterfaceIpAddr {
    InterfaceIpAddr {
        ip: IpAddr::V6(Ipv6Segments { s0: 0, s1: 0, s2: 0, s3: 0, s4: 0, s5: 0, s6: 0, s7: 1 }),
        prefix_length: 128,
        valid_life_time: None,
        preferred_life_time: None,
    }
}

fn new_lo_ipv4_addr() -> (r: InterfaceIpAddr)
    ensures
        r == lo_ipv4_addr(),
{
    InterfaceIpAddr::new(IpAddr::V4(0x7f000001), 8)
}

fn new_lo_ipv6_addr() -> (r: InterfaceIpAddr)
    ensures
        r == lo_ipv6_addr(),
{
    InterfaceIpAddr::new(IpAddr::V6(Ipv6Segments { s0: 0, s1: 0, s2: 0, s3: 0, s4: 0, s5: 0, s6: 0, s7: 1 }), 128)
}

/// Whether `s` holds an address equal in every field to `a`.
pub open spec fn addrs_hold(s: Seq<InterfaceIpAddr>, a: InterfaceIpAddr) -> bool {
    exists|k: int| 0 <= k < s.len() && crate::nmstate::iface_ip::ip_addr_same(#[trigger] s[k], a)
}

fn addrs_hold_exec(v: &Vec<InterfaceIpAddr>, a: &InterfaceIpAddr) -> (r: bool)
    ensures
        r == addrs_hold(v@, *a),
{
    let mut i: usize = 0;
    while i < v.len()
        invariant
            i <= v.len(),
            forall|k: int| 0 <= k < i ==> !crate::nmstate::iface_ip::ip_addr_same(#[trigger] v@[k], *a),
        decreases v.len() - i,
    {
        if v[i].same_as(a) {
            return true;
        }
        i += 1;
    }
    false
}

/// The addresses with `a` appended unless one equal to it is there.
pub open spec fn with_addr(s: Seq<InterfaceIpAddr>, a: InterfaceIpAddr) -> Seq<InterfaceIpAddr> {
    if addrs_hold(s, a) {
        s
    } else {
        s.push(a)
    }
}

impl LoopbackInterface {
    /// A loopback interface from its base.
    pub fn new(base: BaseInterface) -> (r: Self)
        ensures
            r.base@ == base@,
    {
        LoopbackInterface { base }
    }

    /// The default loopback interface: `lo`, up, MTU 65536, IPv4 enabled with
    /// `127.0.0.1/8` and IPv6 enabled with `::1/128`, no DHCP or autoconf.
    pub fn new_default() -> (r: Self)
        ensures
            r.base.name@ == "lo"@,
            r.base.iface_type is Loopback,
            r.base.state == InterfaceState::Up,
            r.base.mtu == Some(65536u64),
            r.base.ipv4 matches Some(v4) && v4.enabled == Some(true) && v4.dhcp == Some(false) && v4@.addresses
                == Some(seq![lo_ipv4_addr()]),
            r.base.ipv6 matches Some(v6) && v6.enabled == Some(true) && v6.autoconf == Some(false) && v6.dhcp == Some(
                false,
            ) && v6@.addresses == Some(seq![lo_ipv6_addr()]),
    {
        let mut base = BaseInterface::new(str_to_string("lo"), InterfaceType::Loopback);
        base.mtu = Some(65536);
        base.ipv4 = Some(InterfaceIpv4 { enabled: Some(true), dhcp: Some(false), addresses: Some(vec![new_lo_ipv4_addr()]) });
        base.ipv6 = Some(
            InterfaceIpv6 {
                enabled: Some(true),
                autoconf: Some(false),
                dhcp: Some(false),
                addresses: Some(vec![new_lo_ipv6_addr()]),
            },
        );
        let r = LoopbackInterface { base };
        proof {
            assert(r.base.ipv4->0@.addresses->0 =~= seq![lo_ipv4_addr()]);
            assert(r.base.ipv6->0@.addresses->0 =~= seq![lo_ipv6_addr()]);
        }
        r
    }

    /// Loopback always keeps `127.0.0.1/8` and `::1/128`: they are appended to
    /// desired addresses lacking them; disabling either stack is refused.
    pub fn sanitize_iface_specfic(&mut self, current: Option<&Self>) -> (r: Result<(), NipartError>)
        ensures
            r is Err <==> (old(self).base.ipv4 matches Some(v4) && v4.enabled != Some(true)) || (old(
                self,
            ).base.ipv6 matches Some(v6) && v6.enabled != Some(true)),
            r matches Err(e) ==> e.kind == ErrorKind::InvalidArgument,
            r is Err ==> final(self).base@ == old(self).base@,
            final(self).base@ == (BaseInterfaceView {
                ipv4: final(self).base@.ipv4,
                ipv6: final(self).base@.ipv6,
                ..old(self).base@
            }),
            r is Ok ==> (match old(self).base@.ipv4 {
                None => final(self).base@.ipv4 is None,
                Some(o) => final(self).base@.ipv4 == Some(
                    crate::nmstate::iface_ip::InterfaceIpv4View {
                        addresses: match o.addresses {
                            Some(a) => Some(with_addr(a, lo_ipv4_addr())),
                            None => None,
                        },
                        ..o
                    },
                ),
            }),
            r is Ok ==> (match old(self).base@.ipv6 {
                None => final(self).base@.ipv6 is None,
                Some(o) => final(self).base@.ipv6 == Some(
                    crate::nmstate::iface_ip::InterfaceIpv6View {
                        addresses: match o.addresses {
                            Some(a) => Some(with_addr(a, lo_ipv6_addr())),
                            None => None,
                        },
                        ..o
                    },
                ),
            }),
    {
        if let Some(v4) = &self.base.ipv4 {
            if !v4.is_enabled() {
                return Err(
                    NipartError::from_str_msg(
                        ErrorKind::InvalidArgument,
                        "Disabling IPv4 on loopback interface is not allowed",
                    ),
                );
            }
        }
        if let Some(v6) = &self.base.ipv6 {
            if !v6.is_enabled() {
                return Err(
                    NipartError::from_str_msg(
                        ErrorKind::InvalidArgument,
                        "Disabling IPv6 on loopback interface is not allowed",
                    ),
                );
            }
        }
        if let Some(mut v4) = self.base.ipv4.take() {
            if let Some(mut addrs) = v4.addresses.take() {
                let a = new_lo_ipv4_addr();
                if !addrs_hold_exec(&addrs, &a) {
                    addrs.push(a);
                }
                v4.addresses = Some(addrs);
            }
            self.base.ipv4 = Some(v4);
        }
        if let Some(mut v6) = self.base.ipv6.take() {
            if let Some(mut addrs) = v6.addresses.take() {
                let a = new_lo_ipv6_addr();
                if !addrs_hold_exec(&addrs, &a) {
                    addrs.push(a);
                }
                v6.addresses = Some(addrs);
            }
            self.base.ipv6 = Some(v6);
        }
        Ok(())
    }
}

/// OpenvSwitch internal interface
#[derive(Debug)]
#[non_exhaustive]
pub struct OvsInterface {
    pub base: BaseInterface,
}

impl Clone for OvsInterface {
    fn clone(&self) -> (r: Self)
        ensures
            r.base@ == self.base@,
    {
        OvsInterface { base: self.base.clone() }
    }
}

impl OvsInterface {
    /// An OVS internal interface from its base.
    pub fn new(base: BaseInterface) -> (r: Self)
        ensures
            r.base@ == base@,
    {
        OvsInterface { base }
    }

    /// An OVS internal interface attached to an OVS bridge.
    pub fn new_with_name_and_ctrl(name: &str, ctrl_name: &str) -> (r: Self)
        ensures
            r.base.name@ == name@,
            r.base.iface_type is OvsInterface,
            r.base.state == InterfaceState::Up,
            r.base.controller matches Some(c) && c@ == ctrl_name@,
            r.base.controller_type == Some(InterfaceType::OvsBridge),
            r.base.ipv4 is None && r.base.ipv6 is None && r.base.mac_address is None && r.base.mtu is None,
    {
        let mut base = BaseInterface::new(str_to_string(name), InterfaceType::OvsInterface);
        base.controller = Some(str_to_string(ctrl_name));
        base.controller_type = Some(InterfaceType::OvsBridge);
        OvsInterface { base }
    }
}

/// OpenvSwitch bridge
#[derive(Debug)]
#[non_exhaustive]
pub struct OvsBridgeInterface {
    pub base: BaseInterface,
    pub bridge: Option<OvsBridgeConfig>,
}

/// OpenvSwitch bridge settings: its ports.
#[derive(Debug, Default)]
#[non_exhaustive]
pub struct OvsBridgeConfig {
    pub ports: Option<Vec<OvsBridgePortConfig>>,
}

/// One port of an OpenvSwitch bridge.
#[derive(Debug, Default)]
#[non_exhaustive]
pub struct OvsBridgePortConfig {
    pub name: String,
}

impl Clone for OvsBridgePortConfig {
    fn clone(&self) -> (r: Self)
        ensures
            r == *self,
    {
        OvsBridgePortConfig { name: self.name.clone() }
    }
}

/// The port names of an OVS bridge configuration, if it lists ports.
pub open spec fn ovs_port_names(b: Option<OvsBridgeConfig>) -> Option<Seq<Seq<char>>> {
    match b {
        Some(c) => match c.ports {
            Some(p) => Some(p@.map_values(|x: OvsBridgePortConfig| x.name@)),
            None => None,
        },
        None => None,
    }
}

impl Clone for OvsBridgeConfig {
    fn clone(&self) -> (r: Self)
        ensures
            crate::text::opt_vec_view(r.ports) == crate::text::opt_vec_view(self.ports),
    {
        let ports = match &self.ports {
            None => None,
            Some(p) => {
                let c = p.clone();
                proof {
                    assert(c@ =~= p@);
                }
                Some(c)
            },
        };
        OvsBridgeConfig { ports }
    }
}

impl OvsBridgeInterface {
    /// An OVS bridge from its base and settings.
    pub fn new(base: BaseInterface, bridge: Option<OvsBridgeConfig>) -> (r: Self)
        ensures
            r.base@ == base@,
            r.bridge == bridge,
    {
        OvsBridgeInterface { base, bridge }
    }

    /// The names of the ports, when the bridge lists them.
    pub fn ports(&self) -> (r: Option<Vec<String>>)
        ensures
            match r {
                Some(v) => ovs_port_names(self.bridge) == Some(v@.map_values(|s: String| s@)),
                None => ovs_port_names(self.bridge) is None,
            },
    {
        let conf = match &self.bridge {
            Some(c) => c,
            None => return None,
        };
        let ports = match &conf.ports {
            Some(p) => p,
            None => return None,
        };
        let mut names: Vec<String> = Vec::new();
        let mut i: usize = 0;
        while i < ports.len()
            invariant
                i <= ports.len(),
                names.len() == i,
                forall|k: int| 0 <= k < i ==> #[trigger] names@[k]@ == ports@[k].name@,
            decreases ports.len() - i,
        {
            names.push(ports[i].name.clone());
            i += 1;
        }
        proof {
            assert(ports@.map_values(|x: OvsBridgePortConfig| x.name@) =~= names@.map_values(|s: String| s@));
        }
        Some(names)
    }
}

/// Interface of a type this library does not know.
#[derive(Debug)]
#[non_exhaustive]
pub struct UnknownInterface {
    pub base: BaseInterface,
}

impl UnknownInterface {
    pub fn new(base: BaseInterface) -> (r: Self)
        ensures
            r.base == base,
    {
        UnknownInterface { base }
    }
}

impl Clone for UnknownInterface {
    fn clone(&self) -> (r: Self)
        ensures
            r.base@ == self.base@,
    {
        UnknownInterface { base: self.base.clone() }
    }
}

} // verus!
