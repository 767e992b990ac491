use vstd::prelude::*;
use vstd::string::*;

use crate::error::{ErrorKind, NipartError};
use crate::nmstate::iface_state::InterfaceState;
use crate::nmstate::iface_type::{type_is_userspace, InterfaceType};
use crate::nmstate::ifaces::base::{bare_base, BaseInterface, BaseInterfaceView};
use crate::nmstate::ifaces::bond::{opt_bond_view, BondConfigView, BondInterface};
use crate::nmstate::ifaces::linux_bridge::{br_vlans_bounded, opt_br_view, LinuxBridgeConfigView, LinuxBridgeInterface};
use crate::nmstate::ifaces::simple::{
    DummyInterface, EthernetConfig, EthernetInterface, LoopbackInterface, OvsBridgeInterface, OvsBridgePortConfig,
    OvsInterface, UnknownInterface, VethConfig,
};
use crate::nmstate::ifaces::vlan::{opt_vlan_view, VlanConfigView, VlanInterface};
use crate::nmstate::ifaces::wifi::{opt_wifi_view, wifi_hidden, WifiCfgInterface, WifiConfigView, WifiPhyInterface};

verus! {

/// A network interface of any supported type.
#[non_exhaustive]
pub enum Interface {
    Bond(Box<BondInterface>),
    LinuxBridge(Box<LinuxBridgeInterface>),
    Dummy(Box<DummyInterface>),
    Ethernet(Box<EthernetInterface>),
    Loopback(Box<LoopbackInterface>),
    OvsBridge(Box<OvsBridgeInterface>),
    OvsInterface(Box<OvsInterface>),
    Vlan(Box<VlanInterface>),
    WifiPhy(Box<WifiPhyInterface>),
    WifiCfg(Box<WifiCfgInterface>),
    Unknown(Box<UnknownInterface>),
}

/// Model of the type specific part of an interface.
pub enum IfaceSection {
    Bond(Option<BondConfigView>),
    LinuxBridge(Option<LinuxBridgeConfigView>),
    Dummy,
    Ethernet(Option<EthernetConfig>, Option<VethConfig>),
    Loopback,
    OvsBridge(Option<Option<Seq<OvsBridgePortConfig>>>),
    OvsInterface,
    Vlan(Option<VlanConfigView>),
    WifiPhy(Option<WifiConfigView>),
    WifiCfg(Option<WifiConfigView>),
    Unknown,
}

/// Model of an interface: its base and its type specific part.
pub struct InterfaceView {
    pub base: BaseInterfaceView,
    pub section: IfaceSection,
}

impl View for Interface {
    type V = InterfaceView;

    open spec fn view(&self) -> InterfaceView {
        match self {
            Interface::Bond(i) => InterfaceView { base: i.base@, section: IfaceSection::Bond(opt_bond_view(i.bond)) },
            Interface::LinuxBridge(i) => InterfaceView {
                base: i.base@,
                section: IfaceSection::LinuxBridge(opt_br_view(i.bridge)),
            },
            Interface::Dummy(i) => InterfaceView { base: i.base@, section: IfaceSection::Dummy },
            Interface::Ethernet(i) => InterfaceView { base: i.base@, section: IfaceSection::Ethernet(i.ethernet, i.veth) },
            Interface::Loopback(i) => InterfaceView { base: i.base@, section: IfaceSection::Loopback },
            Interface::OvsBridge(i) => InterfaceView {
                base: i.base@,
                section: IfaceSection::OvsBridge(
                    match i.bridge {
                        Some(b) => Some(crate::text::opt_vec_view(b.ports)),
                        None => None,
                    },
                ),
            },
            Interface::OvsInterface(i) => InterfaceView { base: i.base@, section: IfaceSection::OvsInterface },
            Interface::Vlan(i) => InterfaceView { base: i.base@, section: IfaceSection::Vlan(opt_vlan_view(i.vlan)) },
            Interface::WifiPhy(i) => InterfaceView { base: i.base@, section: IfaceSection::WifiPhy(opt_wifi_view(i.wifi)) },
            Interface::WifiCfg(i) => InterfaceView { base: i.base@, section: IfaceSection::WifiCfg(opt_wifi_view(i.wifi)) },
            Interface::Unknown(i) => InterfaceView { base: i.base@, section: IfaceSection::Unknown },
        }
    }
}

/// Whether the interface is created by the kernel or userspace at runtime
/// (as opposed to a physical one).
pub open spec fn section_is_virtual(s: IfaceSection) -> bool {
    !(s is Ethernet || s is WifiPhy || s is Unknown)
}

/// The interface with its secrets hidden.
pub open spec fn iface_hidden(v: InterfaceView) -> InterfaceView {
    InterfaceView {
        section: match v.section {
            IfaceSection::WifiPhy(Some(w)) => IfaceSection::WifiPhy(Some(wifi_hidden(w))),
            IfaceSection::WifiCfg(Some(w)) => IfaceSection::WifiCfg(Some(wifi_hidden(w))),
            s => s,
        },
        ..v
    }
}

/// Whether two type specific parts belong to the same interface type.
pub open spec fn same_section_kind(a: IfaceSection, b: IfaceSection) -> bool {
    ||| (a is Bond && b is Bond)
    ||| (a is LinuxBridge && b is LinuxBridge)
    ||| (a is Dummy && b is Dummy)
    ||| (a is Ethernet && b is Ethernet)
    ||| (a is Loopback && b is Loopback)
    ||| (a is OvsBridge && b is OvsBridge)
    ||| (a is OvsInterface && b is OvsInterface)
    ||| (a is Vlan && b is Vlan)
    ||| (a is WifiPhy && b is WifiPhy)
    ||| (a is WifiCfg && b is WifiCfg)
    ||| (a is Unknown && b is Unknown)
}

impl Clone for Interface {
    fn clone(&self) -> (r: Self)
        ensures
            r@ == self@,
    {
        match self {
            Interface::Bond(i) => Interface::Bond(Box::new((**i).clone())),
            Interface::LinuxBridge(i) => Interface::LinuxBridge(Box::new((**i).clone())),
            Interface::Dummy(i) => Interface::Dummy(Box::new((**i).clone())),
            Interface::Ethernet(i) => Interface::Ethernet(Box::new((**i).clone())),
            Interface::Loopback(i) => Interface::Loopback(Box::new((**i).clone())),
            Interface::OvsBridge(i) => {
                let b = OvsBridgeInterface::new(
                    i.base.clone(),
                    match &i.bridge {
                        Some(c) => Some(c.clone()),
                        None => None,
                    },
                );
                Interface::OvsBridge(Box::new(b))
            },
            Interface::OvsInterface(i) => Interface::OvsInterface(Box::new((**i).clone())),
            Interface::Vlan(i) => Interface::Vlan(Box::new((**i).clone())),
            Interface::WifiPhy(i) => Interface::WifiPhy(Box::new((**i).clone())),
            Interface::WifiCfg(i) => Interface::WifiCfg(Box::new((**i).clone())),
            Interface::Unknown(i) => Interface::Unknown(Box::new((**i).clone())),
        }
    }
}

impl Interface {
    /// The base interface.
    pub fn base_iface(&self) -> (r: &BaseInterface)
        ensures
            r@ == self@.base,
    {
        match self {
            Interface::Bond(i) => &i.base,
            Interface::LinuxBridge(i) => &i.base,
            Interface::Dummy(i) => &i.base,
            Interface::Ethernet(i) => &i.base,
            Interface::Loopback(i) => &i.base,
            Interface::OvsBridge(i) => &i.base,
            Interface::OvsInterface(i) => &i.base,
            Interface::Vlan(i) => &i.base,
            Interface::WifiPhy(i) => &i.base,
            Interface::WifiCfg(i) => &i.base,
            Interface::Unknown(i) => &i.base,
        }
    }

    /// The base interface, for changing it.
    pub fn base_iface_mut(&mut self) -> (r: &mut BaseInterface)
        ensures
            r@ == old(self)@.base,
            final(self)@ == (InterfaceView { base: final(r)@, section: old(self)@.section }),
    {
        match self {
            Interface::Bond(i) => &mut i.base,
            Interface::LinuxBridge(i) => &mut i.base,
            Interface::Dummy(i) => &mut i.base,
            Interface::Ethernet(i) => &mut i.base,
            Interface::Loopback(i) => &mut i.base,
            Interface::OvsBridge(i) => &mut i.base,
            Interface::OvsInterface(i) => &mut i.base,
            Interface::Vlan(i) => &mut i.base,
            Interface::WifiPhy(i) => &mut i.base,
            Interface::WifiCfg(i) => &mut i.base,
            Interface::Unknown(i) => &mut i.base,
        }
    }
}

/// The type specific part a bare interface of the given type starts with.
pub open spec fn section_for_type(t: InterfaceType) -> IfaceSection {
    match t {
        InterfaceType::Bond => IfaceSection::Bond(None),
        InterfaceType::LinuxBridge => IfaceSection::LinuxBridge(None),
        InterfaceType::Dummy => IfaceSection::Dummy,
        InterfaceType::Ethernet => IfaceSection::Ethernet(None, None),
        InterfaceType::Veth => IfaceSection::Ethernet(None, None),
        InterfaceType::Loopback => IfaceSection::Loopback,
        InterfaceType::OvsBridge => IfaceSection::OvsBridge(None),
        InterfaceType::OvsInterface => IfaceSection::OvsInterface,
        InterfaceType::Vlan => IfaceSection::Vlan(None),
        InterfaceType::WifiPhy => IfaceSection::WifiPhy(None),
        InterfaceType::WifiCfg => IfaceSection::WifiCfg(None),
        _ => IfaceSection::Unknown,
    }
}

/// The port names an interface lists, if it is a controller that lists them.
pub open spec fn iface_ports(v: InterfaceView) -> Option<Seq<Seq<char>>> {
    match v.section {
        IfaceSection::Bond(Some(b)) => match (b.port, b.ports_config) {
            (Some(p), _) => Some(crate::nmstate::ifaces::bond::strs_view(p)),
            (None, Some(pc)) => Some(crate::nmstate::ifaces::bond::port_config_names(pc)),
            (None, None) => None,
        },
        IfaceSection::LinuxBridge(Some(b)) => match b.ports {
            Some(ps) => Some(ps.map_values(|p: crate::nmstate::ifaces::linux_bridge::LinuxBridgePortConfigView| p.name@)),
            None => None,
        },
        IfaceSection::OvsBridge(Some(Some(ps))) => Some(ps.map_values(|x: OvsBridgePortConfig| x.name@)),
        _ => None,
    }
}

/// The parent interface: the base interface of a VLAN or the interface a
/// WiFi configuration is bound to.
pub open spec fn iface_parent(v: InterfaceView) -> Option<Seq<char>> {
    match v.section {
        IfaceSection::Vlan(Some(c)) => match c.base_iface {
            Some(b) => Some(b@),
            None => None,
        },
        IfaceSection::WifiCfg(Some(w)) => w.base_iface,
        _ => None,
    }
}

/// Whether applying the desired interface needs the current one deleted
/// first.
pub open spec fn need_delete_spec(d: InterfaceView, c: InterfaceView) -> bool {
    match (d.section, c.section) {
        (IfaceSection::Ethernet(_, Some(dv)), IfaceSection::Ethernet(_, Some(cv))) => dv.peer@ != cv.peer@,
        (IfaceSection::Vlan(Some(a)), IfaceSection::Vlan(Some(b))) => d.base.state == InterfaceState::Up && {
            ||| (a.id is Some && a.id != b.id)
            ||| (a.base_iface is Some && crate::text::opt_str_view(a.base_iface) != crate::text::opt_str_view(
                b.base_iface,
            ))
            ||| (a.protocol is Some && a.protocol != b.protocol)
            ||| (a.ingress_qos_map is Some && a.ingress_qos_map != b.ingress_qos_map)
            ||| (a.egress_qos_map is Some && a.egress_qos_map != b.egress_qos_map)
        },
        _ => false,
    }
}

impl Default for Interface {
    fn default() -> (r: Self)
        ensures
            r@.section is Unknown,
            r@.base == bare_base(r@.base.name, r@.base.iface_type, InterfaceState::Up),
            r@.base.name@ == Seq::<char>::empty(),
            r@.base.iface_type is Unknown,
    {
        Interface::Unknown(Box::new(UnknownInterface { base: BaseInterface::new_empty() }))
    }
}

impl Interface {
    /// The interface name.
    pub fn name(&self) -> (r: &str)
        ensures
            r@ == self@.base.name@,
    {
        self.base_iface().name.as_str()
    }

    /// The interface type.
    pub fn iface_type(&self) -> (r: &InterfaceType)
        ensures
            *r == self@.base.iface_type,
    {
        &self.base_iface().iface_type
    }

    pub fn is_up(&self) -> (r: bool)
        ensures
            r == (self@.base.state == InterfaceState::Up),
    {
        self.base_iface().state.is_up()
    }

    pub fn is_down(&self) -> (r: bool)
        ensures
            r == (self@.base.state == InterfaceState::Down),
    {
        self.base_iface().state.is_down()
    }

    pub fn is_absent(&self) -> (r: bool)
        ensures
            r == (self@.base.state == InterfaceState::Absent),
    {
        self.base_iface().state.is_absent()
    }

    pub fn is_ignore(&self) -> (r: bool)
        ensures
            r == crate::nmstate::iface_state::state_is_ignore(self@.base.state),
    {
        self.base_iface().state.is_ignore()
    }

    /// Whether the interface exists in userspace configuration only.
    pub fn is_userspace(&self) -> (r: bool)
        ensures
            r == type_is_userspace(self@.base.iface_type),
    {
        self.iface_type().is_userspace()
    }

    /// Whether the interface can hold ports.
    pub fn is_controller(&self) -> (r: bool)
        ensures
            r == (self@.section is LinuxBridge || self@.base.iface_type is OvsBridge || self@.base.iface_type is Bond
                || self@.base.iface_type is Hsr || self@.base.iface_type is Vrf),
    {
        match self {
            Interface::LinuxBridge(_) => true,
            _ => self.iface_type().is_controller(),
        }
    }

    /// Whether the interface is created at runtime rather than physical.
    pub open spec fn is_virtual_spec(&self) -> bool {
        section_is_virtual(self@.section)
    }

    /// Whether the interface is created at runtime rather than physical.
    pub fn is_virtual(&self) -> (r: bool)
        ensures
            r == section_is_virtual(self@.section),
    {
        !matches!(self, Interface::Ethernet(_) | Interface::WifiPhy(_) | Interface::Unknown(_))
    }

    /// Hide the secrets (WiFi passwords).
    pub fn hide_secrets(&mut self)
        ensures
            final(self)@ == iface_hidden(old(self)@),
    {
        match self {
            Interface::WifiPhy(i) => i.hide_secrets(),
            Interface::WifiCfg(i) => i.hide_secrets(),
            _ => {},
        }
    }

    /// A bare interface of the kind its base's type calls for.
    pub fn from_base(base: BaseInterface) -> (r: Self)
        ensures
            r@.base == base@,
            r@.section == section_for_type(base.iface_type),
    {
        match base.iface_type {
            InterfaceType::Bond => Interface::Bond(Box::new(BondInterface { base, bond: None })),
            InterfaceType::LinuxBridge => Interface::LinuxBridge(
                Box::new(LinuxBridgeInterface { base, bridge: None }),
            ),
            InterfaceType::Dummy => Interface::Dummy(Box::new(DummyInterface { base })),
            InterfaceType::Ethernet | InterfaceType::Veth => Interface::Ethernet(
                Box::new(EthernetInterface::new(base, None)),
            ),
            InterfaceType::Loopback => Interface::Loopback(Box::new(LoopbackInterface::new(base))),
            InterfaceType::OvsBridge => Interface::OvsBridge(Box::new(OvsBridgeInterface::new(base, None))),
            InterfaceType::OvsInterface => Interface::OvsInterface(Box::new(OvsInterface::new(base))),
            InterfaceType::Vlan => Interface::Vlan(Box::new(VlanInterface { base, vlan: None })),
            InterfaceType::WifiPhy => Interface::WifiPhy(Box::new(WifiPhyInterface { base, wifi: None })),
            InterfaceType::WifiCfg => Interface::WifiCfg(Box::new(WifiCfgInterface::new(base))),
            _ => Interface::Unknown(Box::new(UnknownInterface { base })),
        }
    }

    /// A bare interface with this one's name and type only.
    pub fn clone_name_type_only(&self) -> (r: Self)
        ensures
            r@.base == bare_base(self@.base.name, self@.base.iface_type, InterfaceState::Up),
            r@.section == section_for_type(self@.base.iface_type),
    {
        Interface::from_base(self.base_iface().clone_name_type_only())
    }

    /// The port names of a controller that lists them.
    pub fn ports(&self) -> (r: Option<Vec<String>>)
        ensures
            match r {
                Some(v) => iface_ports(self@) == Some(v@.map_values(|s: String| s@)),
                None => iface_ports(self@) is None,
            },
    {
        match self {
            Interface::Bond(i) => {
                let r = i.ports();
                proof {
                    if r is Some {
                        assert(r->0@.map_values(|s: String| s@) =~= crate::nmstate::ifaces::bond::strs_view(r->0@));
                    }
                }
                r
            },
            Interface::LinuxBridge(i) => i.ports(),
            Interface::OvsBridge(i) => {
                let r = i.ports();
                proof {
                    if i.bridge is Some && i.bridge->0.ports is Some {
                        assert(crate::nmstate::ifaces::simple::ovs_port_names(i.bridge) == Some(
                            i.bridge->0.ports->0@.map_values(|x: OvsBridgePortConfig| x.name@),
                        ));
                    }
                }
                r
            },
            _ => None,
        }
    }

    /// The parent interface, if any.
    pub fn parent(&self) -> (r: Option<&str>)
        ensures
            match r {
                Some(p) => iface_parent(self@) == Some(p@),
                None => iface_parent(self@) is None,
            },
    {
        match self {
            Interface::Vlan(i) => i.parent(),
            Interface::WifiCfg(i) => i.parent(),
            _ => None,
        }
    }

    /// Whether the desired change needs the current interface deleted first:
    /// a changed veth peer, or changed VLAN properties of an up VLAN.
    pub fn need_delete_before_change(&self, current: &Self) -> (r: bool)
        ensures
            r == need_delete_spec(self@, current@),
    {
        match (self, current) {
            (Interface::Ethernet(d), Interface::Ethernet(c)) => d.need_delete_before_change(c),
            (Interface::Vlan(d), Interface::Vlan(c)) => d.need_delete_before_change(c),
            _ => false,
        }
    }
}

/// The current interface handed to the type specific sanitize: only one of
/// the same kind.
pub open spec fn cur_same_kind(d: InterfaceView, current: Option<InterfaceView>) -> Option<InterfaceView> {
    match current {
        Some(c) => if same_section_kind(d.section, c.section) {
            Some(c)
        } else {
            None
        },
        None => None,
    }
}

/// Conditions on which sanitizing the desired interface is refused: an MTU
/// outside the current range, and the type specific refusals (a bond
/// without mode or with refused options or shared queue IDs, an ethernet
/// that neither exists nor is a veth to create, refused VLAN settings, a
/// WiFi configuration bound to another interface, bridge trunk ranges
/// reaching VLAN ID 65535).
pub open spec fn iface_sanitize_refused(d: InterfaceView, c: Option<InterfaceView>) -> bool {
    ||| crate::nmstate::ifaces::base::mtu_out_of_range(
        d.base,
        match c {
            Some(x) => Some(x.base),
            None => None,
        },
    )
    ||| match d.section {
        IfaceSection::Bond(b) => crate::nmstate::ifaces::bond::bond_refused(
            b,
            match c {
                Some(x) => match x.section {
                    IfaceSection::Bond(cb) => Some(cb),
                    _ => None,
                },
                None => None,
            },
        ),
        IfaceSection::Ethernet(_, veth) => d.base.state == InterfaceState::Up && c is None && veth is None,
        IfaceSection::Vlan(v) => crate::nmstate::ifaces::vlan::vlan_sanitize_fails(
            v,
            c matches Some(x) && x.section matches IfaceSection::Vlan(Some(_)),
        ),
        IfaceSection::WifiPhy(w) => crate::nmstate::ifaces::wifi::wifi_phy_bound_elsewhere(d.base.name@, w),
        IfaceSection::LinuxBridge(b) => !br_vlans_bounded(b),
        _ => false,
    }
}

/// Whether the desired base sets an MTU, MAC address or controller that the
/// current base does not have.
pub open spec fn base_mismatch(d: BaseInterfaceView, c: BaseInterfaceView) -> bool {
    ||| (d.mtu is Some && d.mtu != c.mtu)
    ||| (d.mac_address is Some && crate::text::opt_str_view(d.mac_address) != crate::text::opt_str_view(
        c.mac_address,
    ))
    ||| (d.controller is Some && crate::text::opt_str_view(d.controller) != crate::text::opt_str_view(c.controller))
}

/// The kind of the merged interface: the new kind, except that a new
/// interface of unknown kind keeps the old kind.
pub open spec fn merged_kind_ok(m: IfaceSection, new: IfaceSection, prev: IfaceSection) -> bool {
    if new is Unknown && !(prev is Unknown) {
        same_section_kind(m, prev)
    } else {
        same_section_kind(m, new)
    }
}

fn opt_base<'a>(c: Option<&'a BaseInterface>) -> (r: Option<&'a BaseInterface>)
    ensures
        r == c,
{
    c
}

impl Interface {
    /// Validate and clean up the desired interface against the current one:
    /// the base first, then the type specific part, each given the current
    /// interface when it is of the same kind.
    #[verifier::rlimit(40)]
    pub fn sanitize(&mut self, current: Option<&Self>) -> (r: Result<(), NipartError>)
        ensures
            r matches Err(e) ==> e.kind == ErrorKind::InvalidArgument,
            r is Ok ==> final(self)@.base.name == old(self)@.base.name && final(self)@.base.state == old(
                self,
            )@.base.state,
            r is Ok ==> same_section_kind(final(self)@.section, old(self)@.section),
            iface_sanitize_refused(
                old(self)@,
                cur_same_kind(
                    old(self)@,
                    match current {
                        Some(c) => Some(c@),
                        None => None,
                    },
                ),
            ) ==> r is Err,
    {
        match self {
            Interface::Bond(i) => {
                let cur = match current {
                    Some(Interface::Bond(c)) => Some(&**c),
                    _ => None,
                };
                i.base.sanitize(opt_base(
                    match cur {
                        Some(c) => Some(&c.base),
                        None => None,
                    },
                ))?;
                i.sanitize_iface_specfic(cur)
            },
            Interface::LinuxBridge(i) => {
                let cur = match current {
                    Some(Interface::LinuxBridge(c)) => Some(&**c),
                    _ => None,
                };
                i.base.sanitize(opt_base(
                    match cur {
                        Some(c) => Some(&c.base),
                        None => None,
                    },
                ))?;
                if !i.vlans_in_range() {
                    return Err(
                        NipartError::from_str_msg(
                            ErrorKind::InvalidArgument,
                            "Bridge VLAN trunk tags cannot reach VLAN ID 65535",
                        ),
                    );
                }
                i.sanitize_iface_specfic(cur)
            },
            Interface::Ethernet(i) => {
                let cur = match current {
                    Some(Interface::Ethernet(c)) => Some(&**c),
                    _ => None,
                };
                i.base.sanitize(opt_base(
                    match cur {
                        Some(c) => Some(&c.base),
                        None => None,
                    },
                ))?;
                i.sanitize_iface_specfic(cur)
            },
            Interface::Loopback(i) => {
                let cur = match current {
                    Some(Interface::Loopback(c)) => Some(&**c),
                    _ => None,
                };
                i.base.sanitize(opt_base(
                    match cur {
                        Some(c) => Some(&c.base),
                        None => None,
                    },
                ))?;
                i.sanitize_iface_specfic(cur)
            },
            Interface::Vlan(i) => {
                let cur = match current {
                    Some(Interface::Vlan(c)) => Some(&**c),
                    _ => None,
                };
                i.base.sanitize(opt_base(
                    match cur {
                        Some(c) => Some(&c.base),
                        None => None,
                    },
                ))?;
                i.sanitize_iface_specfic(cur)
            },
            Interface::WifiPhy(i) => {
                let cur = match current {
                    Some(Interface::WifiPhy(c)) => Some(&**c),
                    _ => None,
                };
                i.base.sanitize(opt_base(
                    match cur {
                        Some(c) => Some(&c.base),
                        None => None,
                    },
                ))?;
                i.sanitize_iface_specfic(cur)
            },
            Interface::WifiCfg(i) => {
                let cur = match current {
                    Some(Interface::WifiCfg(c)) => Some(&**c),
                    _ => None,
                };
                i.base.sanitize(opt_base(
                    match cur {
                        Some(c) => Some(&c.base),
                        None => None,
                    },
                ))?;
                i.sanitize_iface_specfic(cur)
            },
            Interface::Dummy(i) => {
                let cur = match current {
                    Some(Interface::Dummy(c)) => Some(&c.base),
                    _ => None,
                };
                i.base.sanitize(cur)
            },
            Interface::OvsBridge(i) => {
                let cur = match current {
                    Some(Interface::OvsBridge(c)) => Some(&c.base),
                    _ => None,
                };
                i.base.sanitize(cur)
            },
            Interface::OvsInterface(i) => {
                let cur = match current {
                    Some(Interface::OvsInterface(c)) => Some(&c.base),
                    _ => None,
                };
                i.base.sanitize(cur)
            },
            Interface::Unknown(i) => {
                let cur = match current {
                    Some(Interface::Unknown(c)) => Some(&c.base),
                    _ => None,
                };
                i.base.sanitize(cur)
            },
        }
    }

    /// Prepare the desired interface and the current one for verification:
    /// the base first, then the type specific part when both are of the
    /// same kind.
    pub fn sanitize_before_verify(&mut self, current: &mut Self)
        ensures
            final(self)@.base.up_priority == 0,
            final(self)@.base.name == old(self)@.base.name,
            final(self)@.base.state == old(self)@.base.state,
            final(self)@.base.iface_type == old(self)@.base.iface_type,
            final(current)@.base == old(current)@.base,
            same_section_kind(final(self)@.section, old(self)@.section),
            same_section_kind(final(current)@.section, old(current)@.section),
    {
        self.base_iface_mut().sanitize_before_verify(current.base_iface_mut());
        match (self, current) {
            (Interface::LinuxBridge(d), Interface::LinuxBridge(c)) => d.sanitize_before_verify_iface_specfic(c),
            (Interface::Vlan(d), Interface::Vlan(c)) => d.sanitize_before_verify_iface_specfic(c),
            (Interface::WifiCfg(d), Interface::WifiCfg(c)) => d.sanitize_before_verify_iface_specfic(c),
            _ => {},
        }
    }

    /// Check the current interface against the desired one: the MTU, MAC
    /// address and controller desired must be the current ones.
    pub fn verify(&self, current: &Self) -> (r: Result<(), NipartError>)
        ensures
            r is Err <==> base_mismatch(self@.base, current@.base),
            r matches Err(e) ==> e.kind == ErrorKind::VerificationError,
    {
        let d = self.base_iface();
        let c = current.base_iface();
        if d.mtu.is_some() && d.mtu != c.mtu {
            return Err(self.verify_error("mtu"));
        }
        if d.mac_address.is_some() && !crate::text::opt_str_eq(&d.mac_address, &c.mac_address) {
            return Err(self.verify_error("mac-address"));
        }
        if d.controller.is_some() && !crate::text::opt_str_eq(&d.controller, &c.controller) {
            return Err(self.verify_error("controller"));
        }
        Ok(())
    }

    fn verify_error(&self, prop: &str) -> (r: NipartError)
        ensures
            r.kind == ErrorKind::VerificationError,
    {
        let mut msg = crate::text::str_to_string("Verification failure: ");
        msg.append(self.name());
        msg.append(" ");
        msg.append(prop);
        msg.append(" desired value differs from current");
        NipartError::new(ErrorKind::VerificationError, msg)
    }

    /// This interface with its base replaced.
    pub fn with_base(&self, base: BaseInterface) -> (r: Self)
        ensures
            r@ == (InterfaceView { base: base@, section: self@.section }),
    {
        let mut r = self.clone();
        *r.base_iface_mut() = base;
        r
    }
}

/// The merged WiFi section: configurations on both sides merged, otherwise
/// whichever is set.
pub open spec fn wifi_section_merged(n: Option<WifiConfigView>, o: Option<WifiConfigView>) -> Option<WifiConfigView> {
    match (n, o) {
        (Some(a), Some(b)) => Some(crate::nmstate::ifaces::wifi::wifi_merged(a, b)),
        (Some(a), None) => Some(a),
        (None, b) => b,
    }
}

/// The type specific part of the merge of a new interface over an old one of
/// the same kind, where it is modeled exactly (bond and WiFi sections).
pub open spec fn section_merged_ok(m: IfaceSection, n: IfaceSection, o: IfaceSection) -> bool {
    match (n, o) {
        (IfaceSection::Bond(nb), IfaceSection::Bond(ob)) => m == IfaceSection::Bond(
            match (nb, ob) {
                (Some(a), Some(b)) => Some(crate::nmstate::ifaces::bond::bond_conf_merged(a, b)),
                (Some(a), None) => Some(a),
                (None, b) => b,
            },
        ),
        (IfaceSection::WifiPhy(nw), IfaceSection::WifiPhy(ow)) => m == IfaceSection::WifiPhy(
            wifi_section_merged(nw, ow),
        ),
        (IfaceSection::WifiCfg(nw), IfaceSection::WifiCfg(ow)) => m == IfaceSection::WifiCfg(
            wifi_section_merged(nw, ow),
        ),
        (IfaceSection::Ethernet(ne, nv), IfaceSection::Ethernet(oe, ov)) => m == IfaceSection::Ethernet(
            crate::nmstate::ifaces::simple::ethernet_merged(ne, oe),
            crate::nmstate::iface_ip::or_else(nv, ov),
        ),
        _ => true,
    }
}

fn merge_wifi_section(
    n: &Option<crate::nmstate::ifaces::wifi::WifiConfig>,
    o: &Option<crate::nmstate::ifaces::wifi::WifiConfig>,
) -> (r: Option<crate::nmstate::ifaces::wifi::WifiConfig>)
    ensures
        opt_wifi_view(r) == wifi_section_merged(opt_wifi_view(*n), opt_wifi_view(*o)),
{
    match (n, o) {
        (Some(a), Some(b)) => Some(b.merge(a)),
        (Some(a), None) => Some(a.clone()),
        (None, Some(b)) => Some(b.clone()),
        (None, None) => None,
    }
}

impl Interface {
    /// The new interface merged over this one: properties the new interface
    /// leaves undefined come from this one, then the post-merge rules apply
    /// (type, state and IP stacks of the base, the WiFi SSID). A new
    /// interface of unknown kind keeps this interface's kind and type
    /// specific part; another kind replaces it.
    pub fn merge(&self, new: &Self) -> (r: Result<Self, NipartError>)
        ensures
            r is Ok,
            r matches Ok(m) ==> {
                &&& m@.base.name == new@.base.name
                &&& m@.base.iface_type == (if new@.base.iface_type is Unknown || (self@.base.iface_type is Veth
                    && new@.base.iface_type is Ethernet) {
                    self@.base.iface_type
                } else {
                    new@.base.iface_type
                })
                &&& m@.base.state == (if new@.base.state == InterfaceState::Unknown {
                    self@.base.state
                } else {
                    new@.base.state
                })
                &&& m@.base.up_priority == (if new@.base.up_priority == 0 {
                    self@.base.up_priority
                } else {
                    new@.base.up_priority
                })
                &&& m@.base.controller == crate::nmstate::iface_ip::or_else(new@.base.controller, self@.base.controller)
                &&& m@.base.mtu == crate::nmstate::iface_ip::or_else(new@.base.mtu, self@.base.mtu)
                &&& merged_kind_ok(m@.section, new@.section, self@.section)
                &&& same_section_kind(new@.section, self@.section) ==> section_merged_ok(
                    m@.section,
                    new@.section,
                    self@.section,
                )
            },
    {
        let mut base = new.base_iface().merged_over(self.base_iface());
        let _ = base.post_merge(self.base_iface());
        let r = match (self, new) {
            (Interface::Bond(o), Interface::Bond(n)) => {
                let bond = match (&n.bond, &o.bond) {
                    (Some(a), Some(b)) => Some(a.merged_over(b)),
                    (Some(a), None) => Some(a.clone()),
                    (None, Some(b)) => Some(b.clone()),
                    (None, None) => None,
                };
                Interface::Bond(Box::new(BondInterface { base, bond }))
            },
            (Interface::LinuxBridge(o), Interface::LinuxBridge(n)) => {
                let bridge = n.merged_bridge(o);
                Interface::LinuxBridge(Box::new(LinuxBridgeInterface { base, bridge }))
            },
            (Interface::Ethernet(o), Interface::Ethernet(n)) => {
                let (ethernet, veth) = n.merged_specific(o);
                Interface::Ethernet(Box::new(EthernetInterface { base, ethernet, veth }))
            },
            (Interface::Vlan(o), Interface::Vlan(n)) => {
                let vlan = n.merged_vlan(o);
                Interface::Vlan(Box::new(VlanInterface { base, vlan }))
            },
            (Interface::WifiPhy(o), Interface::WifiPhy(n)) => {
                let wifi = merge_wifi_section(&n.wifi, &o.wifi);
                Interface::WifiPhy(Box::new(WifiPhyInterface { base, wifi }))
            },
            (Interface::WifiCfg(o), Interface::WifiCfg(n)) => {
                let wifi = merge_wifi_section(&n.wifi, &o.wifi);
                Interface::WifiCfg(Box::new(WifiCfgInterface { base, wifi }))
            },
            (Interface::OvsBridge(o), Interface::OvsBridge(n)) => {
                let bridge = match (&n.bridge, &o.bridge) {
                    (Some(a), Some(b)) => {
                        if a.ports.is_some() {
                            Some(a.clone())
                        } else {
                            Some(b.clone())
                        }
                    },
                    (Some(a), None) => Some(a.clone()),
                    (None, Some(b)) => Some(b.clone()),
                    (None, None) => None,
                };
                Interface::OvsBridge(Box::new(OvsBridgeInterface::new(base, bridge)))
            },
            (Interface::Dummy(_), Interface::Dummy(_)) => Interface::Dummy(Box::new(DummyInterface { base })),
            (Interface::Loopback(_), Interface::Loopback(_)) => Interface::Loopback(
                Box::new(LoopbackInterface::new(base)),
            ),
            (Interface::OvsInterface(_), Interface::OvsInterface(_)) => Interface::OvsInterface(
                Box::new(OvsInterface::new(base)),
            ),
            (Interface::Unknown(_), Interface::Unknown(_)) => Interface::Unknown(
                Box::new(UnknownInterface { base }),
            ),
            (_, Interface::Unknown(_)) => self.with_base(base),
            (_, _) => new.with_base(base),
        };
        Ok(r)
    }
}

} // verus!
