use vstd::prelude::*;
use vstd::string::*;

use crate::error::{ErrorKind, NipartError};
use crate::nmstate::iface_ip::{or_else, InterfaceIpv4, InterfaceIpv4View, InterfaceIpv6, InterfaceIpv6View};
use crate::nmstate::iface_state::InterfaceState;
use crate::nmstate::iface_type::{same_type, InterfaceType};
use crate::text::{clone_opt_str, opt_str_view};

verus! {

/// Information shared among all interface types
#[derive(Debug)]
#[non_exhaustive]
pub struct BaseInterface {
    pub name: String,
    pub iface_type: InterfaceType,
    pub iface_index: Option<u32>,
    pub state: InterfaceState,
    /// In which order should this interface been activated. The smallest
    /// number will be activated first. 0 when applying means automatic.
    pub up_priority: u32,
    /// Controller interface name.
    pub controller: Option<String>,
    pub controller_type: Option<InterfaceType>,
    /// MAC address, upper case hex separated by `:`.
    pub mac_address: Option<String>,
    /// MAC address never change after reboots. Ignored during apply.
    pub permanent_mac_address: Option<String>,
    /// Maximum transmission unit.
    pub mtu: Option<u64>,
    /// Minimum MTU allowed. Ignored during apply.
    pub min_mtu: Option<u64>,
    /// Maximum MTU allowed. Ignored during apply.
    pub max_mtu: Option<u64>,
    /// IPv4 information.
    pub ipv4: Option<InterfaceIpv4>,
    /// IPv6 information.
    pub ipv6: Option<InterfaceIpv6>,
}

/// Model of [BaseInterface]: its fields, IP configurations by their models.
pub struct BaseInterfaceView {
    pub name: String,
    pub iface_type: InterfaceType,
    pub iface_index: Option<u32>,
    pub state: InterfaceState,
    pub up_priority: u32,
    pub controller: Option<String>,
    pub controller_type: Option<InterfaceType>,
    pub mac_address: Option<String>,
    pub permanent_mac_address: Option<String>,
    pub mtu: Option<u64>,
    pub min_mtu: Option<u64>,
    pub max_mtu: Option<u64>,
    pub ipv4: Option<InterfaceIpv4View>,
    pub ipv6: Option<InterfaceIpv6View>,
}

/// Model of an optional IPv4 configuration.
pub open spec fn opt_ipv4_view(o: Option<InterfaceIpv4>) -> Option<InterfaceIpv4View> {
    match o {
        Some(v) => Some(v@),
        None => None,
    }
}

/// Model of an optional IPv6 configuration.
pub open spec fn opt_ipv6_view(o: Option<InterfaceIpv6>) -> Option<InterfaceIpv6View> {
    match o {
        Some(v) => Some(v@),
        None => None,
    }
}

impl View for BaseInterface {
    type V = BaseInterfaceView;

    open spec fn view(&self) -> BaseInterfaceView {
        BaseInterfaceView {
            name: self.name,
            iface_type: self.iface_type,
            iface_index: self.iface_index,
            state: self.state,
            up_priority: self.up_priority,
            controller: self.controller,
            controller_type: self.controller_type,
            mac_address: self.mac_address,
            permanent_mac_address: self.permanent_mac_address,
            mtu: self.mtu,
            min_mtu: self.min_mtu,
            max_mtu: self.max_mtu,
            ipv4: opt_ipv4_view(self.ipv4),
            ipv6: opt_ipv6_view(self.ipv6),
        }
    }
}

fn clone_opt_type(t: &Option<InterfaceType>) -> (r: Option<InterfaceType>)
    ensures
        r == *t,
{
    match t {
        None => None,
        Some(x) => Some(x.clone()),
    }
}

fn clone_opt_ipv4(o: &Option<InterfaceIpv4>) -> (r: Option<InterfaceIpv4>)
    ensures
        opt_ipv4_view(r) == opt_ipv4_view(*o),
{
    match o {
        None => None,
        Some(x) => Some(x.clone()),
    }
}

fn clone_opt_ipv6(o: &Option<InterfaceIpv6>) -> (r: Option<InterfaceIpv6>)
    ensures
        opt_ipv6_view(r) == opt_ipv6_view(*o),
{
    match o {
        None => None,
        Some(x) => Some(x.clone()),
    }
}

impl Clone for BaseInterface {
    fn clone(&self) -> (r: Self)
        ensures
            r@ == self@,
    {
        BaseInterface {
            name: self.name.clone(),
            iface_type: self.iface_type.clone(),
            iface_index: self.iface_index,
            state: self.state,
            up_priority: self.up_priority,
            controller: clone_opt_str(&self.controller),
            controller_type: clone_opt_type(&self.controller_type),
            mac_address: clone_opt_str(&self.mac_address),
            permanent_mac_address: clone_opt_str(&self.permanent_mac_address),
            mtu: self.mtu,
            min_mtu: self.min_mtu,
            max_mtu: self.max_mtu,
            ipv4: clone_opt_ipv4(&self.ipv4),
            ipv6: clone_opt_ipv6(&self.ipv6),
        }
    }
}

/// A base interface with the given name, type and state and nothing else.
pub open spec fn bare_base(name: String, iface_type: InterfaceType, state: InterfaceState) -> BaseInterfaceView {
    BaseInterfaceView {
        name,
        iface_type,
        iface_index: None,
        state,
        up_priority: 0,
        controller: None,
        controller_type: None,
        mac_address: None,
        permanent_mac_address: None,
        mtu: None,
        min_mtu: None,
        max_mtu: None,
        ipv4: None,
        ipv6: None,
    }
}

/// Whether the base interface names a controller (a non-empty name).
pub open spec fn base_has_controller(b: BaseInterfaceView) -> bool {
    b.controller matches Some(c) && c@.len() > 0
}

/// Whether the interface can hold IP configuration: it has no controller, or
/// it is an OVS internal interface, or its controller is a VRF.
pub open spec fn base_can_have_ip(b: BaseInterfaceView) -> bool {
    !base_has_controller(b) || b.iface_type is OvsInterface || b.controller_type matches Some(
        InterfaceType::Vrf,
    )
}

/// An IPv4 configuration after a successful sanitize: a disabled stack
/// keeps nothing else, an enabled one stays as it is.
pub open spec fn ipv4_sanitized(o: Option<InterfaceIpv4>) -> Option<InterfaceIpv4View> {
    match o {
        Some(v) => Some(
            if v.enabled == Some(false) {
                InterfaceIpv4View { enabled: Some(false), dhcp: None, addresses: None }
            } else {
                v@
            },
        ),
        None => None,
    }
}

/// An IPv6 configuration after a successful sanitize, as for IPv4.
pub open spec fn ipv6_sanitized(o: Option<InterfaceIpv6>) -> Option<InterfaceIpv6View> {
    match o {
        Some(v) => Some(
            if v.enabled == Some(false) {
                InterfaceIpv6View { enabled: Some(false), autoconf: None, dhcp: None, addresses: None }
            } else {
                v@
            },
        ),
        None => None,
    }
}

/// Whether the desired MTU is outside the range the current interface
/// allows (only checked when current reports both bounds).
pub open spec fn mtu_out_of_range(desired: BaseInterfaceView, current: Option<BaseInterfaceView>) -> bool {
    current matches Some(c) && desired.mtu is Some && c.min_mtu is Some && c.max_mtu is Some && (desired.mtu->0
        > c.max_mtu->0 || desired.mtu->0 < c.min_mtu->0)
}

/// The result of the generic merge of `new` over `old`: every property `new`
/// leaves undefined is taken from `old` (name, type and state are always
/// defined; an `up_priority` of 0 is undefined); IP configurations defined on
/// both sides are merged the same way.
pub open spec fn base_merged(new: BaseInterfaceView, prev: BaseInterfaceView) -> BaseInterfaceView {
    BaseInterfaceView {
        name: new.name,
        iface_type: new.iface_type,
        iface_index: or_else(new.iface_index, prev.iface_index),
        state: new.state,
        up_priority: if new.up_priority == 0 { prev.up_priority } else { new.up_priority },
        controller: or_else(new.controller, prev.controller),
        controller_type: or_else(new.controller_type, prev.controller_type),
        mac_address: or_else(new.mac_address, prev.mac_address),
        permanent_mac_address: or_else(new.permanent_mac_address, prev.permanent_mac_address),
        mtu: or_else(new.mtu, prev.mtu),
        min_mtu: or_else(new.min_mtu, prev.min_mtu),
        max_mtu: or_else(new.max_mtu, prev.max_mtu),
        ipv4: match (new.ipv4, prev.ipv4) {
            (Some(n), Some(o)) => Some(
                InterfaceIpv4View {
                    enabled: or_else(n.enabled, o.enabled),
                    dhcp: or_else(n.dhcp, o.dhcp),
                    addresses: or_else(n.addresses, o.addresses),
                },
            ),
            (n, o) => or_else(n, o),
        },
        ipv6: match (new.ipv6, prev.ipv6) {
            (Some(n), Some(o)) => Some(
                InterfaceIpv6View {
                    enabled: or_else(n.enabled, o.enabled),
                    autoconf: or_else(n.autoconf, o.autoconf),
                    dhcp: or_else(n.dhcp, o.dhcp),
                    addresses: or_else(n.addresses, o.addresses),
                },
            ),
            (n, o) => or_else(n, o),
        },
    }
}

impl BaseInterface {
    /// A base interface with a name and type, state up.
    pub fn new(name: String, iface_type: InterfaceType) -> (r: Self)
        ensures
            r@ == bare_base(name, iface_type, InterfaceState::Up),
    {
        BaseInterface {
            name,
            iface_type,
            iface_index: None,
            state: InterfaceState::Up,
            up_priority: 0,
            controller: None,
            controller_type: None,
            mac_address: None,
            permanent_mac_address: None,
            mtu: None,
            min_mtu: None,
            max_mtu: None,
            ipv4: None,
            ipv6: None,
        }
    }

    /// A base interface of unknown type with an empty name.
    pub fn new_empty() -> (r: Self)
        ensures
            r.name@ == Seq::<char>::empty(),
            r.iface_type matches InterfaceType::Unknown(s) && s@ == "unknown"@,
            r@ == bare_base(r.name, r.iface_type, InterfaceState::Up),
    {
        Self::new(String::new(), InterfaceType::default())
    }

    /// The base interface holds no secrets: nothing to hide.
    pub fn hide_secrets(&mut self)
        ensures
            final(self)@ == old(self)@,
    {
    }

    /// Validate and clean up the desired base interface against the current
    /// one: validate the IP configurations, drop the interface index (query
    /// only), and check the MTU against the range the current interface allows.
    pub fn sanitize(&mut self, current: Option<&Self>) -> (r: Result<(), NipartError>)
        ensures
            r is Ok <==> (match old(self).ipv4 {
                Some(v) => crate::nmstate::iface_ip::addrs_fit_family(v.addresses, false),
                None => true,
            }) && (match old(self).ipv6 {
                Some(v) => crate::nmstate::iface_ip::addrs_fit_family(v.addresses, true),
                None => true,
            }) && !mtu_out_of_range(old(self)@, match current {
                Some(c) => Some(c@),
                None => None,
            }),
            r is Ok ==> final(self)@ == (BaseInterfaceView {
                iface_index: None,
                ipv4: ipv4_sanitized(old(self).ipv4),
                ipv6: ipv6_sanitized(old(self).ipv6),
                ..old(self)@
            }),
            r matches Err(e) ==> e.kind == ErrorKind::InvalidArgument,
    {
        if let Some(mut ipv4) = self.ipv4.take() {
            let res = ipv4.sanitize();
            self.ipv4 = Some(ipv4);
            match res {
                Ok(()) => {},
                Err(e) => return Err(e),
            }
        }
        if let Some(mut ipv6) = self.ipv6.take() {
            let res = ipv6.sanitize();
            self.ipv6 = Some(ipv6);
            match res {
                Ok(()) => {},
                Err(e) => return Err(e),
            }
        }
        self.iface_index = None;
        match self.validate_mtu(current) {
            Ok(()) => {},
            Err(e) => return Err(e),
        }
        Ok(())
    }

    /// Refuse a desired MTU outside the range the current interface allows.
    pub fn validate_mtu(&self, current: Option<&Self>) -> (r: Result<(), NipartError>)
        ensures
            r is Ok <==> !mtu_out_of_range(self@, match current {
                Some(c) => Some(c@),
                None => None,
            }),
            r matches Err(e) ==> e.kind == ErrorKind::InvalidArgument,
    {
        if let Some(current) = current {
            if let (Some(desire_mtu), Some(min_mtu), Some(max_mtu)) = (self.mtu, current.min_mtu, current.max_mtu) {
                if desire_mtu > max_mtu {
                    return Err(
                        NipartError::from_str_msg(
                            ErrorKind::InvalidArgument,
                            "Desired MTU is bigger than maximum allowed MTU",
                        ),
                    );
                } else if desire_mtu < min_mtu {
                    return Err(
                        NipartError::from_str_msg(
                            ErrorKind::InvalidArgument,
                            "Desired MTU is smaller than minimum allowed MTU",
                        ),
                    );
                }
            }
        }
        Ok(())
    }

    /// Prepare for verification: the up priority is not compared.
    pub fn sanitize_before_verify(&mut self, current: &mut Self)
        ensures
            final(self)@ == (BaseInterfaceView { up_priority: 0, ..old(self)@ }),
            final(current)@ == old(current)@,
    {
        self.up_priority = 0;
    }

    /// A copy holding only the name and type, state up.
    pub fn clone_name_type_only(&self) -> (r: Self)
        ensures
            r@ == bare_base(self.name, self.iface_type, InterfaceState::Up),
    {
        Self::new(self.name.clone(), self.iface_type.clone())
    }

    pub fn is_absent(&self) -> (r: bool)
        ensures
            r == (self.state == InterfaceState::Absent),
    {
        matches!(self.state, InterfaceState::Absent)
    }

    /// An up priority is only required (non-zero) for an interface with a
    /// controller.
    pub fn is_up_priority_valid(&self) -> (r: bool)
        ensures
            r == (!base_has_controller(self@) || self.up_priority != 0),
    {
        if self.has_controller() {
            self.up_priority != 0
        } else {
            true
        }
    }

    /// Whether a controller is named (a non-empty name).
    pub fn has_controller(&self) -> (r: bool)
        ensures
            r == base_has_controller(self@),
    {
        match &self.controller {
            Some(c) => c.as_str().unicode_len() > 0,
            None => false,
        }
    }

    /// Carry the interface index of the current interface into the one to
    /// apply.
    pub fn include_extra_for_apply(&mut self, current: Option<&Self>)
        ensures
            final(self)@ == (BaseInterfaceView {
                iface_index: match current {
                    Some(c) => c.iface_index,
                    None => None,
                },
                ..old(self)@
            }),
    {
        self.iface_index = match current {
            Some(c) => c.iface_index,
            None => None,
        };
    }

    pub fn is_ipv4_enabled(&self) -> (r: bool)
        ensures
            r == (self@.ipv4 matches Some(i) && i.enabled == Some(true)),
    {
        match &self.ipv4 {
            Some(i) => i.is_enabled(),
            None => false,
        }
    }

    pub fn is_ipv6_enabled(&self) -> (r: bool)
        ensures
            r == (self@.ipv6 matches Some(i) && i.enabled == Some(true)),
    {
        match &self.ipv6 {
            Some(i) => i.is_enabled(),
            None => false,
        }
    }

    pub fn need_controller(&self) -> (r: bool)
        ensures
            r == (self.iface_type is OvsInterface),
    {
        self.iface_type.need_controller()
    }

    /// Whether this interface can hold IP information or not.
    pub fn can_have_ip(&self) -> (r: bool)
        ensures
            r == base_can_have_ip(self@),
    {
        !self.has_controller() || matches!(self.iface_type, InterfaceType::OvsInterface) || matches!(
            self.controller_type,
            Some(InterfaceType::Vrf)
        )
    }

    /// This base interface with every property left undefined here taken
    /// from `old`.
    pub fn merged_over(&self, prev: &Self) -> (r: Self)
        ensures
            r@ == base_merged(self@, prev@),
    {
        BaseInterface {
            name: self.name.clone(),
            iface_type: self.iface_type.clone(),
            iface_index: if self.iface_index.is_some() { self.iface_index } else { prev.iface_index },
            state: self.state,
            up_priority: if self.up_priority == 0 { prev.up_priority } else { self.up_priority },
            controller: if self.controller.is_some() { clone_opt_str(&self.controller) } else { clone_opt_str(&prev.controller) },
            controller_type: if self.controller_type.is_some() {
                clone_opt_type(&self.controller_type)
            } else {
                clone_opt_type(&prev.controller_type)
            },
            mac_address: if self.mac_address.is_some() {
                clone_opt_str(&self.mac_address)
            } else {
                clone_opt_str(&prev.mac_address)
            },
            permanent_mac_address: if self.permanent_mac_address.is_some() {
                clone_opt_str(&self.permanent_mac_address)
            } else {
                clone_opt_str(&prev.permanent_mac_address)
            },
            mtu: if self.mtu.is_some() { self.mtu } else { prev.mtu },
            min_mtu: if self.min_mtu.is_some() { self.min_mtu } else { prev.min_mtu },
            max_mtu: if self.max_mtu.is_some() { self.max_mtu } else { prev.max_mtu },
            ipv4: match (&self.ipv4, &prev.ipv4) {
                (Some(n), Some(o)) => Some(n.merged_over(o)),
                (Some(_), None) => clone_opt_ipv4(&self.ipv4),
                (None, _) => clone_opt_ipv4(&prev.ipv4),
            },
            ipv6: match (&self.ipv6, &prev.ipv6) {
                (Some(n), Some(o)) => Some(n.merged_over(o)),
                (Some(_), None) => clone_opt_ipv6(&self.ipv6),
                (None, _) => clone_opt_ipv6(&prev.ipv6),
            },
        }
    }

    /// The special merging after the generic one: an unknown new type does
    /// not override the old one, nor does an ethernet type override an old
    /// veth; an unknown new state keeps the old state; IP configurations get
    /// their own post-merge.
    pub fn post_merge(&mut self, prev: &Self) -> (r: Result<(), NipartError>)
        ensures
            r is Ok,
            final(self).name == old(self).name,
            final(self).iface_type == (if old(self).iface_type is Unknown || (prev.iface_type is Veth
                && old(self).iface_type is Ethernet) {
                prev.iface_type
            } else {
                old(self).iface_type
            }),
            final(self).state == (if old(self).state == InterfaceState::Unknown {
                prev.state
            } else {
                old(self).state
            }),
            final(self).up_priority == old(self).up_priority,
            final(self).controller == old(self).controller,
            final(self).controller_type == old(self).controller_type,
            final(self).mtu == old(self).mtu,
            old(self).ipv4 is None ==> opt_ipv4_view(final(self).ipv4) == opt_ipv4_view(prev.ipv4),
            old(self).ipv6 is None ==> opt_ipv6_view(final(self).ipv6) == opt_ipv6_view(prev.ipv6),
            old(self).ipv4 is Some ==> final(self).ipv4 is Some,
            old(self).ipv6 is Some ==> final(self).ipv6 is Some,
    {
        if self.iface_type.is_unknown() || (matches!(prev.iface_type, InterfaceType::Veth) && matches!(
            self.iface_type,
            InterfaceType::Ethernet
        )) {
            self.iface_type = prev.iface_type.clone();
        }
        if matches!(self.state, InterfaceState::Unknown) {
            self.state = prev.state;
        }
        match self.ipv4.take() {
            None => {
                self.ipv4 = clone_opt_ipv4(&prev.ipv4);
            },
            Some(mut v4) => {
                if let Some(o) = &prev.ipv4 {
                    v4.post_merge(o);
                }
                self.ipv4 = Some(v4);
            },
        }
        match self.ipv6.take() {
            None => {
                self.ipv6 = clone_opt_ipv6(&prev.ipv6);
            },
            Some(mut v6) => {
                if let Some(o) = &prev.ipv6 {
                    v6.post_merge(o);
                }
                self.ipv6 = Some(v6);
            },
        }
        Ok(())
    }
}

/// Whether a value is zero (an undefined up priority).
pub fn is_zero(d: &u32) -> (r: bool)
    ensures
        r == (*d == 0),
{
    *d == 0
}

} // verus!
