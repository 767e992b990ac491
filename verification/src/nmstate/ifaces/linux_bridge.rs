use vstd::prelude::*;
use vstd::string::*;

use crate::error::{ErrorKind, NipartError};
use crate::nmstate::iface_ip::or_else;
use crate::nmstate::iface_state::InterfaceState;
use crate::nmstate::iface_type::InterfaceType;
use crate::nmstate::ifaces::base::{bare_base, BaseInterface};
use crate::nmstate::ifaces::bridge_vlan::{
    opt_bridge_vlan_view, tags_bounded, BridgeVlanConfig, BridgeVlanConfigView,
};
use crate::nmstate::ifaces::vlan::VlanProtocol;
use crate::text::{ascii_upper, ascii_uppercase, clone_opt_str, str_eq, text_order, lemma_text_order_basics};

verus! {

/// Bridge interface provided by linux kernel.
#[derive(Debug)]
#[non_exhaustive]
pub struct LinuxBridgeInterface {
    pub base: BaseInterface,
    pub bridge: Option<LinuxBridgeConfig>,
}

/// Linux bridge specific configuration.
#[derive(Debug, Default)]
#[non_exhaustive]
pub struct LinuxBridgeConfig {
    /// Linux bridge options. When applying, existing options are merged into
    /// desired.
    pub options: Option<LinuxBridgeOptions>,
    /// Linux bridge ports. When applying, desired port list overrides the
    /// current one.
    pub ports: Option<Vec<LinuxBridgePortConfig>>,
    /// The VLAN filtering for the bridge itself.
    pub vlan: Option<BridgeVlanConfig>,
}

/// One port of a Linux bridge.
#[derive(Debug, Default)]
#[non_exhaustive]
pub struct LinuxBridgePortConfig {
    /// The kernel interface name of this bridge port.
    pub name: String,
    /// Whether traffic may be send back out of the port on which it was
    /// received.
    pub stp_hairpin_mode: Option<bool>,
    /// The STP path cost of the specified port.
    pub stp_path_cost: Option<u32>,
    /// The STP port priority.
    pub stp_priority: Option<u16>,
    /// Linux bridge VLAN filtering configure of the port.
    pub vlan: Option<BridgeVlanConfig>,
}

/// Linux bridge options.
#[derive(Debug, Default)]
#[non_exhaustive]
pub struct LinuxBridgeOptions {
    pub gc_timer: Option<u64>,
    pub group_addr: Option<String>,
    /// Alias of `group_fwd_mask`.
    pub group_forward_mask: Option<u16>,
    pub group_fwd_mask: Option<u16>,
    pub hash_max: Option<u32>,
    pub hello_timer: Option<u64>,
    pub mac_ageing_time: Option<u32>,
    pub multicast_last_member_count: Option<u32>,
    pub multicast_last_member_interval: Option<u64>,
    pub multicast_membership_interval: Option<u64>,
    pub multicast_querier: Option<bool>,
    pub multicast_querier_interval: Option<u64>,
    pub multicast_query_interval: Option<u64>,
    pub multicast_query_response_interval: Option<u64>,
    pub multicast_query_use_ifaddr: Option<bool>,
    pub multicast_router: Option<LinuxBridgeMulticastRouterType>,
    pub multicast_snooping: Option<bool>,
    pub multicast_startup_query_count: Option<u32>,
    pub multicast_startup_query_interval: Option<u64>,
    pub stp: Option<LinuxBridgeStpOptions>,
    pub vlan_protocol: Option<VlanProtocol>,
    pub vlan_default_pvid: Option<u16>,
}

/// Spanning tree options of a Linux bridge.
#[derive(Debug, Clone, Copy, PartialEq, Eq, Structural, Default)]
#[non_exhaustive]
pub struct LinuxBridgeStpOptions {
    /// If disabled during applying, the remaining STP options will be discard.
    pub enabled: Option<bool>,
    pub forward_delay: Option<u8>,
    pub hello_time: Option<u8>,
    pub max_age: Option<u8>,
    pub priority: Option<u16>,
}

/// Multicast router mode of a Linux bridge.
#[derive(Debug, Clone, Copy, PartialEq, Eq, Structural)]
#[non_exhaustive]
pub enum LinuxBridgeMulticastRouterType {
    Auto,
    Disabled,
    Enabled,
    Unknown,
}

impl LinuxBridgeMulticastRouterType {
    /// Kernel value of the mode: auto 1, disabled 0, enabled 2.
    pub fn to_u64(&self) -> (r: u64)
        ensures
            r == (match *self {
                LinuxBridgeMulticastRouterType::Auto => 1u64,
                LinuxBridgeMulticastRouterType::Disabled => 0u64,
                LinuxBridgeMulticastRouterType::Enabled => 2u64,
                LinuxBridgeMulticastRouterType::Unknown => 0xffff_ffff_ffff_ffffu64,
            }),
    {
        match self {
            LinuxBridgeMulticastRouterType::Auto => 1,
            LinuxBridgeMulticastRouterType::Disabled => 0,
            LinuxBridgeMulticastRouterType::Enabled => 2,
            LinuxBridgeMulticastRouterType::Unknown => 0xffff_ffff_ffff_ffff,
        }
    }
}

impl Clone for LinuxBridgeOptions {
    fn clone(&self) -> (r: Self)
        ensures
            r == *self,
    {
        LinuxBridgeOptions {
            gc_timer: self.gc_timer,
            group_addr: clone_opt_str(&self.group_addr),
            group_forward_mask: self.group_forward_mask,
            group_fwd_mask: self.group_fwd_mask,
            hash_max: self.hash_max,
            hello_timer: self.hello_timer,
            mac_ageing_time: self.mac_ageing_time,
            multicast_last_member_count: self.multicast_last_member_count,
            multicast_last_member_interval: self.multicast_last_member_interval,
            multicast_membership_interval: self.multicast_membership_interval,
            multicast_querier: self.multicast_querier,
            multicast_querier_interval: self.multicast_querier_interval,
            multicast_query_interval: self.multicast_query_interval,
            multicast_query_response_interval: self.multicast_query_response_interval,
            multicast_query_use_ifaddr: self.multicast_query_use_ifaddr,
            multicast_router: self.multicast_router,
            multicast_snooping: self.multicast_snooping,
            multicast_startup_query_count: self.multicast_startup_query_count,
            multicast_startup_query_interval: self.multicast_startup_query_interval,
            stp: self.stp,
            vlan_protocol: self.vlan_protocol,
            vlan_default_pvid: self.vlan_default_pvid,
        }
    }
}

/// Model of [LinuxBridgePortConfig].
pub struct LinuxBridgePortConfigView {
    pub name: String,
    pub stp_hairpin_mode: Option<bool>,
    pub stp_path_cost: Option<u32>,
    pub stp_priority: Option<u16>,
    pub vlan: Option<BridgeVlanConfigView>,
}

impl View for LinuxBridgePortConfig {
    type V = LinuxBridgePortConfigView;

    open spec fn view(&self) -> LinuxBridgePortConfigView {
        LinuxBridgePortConfigView {
            name: self.name,
            stp_hairpin_mode: self.stp_hairpin_mode,
            stp_path_cost: self.stp_path_cost,
            stp_priority: self.stp_priority,
            vlan: opt_bridge_vlan_view(self.vlan),
        }
    }
}

/// Models of a list of bridge ports.
pub open spec fn ports_view(s: Seq<LinuxBridgePortConfig>) -> Seq<LinuxBridgePortConfigView> {
    s.map_values(|p: LinuxBridgePortConfig| p@)
}

/// Model of [LinuxBridgeConfig].
pub struct LinuxBridgeConfigView {
    pub options: Option<LinuxBridgeOptions>,
    pub ports: Option<Seq<LinuxBridgePortConfigView>>,
    pub vlan: Option<BridgeVlanConfigView>,
}

impl View for LinuxBridgeConfig {
    type V = LinuxBridgeConfigView;

    open spec fn view(&self) -> LinuxBridgeConfigView {
        LinuxBridgeConfigView {
            options: self.options,
            ports: match self.ports {
                Some(p) => Some(ports_view(p@)),
                None => None,
            },
            vlan: opt_bridge_vlan_view(self.vlan),
        }
    }
}

/// Model of an optional Linux bridge configuration.
pub open spec fn opt_br_view(o: Option<LinuxBridgeConfig>) -> Option<LinuxBridgeConfigView> {
    match o {
        Some(v) => Some(v@),
        None => None,
    }
}

fn clone_opt_bridge_vlan(v: &Option<BridgeVlanConfig>) -> (r: Option<BridgeVlanConfig>)
    ensures
        opt_bridge_vlan_view(r) == opt_bridge_vlan_view(*v),
{
    match v {
        None => None,
        Some(c) => Some(c.duplicate()),
    }
}

impl Clone for LinuxBridgePortConfig {
    fn clone(&self) -> (r: Self)
        ensures
            r@ == self@,
    {
        LinuxBridgePortConfig {
            name: self.name.clone(),
            stp_hairpin_mode: self.stp_hairpin_mode,
            stp_path_cost: self.stp_path_cost,
            stp_priority: self.stp_priority,
            vlan: clone_opt_bridge_vlan(&self.vlan),
        }
    }
}

fn clone_ports(v: &Vec<LinuxBridgePortConfig>) -> (r: Vec<LinuxBridgePortConfig>)
    ensures
        ports_view(r@) == ports_view(v@),
{
    let mut r: Vec<LinuxBridgePortConfig> = Vec::new();
    let mut i: usize = 0;
    while i < v.len()
        invariant
            i <= v.len(),
            r.len() == i,
            forall|k: int| 0 <= k < i ==> #[trigger] r@[k]@ == v@[k]@,
        decreases v.len() - i,
    {
        r.push(v[i].clone());
        i += 1;
    }
    proof {
        assert(ports_view(r@) =~= ports_view(v@));
    }
    r
}

impl Clone for LinuxBridgeConfig {
    fn clone(&self) -> (r: Self)
        ensures
            r@ == self@,
    {
        LinuxBridgeConfig {
            options: match &self.options {
                None => None,
                Some(o) => Some(o.clone()),
            },
            ports: match &self.ports {
                None => None,
                Some(p) => Some(clone_ports(p)),
            },
            vlan: clone_opt_bridge_vlan(&self.vlan),
        }
    }
}

impl Clone for LinuxBridgeInterface {
    fn clone(&self) -> (r: Self)
        ensures
            r.base@ == self.base@,
            opt_br_view(r.bridge) == opt_br_view(self.bridge),
    {
        LinuxBridgeInterface {
            base: self.base.clone(),
            bridge: match &self.bridge {
                None => None,
                Some(b) => Some(b.clone()),
            },
        }
    }
}

/// Whether a bridge VLAN configuration sets anything.
pub open spec fn vlan_conf_set(v: BridgeVlanConfigView) -> bool {
    v.enable_native is Some || v.mode is Some || v.tag is Some || v.trunk_tags is Some
}

/// Whether a port sets a VLAN configuration that sets anything.
pub open spec fn port_vlan_set(p: LinuxBridgePortConfigView) -> bool {
    p.vlan matches Some(v) && vlan_conf_set(v)
}

/// Whether the bridge configuration enables VLAN filtering: the bridge or
/// one of its ports sets a VLAN configuration.
pub open spec fn br_vlan_filtering(b: Option<LinuxBridgeConfigView>) -> bool {
    b is Some && ((b->0.vlan is Some && vlan_conf_set(b->0.vlan->0)) || (b->0.ports is Some && ports_any_vlan_set(
        b->0.ports->0,
    )))
}

/// Whether some port sets a VLAN configuration that sets anything.
pub open spec fn ports_any_vlan_set(ps: Seq<LinuxBridgePortConfigView>) -> bool {
    exists|k: int| 0 <= k < ps.len() && #[trigger] port_vlan_set(ps[k])
}

/// Whether VLAN filtering is enabled once `desired` is applied over
/// `current`: decided by the desired bridge when it sets a VLAN or port
/// section, else by the current bridge.
pub open spec fn br_vlan_filtering_after(desired: Option<LinuxBridgeConfigView>, current: Option<
    Option<LinuxBridgeConfigView>,
>) -> bool {
    if desired matches Some(d) && (d.vlan is Some || d.ports is Some) {
        br_vlan_filtering(desired)
    } else {
        current matches Some(c) && br_vlan_filtering(c)
    }
}

/// Whether the desired STP options are out of range: hello time 1 to 10,
/// max age 6 to 40, forward delay 2 to 30.
pub open spec fn stp_invalid(s: LinuxBridgeStpOptions) -> bool {
    ||| (s.hello_time matches Some(h) && !(1 <= h <= 10))
    ||| (s.max_age matches Some(m) && !(6 <= m <= 40))
    ||| (s.forward_delay matches Some(f) && !(2 <= f <= 30))
}

impl LinuxBridgeStpOptions {
    pub const HELLO_TIME_MAX: u8 = 10;
    pub const HELLO_TIME_MIN: u8 = 1;
    pub const MAX_AGE_MAX: u8 = 40;
    pub const MAX_AGE_MIN: u8 = 6;
    pub const FORWARD_DELAY_MAX: u8 = 30;
    pub const FORWARD_DELAY_MIN: u8 = 2;

    /// Refuse STP timers outside their valid ranges.
    pub fn sanitize(&self) -> (r: Result<(), NipartError>)
        ensures
            r is Ok <==> !stp_invalid(*self),
            r matches Err(e) ==> e.kind == ErrorKind::InvalidArgument,
    {
        if let Some(hello_time) = self.hello_time {
            if !(1 <= hello_time && hello_time <= 10) {
                return Err(
                    NipartError::from_str_msg(
                        ErrorKind::InvalidArgument,
                        "Desired STP hello time is not in the valid range of [1,10]",
                    ),
                );
            }
        }
        if let Some(max_age) = self.max_age {
            if !(6 <= max_age && max_age <= 40) {
                return Err(
                    NipartError::from_str_msg(
                        ErrorKind::InvalidArgument,
                        "Desired STP max age is not in the range of [6,40]",
                    ),
                );
            }
        }
        if let Some(forward_delay) = self.forward_delay {
            if !(2 <= forward_delay && forward_delay <= 30) {
                return Err(
                    NipartError::from_str_msg(
                        ErrorKind::InvalidArgument,
                        "Desired STP forward delay is not in the range of [2,30]",
                    ),
                );
            }
        }
        Ok(())
    }
}

impl LinuxBridgePortConfig {
    /// Whether the port configuration holds only a name.
    pub fn is_name_only(&self) -> (r: bool)
        ensures
            r == (self.stp_hairpin_mode is None && self.stp_path_cost is None && self.stp_priority is None
                && self.vlan is None),
    {
        self.stp_hairpin_mode.is_none() && self.stp_path_cost.is_none() && self.stp_priority.is_none()
            && self.vlan.is_none()
    }
}

/// Whether the two group forward mask properties are both set and differ.
pub open spec fn fwd_mask_conflict(o: LinuxBridgeOptions) -> bool {
    o.group_forward_mask is Some && o.group_fwd_mask is Some && o.group_forward_mask != o.group_fwd_mask
}

impl LinuxBridgeOptions {
    /// Fold the `group_forward_mask` alias into `group_fwd_mask`; both set
    /// with different values is refused.
    pub fn sanitize_group_fwd_mask(&mut self, base_iface: &BaseInterface) -> (r: Result<(), NipartError>)
        ensures
            r is Err <==> fwd_mask_conflict(*old(self)),
            r matches Err(e) ==> e.kind == ErrorKind::InvalidArgument,
            r is Err ==> *final(self) == *old(self),
            r is Ok ==> *final(self) == (LinuxBridgeOptions {
                group_forward_mask: None,
                group_fwd_mask: or_else(old(self).group_forward_mask, old(self).group_fwd_mask),
                ..*old(self)
            }),
    {
        match (self.group_forward_mask, self.group_fwd_mask) {
            (Some(v1), Some(v2)) => {
                if v1 != v2 {
                    return Err(
                        NipartError::from_str_msg(
                            ErrorKind::InvalidArgument,
                            "Linux bridge has different group_forward_mask and group_fwd_mask, these two property is the same, hence conflicting",
                        ),
                    );
                } else {
                    self.group_fwd_mask = Some(v1);
                    self.group_forward_mask = None;
                }
            },
            (Some(v), None) => {
                self.group_fwd_mask = Some(v);
                self.group_forward_mask = None;
            },
            (None, Some(v)) => {
                self.group_fwd_mask = Some(v);
                self.group_forward_mask = None;
            },
            _ => {},
        }
        Ok(())
    }

    /// A VLAN default PVID other than 1 needs VLAN filtering enabled.
    pub fn validate_vlan_default_pvid(
        &self,
        linux_bridge: &LinuxBridgeInterface,
        current: Option<&LinuxBridgeInterface>,
    ) -> (r: Result<(), NipartError>)
        ensures
            r is Err <==> (self.vlan_default_pvid matches Some(p) && p != 1 && !br_vlan_filtering_after(
                opt_br_view(linux_bridge.bridge),
                match current {
                    Some(c) => Some(opt_br_view(c.bridge)),
                    None => None,
                },
            )),
            r matches Err(e) ==> e.kind == ErrorKind::InvalidArgument,
    {
        if let Some(pvid) = self.vlan_default_pvid {
            if pvid != 1 && !linux_bridge.vlan_filtering_is_enabled(current) {
                return Err(
                    NipartError::from_str_msg(
                        ErrorKind::InvalidArgument,
                        "Linux bridge has vlan-default-pvid different than 1 but VLAN filtering is not enabled.",
                    ),
                );
            }
        }
        Ok(())
    }
}

/// Whether ports `s[i]` and `s[i + 1]` are in name order.
pub open spec fn names_sorted_at(s: Seq<LinuxBridgePortConfigView>, i: int) -> bool {
    text_order(s[i].name@, s[i + 1].name@) <= 0
}

/// Whether the ports are sorted by name.
pub open spec fn ports_sorted(s: Seq<LinuxBridgePortConfigView>) -> bool {
    forall|i: int| 0 <= i < s.len() - 1 ==> #[trigger] names_sorted_at(s, i)
}

/// Sort bridge ports by name.
pub fn sort_ports_by_name(v: Vec<LinuxBridgePortConfig>) -> (r: Vec<LinuxBridgePortConfig>)
    ensures
        ports_sorted(ports_view(r@)),
        ports_view(r@).to_multiset() == ports_view(v@).to_multiset(),
{
    broadcast use vstd::seq_lib::group_to_multiset_ensures, vstd::multiset::group_multiset_axioms,
        vstd::multiset::group_multiset_properties;

    let mut src = v;
    let mut out: Vec<LinuxBridgePortConfig> = Vec::new();
    proof {
        assert(ports_view(out@) =~= Seq::<LinuxBridgePortConfigView>::empty());
        assert(ports_view(out@).to_multiset().add(ports_view(src@).to_multiset()) =~= ports_view(
            v@,
        ).to_multiset());
    }
    while src.len() > 0
        invariant
            ports_sorted(ports_view(out@)),
            ports_view(out@).to_multiset().add(ports_view(src@).to_multiset()) == ports_view(v@).to_multiset(),
        decreases src.len(),
    {
        let ghost before_src = src@;
        let x = src.pop().unwrap();
        proof {
            assert(before_src =~= src@.push(x));
            assert(ports_view(before_src) =~= ports_view(src@).push(x@));
        }
        let mut p: usize = 0;
        while p < out.len() && crate::text::str_order(out[p].name.as_str(), x.name.as_str()) <= 0
            invariant
                p <= out.len(),
                forall|q: int| 0 <= q < p ==> text_order((#[trigger] out@[q]).name@, x.name@) <= 0,
            decreases out.len() - p,
        {
            p += 1;
        }
        let ghost old_out = out@;
        out.insert(p, x);
        proof {
            let ov = ports_view(old_out);
            let nv = ports_view(out@);
            assert(nv =~= ov.insert(p as int, x@));
            vstd::seq_lib::to_multiset_insert(ov, p as int, x@);
            vstd::seq_lib::to_multiset_build(ports_view(src@), x@);
            assert(nv.to_multiset() == ov.to_multiset().insert(x@));
            assert(ports_view(before_src).to_multiset() == ports_view(src@).to_multiset().insert(x@));
            assert(nv.to_multiset().add(ports_view(src@).to_multiset()) =~= ov.to_multiset().add(
                ports_view(before_src).to_multiset(),
            ));
            if p < old_out.len() {
                lemma_text_order_basics(old_out[p as int].name@, x.name@);
            }
            assert forall|i: int| 0 <= i < nv.len() - 1 implies #[trigger] names_sorted_at(nv, i) by {
                if i < p - 1 {
                    assert(names_sorted_at(ov, i));
                } else if i == p - 1 {
                    assert(ov[i] == old_out[i]@);
                } else if i == p {
                } else {
                    assert(names_sorted_at(ov, i - 1));
                }
            }
        }
    }
    proof {
        assert(ports_view(src@) =~= Seq::<LinuxBridgePortConfigView>::empty());
        assert(ports_view(out@).to_multiset().add(Seq::<LinuxBridgePortConfigView>::empty().to_multiset())
            =~= ports_view(out@).to_multiset());
    }
    out
}

} // verus!

verus! {

/// Whether a bridge VLAN configuration (if any) keeps trunk ranges below
/// VLAN ID 65535, so that their expansion stays within `u16`.
pub open spec fn vlan_conf_bounded_opt(v: Option<BridgeVlanConfigView>) -> bool {
    match v {
        Some(c) => match c.trunk_tags {
            Some(t) => tags_bounded(t),
            None => true,
        },
        None => true,
    }
}

/// Whether every VLAN configuration of the bridge (its own and its ports')
/// keeps trunk ranges below VLAN ID 65535.
pub open spec fn br_vlans_bounded(b: Option<LinuxBridgeConfigView>) -> bool {
    b matches Some(c) ==> (vlan_conf_bounded_opt(c.vlan) && (c.ports matches Some(ps) ==> forall|k: int|
        0 <= k < ps.len() ==> vlan_conf_bounded_opt(#[trigger] ps[k].vlan)))
}

/// Whether two port lists differ at most in the VLAN settings of their
/// ports (whose presence they share).
pub open spec fn ports_same_but_vlan(n: Seq<LinuxBridgePortConfigView>, o: Seq<LinuxBridgePortConfigView>) -> bool {
    n.len() == o.len() && forall|k: int| 0 <= k < n.len() ==> port_same_but_vlan(#[trigger] n[k], o[k])
}

/// Whether two ports differ at most in their VLAN settings (whose presence
/// they share).
pub open spec fn port_same_but_vlan(n: LinuxBridgePortConfigView, o: LinuxBridgePortConfigView) -> bool {
    &&& n.name == o.name
    &&& n.stp_hairpin_mode == o.stp_hairpin_mode
    &&& n.stp_path_cost == o.stp_path_cost
    &&& n.stp_priority == o.stp_priority
    &&& (n.vlan is None <==> o.vlan is None)
}

/// Whether the desired bridge fails sanitizing before the VLAN checks: an
/// invalid default PVID, conflicting group forward masks, invalid STP timers.
pub open spec fn br_options_refused(d: LinuxBridgeInterface, current: Option<Option<LinuxBridgeConfigView>>) -> bool {
    d.bridge matches Some(b) && b.options matches Some(o) && {
        ||| (o.vlan_default_pvid matches Some(p) && p != 1 && !br_vlan_filtering_after(opt_br_view(d.bridge), current))
        ||| fwd_mask_conflict(o)
        ||| (o.stp matches Some(s) && stp_invalid(s))
    }
}

fn vlan_conf_set_exec(v: &BridgeVlanConfig) -> (r: bool)
    ensures
        r == vlan_conf_set(v@),
{
    !v.is_empty()
}

fn fix_one(des: Option<u64>, cur: Option<u64>) -> (r: Option<u64>)
    ensures
        r == rounded_up(des, cur),
{
    match (des, cur) {
        (Some(d), Some(c)) => if d > c && d - c == 1 {
            Some(c + 1)
        } else {
            cur
        },
        _ => cur,
    }
}

/// The current value raised by one when the desired one is exactly one
/// higher (a kernel round-down of a timer).
pub open spec fn rounded_up(des: Option<u64>, cur: Option<u64>) -> Option<u64> {
    if des is Some && cur is Some && des->0 > cur->0 && des->0 - cur->0 == 1 {
        Some((cur->0 + 1) as u64)
    } else {
        cur
    }
}

/// Kernels using CONFIG_HZ 250 or 300 round multicast timers down by one:
/// where the desired timer is exactly one above the current one, raise the
/// current one so that verification passes.
pub fn fix_round_up(desired: &mut LinuxBridgeInterface, current: &mut LinuxBridgeInterface)
    ensures
        final(desired).base@ == old(desired).base@,
        opt_br_view(final(desired).bridge) == opt_br_view(old(desired).bridge),
        final(current).base@ == old(current).base@,
        match (old(desired).bridge, old(current).bridge) {
            (Some(db), Some(cb)) => match (db.options, cb.options) {
                (Some(d), Some(c)) => final(current).bridge matches Some(nb) && nb@.ports == cb@.ports && nb@.vlan
                    == cb@.vlan && nb.options == Some(
                    LinuxBridgeOptions {
                        multicast_last_member_interval: rounded_up(
                            d.multicast_last_member_interval,
                            c.multicast_last_member_interval,
                        ),
                        multicast_membership_interval: rounded_up(
                            d.multicast_membership_interval,
                            c.multicast_membership_interval,
                        ),
                        multicast_querier_interval: rounded_up(d.multicast_querier_interval, c.multicast_querier_interval),
                        multicast_query_interval: rounded_up(d.multicast_query_interval, c.multicast_query_interval),
                        multicast_query_response_interval: rounded_up(
                            d.multicast_query_response_interval,
                            c.multicast_query_response_interval,
                        ),
                        multicast_startup_query_interval: rounded_up(
                            d.multicast_startup_query_interval,
                            c.multicast_startup_query_interval,
                        ),
                        ..c
                    },
                ),
                _ => opt_br_view(final(current).bridge) == opt_br_view(old(current).bridge),
            },
            _ => opt_br_view(final(current).bridge) == opt_br_view(old(current).bridge),
        },
{
    let d = match &desired.bridge {
        Some(b) => match &b.options {
            Some(o) => o,
            None => return,
        },
        None => return,
    };
    let mut cb = match current.bridge.take() {
        Some(b) => b,
        None => return,
    };
    if let Some(mut c) = cb.options.take() {
        c.multicast_last_member_interval = fix_one(d.multicast_last_member_interval, c.multicast_last_member_interval);
        c.multicast_membership_interval = fix_one(d.multicast_membership_interval, c.multicast_membership_interval);
        c.multicast_querier_interval = fix_one(d.multicast_querier_interval, c.multicast_querier_interval);
        c.multicast_query_interval = fix_one(d.multicast_query_interval, c.multicast_query_interval);
        c.multicast_query_response_interval = fix_one(
            d.multicast_query_response_interval,
            c.multicast_query_response_interval,
        );
        c.multicast_startup_query_interval = fix_one(d.multicast_startup_query_interval, c.multicast_startup_query_interval);
        cb.options = Some(c);
    }
    current.bridge = Some(cb);
}

impl LinuxBridgeInterface {
    /// A Linux bridge with the given name and settings.
    pub fn new(name: String, bridge: LinuxBridgeConfig) -> (r: Self)
        ensures
            r.base@ == bare_base(name, InterfaceType::LinuxBridge, InterfaceState::Up),
            opt_br_view(r.bridge) == Some(bridge@),
    {
        LinuxBridgeInterface { base: BaseInterface::new(name, InterfaceType::LinuxBridge), bridge: Some(bridge) }
    }

    /// The names of the ports, when the bridge lists them.
    pub fn ports(&self) -> (r: Option<Vec<String>>)
        ensures
            match r {
                Some(v) => opt_br_view(self.bridge) matches Some(b) && b.ports matches Some(ps)
                    && v@.map_values(|s: String| s@) == ps.map_values(|p: LinuxBridgePortConfigView| p.name@),
                None => !(opt_br_view(self.bridge) matches Some(b) && b.ports is Some),
            },
    {
        let ports = match &self.bridge {
            Some(b) => match &b.ports {
                Some(p) => p,
                None => return None,
            },
            None => return None,
        };
        let mut names: Vec<String> = Vec::new();
        let mut i: usize = 0;
        while i < ports.len()
            invariant
                i <= ports.len(),
                names.len() == i,
                forall|k: int| 0 <= k < i ==> #[trigger] names@[k]@ == ports@[k].name@,
            decreases ports.len() - i,
        {
            names.push(ports[i].name.clone());
            i += 1;
        }
        proof {
            assert(names@.map_values(|s: String| s@) =~= ports_view(ports@).map_values(
                |p: LinuxBridgePortConfigView| p.name@,
            ));
        }
        Some(names)
    }

    /// The configuration of the first port with the given name.
    pub fn get_port_conf(&self, port_name: &str) -> (r: Option<&LinuxBridgePortConfig>)
        ensures
            match r {
                Some(p) => p.name@ == port_name@ && (self.bridge matches Some(b) && (b.ports matches Some(ps)
                    && ps@.contains(*p))),
                None => !(self.bridge matches Some(b) && (b.ports matches Some(ps) && exists|k: int|
                    0 <= k < ps.len() && (#[trigger] ps@[k]).name@ == port_name@)),
            },
    {
        let ports = match &self.bridge {
            Some(b) => match &b.ports {
                Some(p) => p,
                None => return None,
            },
            None => return None,
        };
        let mut i: usize = 0;
        while i < ports.len()
            invariant
                i <= ports.len(),
                self.bridge matches Some(b) && b.ports == Some(*ports),
                forall|k: int| 0 <= k < i ==> (#[trigger] ports@[k]).name@ != port_name@,
            decreases ports.len() - i,
        {
            if str_eq(ports[i].name.as_str(), port_name) {
                proof {
                    assert(ports@[i as int] == ports[i as int]);
                }
                return Some(&ports[i]);
            }
            i += 1;
        }
        None
    }

    /// Whether this bridge configuration itself enables VLAN filtering.
    pub fn _vlan_filtering_is_enabled(&self) -> (r: bool)
        ensures
            r == br_vlan_filtering(opt_br_view(self.bridge)),
    {
        let b = match &self.bridge {
            Some(b) => b,
            None => return false,
        };
        if let Some(v) = &b.vlan {
            if vlan_conf_set_exec(v) {
                return true;
            }
        }
        if let Some(ports) = &b.ports {
            let ghost pv = ports_view(ports@);
            let mut i: usize = 0;
            while i < ports.len()
                invariant
                    i <= ports.len(),
                    pv == ports_view(ports@),
                    opt_br_view(self.bridge) matches Some(bv) && bv.ports == Some(pv),
                    forall|k: int| 0 <= k < i ==> !#[trigger] port_vlan_set(pv[k]),
                decreases ports.len() - i,
            {
                if let Some(v) = &ports[i].vlan {
                    if vlan_conf_set_exec(v) {
                        proof {
                            assert(port_vlan_set(pv[i as int]));
                        }
                        return true;
                    }
                }
                i += 1;
            }
        }
        false
    }

    /// Whether VLAN filtering is enabled once this desired bridge is applied
    /// over `current`.
    pub fn vlan_filtering_is_enabled(&self, current: Option<&Self>) -> (r: bool)
        ensures
            r == br_vlan_filtering_after(opt_br_view(self.bridge), match current {
                Some(c) => Some(opt_br_view(c.bridge)),
                None => None,
            }),
    {
        if let Some(b) = &self.bridge {
            if b.vlan.is_some() || b.ports.is_some() {
                return self._vlan_filtering_is_enabled();
            }
        }
        match current {
            Some(c) => c._vlan_filtering_is_enabled(),
            None => false,
        }
    }

    /// Use upper case for the group MAC address.
    pub fn use_upper_case_of_mac_address(&mut self)
        ensures
            final(self).base@ == old(self).base@,
            match (old(self).bridge, final(self).bridge) {
                (None, None) => true,
                (Some(o), Some(n)) => n@.ports == o@.ports && n@.vlan == o@.vlan && match (o.options, n.options) {
                    (None, None) => true,
                    (Some(oo), Some(no)) => no == (LinuxBridgeOptions {
                        group_addr: match oo.group_addr {
                            Some(a) => Some(n.options->0.group_addr->0),
                            None => None,
                        },
                        ..oo
                    }) && (oo.group_addr matches Some(a) ==> no.group_addr->0@ == ascii_upper(a@)),
                    _ => false,
                },
                _ => false,
            },
    {
        if let Some(mut b) = self.bridge.take() {
            if let Some(mut o) = b.options.take() {
                if let Some(a) = &o.group_addr {
                    o.group_addr = Some(ascii_uppercase(a.as_str()));
                }
                b.options = Some(o);
            }
            self.bridge = Some(b);
        }
    }

    /// Sort the ports by name.
    pub fn sort_ports(&mut self)
        ensures
            final(self).base@ == old(self).base@,
            match (opt_br_view(old(self).bridge), opt_br_view(final(self).bridge)) {
                (None, None) => true,
                (Some(o), Some(n)) => n.options == o.options && n.vlan == o.vlan && match (o.ports, n.ports) {
                    (None, None) => true,
                    (Some(op), Some(np)) => ports_sorted(np) && np.to_multiset() == op.to_multiset(),
                    _ => false,
                },
                _ => false,
            },
    {
        if let Some(mut b) = self.bridge.take() {
            if let Some(p) = b.ports.take() {
                b.ports = Some(sort_ports_by_name(p));
            }
            self.bridge = Some(b);
        }
    }

    /// Drop the timers that only a running bridge reports.
    pub fn remove_runtime_only_timers(&mut self)
        ensures
            final(self).base@ == old(self).base@,
            match (old(self).bridge, final(self).bridge) {
                (None, None) => true,
                (Some(o), Some(n)) => n@.ports == o@.ports && n@.vlan == o@.vlan && match (o.options, n.options) {
                    (None, None) => true,
                    (Some(oo), Some(no)) => no == (LinuxBridgeOptions { gc_timer: None, hello_timer: None, ..oo }),
                    _ => false,
                },
                _ => false,
            },
    {
        if let Some(mut b) = self.bridge.take() {
            if let Some(mut o) = b.options.take() {
                o.gc_timer = None;
                o.hello_timer = None;
                b.options = Some(o);
            }
            self.bridge = Some(b);
        }
    }

    /// Validate the STP options.
    pub fn sanitize_stp_opts(&self) -> (r: Result<(), NipartError>)
        ensures
            r is Ok <==> !(self.bridge matches Some(b) && b.options matches Some(o) && o.stp matches Some(s)
                && stp_invalid(s)),
            r matches Err(e) ==> e.kind == ErrorKind::InvalidArgument,
    {
        if let Some(b) = &self.bridge {
            if let Some(o) = &b.options {
                if let Some(s) = &o.stp {
                    return s.sanitize();
                }
            }
        }
        Ok(())
    }

    /// Replace every trunk tag list (of the bridge and of its ports) by its
    /// canonical compressed form.
    pub fn compress_port_vlan_ranges(&mut self)
        requires
            br_vlans_bounded(opt_br_view(old(self).bridge)),
        ensures
            final(self).base@ == old(self).base@,
            br_vlans_bounded(opt_br_view(final(self).bridge)),
            match (old(self).bridge, final(self).bridge) {
                (None, None) => true,
                (Some(o), Some(n)) => n.options == o.options && (o.vlan is None <==> n.vlan is None) && (o.ports is None
                    <==> n.ports is None) && (o.ports is Some ==> ports_same_but_vlan(n@.ports->0, o@.ports->0)),
                _ => false,
            },
    {
        let mut b = match self.bridge.take() {
            Some(b) => b,
            None => return,
        };
        if let Some(mut ports) = b.ports.take() {
            let ghost orig = ports@;
            proof {
                assert forall|k: int| 0 <= k < ports.len() implies vlan_conf_bounded_opt(#[trigger] ports@[k]@.vlan) by {
                    assert(ports_view(ports@)[k] == ports@[k]@);
                }
            }
            let mut i: usize = 0;
            while i < ports.len()
                invariant
                    i <= ports.len(),
                    ports.len() == orig.len(),
                    forall|k: int| 0 <= k < ports.len() ==> vlan_conf_bounded_opt(#[trigger] ports@[k]@.vlan),
                    forall|k: int| 0 <= k < ports.len() ==> port_same_but_vlan(#[trigger] ports@[k]@, orig[k]@),
                    forall|k: int| i <= k < ports.len() ==> #[trigger] ports@[k]@ == orig[k]@,
                decreases ports.len() - i,
            {
                let mut p = ports.remove(i);
                proof {
                    assert(vlan_conf_bounded_opt(p@.vlan));
                }
                if let Some(mut v) = p.vlan.take() {
                    v.compress_port_vlan_ranges();
                    p.vlan = Some(v);
                }
                let ghost before = ports@;
                ports.insert(i, p);
                proof {
                    assert forall|k: int| 0 <= k < ports.len() implies vlan_conf_bounded_opt(#[trigger] ports@[k]@.vlan) by {
                        if k < i {
                            assert(ports@[k] == before[k]);
                        } else if k > i {
                            assert(ports@[k] == before[k - 1]);
                        }
                    }
                    assert forall|k: int| 0 <= k < ports.len() implies port_same_but_vlan(#[trigger] ports@[k]@, orig[k]@) by {
                        if k < i {
                            assert(ports@[k] == before[k]);
                        } else if k > i {
                            assert(ports@[k] == before[k - 1]);
                        }
                    }
                    assert forall|k: int| i + 1 <= k < ports.len() implies #[trigger] ports@[k]@ == orig[k]@ by {
                        assert(ports@[k] == before[k - 1]);
                    }
                }
                i += 1;
            }
            proof {
                assert forall|k: int| 0 <= k < ports_view(ports@).len() implies vlan_conf_bounded_opt(
                    #[trigger] ports_view(ports@)[k].vlan,
                ) by {
                    assert(vlan_conf_bounded_opt(ports@[k]@.vlan));
                }
                assert forall|k: int| 0 <= k < ports_view(ports@).len() implies port_same_but_vlan(
                    #[trigger] ports_view(ports@)[k],
                    ports_view(orig)[k],
                ) by {
                    assert(port_same_but_vlan(ports@[k]@, orig[k]@));
                }
            }
            b.ports = Some(ports);
        }
        if let Some(mut v) = b.vlan.take() {
            v.compress_port_vlan_ranges();
            b.vlan = Some(v);
        }
        self.bridge = Some(b);
    }

    /// The type specific part of the generic merge: options merged property
    /// by property and VLAN settings likewise, ports replaced when desired.
    pub fn merged_bridge(&self, prev: &Self) -> (r: Option<LinuxBridgeConfig>)
        ensures
            match (opt_br_view(self.bridge), opt_br_view(prev.bridge)) {
                (Some(n), Some(o)) => opt_br_view(r) matches Some(m) && m.ports == or_else(n.ports, o.ports) && (n.options
                    is Some || o.options is Some ==> m.options is Some) && (n.options is None ==> m.options == o.options)
                    && (o.options is None ==> m.options == n.options) && (n.vlan is None ==> m.vlan == o.vlan) && (o.vlan
                    is None ==> m.vlan == n.vlan),
                (n, o) => opt_br_view(r) == or_else(n, o),
            },
    {
        match (&self.bridge, &prev.bridge) {
            (Some(n), Some(o)) => {
                let options = match (&n.options, &o.options) {
                    (Some(a), Some(b)) => Some(merged_options(a, b)),
                    (Some(a), None) => Some(a.clone()),
                    (None, Some(b)) => Some(b.clone()),
                    (None, None) => None,
                };
                let ports = match (&n.ports, &o.ports) {
                    (Some(a), _) => Some(clone_ports(a)),
                    (None, Some(b)) => Some(clone_ports(b)),
                    (None, None) => None,
                };
                let vlan = match (&n.vlan, &o.vlan) {
                    (Some(a), Some(b)) => Some(a.merged_over(b)),
                    (Some(a), None) => Some(a.duplicate()),
                    (None, Some(b)) => Some(b.duplicate()),
                    (None, None) => None,
                };
                Some(LinuxBridgeConfig { options, ports, vlan })
            },
            (Some(n), None) => Some(n.clone()),
            (None, Some(o)) => Some(o.clone()),
            (None, None) => None,
        }
    }
}

/// Options with the properties left undefined in `n` taken from `o`.
pub open spec fn options_merged(n: LinuxBridgeOptions, o: LinuxBridgeOptions) -> LinuxBridgeOptions {
    LinuxBridgeOptions {
        gc_timer: or_else(n.gc_timer, o.gc_timer),
        group_addr: or_else(n.group_addr, o.group_addr),
        group_forward_mask: or_else(n.group_forward_mask, o.group_forward_mask),
        group_fwd_mask: or_else(n.group_fwd_mask, o.group_fwd_mask),
        hash_max: or_else(n.hash_max, o.hash_max),
        hello_timer: or_else(n.hello_timer, o.hello_timer),
        mac_ageing_time: or_else(n.mac_ageing_time, o.mac_ageing_time),
        multicast_last_member_count: or_else(n.multicast_last_member_count, o.multicast_last_member_count),
        multicast_last_member_interval: or_else(n.multicast_last_member_interval, o.multicast_last_member_interval),
        multicast_membership_interval: or_else(n.multicast_membership_interval, o.multicast_membership_interval),
        multicast_querier: or_else(n.multicast_querier, o.multicast_querier),
        multicast_querier_interval: or_else(n.multicast_querier_interval, o.multicast_querier_interval),
        multicast_query_interval: or_else(n.multicast_query_interval, o.multicast_query_interval),
        multicast_query_response_interval: or_else(
            n.multicast_query_response_interval,
            o.multicast_query_response_interval,
        ),
        multicast_query_use_ifaddr: or_else(n.multicast_query_use_ifaddr, o.multicast_query_use_ifaddr),
        multicast_router: or_else(n.multicast_router, o.multicast_router),
        multicast_snooping: or_else(n.multicast_snooping, o.multicast_snooping),
        multicast_startup_query_count: or_else(n.multicast_startup_query_count, o.multicast_startup_query_count),
        multicast_startup_query_interval: or_else(n.multicast_startup_query_interval, o.multicast_startup_query_interval),
        stp: match (n.stp, o.stp) {
            (Some(a), Some(b)) => Some(
                LinuxBridgeStpOptions {
                    enabled: or_else(a.enabled, b.enabled),
                    forward_delay: or_else(a.forward_delay, b.forward_delay),
                    hello_time: or_else(a.hello_time, b.hello_time),
                    max_age: or_else(a.max_age, b.max_age),
                    priority: or_else(a.priority, b.priority),
                },
            ),
            (a, b) => or_else(a, b),
        },
        vlan_protocol: or_else(n.vlan_protocol, o.vlan_protocol),
        vlan_default_pvid: or_else(n.vlan_default_pvid, o.vlan_default_pvid),
    }
}

fn pick<T: Copy>(n: Option<T>, o: Option<T>) -> (r: Option<T>)
    ensures
        r == or_else(n, o),
{
    if n.is_some() {
        n
    } else {
        o
    }
}

/// Options with the properties left undefined in `n` taken from `o`.
pub fn merged_options(n: &LinuxBridgeOptions, o: &LinuxBridgeOptions) -> (r: LinuxBridgeOptions)
    ensures
        r == options_merged(*n, *o),
{
    LinuxBridgeOptions {
        gc_timer: pick(n.gc_timer, o.gc_timer),
        group_addr: if n.group_addr.is_some() { clone_opt_str(&n.group_addr) } else { clone_opt_str(&o.group_addr) },
        group_forward_mask: pick(n.group_forward_mask, o.group_forward_mask),
        group_fwd_mask: pick(n.group_fwd_mask, o.group_fwd_mask),
        hash_max: pick(n.hash_max, o.hash_max),
        hello_timer: pick(n.hello_timer, o.hello_timer),
        mac_ageing_time: pick(n.mac_ageing_time, o.mac_ageing_time),
        multicast_last_member_count: pick(n.multicast_last_member_count, o.multicast_last_member_count),
        multicast_last_member_interval: pick(n.multicast_last_member_interval, o.multicast_last_member_interval),
        multicast_membership_interval: pick(n.multicast_membership_interval, o.multicast_membership_interval),
        multicast_querier: pick(n.multicast_querier, o.multicast_querier),
        multicast_querier_interval: pick(n.multicast_querier_interval, o.multicast_querier_interval),
        multicast_query_interval: pick(n.multicast_query_interval, o.multicast_query_interval),
        multicast_query_response_interval: pick(n.multicast_query_response_interval, o.multicast_query_response_interval),
        multicast_query_use_ifaddr: pick(n.multicast_query_use_ifaddr, o.multicast_query_use_ifaddr),
        multicast_router: pick(n.multicast_router, o.multicast_router),
        multicast_snooping: pick(n.multicast_snooping, o.multicast_snooping),
        multicast_startup_query_count: pick(n.multicast_startup_query_count, o.multicast_startup_query_count),
        multicast_startup_query_interval: pick(n.multicast_startup_query_interval, o.multicast_startup_query_interval),
        stp: match (n.stp, o.stp) {
            (Some(a), Some(b)) => Some(
                LinuxBridgeStpOptions {
                    enabled: pick(a.enabled, b.enabled),
                    forward_delay: pick(a.forward_delay, b.forward_delay),
                    hello_time: pick(a.hello_time, b.hello_time),
                    max_age: pick(a.max_age, b.max_age),
                    priority: pick(a.priority, b.priority),
                },
            ),
            (a, b) => pick(a, b),
        },
        vlan_protocol: pick(n.vlan_protocol, o.vlan_protocol),
        vlan_default_pvid: pick(n.vlan_default_pvid, o.vlan_default_pvid),
    }
}

} // verus!

verus! {

/// Whether the VLAN settings of some port are refused by their sanitize.
pub open spec fn some_port_vlan_invalid(ps: Seq<LinuxBridgePortConfig>) -> bool {
    exists|k: int| 0 <= k < ps.len() && #[trigger] port_vlan_invalid(ps[k])
}

/// Whether the VLAN settings of a port are refused by their sanitize.
pub open spec fn port_vlan_invalid(p: LinuxBridgePortConfig) -> bool {
    p.vlan matches Some(v) && crate::nmstate::ifaces::bridge_vlan::vlan_conf_invalid(v)
}

/// Whether the trunk tags of every port stay below VLAN ID 65535.
pub open spec fn ports_vlan_bounded(ps: Seq<LinuxBridgePortConfig>) -> bool {
    forall|k: int| 0 <= k < ps.len() ==> ((#[trigger] ps[k]).vlan matches Some(v)
        ==> crate::nmstate::ifaces::bridge_vlan::vlan_conf_bounded(v))
}

proof fn lemma_ports_vlan_bounded(ps: Seq<LinuxBridgePortConfig>)
    requires
        forall|k: int| 0 <= k < ps.len() ==> vlan_conf_bounded_opt(#[trigger] ports_view(ps)[k].vlan),
    ensures
        ports_vlan_bounded(ps),
{
    assert forall|k: int| 0 <= k < ps.len() implies ((#[trigger] ps[k]).vlan matches Some(v)
        ==> crate::nmstate::ifaces::bridge_vlan::vlan_conf_bounded(v)) by {
        assert(vlan_conf_bounded_opt(ports_view(ps)[k].vlan));
    }
}

/// Whether the bridge's ports are sorted by name and its options hold no
/// `group_forward_mask` alias.
pub open spec fn br_sorted_no_alias(b: Option<LinuxBridgeConfigView>) -> bool {
    b matches Some(c) ==> (c.ports matches Some(ps) ==> ports_sorted(ps)) && (c.options matches Some(o)
        ==> o.group_forward_mask is None)
}

proof fn lemma_same_but_vlan_sorted(n: Seq<LinuxBridgePortConfigView>, o: Seq<LinuxBridgePortConfigView>)
    requires
        ports_same_but_vlan(n, o),
        ports_sorted(o),
    ensures
        ports_sorted(n),
{
    assert forall|i: int| 0 <= i < n.len() - 1 implies #[trigger] names_sorted_at(n, i) by {
        assert(names_sorted_at(o, i));
        assert(port_same_but_vlan(n[i], o[i]));
        assert(port_same_but_vlan(n[i + 1], o[i + 1]));
    }
}

/// Sanitize the VLAN settings of each port in turn, stopping at the first
/// refused one.
fn sanitize_port_vlans(ports: &mut Vec<LinuxBridgePortConfig>) -> (r: Result<(), NipartError>)
    requires
        ports_vlan_bounded(old(ports)@),
    ensures
        ports_same_but_vlan(ports_view(final(ports)@), ports_view(old(ports)@)),
        r is Err <==> some_port_vlan_invalid(old(ports)@),
        r matches Err(e) ==> e.kind == ErrorKind::InvalidArgument,
{
    let ghost orig = ports@;
    let mut rest: Vec<LinuxBridgePortConfig> = Vec::new();
    rest.append(ports);
    let mut out: Vec<LinuxBridgePortConfig> = Vec::new();
    while rest.len() > 0
        invariant
            out.len() + rest.len() == orig.len(),
            rest@ == orig.subrange(out.len() as int, orig.len() as int),
            ports_vlan_bounded(orig),
            ports_same_but_vlan(ports_view(out@), ports_view(orig.subrange(0, out.len() as int))),
            forall|k: int| 0 <= k < out.len() ==> !#[trigger] port_vlan_invalid(orig[k]),
            ports@.len() == 0,
            orig == old(ports)@,
        decreases rest.len(),
    {
        let ghost n = out.len() as int;
        let mut p = rest.remove(0);
        assert(p == orig[n]);
        let mut res: Result<(), NipartError> = Ok(());
        if let Some(mut v) = p.vlan.take() {
            res = v.sanitize();
            p.vlan = Some(v);
        }
        let ghost old_out = out@;
        let ghost pv = p@;
        out.push(p);
        proof {
            assert(port_same_but_vlan(pv, orig[n]@));
            assert forall|k: int| 0 <= k < out.len() implies port_same_but_vlan(
                #[trigger] ports_view(out@)[k],
                ports_view(orig.subrange(0, out.len() as int))[k],
            ) by {
                assert(orig.subrange(0, n + 1)[k] == orig[k]);
                if k < n {
                    assert(out@[k] == old_out[k]);
                    assert(orig.subrange(0, n)[k] == orig[k]);
                    assert(port_same_but_vlan(ports_view(old_out)[k], ports_view(orig.subrange(0, n))[k]));
                } else {
                    assert(out@[k] == out@[n]);
                }
            }
        }
        if res.is_err() {
            let ghost pushed = out@;
            out.append(&mut rest);
            proof {
                assert(port_vlan_invalid(orig[n]));
                assert(orig.subrange(0, n + 1) + orig.subrange(n + 1, orig.len() as int) =~= orig);
                let ghost pre = orig.subrange(0, n + 1);
                assert forall|k: int| 0 <= k < out.len() implies port_same_but_vlan(
                    #[trigger] ports_view(out@)[k],
                    ports_view(orig)[k],
                ) by {
                    if k > n {
                        assert(out@[k] == orig[k]);
                    } else {
                        assert(pre[k] == orig[k]);
                        assert(out@[k] == pushed[k]);
                        assert(port_same_but_vlan(ports_view(pushed)[k], ports_view(pre)[k]));
                    }
                }
            }
            let ghost out_all = out@;
            ports.append(&mut out);
            proof {
                assert(ports@ =~= out_all);
                assert(port_vlan_invalid(orig[n]));
            }
            return res;
        }
    }
    proof {
        assert(orig.subrange(0, out.len() as int) =~= orig);
    }
    ports.append(&mut out);
    Ok(())
}

impl LinuxBridgeInterface {
    /// Sanitize a desired Linux bridge: validate the default PVID against
    /// VLAN filtering, fold the group forward mask alias, sort ports by name,
    /// validate STP timers, upper case the group address, compress the trunk
    /// tags, drop runtime-only timers, and validate each port's VLAN settings.
    pub fn sanitize_iface_specfic(&mut self, current: Option<&Self>) -> (r: Result<(), NipartError>)
        requires
            br_vlans_bounded(opt_br_view(old(self).bridge)),
        ensures
            final(self).base@ == old(self).base@,
            r matches Err(e) ==> e.kind == ErrorKind::InvalidArgument,
            br_options_refused(*old(self), match current {
                Some(c) => Some(opt_br_view(c.bridge)),
                None => None,
            }) ==> r is Err,
            r is Ok ==> (old(self).bridge is None <==> final(self).bridge is None),
            r is Ok ==> (final(self).bridge matches Some(b) ==> (b.ports matches Some(ps) ==> ports_sorted(
                ports_view(ps@),
            )) && (b.options matches Some(o) ==> o.gc_timer is None && o.hello_timer is None
                && o.group_forward_mask is None)),
    {
        let ghost cur = match current {
            Some(c) => Some(opt_br_view(c.bridge)),
            None => None,
        };
        if let Some(b) = &self.bridge {
            if let Some(opts) = &b.options {
                opts.validate_vlan_default_pvid(self, current)?;
            }
        }
        let mut b = match self.bridge.take() {
            Some(b) => b,
            None => return Ok(()),
        };
        if let Some(mut opts) = b.options.take() {
            let res = opts.sanitize_group_fwd_mask(&self.base);
            b.options = Some(opts);
            if res.is_err() {
                self.bridge = Some(b);
                return res;
            }
        }
        self.bridge = Some(b);
        let ghost mid = opt_br_view(self.bridge);
        self.sort_ports();
        proof {
            broadcast use vstd::seq_lib::group_to_multiset_ensures;

            let nbv = opt_br_view(self.bridge);
            if nbv is Some && nbv->0.ports is Some {
                let np = nbv->0.ports->0;
                let op = mid->0.ports->0;
                assert forall|k: int| 0 <= k < np.len() implies vlan_conf_bounded_opt(#[trigger] np[k].vlan) by {
                    assert(np.contains(np[k]));
                    assert(np.to_multiset().count(np[k]) > 0);
                    assert(op.to_multiset().count(np[k]) > 0);
                    assert(op.contains(np[k]));
                    let j = choose|j: int| 0 <= j < op.len() && op[j] == np[k];
                    assert(vlan_conf_bounded_opt(op[j].vlan));
                }
            }
        }
        assert(br_sorted_no_alias(opt_br_view(self.bridge)));
        self.sanitize_stp_opts()?;
        self.use_upper_case_of_mac_address();
        assert(br_sorted_no_alias(opt_br_view(self.bridge)));
        let ghost before_compress = opt_br_view(self.bridge);
        self.compress_port_vlan_ranges();
        proof {
            let nb = opt_br_view(self.bridge);
            if nb is Some && nb->0.ports is Some {
                lemma_same_but_vlan_sorted(nb->0.ports->0, before_compress->0.ports->0);
            }
        }
        assert(br_sorted_no_alias(opt_br_view(self.bridge)));
        self.remove_runtime_only_timers();
        assert(br_sorted_no_alias(opt_br_view(self.bridge)));
        let mut b = match self.bridge.take() {
            Some(b) => b,
            None => return Ok(()),
        };
        if let Some(mut ports) = b.ports.take() {
            proof {
                lemma_ports_vlan_bounded(ports@);
            }
            let ghost before_vlans = ports_view(ports@);
            let res = sanitize_port_vlans(&mut ports);
            proof {
                lemma_same_but_vlan_sorted(ports_view(ports@), before_vlans);
            }
            b.ports = Some(ports);
            if res.is_err() {
                self.bridge = Some(b);
                return res;
            }
        }
        self.bridge = Some(b);
        Ok(())
    }

    /// Before verification: sort the current ports and compensate the
    /// kernel's rounding of multicast timers.
    pub fn sanitize_before_verify_iface_specfic(&mut self, current: &mut Self)
        ensures
            final(self).base@ == old(self).base@,
            opt_br_view(final(self).bridge) == opt_br_view(old(self).bridge),
            final(current).base@ == old(current).base@,
            final(current).bridge is Some <==> old(current).bridge is Some,
            final(current).bridge matches Some(b) ==> (b.ports matches Some(ps) ==> ports_sorted(ports_view(ps@))),
    {
        current.sort_ports();
        fix_round_up(self, current);
    }
}

fn tags_in_range(v: &Option<crate::nmstate::ifaces::bridge_vlan::BridgeVlanConfig>) -> (r: bool)
    ensures
        r == vlan_conf_bounded_opt(crate::nmstate::ifaces::bridge_vlan::opt_bridge_vlan_view(*v)),
{
    let conf = match v {
        Some(c) => c,
        None => return true,
    };
    let tags = match &conf.trunk_tags {
        Some(t) => t,
        None => return true,
    };
    let mut i: usize = 0;
    while i < tags.len()
        invariant
            i <= tags.len(),
            *v == Some(*conf),
            conf.trunk_tags == Some(*tags),
            forall|k: int| 0 <= k < i ==> crate::nmstate::ifaces::bridge_vlan::tag_hi(#[trigger] tags@[k]) < 65535,
        decreases tags.len() - i,
    {
        let hi = match tags[i] {
            crate::nmstate::ifaces::bridge_vlan::BridgeVlanTrunkTag::Id(x) => x,
            crate::nmstate::ifaces::bridge_vlan::BridgeVlanTrunkTag::IdRange(r) => r.max,
        };
        if hi == 65535 {
            return false;
        }
        i += 1;
    }
    true
}

impl LinuxBridgeInterface {
    /// Whether every trunk range of the bridge and its ports stays below
    /// VLAN ID 65535.
    pub fn vlans_in_range(&self) -> (r: bool)
        ensures
            r == br_vlans_bounded(opt_br_view(self.bridge)),
    {
        let b = match &self.bridge {
            Some(b) => b,
            None => return true,
        };
        if !tags_in_range(&b.vlan) {
            return false;
        }
        let ports = match &b.ports {
            Some(p) => p,
            None => return true,
        };
        let mut i: usize = 0;
        while i < ports.len()
            invariant
                i <= ports.len(),
                self.bridge == Some(*b),
                b.ports == Some(*ports),
                vlan_conf_bounded_opt(crate::nmstate::ifaces::bridge_vlan::opt_bridge_vlan_view(b.vlan)),
                forall|k: int| 0 <= k < i ==> vlan_conf_bounded_opt(#[trigger] ports_view(ports@)[k].vlan),
            decreases ports.len() - i,
        {
            if !tags_in_range(&ports[i].vlan) {
                proof {
                    assert(!vlan_conf_bounded_opt(ports_view(ports@)[i as int].vlan));
                }
                return false;
            }
            i += 1;
        }
        true
    }
}

} // verus!
