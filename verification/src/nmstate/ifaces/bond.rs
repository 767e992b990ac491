use vstd::prelude::*;
use vstd::string::*;

use crate::error::{ErrorKind, NipartError};
use crate::nmstate::iface_state::InterfaceState;
use crate::nmstate::iface_type::InterfaceType;
use crate::nmstate::ifaces::base::{bare_base, BaseInterface};
use crate::nmstate::ip::Ipv6Segments;
use crate::text::{
    clone_opt_str, decimal_string, decimal_text, lemma_text_order_basics, opt_str_view, str_order, str_to_string,
    str_to_uppercase, text_order, unicode_uppercase,
};

verus! {

/// Bond mode
#[derive(Debug, Clone, Copy, PartialEq, Eq, Structural)]
#[non_exhaustive]
pub enum BondMode {
    /// `balance-rr`
    RoundRobin,
    /// `active-backup`
    ActiveBackup,
    /// `balance-xor`
    XOR,
    /// `broadcast`
    Broadcast,
    /// `802.3ad`
    LACP,
    /// `balance-tlb`
    TLB,
    /// `balance-alb`
    ALB,
    Unknown,
}

impl Default for BondMode {
    fn default() -> (r: Self)
        ensures
            r == BondMode::RoundRobin,
    {
        BondMode::RoundRobin
    }
}

/// Specifies the 802.3ad aggregation selection logic to use.
#[derive(Debug, Clone, Copy, PartialEq, Eq, Structural)]
#[non_exhaustive]
pub enum BondAdSelect {
    Stable,
    Bandwidth,
    Count,
}

/// The rate at which the link partner is asked to transmit LACPDU packets in
/// 802.3ad mode.
#[derive(Debug, Clone, Copy, PartialEq, Eq, Structural)]
#[non_exhaustive]
pub enum BondLacpRate {
    /// Every 30 seconds
    Slow,
    /// Every second
    Fast,
}

/// Kernel `all_slaves_active` option: whether duplicate frames received on
/// inactive ports are dropped or delivered.
#[derive(Debug, Clone, Copy, PartialEq, Eq, Structural)]
#[non_exhaustive]
pub enum BondAllPortActive {
    Dropped,
    Delivered,
}

/// Kernel `arp_all_targets` option.
#[derive(Debug, Clone, Copy, PartialEq, Eq, Structural)]
#[non_exhaustive]
pub enum BondArpAllTargets {
    /// A port is up when any target is reachable.
    Any,
    /// A port is up only when all targets are reachable.
    All,
}

/// Kernel `arp_validate` option.
#[derive(Debug, Clone, Copy, PartialEq, Eq, Structural)]
#[non_exhaustive]
pub enum BondArpValidate {
    /// `none`: no validation or filtering.
    NoValidation,
    Active,
    Backup,
    All,
    Filter,
    FilterActive,
    FilterBackup,
}

/// Kernel `fail_over_mac` option.
#[derive(Debug, Clone, Copy, PartialEq, Eq, Structural)]
#[non_exhaustive]
pub enum BondFailOverMac {
    /// `none`: all ports share the bond's MAC address.
    NoFailOver,
    /// The bond takes the MAC address of the active port.
    Active,
    /// Ports take the bond's MAC address at failover time.
    Follow,
}

/// Kernel `primary_reselect` option.
#[derive(Debug, Clone, Copy, PartialEq, Eq, Structural)]
#[non_exhaustive]
pub enum BondPrimaryReselect {
    Always,
    Better,
    Failure,
}

/// Kernel `xmit_hash_policy` option.
#[derive(Debug, Clone, Copy, PartialEq, Eq, Structural)]
#[non_exhaustive]
pub enum BondXmitHashPolicy {
    Layer2,
    Layer34,
    Layer23,
    Encap23,
    Encap34,
    VlanSrcMac,
}

/// Bond options, named as the kernel names them.
#[non_exhaustive]
pub struct BondOptions {
    pub ad_actor_sys_prio: Option<u16>,
    pub ad_actor_system: Option<String>,
    pub ad_select: Option<BondAdSelect>,
    pub ad_user_port_key: Option<u16>,
    /// Kernel `all_slaves_active`.
    pub all_ports_active: Option<BondAllPortActive>,
    pub arp_all_targets: Option<BondArpAllTargets>,
    pub arp_interval: Option<u32>,
    pub arp_ip_target: Option<String>,
    pub arp_validate: Option<BondArpValidate>,
    pub downdelay: Option<u32>,
    pub fail_over_mac: Option<BondFailOverMac>,
    pub lacp_rate: Option<BondLacpRate>,
    pub lp_interval: Option<u32>,
    pub miimon: Option<u32>,
    pub min_links: Option<u32>,
    pub num_grat_arp: Option<u8>,
    /// Same meaning as `num_grat_arp`.
    pub num_unsol_na: Option<u8>,
    /// Kernel `packets_per_slave`.
    pub packets_per_port: Option<u32>,
    pub peer_notif_delay: Option<u32>,
    pub primary: Option<String>,
    pub primary_reselect: Option<BondPrimaryReselect>,
    pub resend_igmp: Option<u32>,
    pub tlb_dynamic_lb: Option<bool>,
    pub updelay: Option<u32>,
    pub use_carrier: Option<bool>,
    pub xmit_hash_policy: Option<BondXmitHashPolicy>,
    pub balance_slb: Option<bool>,
    pub arp_missed_max: Option<u8>,
    pub lacp_active: Option<bool>,
    pub ns_ip6_target: Option<Vec<Ipv6Segments>>,
}

/// Model of [BondOptions]: texts by their characters, lists as sequences.
pub struct BondOptionsView {
    pub ad_actor_sys_prio: Option<u16>,
    pub ad_actor_system: Option<Seq<char>>,
    pub ad_select: Option<BondAdSelect>,
    pub ad_user_port_key: Option<u16>,
    pub all_ports_active: Option<BondAllPortActive>,
    pub arp_all_targets: Option<BondArpAllTargets>,
    pub arp_interval: Option<u32>,
    pub arp_ip_target: Option<Seq<char>>,
    pub arp_validate: Option<BondArpValidate>,
    pub downdelay: Option<u32>,
    pub fail_over_mac: Option<BondFailOverMac>,
    pub lacp_rate: Option<BondLacpRate>,
    pub lp_interval: Option<u32>,
    pub miimon: Option<u32>,
    pub min_links: Option<u32>,
    pub num_grat_arp: Option<u8>,
    pub num_unsol_na: Option<u8>,
    pub packets_per_port: Option<u32>,
    pub peer_notif_delay: Option<u32>,
    pub primary: Option<Seq<char>>,
    pub primary_reselect: Option<BondPrimaryReselect>,
    pub resend_igmp: Option<u32>,
    pub tlb_dynamic_lb: Option<bool>,
    pub updelay: Option<u32>,
    pub use_carrier: Option<bool>,
    pub xmit_hash_policy: Option<BondXmitHashPolicy>,
    pub balance_slb: Option<bool>,
    pub arp_missed_max: Option<u8>,
    pub lacp_active: Option<bool>,
    pub ns_ip6_target: Option<Seq<Ipv6Segments>>,
}

impl View for BondOptions {
    type V = BondOptionsView;

    open spec fn view(&self) -> BondOptionsView {
        BondOptionsView {
            ad_actor_sys_prio: self.ad_actor_sys_prio,
            ad_actor_system: opt_str_view(self.ad_actor_system),
            ad_select: self.ad_select,
            ad_user_port_key: self.ad_user_port_key,
            all_ports_active: self.all_ports_active,
            arp_all_targets: self.arp_all_targets,
            arp_interval: self.arp_interval,
            arp_ip_target: opt_str_view(self.arp_ip_target),
            arp_validate: self.arp_validate,
            downdelay: self.downdelay,
            fail_over_mac: self.fail_over_mac,
            lacp_rate: self.lacp_rate,
            lp_interval: self.lp_interval,
            miimon: self.miimon,
            min_links: self.min_links,
            num_grat_arp: self.num_grat_arp,
            num_unsol_na: self.num_unsol_na,
            packets_per_port: self.packets_per_port,
            peer_notif_delay: self.peer_notif_delay,
            primary: opt_str_view(self.primary),
            primary_reselect: self.primary_reselect,
            resend_igmp: self.resend_igmp,
            tlb_dynamic_lb: self.tlb_dynamic_lb,
            updelay: self.updelay,
            use_carrier: self.use_carrier,
            xmit_hash_policy: self.xmit_hash_policy,
            balance_slb: self.balance_slb,
            arp_missed_max: self.arp_missed_max,
            lacp_active: self.lacp_active,
            ns_ip6_target: crate::text::opt_vec_view(self.ns_ip6_target),
        }
    }
}

fn clone_targets(v: &Option<Vec<Ipv6Segments>>) -> (r: Option<Vec<Ipv6Segments>>)
    ensures
        crate::text::opt_vec_view(r) == crate::text::opt_vec_view(*v),
{
    match v {
        None => None,
        Some(t) => {
            let mut out: Vec<Ipv6Segments> = Vec::new();
            let mut i: usize = 0;
            while i < t.len()
                invariant
                    i <= t.len(),
                    out@ == t@.subrange(0, i as int),
                decreases t.len() - i,
            {
                out.push(t[i]);
                i += 1;
            }
            proof {
                assert(out@ =~= t@);
            }
            Some(out)
        },
    }
}

impl Clone for BondOptions {
    fn clone(&self) -> (r: Self)
        ensures
            r@ == self@,
    {
        BondOptions {
            ad_actor_sys_prio: self.ad_actor_sys_prio,
            ad_actor_system: clone_opt_str(&self.ad_actor_system),
            ad_select: self.ad_select,
            ad_user_port_key: self.ad_user_port_key,
            all_ports_active: self.all_ports_active,
            arp_all_targets: self.arp_all_targets,
            arp_interval: self.arp_interval,
            arp_ip_target: clone_opt_str(&self.arp_ip_target),
            arp_validate: self.arp_validate,
            downdelay: self.downdelay,
            fail_over_mac: self.fail_over_mac,
            lacp_rate: self.lacp_rate,
            lp_interval: self.lp_interval,
            miimon: self.miimon,
            min_links: self.min_links,
            num_grat_arp: self.num_grat_arp,
            num_unsol_na: self.num_unsol_na,
            packets_per_port: self.packets_per_port,
            peer_notif_delay: self.peer_notif_delay,
            primary: clone_opt_str(&self.primary),
            primary_reselect: self.primary_reselect,
            resend_igmp: self.resend_igmp,
            tlb_dynamic_lb: self.tlb_dynamic_lb,
            updelay: self.updelay,
            use_carrier: self.use_carrier,
            xmit_hash_policy: self.xmit_hash_policy,
            balance_slb: self.balance_slb,
            arp_missed_max: self.arp_missed_max,
            lacp_active: self.lacp_active,
            ns_ip6_target: clone_targets(&self.ns_ip6_target),
        }
    }
}

/// Bond options with nothing set.
pub open spec fn empty_bond_options() -> BondOptionsView {
    BondOptionsView {
        ad_actor_sys_prio: None,
        ad_actor_system: None,
        ad_select: None,
        ad_user_port_key: None,
        all_ports_active: None,
        arp_all_targets: None,
        arp_interval: None,
        arp_ip_target: None,
        arp_validate: None,
        downdelay: None,
        fail_over_mac: None,
        lacp_rate: None,
        lp_interval: None,
        miimon: None,
        min_links: None,
        num_grat_arp: None,
        num_unsol_na: None,
        packets_per_port: None,
        peer_notif_delay: None,
        primary: None,
        primary_reselect: None,
        resend_igmp: None,
        tlb_dynamic_lb: None,
        updelay: None,
        use_carrier: None,
        xmit_hash_policy: None,
        balance_slb: None,
        arp_missed_max: None,
        lacp_active: None,
        ns_ip6_target: None,
    }
}

/// Prefix of the IANA multicast MAC addresses.
pub open spec fn multicast_mac_prefix() -> Seq<char> {
    seq!['0', '1', ':', '0', '0', ':', '5', 'E']
}

/// Whether the `ad_actor_system` is an IANA multicast address (checked in
/// upper case).
pub open spec fn ad_actor_multicast(o: BondOptionsView) -> bool {
    o.ad_actor_system matches Some(m) && unicode_uppercase(m).len() >= 8 && unicode_uppercase(m).subrange(0, 8)
        == multicast_mac_prefix()
}

/// Whether `miimon` and `arp_interval` are both enabled.
pub open spec fn miimon_arp_conflict(o: BondOptionsView) -> bool {
    o.miimon matches Some(m) && o.arp_interval matches Some(a) && m > 0 && a > 0
}

/// Whether LACP-only options are set outside 802.3ad mode.
pub open spec fn lacp_opts_invalid(o: BondOptionsView, mode: BondMode) -> bool {
    mode != BondMode::LACP && (o.lacp_rate is Some || o.lacp_active is Some)
}

/// The first of two optional values that is set.
pub open spec fn or_first<T>(a: Option<T>, b: Option<T>) -> Option<T> {
    match a {
        Some(_) => a,
        None => b,
    }
}

/// The option as desired, or as currently set when not desired.
pub open spec fn cur_opt<T>(a: Option<T>, current: Option<BondOptionsView>, f: spec_fn(BondOptionsView) -> Option<T>) -> Option<T> {
    match a {
        Some(_) => a,
        None => match current {
            Some(c) => f(c),
            None => None,
        },
    }
}

/// Whether `balance_slb` is enabled without balance-xor mode and the
/// `vlan+srcmac` hash policy.
pub open spec fn balance_slb_invalid(o: BondOptionsView, current: Option<BondOptionsView>, mode: BondMode) -> bool {
    cur_opt(o.balance_slb, current, |c: BondOptionsView| c.balance_slb) == Some(true) && (mode != BondMode::XOR
        || cur_opt(o.xmit_hash_policy, current, |c: BondOptionsView| c.xmit_hash_policy) != Some(
        BondXmitHashPolicy::VlanSrcMac,
    ))
}

/// Whether the ARP monitor settings are refused: an enabled `arp_interval`
/// in 802.3ad, balance-tlb or balance-alb mode, or ARP/NS targets with the
/// ARP monitor disabled.
pub open spec fn arp_interval_invalid(o: BondOptionsView, current: Option<BondOptionsView>, mode: BondMode) -> bool {
    match cur_opt(o.arp_interval, current, |c: BondOptionsView| c.arp_interval) {
        Some(a) => if a > 0 {
            mode == BondMode::LACP || mode == BondMode::TLB || mode == BondMode::ALB
        } else {
            (o.arp_ip_target matches Some(t) && t.len() > 0) || (o.ns_ip6_target matches Some(t) && t.len() > 0)
        },
        None => false,
    }
}

/// Whether `num_grat_arp` and `num_unsol_na` are both set and differ.
pub open spec fn grat_arp_conflict(o: BondOptionsView) -> bool {
    o.num_grat_arp matches Some(g) && o.num_unsol_na matches Some(n) && g != n
}

/// Whether the bond options are refused by sanitize, for the given mode and
/// current options.
pub open spec fn bond_opts_invalid(o: BondOptionsView, current: Option<BondOptionsView>, mode: BondMode) -> bool {
    ||| ad_actor_multicast(o)
    ||| lacp_opts_invalid(o, mode)
    ||| arp_interval_invalid(o, current, mode)
    ||| miimon_arp_conflict(o)
    ||| balance_slb_invalid(o, current, mode)
    ||| grat_arp_conflict(o)
}

fn starts_with_multicast_prefix(s: &str) -> (r: bool)
    ensures
        r == (s@.len() >= 8 && s@.subrange(0, 8) == multicast_mac_prefix()),
{
    let n = s.unicode_len();
    if n < 8 {
        return false;
    }
    let ok = s.get_char(0) == '0' && s.get_char(1) == '1' && s.get_char(2) == ':' && s.get_char(3) == '0'
        && s.get_char(4) == '0' && s.get_char(5) == ':' && s.get_char(6) == '5' && s.get_char(7) == 'E';
    proof {
        if ok {
            assert(s@.subrange(0, 8) =~= multicast_mac_prefix());
        } else {
            if s@.subrange(0, 8) == multicast_mac_prefix() {
                assert(s@.subrange(0, 8)[0] == s@[0]);
                assert(s@.subrange(0, 8)[1] == s@[1]);
                assert(s@.subrange(0, 8)[2] == s@[2]);
                assert(s@.subrange(0, 8)[3] == s@[3]);
                assert(s@.subrange(0, 8)[4] == s@[4]);
                assert(s@.subrange(0, 8)[5] == s@[5]);
                assert(s@.subrange(0, 8)[6] == s@[6]);
                assert(s@.subrange(0, 8)[7] == s@[7]);
            }
        }
    }
    ok
}

impl BondOptions {
    /// Bond options with nothing set.
    pub fn new() -> (r: Self)
        ensures
            r@ == empty_bond_options(),
    {
        BondOptions {
            ad_actor_sys_prio: None,
            ad_actor_system: None,
            ad_select: None,
            ad_user_port_key: None,
            all_ports_active: None,
            arp_all_targets: None,
            arp_interval: None,
            arp_ip_target: None,
            arp_validate: None,
            downdelay: None,
            fail_over_mac: None,
            lacp_rate: None,
            lp_interval: None,
            miimon: None,
            min_links: None,
            num_grat_arp: None,
            num_unsol_na: None,
            packets_per_port: None,
            peer_notif_delay: None,
            primary: None,
            primary_reselect: None,
            resend_igmp: None,
            tlb_dynamic_lb: None,
            updelay: None,
            use_carrier: None,
            xmit_hash_policy: None,
            balance_slb: None,
            arp_missed_max: None,
            lacp_active: None,
            ns_ip6_target: None,
        }
    }

    /// Refuse an `ad_actor_system` that is an IANA multicast address.
    pub fn validate_ad_actor_system_mac_address(&self) -> (r: Result<(), NipartError>)
        ensures
            r is Err <==> ad_actor_multicast(self@),
            r matches Err(e) ==> e.kind == ErrorKind::InvalidArgument,
    {
        if let Some(ad_actor_system) = &self.ad_actor_system {
            let upper = str_to_uppercase(ad_actor_system.as_str());
            if starts_with_multicast_prefix(upper.as_str()) {
                return Err(
                    NipartError::from_str_msg(
                        ErrorKind::InvalidArgument,
                        "The ad_actor_system bond option cannot be an IANA multicast address(prefix with 01:00:5E)",
                    ),
                );
            }
        }
        Ok(())
    }

    /// Refuse `miimon` together with `arp_interval`, both enabled.
    pub fn validate_miimon_and_arp_interval(&self) -> (r: Result<(), NipartError>)
        ensures
            r is Err <==> miimon_arp_conflict(self@),
            r matches Err(e) ==> e.kind == ErrorKind::InvalidArgument,
    {
        if let (Some(miimon), Some(arp_interval)) = (self.miimon, self.arp_interval) {
            if miimon > 0 && arp_interval > 0 {
                return Err(
                    NipartError::from_str_msg(
                        ErrorKind::InvalidArgument,
                        "Bond miimon and arp interval are not compatible options.",
                    ),
                );
            }
        }
        Ok(())
    }

    /// Refuse `balance_slb` unless the mode is balance-xor with the
    /// `vlan+srcmac` hash policy; unset options come from the current ones.
    pub fn validate_balance_slb(&self, current: Option<&Self>, mode: BondMode) -> (r: Result<(), NipartError>)
        ensures
            r is Err <==> balance_slb_invalid(
                self@,
                match current {
                    Some(c) => Some(c@),
                    None => None,
                },
                mode,
            ),
            r matches Err(e) ==> e.kind == ErrorKind::InvalidArgument,
    {
        let slb = match self.balance_slb {
            Some(v) => Some(v),
            None => match current {
                Some(c) => c.balance_slb,
                None => None,
            },
        };
        if slb == Some(true) {
            let policy = match self.xmit_hash_policy {
                Some(v) => Some(v),
                None => match current {
                    Some(c) => c.xmit_hash_policy,
                    None => None,
                },
            };
            if mode != BondMode::XOR || policy != Some(BondXmitHashPolicy::VlanSrcMac) {
                return Err(
                    NipartError::from_str_msg(
                        ErrorKind::InvalidArgument,
                        "To enable balance-slb, bond mode should be balance-xor and xmit_hash_policy: 'vlan+srcmac'",
                    ),
                );
            }
        }
        Ok(())
    }

    /// Refuse `lacp_rate` and `lacp_active` outside 802.3ad mode.
    pub fn validate_lacp_opts(&self, mode: BondMode) -> (r: Result<(), NipartError>)
        ensures
            r is Err <==> lacp_opts_invalid(self@, mode),
            r matches Err(e) ==> e.kind == ErrorKind::InvalidArgument,
    {
        if mode != BondMode::LACP {
            if self.lacp_rate.is_some() {
                return Err(
                    NipartError::from_str_msg(
                        ErrorKind::InvalidArgument,
                        "The `lacp_rate` option is only valid for bond in '802.3ad' mode",
                    ),
                );
            }
            if self.lacp_active.is_some() {
                return Err(
                    NipartError::from_str_msg(
                        ErrorKind::InvalidArgument,
                        "The `lacp_active` option is only valid for bond in '802.3ad' mode",
                    ),
                );
            }
        }
        Ok(())
    }

    /// An enabled `arp_interval` is refused in 802.3ad, balance-tlb and
    /// balance-alb mode; a disabled one refuses ARP and NS targets.
    pub fn validate_arp_interval(&self, current: Option<&Self>, mode: BondMode) -> (r: Result<(), NipartError>)
        ensures
            r is Err <==> arp_interval_invalid(
                self@,
                match current {
                    Some(c) => Some(c@),
                    None => None,
                },
                mode,
            ),
            r matches Err(e) ==> e.kind == ErrorKind::InvalidArgument,
    {
        let interval = match self.arp_interval {
            Some(v) => Some(v),
            None => match current {
                Some(c) => c.arp_interval,
                None => None,
            },
        };
        if let Some(arp_interval) = interval {
            if arp_interval > 0 {
                if mode == BondMode::LACP || mode == BondMode::TLB || mode == BondMode::ALB {
                    return Err(
                        NipartError::from_str_msg(
                            ErrorKind::InvalidArgument,
                            "The `arp_interval` option is invalid for bond in '802.3ad', 'balance-tlb' or 'balance-alb' mode",
                        ),
                    );
                }
            } else {
                if let Some(arp_ip_target) = self.arp_ip_target.as_ref() {
                    if arp_ip_target.unicode_len() > 0 {
                        return Err(
                            NipartError::from_str_msg(
                                ErrorKind::InvalidArgument,
                                "The `arp_ip_target` option is only valid when 'arp_interval' is enabled(>0).",
                            ),
                        );
                    }
                }
                if let Some(ns_ip6_target) = self.ns_ip6_target.as_ref() {
                    if ns_ip6_target.len() > 0 {
                        return Err(
                            NipartError::from_str_msg(
                                ErrorKind::InvalidArgument,
                                "The `ns_ip6_target` option is only valid when 'arp_interval' is enabled(>0).",
                            ),
                        );
                    }
                }
            }
        }
        Ok(())
    }
}

/// Per-port bond configuration.
#[derive(Debug)]
#[non_exhaustive]
pub struct BondPortConfig {
    /// Name of the port; mandatory.
    pub name: String,
    /// Port priority; only meaningful in active-backup, balance-tlb and
    /// balance-alb mode.
    pub priority: Option<i32>,
    /// Queue ID of the port.
    pub queue_id: Option<u16>,
}

impl Clone for BondPortConfig {
    fn clone(&self) -> (r: Self)
        ensures
            r == *self,
    {
        BondPortConfig { name: self.name.clone(), priority: self.priority, queue_id: self.queue_id }
    }
}

/// Decimal text of a signed integer.
pub open spec fn signed_text(n: int) -> Seq<char> {
    if n < 0 {
        seq!['-'] + decimal_text((-n) as nat)
    } else {
        decimal_text(n as nat)
    }
}

fn signed_string(n: i32) -> (r: String)
    ensures
        r@ == signed_text(n as int),
{
    if n < 0 {
        let m: u64 = (0 - (n as i64)) as u64;
        let mut s = str_to_string("-");
        let d = decimal_string(m);
        s.append(d.as_str());
        proof {
            reveal_strlit("-");
        }
        s
    } else {
        decimal_string(n as u64)
    }
}

impl BondPortConfig {
    /// A port configuration holding only the port name.
    pub fn new(name: String) -> (r: Self)
        ensures
            r == (BondPortConfig { name, priority: None, queue_id: None }),
    {
        BondPortConfig { name, priority: None, queue_id: None }
    }

    /// Whether only the name is set.
    pub fn is_name_only(&self) -> (r: bool)
        ensures
            r == (self.priority is None && self.queue_id is None),
    {
        self.priority.is_none() && self.queue_id.is_none()
    }

    /// Text form: `BondPortConfig { name: N, priority: P, queue_id: Q }`,
    /// with 0 for an unset priority or queue ID.
    pub fn to_display_string(&self) -> (r: String)
        ensures
            r@ == "BondPortConfig { name: "@ + self.name@ + ", priority: "@ + signed_text(
                match self.priority {
                    Some(p) => p as int,
                    None => 0,
                },
            ) + ", queue_id: "@ + decimal_text(
                match self.queue_id {
                    Some(q) => q as nat,
                    None => 0,
                },
            ) + " }"@,
    {
        let mut s = str_to_string("BondPortConfig { name: ");
        s.append(self.name.as_str());
        s.append(", priority: ");
        let p = match self.priority {
            Some(p) => p,
            None => 0,
        };
        let ps = signed_string(p);
        s.append(ps.as_str());
        s.append(", queue_id: ");
        let q = match self.queue_id {
            Some(q) => q,
            None => 0,
        };
        let qs = decimal_string(q as u64);
        s.append(qs.as_str());
        s.append(" }");
        s
    }
}

/// Bond configuration.
#[non_exhaustive]
pub struct BondConfig {
    /// Mandatory when creating a new bond.
    pub mode: Option<BondMode>,
    /// Bond options; when applying, they override the current ones.
    pub options: Option<BondOptions>,
    /// Port names; when applying, they override the current port list.
    pub port: Option<Vec<String>>,
    /// Per-port configurations; when applying, they override the current
    /// ones.
    pub ports_config: Option<Vec<BondPortConfig>>,
}

/// Model of [BondConfig].
pub struct BondConfigView {
    pub mode: Option<BondMode>,
    pub options: Option<BondOptionsView>,
    pub port: Option<Seq<String>>,
    pub ports_config: Option<Seq<BondPortConfig>>,
}

/// The characters of each string.
pub open spec fn strs_view(s: Seq<String>) -> Seq<Seq<char>> {
    s.map_values(|x: String| x@)
}

/// Model of optional bond options.
pub open spec fn opt_bond_opts_view(o: Option<BondOptions>) -> Option<BondOptionsView> {
    match o {
        Some(v) => Some(v@),
        None => None,
    }
}

impl View for BondConfig {
    type V = BondConfigView;

    open spec fn view(&self) -> BondConfigView {
        BondConfigView {
            mode: self.mode,
            options: opt_bond_opts_view(self.options),
            port: crate::text::opt_vec_view(self.port),
            ports_config: crate::text::opt_vec_view(self.ports_config),
        }
    }
}

/// Model of an optional bond configuration.
pub open spec fn opt_bond_view(o: Option<BondConfig>) -> Option<BondConfigView> {
    match o {
        Some(v) => Some(v@),
        None => None,
    }
}

fn clone_strings(v: &Vec<String>) -> (r: Vec<String>)
    ensures
        r@ == v@,
{
    let mut out: Vec<String> = Vec::new();
    let mut i: usize = 0;
    while i < v.len()
        invariant
            i <= v.len(),
            out@ == v@.subrange(0, i as int),
        decreases v.len() - i,
    {
        out.push(v[i].clone());
        i += 1;
    }
    proof {
        assert(out@ =~= v@);
    }
    out
}

fn clone_port_configs(v: &Vec<BondPortConfig>) -> (r: Vec<BondPortConfig>)
    ensures
        r@ == v@,
{
    let mut out: Vec<BondPortConfig> = Vec::new();
    let mut i: usize = 0;
    while i < v.len()
        invariant
            i <= v.len(),
            out@ == v@.subrange(0, i as int),
        decreases v.len() - i,
    {
        out.push(v[i].clone());
        i += 1;
    }
    proof {
        assert(out@ =~= v@);
    }
    out
}

fn clone_opt_bond_opts(o: &Option<BondOptions>) -> (r: Option<BondOptions>)
    ensures
        opt_bond_opts_view(r) == opt_bond_opts_view(*o),
{
    match o {
        None => None,
        Some(v) => Some(v.clone()),
    }
}

impl Clone for BondConfig {
    fn clone(&self) -> (r: Self)
        ensures
            r@ == self@,
    {
        BondConfig {
            mode: self.mode,
            options: clone_opt_bond_opts(&self.options),
            port: match &self.port {
                Some(p) => Some(clone_strings(p)),
                None => None,
            },
            ports_config: match &self.ports_config {
                Some(p) => Some(clone_port_configs(p)),
                None => None,
            },
        }
    }
}

impl Default for BondConfig {
    fn default() -> (r: Self)
        ensures
            r@ == (BondConfigView { mode: None, options: None, port: None, ports_config: None }),
    {
        BondConfig { mode: None, options: None, port: None, ports_config: None }
    }
}

/// Whether the texts are in ascending order.
pub open spec fn strs_sorted(s: Seq<Seq<char>>) -> bool {
    forall|i: int, j: int| 0 <= i < j < s.len() ==> text_order(#[trigger] s[i], #[trigger] s[j]) <= 0
}

/// Whether the port configurations are in ascending order of name.
pub open spec fn port_configs_sorted(s: Seq<BondPortConfig>) -> bool {
    forall|i: int, j: int| 0 <= i < j < s.len() ==> text_order((#[trigger] s[i]).name@, (#[trigger] s[j]).name@) <= 0
}

/// Sort strings in ascending order.
pub fn sort_strings(v: Vec<String>) -> (r: Vec<String>)
    ensures
        strs_sorted(strs_view(r@)),
        r@.to_multiset() == v@.to_multiset(),
{
    broadcast use vstd::seq_lib::group_to_multiset_ensures, vstd::multiset::group_multiset_axioms,
        vstd::multiset::group_multiset_properties;

    let mut src = v;
    let mut out: Vec<String> = Vec::new();
    proof {
        assert(out@.to_multiset().add(src@.to_multiset()) =~= v@.to_multiset());
    }
    while src.len() > 0
        invariant
            strs_sorted(strs_view(out@)),
            out@.to_multiset().add(src@.to_multiset()) == v@.to_multiset(),
        decreases src.len(),
    {
        let ghost before_src = src@;
        let x = src.pop().unwrap();
        proof {
            assert(before_src =~= src@.push(x));
        }
        let mut p: usize = 0;
        while p < out.len() && str_order(out[p].as_str(), x.as_str()) <= 0
            invariant
                p <= out.len(),
                forall|q: int| 0 <= q < p ==> text_order((#[trigger] out@[q])@, x@) <= 0,
            decreases out.len() - p,
        {
            p += 1;
        }
        let ghost old_out = out@;
        out.insert(p, x);
        proof {
            vstd::seq_lib::to_multiset_insert(old_out, p as int, x);
            vstd::seq_lib::to_multiset_build(src@, x);
            assert(out@.to_multiset().add(src@.to_multiset()) =~= old_out.to_multiset().add(
                before_src.to_multiset(),
            ));
            let ov = strs_view(old_out);
            let nv = strs_view(out@);
            assert(nv =~= ov.insert(p as int, x@));
            if p < old_out.len() {
                lemma_text_order_basics(old_out[p as int]@, x@);
            }
            assert forall|i: int, j: int| 0 <= i < j < nv.len() implies text_order(
                #[trigger] nv[i],
                #[trigger] nv[j],
            ) <= 0 by {
                if j < p {
                    assert(text_order(ov[i], ov[j]) <= 0);
                } else if j == p {
                    assert(text_order(old_out[i]@, x@) <= 0);
                } else if i < p {
                    assert(text_order(ov[i], ov[j - 1]) <= 0);
                } else if i == p {
                    assert(text_order(x@, ov[p as int]) <= 0);
                    if j - 1 > p {
                        assert(text_order(ov[p as int], ov[j - 1]) <= 0);
                        crate::text::lemma_text_order_trans(x@, ov[p as int], ov[j - 1]);
                    }
                } else {
                    assert(text_order(ov[i - 1], ov[j - 1]) <= 0);
                }
            }
        }
    }
    proof {
        assert(src@.to_multiset() =~= vstd::multiset::Multiset::empty());
        assert(out@.to_multiset().add(vstd::multiset::Multiset::empty()) =~= out@.to_multiset());
    }
    out
}

/// Sort port configurations in ascending order of name.
pub fn sort_port_configs(v: Vec<BondPortConfig>) -> (r: Vec<BondPortConfig>)
    ensures
        port_configs_sorted(r@),
        r@.to_multiset() == v@.to_multiset(),
{
    broadcast use vstd::seq_lib::group_to_multiset_ensures, vstd::multiset::group_multiset_axioms,
        vstd::multiset::group_multiset_properties;

    let mut src = v;
    let mut out: Vec<BondPortConfig> = Vec::new();
    proof {
        assert(out@.to_multiset().add(src@.to_multiset()) =~= v@.to_multiset());
    }
    while src.len() > 0
        invariant
            port_configs_sorted(out@),
            out@.to_multiset().add(src@.to_multiset()) == v@.to_multiset(),
        decreases src.len(),
    {
        let ghost before_src = src@;
        let x = src.pop().unwrap();
        proof {
            assert(before_src =~= src@.push(x));
        }
        let mut p: usize = 0;
        while p < out.len() && str_order(out[p].name.as_str(), x.name.as_str()) <= 0
            invariant
                p <= out.len(),
                forall|q: int| 0 <= q < p ==> text_order((#[trigger] out@[q]).name@, x.name@) <= 0,
            decreases out.len() - p,
        {
            p += 1;
        }
        let ghost old_out = out@;
        out.insert(p, x);
        proof {
            vstd::seq_lib::to_multiset_insert(old_out, p as int, x);
            vstd::seq_lib::to_multiset_build(src@, x);
            assert(out@.to_multiset().add(src@.to_multiset()) =~= old_out.to_multiset().add(
                before_src.to_multiset(),
            ));
            if p < old_out.len() {
                lemma_text_order_basics(old_out[p as int].name@, x.name@);
            }
            assert forall|i: int, j: int| 0 <= i < j < out@.len() implies text_order(
                (#[trigger] out@[i]).name@,
                (#[trigger] out@[j]).name@,
            ) <= 0 by {
                if j < p {
                    assert(text_order(old_out[i].name@, old_out[j].name@) <= 0);
                } else if j == p {
                    assert(text_order(old_out[i].name@, x.name@) <= 0);
                } else if i < p {
                    assert(text_order(old_out[i].name@, old_out[j - 1].name@) <= 0);
                } else if i == p {
                    if j - 1 > p {
                        assert(text_order(old_out[p as int].name@, old_out[j - 1].name@) <= 0);
                        crate::text::lemma_text_order_trans(x.name@, old_out[p as int].name@, old_out[j - 1].name@);
                    }
                } else {
                    assert(text_order(old_out[i - 1].name@, old_out[j - 1].name@) <= 0);
                }
            }
        }
    }
    proof {
        assert(src@.to_multiset() =~= vstd::multiset::Multiset::empty());
        assert(out@.to_multiset().add(vstd::multiset::Multiset::empty()) =~= out@.to_multiset());
    }
    out
}

/// Whether two ports share a queue ID other than 0.
pub open spec fn queue_clash(a: BondPortConfig, b: BondPortConfig) -> bool {
    a.queue_id matches Some(q) && q != 0 && b.queue_id == Some(q)
}

/// Whether two different ports of the list share a queue ID other than 0.
pub open spec fn queue_dup(s: Seq<BondPortConfig>) -> bool {
    exists|i: int, j: int| 0 <= i < s.len() && 0 <= j < s.len() && i != j && #[trigger] queue_clash(s[i], s[j])
}

proof fn lemma_queue_dup_perm_one(s: Seq<BondPortConfig>, t: Seq<BondPortConfig>)
    requires
        s.to_multiset() == t.to_multiset(),
        queue_dup(s),
    ensures
        queue_dup(t),
{
    broadcast use vstd::seq_lib::group_to_multiset_ensures;

    let (i, j) = choose|i: int, j: int|
        0 <= i < s.len() && 0 <= j < s.len() && i != j && #[trigger] queue_clash(s[i], s[j]);
    let a = s[i];
    let b = s[j];
    let sr = s.remove(i);
    let jr = if j < i {
        j
    } else {
        j - 1
    };
    assert(sr[jr] == b);
    assert(sr.contains(b));
    assert(s.contains(a));
    assert(s.to_multiset().count(a) > 0);
    assert(t.to_multiset().count(a) > 0);
    assert(t.contains(a));
    let k = choose|k: int| 0 <= k < t.len() && t[k] == a;
    let tr = t.remove(k);
    assert(tr.to_multiset() == t.to_multiset().remove(a));
    assert(sr.to_multiset() == s.to_multiset().remove(a));
    assert(sr.to_multiset().count(b) > 0);
    assert(tr.to_multiset().count(b) > 0);
    assert(tr.contains(b));
    let l2 = choose|l: int| 0 <= l < tr.len() && tr[l] == b;
    let l = if l2 < k {
        l2
    } else {
        l2 + 1
    };
    assert(t[l] == b);
    assert(queue_clash(t[k], t[l]));
}

/// Whether ports share a queue ID does not depend on their order.
pub proof fn lemma_queue_dup_perm(s: Seq<BondPortConfig>, t: Seq<BondPortConfig>)
    requires
        s.to_multiset() == t.to_multiset(),
    ensures
        queue_dup(s) == queue_dup(t),
{
    if queue_dup(s) {
        lemma_queue_dup_perm_one(s, t);
    }
    if queue_dup(t) {
        lemma_queue_dup_perm_one(t, s);
    }
}

/// Bond interface.
#[non_exhaustive]
pub struct BondInterface {
    pub base: BaseInterface,
    pub bond: Option<BondConfig>,
}

impl Clone for BondInterface {
    fn clone(&self) -> (r: Self)
        ensures
            r.base@ == self.base@,
            opt_bond_view(r.bond) == opt_bond_view(self.bond),
    {
        BondInterface {
            base: self.base.clone(),
            bond: match &self.bond {
                Some(b) => Some(b.clone()),
                None => None,
            },
        }
    }
}

impl Default for BondInterface {
    fn default() -> (r: Self)
        ensures
            r.base@ == bare_base(r.base.name, InterfaceType::Bond, InterfaceState::Up),
            r.base.name@ == Seq::<char>::empty(),
            r.bond is None,
    {
        BondInterface { base: BaseInterface::new(String::new(), InterfaceType::Bond), bond: None }
    }
}

/// The mode of an optional bond configuration.
pub open spec fn bond_mode_of(b: Option<BondConfigView>) -> Option<BondMode> {
    match b {
        Some(c) => c.mode,
        None => None,
    }
}

/// The `fail_over_mac` option of an optional bond configuration.
pub open spec fn fail_over_of(b: Option<BondConfigView>) -> Option<BondFailOverMac> {
    match b {
        Some(c) => match c.options {
            Some(o) => o.fail_over_mac,
            None => None,
        },
        None => None,
    }
}

/// Whether the bond's MAC address follows its active port: active-backup
/// mode with `fail_over_mac: active`.
pub open spec fn mac_restricted(b: Option<BondConfigView>) -> bool {
    bond_mode_of(b) == Some(BondMode::ActiveBackup) && fail_over_of(b) == Some(BondFailOverMac::Active)
}

/// Whether the desired bond explicitly leaves the MAC-restricted mode: another
/// mode, or another `fail_over_mac` policy.
pub open spec fn leaves_mac_restricted(b: Option<BondConfigView>) -> bool {
    (bond_mode_of(b) is Some && bond_mode_of(b) != Some(BondMode::ActiveBackup)) || !(fail_over_of(b) is None
        || fail_over_of(b) == Some(BondFailOverMac::Active))
}

/// Whether the desired MAC address is dropped: the bond is (and stays) in the
/// MAC-restricted mode.
pub open spec fn mac_dropped(
    mac: Option<String>,
    d: Option<BondConfigView>,
    current: Option<Option<BondConfigView>>,
) -> bool {
    mac is Some && match current {
        Some(c) => mac_restricted(c) && !leaves_mac_restricted(d),
        None => mac_restricted(d),
    }
}

/// The mode a bond is sanitized with: the desired one, else the current one.
pub open spec fn bond_effective_mode(d: Option<BondConfigView>, current: Option<Option<BondConfigView>>) -> Option<
    BondMode,
> {
    match bond_mode_of(d) {
        Some(m) => Some(m),
        None => match current {
            Some(c) => bond_mode_of(c),
            None => None,
        },
    }
}

/// The current bond options, if any.
pub open spec fn cur_bond_opts(current: Option<Option<BondConfigView>>) -> Option<BondOptionsView> {
    match current {
        Some(Some(c)) => c.options,
        _ => None,
    }
}

/// Whether sanitizing the desired bond fails: no mode known, refused options,
/// or ports sharing a queue ID.
pub open spec fn bond_refused(d: Option<BondConfigView>, current: Option<Option<BondConfigView>>) -> bool {
    ||| bond_effective_mode(d, current) is None
    ||| (d matches Some(b) && b.options matches Some(o) && bond_opts_invalid(
        o,
        cur_bond_opts(current),
        bond_effective_mode(d, current)->0,
    ))
    ||| (d matches Some(b) && b.ports_config matches Some(p) && queue_dup(p))
}

/// The options after sanitize: `ad_actor_system` in upper case.
pub open spec fn bond_opts_sanitized(o: BondOptionsView) -> BondOptionsView {
    BondOptionsView {
        ad_actor_system: match o.ad_actor_system {
            Some(m) => Some(unicode_uppercase(m)),
            None => None,
        },
        ..o
    }
}

/// Whether `n` is the sanitized form of the bond configuration `o`: ports
/// sorted, port configurations sorted by name, options sanitized.
pub open spec fn bond_conf_sanitized(n: BondConfigView, o: BondConfigView) -> bool {
    &&& n.mode == o.mode
    &&& n.options == match o.options {
        Some(x) => Some(bond_opts_sanitized(x)),
        None => None,
    }
    &&& match (n.port, o.port) {
        (None, None) => true,
        (Some(np), Some(op)) => strs_sorted(strs_view(np)) && np.to_multiset() == op.to_multiset(),
        _ => false,
    }
    &&& match (n.ports_config, o.ports_config) {
        (None, None) => true,
        (Some(np), Some(op)) => port_configs_sorted(np) && np.to_multiset() == op.to_multiset(),
        _ => false,
    }
}

/// The names of the given strings, one for one.
pub open spec fn port_config_names(s: Seq<BondPortConfig>) -> Seq<Seq<char>> {
    s.map_values(|p: BondPortConfig| p.name@)
}

impl BondInterface {
    /// A bond with the given name and configuration.
    pub fn new(name: String, bond: BondConfig) -> (r: Self)
        ensures
            r.base@ == bare_base(name, InterfaceType::Bond, InterfaceState::Up),
            opt_bond_view(r.bond) == Some(bond@),
    {
        BondInterface { base: BaseInterface::new(name, InterfaceType::Bond), bond: Some(bond) }
    }

    /// The desired bond mode, if any.
    pub fn mode(&self) -> (r: Option<BondMode>)
        ensures
            r == bond_mode_of(opt_bond_view(self.bond)),
    {
        match &self.bond {
            Some(b) => b.mode,
            None => None,
        }
    }

    /// Refuse ports sharing a queue ID other than 0: the kernel does not
    /// support it.
    pub fn check_overlap_queue_id(&self) -> (r: Result<(), NipartError>)
        ensures
            r is Err <==> (self.bond matches Some(b) && b.ports_config matches Some(p) && queue_dup(p@)),
            r matches Err(e) ==> e.kind == ErrorKind::InvalidArgument,
    {
        let ports = match &self.bond {
            Some(b) => match &b.ports_config {
                Some(p) => p,
                None => return Ok(()),
            },
            None => return Ok(()),
        };
        let mut j: usize = 0;
        while j < ports.len()
            invariant
                j <= ports.len(),
                self.bond is Some && self.bond->0.ports_config == Some(*ports),
                forall|a: int, b: int| 0 <= a < b < j ==> !#[trigger] queue_clash(ports@[a], ports@[b]),
            decreases ports.len() - j,
        {
            let mut i: usize = 0;
            while i < j
                invariant
                    i <= j < ports.len(),
                    self.bond is Some && self.bond->0.ports_config == Some(*ports),
                    forall|a: int, b: int| 0 <= a < b < j ==> !#[trigger] queue_clash(ports@[a], ports@[b]),
                    forall|a: int| 0 <= a < i ==> !#[trigger] queue_clash(ports@[a], ports@[j as int]),
                decreases j - i,
            {
                let clash = match ports[i].queue_id {
                    Some(q) => q != 0 && ports[j].queue_id == Some(q),
                    None => false,
                };
                if clash {
                    let mut msg = str_to_string("Port ");
                    msg.append(ports[i].name.as_str());
                    msg.append(" and ");
                    msg.append(ports[j].name.as_str());
                    msg.append(" of Bond ");
                    msg.append(self.base.name.as_str());
                    msg.append(" are sharing the same queue-id which is not supported by linux kernel yet");
                    proof {
                        assert(queue_clash(ports@[i as int], ports@[j as int]));
                    }
                    return Err(NipartError::new(ErrorKind::InvalidArgument, msg));
                }
                i += 1;
            }
            j += 1;
        }
        proof {
            assert forall|a: int, b: int|
                0 <= a < ports@.len() && 0 <= b < ports@.len() && a != b implies !#[trigger] queue_clash(
                ports@[a],
                ports@[b],
            ) by {
                if b < a {
                    assert(!queue_clash(ports@[b], ports@[a]));
                }
            }
        }
        Ok(())
    }

    /// Whether the bond is in active-backup mode with `fail_over_mac: active`,
    /// where its MAC address follows the active port.
    pub fn is_mac_restricted_mode(&self) -> (r: bool)
        ensures
            r == mac_restricted(opt_bond_view(self.bond)),
    {
        if self.mode() == Some(BondMode::ActiveBackup) {
            match &self.bond {
                Some(b) => match &b.options {
                    Some(o) => o.fail_over_mac == Some(BondFailOverMac::Active),
                    None => false,
                },
                None => false,
            }
        } else {
            false
        }
    }

    /// Whether the bond explicitly leaves the MAC-restricted mode.
    pub fn is_not_mac_restricted_mode_explicitly(&self) -> (r: bool)
        ensures
            r == leaves_mac_restricted(opt_bond_view(self.bond)),
    {
        let mode = self.mode();
        let fom = match &self.bond {
            Some(b) => match &b.options {
                Some(o) => o.fail_over_mac,
                None => None,
            },
            None => None,
        };
        (mode.is_some() && mode != Some(BondMode::ActiveBackup)) || !(fom.is_none() || fom == Some(
            BondFailOverMac::Active,
        ))
    }

    /// Drop the desired MAC address of a bond in the MAC-restricted mode,
    /// where the ports determine the address.
    pub fn sanitize_mac_restricted_mode(&mut self, current: Option<&Self>)
        ensures
            opt_bond_view(final(self).bond) == opt_bond_view(old(self).bond),
            final(self).base@ == (crate::nmstate::ifaces::base::BaseInterfaceView {
                mac_address: if mac_dropped(
                    old(self).base.mac_address,
                    opt_bond_view(old(self).bond),
                    match current {
                        Some(c) => Some(opt_bond_view(c.bond)),
                        None => None,
                    },
                ) {
                    None
                } else {
                    old(self).base.mac_address
                },
                ..old(self).base@
            }),
    {
        match current {
            Some(c) => {
                if c.is_mac_restricted_mode() && self.base.mac_address.is_some()
                    && !self.is_not_mac_restricted_mode_explicitly() {
                    self.base.mac_address = None;
                }
            },
            None => {
                if self.is_mac_restricted_mode() && self.base.mac_address.is_some() {
                    self.base.mac_address = None;
                }
            },
        }
    }

    /// The port names: the `port` list, else the names of the port
    /// configurations.
    pub fn ports(&self) -> (r: Option<Vec<String>>)
        ensures
            match self.bond {
                Some(b) => match (b.port, b.ports_config) {
                    (Some(p), _) => r is Some && r->0@ == p@,
                    (None, Some(pc)) => r is Some && strs_view(r->0@) == port_config_names(pc@),
                    (None, None) => r is None,
                },
                None => r is None,
            },
    {
        let b = match &self.bond {
            Some(b) => b,
            None => return None,
        };
        if let Some(p) = &b.port {
            let r = clone_strings(p);
            return Some(r);
        }
        if let Some(pc) = &b.ports_config {
            let mut out: Vec<String> = Vec::new();
            let mut i: usize = 0;
            while i < pc.len()
                invariant
                    i <= pc.len(),
                    out.len() == i,
                    strs_view(out@) == port_config_names(pc@).subrange(0, i as int),
                decreases pc.len() - i,
            {
                let ghost before = out@;
                out.push(pc[i].name.clone());
                proof {
                    assert forall|k: int| 0 <= k < i + 1 implies strs_view(out@)[k] == port_config_names(
                        pc@,
                    ).subrange(0, i + 1)[k] by {
                        if k < i {
                            assert(out@[k] == before[k]);
                            assert(strs_view(before)[k] == port_config_names(pc@).subrange(0, i as int)[k]);
                        }
                    }
                    assert(strs_view(out@) =~= port_config_names(pc@).subrange(0, i + 1));
                }
                i += 1;
            }
            proof {
                assert(port_config_names(pc@).subrange(0, pc@.len() as int) =~= port_config_names(pc@));
            }
            return Some(out);
        }
        None
    }
}

impl BondInterface {
    /// Sanitize a desired bond: the mode is mandatory (from the desired or
    /// the current bond), ports and port configurations are sorted by name,
    /// the options are validated against the mode and the current options,
    /// `ad_actor_system` goes to upper case, ports may not share a queue ID,
    /// and the MAC address is dropped in the MAC-restricted mode.
    #[verifier::spinoff_prover]
    #[verifier::rlimit(30)]
    pub fn sanitize_iface_specfic(&mut self, current: Option<&Self>) -> (r: Result<(), NipartError>)
        ensures
            r is Err <==> bond_refused(
                opt_bond_view(old(self).bond),
                match current {
                    Some(c) => Some(opt_bond_view(c.bond)),
                    None => None,
                },
            ),
            r matches Err(e) ==> e.kind == ErrorKind::InvalidArgument,
            r is Ok ==> match (opt_bond_view(old(self).bond), opt_bond_view(final(self).bond)) {
                (None, None) => true,
                (Some(o), Some(n)) => bond_conf_sanitized(n, o),
                _ => false,
            },
            r is Ok ==> final(self).base@ == (crate::nmstate::ifaces::base::BaseInterfaceView {
                mac_address: if mac_dropped(
                    old(self).base.mac_address,
                    opt_bond_view(old(self).bond),
                    match current {
                        Some(c) => Some(opt_bond_view(c.bond)),
                        None => None,
                    },
                ) {
                    None
                } else {
                    old(self).base.mac_address
                },
                ..old(self).base@
            }),
    {
        let ghost cur = match current {
            Some(c) => Some(opt_bond_view(c.bond)),
            None => None,
        };
        let ghost orig = opt_bond_view(self.bond);
        let bond_mode = match self.mode() {
            Some(m) => m,
            None => match current {
                Some(c) => match c.mode() {
                    Some(m) => m,
                    None => {
                        return Err(self.mode_missing_error());
                    },
                },
                None => {
                    return Err(self.mode_missing_error());
                },
            },
        };
        if let Some(mut bond_conf) = self.bond.take() {
            if let Some(ports) = bond_conf.port.take() {
                bond_conf.port = Some(sort_strings(ports));
            }
            if let Some(ports_config) = bond_conf.ports_config.take() {
                bond_conf.ports_config = Some(sort_port_configs(ports_config));
            }
            if let Some(mut bond_opts) = bond_conf.options.take() {
                let cur_opts = match current {
                    Some(c) => match &c.bond {
                        Some(b) => b.options.as_ref(),
                        None => None,
                    },
                    None => None,
                };
                let res = bond_opts.validate_opts(cur_opts, bond_mode);
                if res.is_err() {
                    bond_conf.options = Some(bond_opts);
                    self.bond = Some(bond_conf);
                    return res;
                }
                if let Some(mac) = bond_opts.ad_actor_system.take() {
                    bond_opts.ad_actor_system = Some(str_to_uppercase(mac.as_str()));
                }
                bond_conf.options = Some(bond_opts);
            }
            self.bond = Some(bond_conf);
        }
        proof {
            let nb = self.bond;
            if let Some(b) = nb {
                if let Some(p) = b.ports_config {
                    lemma_queue_dup_perm(p@, old(self).bond->0.ports_config->0@);
                }
            }
        }
        self.check_overlap_queue_id()?;
        self.sanitize_mac_restricted_mode(current);
        Ok(())
    }

    fn mode_missing_error(&self) -> (r: NipartError)
        ensures
            r.kind == ErrorKind::InvalidArgument,
    {
        let mut msg = str_to_string("Bond mode is mandatory for creating new bond ");
        msg.append(self.base.name.as_str());
        NipartError::new(ErrorKind::InvalidArgument, msg)
    }
}

impl BondOptions {
    /// All option checks of sanitize, in order: `ad_actor_system`, LACP-only
    /// options, `arp_interval`, `miimon` against `arp_interval`,
    /// `balance_slb`, and `num_grat_arp` against `num_unsol_na`.
    pub fn validate_opts(&self, current: Option<&Self>, mode: BondMode) -> (r: Result<(), NipartError>)
        ensures
            r is Err <==> bond_opts_invalid(
                self@,
                match current {
                    Some(c) => Some(c@),
                    None => None,
                },
                mode,
            ),
            r matches Err(e) ==> e.kind == ErrorKind::InvalidArgument,
    {
        self.validate_ad_actor_system_mac_address()?;
        self.validate_lacp_opts(mode)?;
        self.validate_arp_interval(current, mode)?;
        self.validate_miimon_and_arp_interval()?;
        self.validate_balance_slb(current, mode)?;
        if let (Some(num_grat_arp), Some(num_unsol_na)) = (self.num_grat_arp, self.num_unsol_na) {
            if num_grat_arp != num_unsol_na {
                return Err(
                    NipartError::from_str_msg(
                        ErrorKind::InvalidArgument,
                        "The `num_unsol_na` and `num_grat_arp` are sharing the same meaning in kernel, but desired with different values",
                    ),
                );
            }
        }
        Ok(())
    }
}

/// Bond options merged: each option not set in `n` is taken from `o`.
pub open spec fn bond_opts_merged(n: BondOptionsView, o: BondOptionsView) -> BondOptionsView {
    BondOptionsView {
        ad_actor_sys_prio: or_first(n.ad_actor_sys_prio, o.ad_actor_sys_prio),
        ad_actor_system: or_first(n.ad_actor_system, o.ad_actor_system),
        ad_select: or_first(n.ad_select, o.ad_select),
        ad_user_port_key: or_first(n.ad_user_port_key, o.ad_user_port_key),
        all_ports_active: or_first(n.all_ports_active, o.all_ports_active),
        arp_all_targets: or_first(n.arp_all_targets, o.arp_all_targets),
        arp_interval: or_first(n.arp_interval, o.arp_interval),
        arp_ip_target: or_first(n.arp_ip_target, o.arp_ip_target),
        arp_validate: or_first(n.arp_validate, o.arp_validate),
        downdelay: or_first(n.downdelay, o.downdelay),
        fail_over_mac: or_first(n.fail_over_mac, o.fail_over_mac),
        lacp_rate: or_first(n.lacp_rate, o.lacp_rate),
        lp_interval: or_first(n.lp_interval, o.lp_interval),
        miimon: or_first(n.miimon, o.miimon),
        min_links: or_first(n.min_links, o.min_links),
        num_grat_arp: or_first(n.num_grat_arp, o.num_grat_arp),
        num_unsol_na: or_first(n.num_unsol_na, o.num_unsol_na),
        packets_per_port: or_first(n.packets_per_port, o.packets_per_port),
        peer_notif_delay: or_first(n.peer_notif_delay, o.peer_notif_delay),
        primary: or_first(n.primary, o.primary),
        primary_reselect: or_first(n.primary_reselect, o.primary_reselect),
        resend_igmp: or_first(n.resend_igmp, o.resend_igmp),
        tlb_dynamic_lb: or_first(n.tlb_dynamic_lb, o.tlb_dynamic_lb),
        updelay: or_first(n.updelay, o.updelay),
        use_carrier: or_first(n.use_carrier, o.use_carrier),
        xmit_hash_policy: or_first(n.xmit_hash_policy, o.xmit_hash_policy),
        balance_slb: or_first(n.balance_slb, o.balance_slb),
        arp_missed_max: or_first(n.arp_missed_max, o.arp_missed_max),
        lacp_active: or_first(n.lacp_active, o.lacp_active),
        ns_ip6_target: or_first(n.ns_ip6_target, o.ns_ip6_target),
    }
}

/// Bond configurations merged: mode, port list and port configurations
/// taken from `o` when not set in `n`, options merged one by one.
pub open spec fn bond_conf_merged(n: BondConfigView, o: BondConfigView) -> BondConfigView {
    BondConfigView {
        mode: or_first(n.mode, o.mode),
        options: match (n.options, o.options) {
            (Some(a), Some(b)) => Some(bond_opts_merged(a, b)),
            (a, b) => or_first(a, b),
        },
        port: or_first(n.port, o.port),
        ports_config: or_first(n.ports_config, o.ports_config),
    }
}

impl BondOptions {
    /// These options merged over `prev`: options not set here come from
    /// `prev`.
    pub fn merged_over(&self, prev: &Self) -> (r: Self)
        ensures
            r@ == bond_opts_merged(self@, prev@),
    {
        BondOptions {
            ad_actor_sys_prio: if self.ad_actor_sys_prio.is_some() { self.ad_actor_sys_prio } else { prev.ad_actor_sys_prio },
            ad_actor_system: if self.ad_actor_system.is_some() { clone_opt_str(&self.ad_actor_system) } else { clone_opt_str(&prev.ad_actor_system) },
            ad_select: if self.ad_select.is_some() { self.ad_select } else { prev.ad_select },
            ad_user_port_key: if self.ad_user_port_key.is_some() { self.ad_user_port_key } else { prev.ad_user_port_key },
            all_ports_active: if self.all_ports_active.is_some() { self.all_ports_active } else { prev.all_ports_active },
            arp_all_targets: if self.arp_all_targets.is_some() { self.arp_all_targets } else { prev.arp_all_targets },
            arp_interval: if self.arp_interval.is_some() { self.arp_interval } else { prev.arp_interval },
            arp_ip_target: if self.arp_ip_target.is_some() { clone_opt_str(&self.arp_ip_target) } else { clone_opt_str(&prev.arp_ip_target) },
            arp_validate: if self.arp_validate.is_some() { self.arp_validate } else { prev.arp_validate },
            downdelay: if self.downdelay.is_some() { self.downdelay } else { prev.downdelay },
            fail_over_mac: if self.fail_over_mac.is_some() { self.fail_over_mac } else { prev.fail_over_mac },
            lacp_rate: if self.lacp_rate.is_some() { self.lacp_rate } else { prev.lacp_rate },
            lp_interval: if self.lp_interval.is_some() { self.lp_interval } else { prev.lp_interval },
            miimon: if self.miimon.is_some() { self.miimon } else { prev.miimon },
            min_links: if self.min_links.is_some() { self.min_links } else { prev.min_links },
            num_grat_arp: if self.num_grat_arp.is_some() { self.num_grat_arp } else { prev.num_grat_arp },
            num_unsol_na: if self.num_unsol_na.is_some() { self.num_unsol_na } else { prev.num_unsol_na },
            packets_per_port: if self.packets_per_port.is_some() { self.packets_per_port } else { prev.packets_per_port },
            peer_notif_delay: if self.peer_notif_delay.is_some() { self.peer_notif_delay } else { prev.peer_notif_delay },
            primary: if self.primary.is_some() { clone_opt_str(&self.primary) } else { clone_opt_str(&prev.primary) },
            primary_reselect: if self.primary_reselect.is_some() { self.primary_reselect } else { prev.primary_reselect },
            resend_igmp: if self.resend_igmp.is_some() { self.resend_igmp } else { prev.resend_igmp },
            tlb_dynamic_lb: if self.tlb_dynamic_lb.is_some() { self.tlb_dynamic_lb } else { prev.tlb_dynamic_lb },
            updelay: if self.updelay.is_some() { self.updelay } else { prev.updelay },
            use_carrier: if self.use_carrier.is_some() { self.use_carrier } else { prev.use_carrier },
            xmit_hash_policy: if self.xmit_hash_policy.is_some() { self.xmit_hash_policy } else { prev.xmit_hash_policy },
            balance_slb: if self.balance_slb.is_some() { self.balance_slb } else { prev.balance_slb },
            arp_missed_max: if self.arp_missed_max.is_some() { self.arp_missed_max } else { prev.arp_missed_max },
            lacp_active: if self.lacp_active.is_some() { self.lacp_active } else { prev.lacp_active },
            ns_ip6_target: if self.ns_ip6_target.is_some() { clone_targets(&self.ns_ip6_target) } else { clone_targets(&prev.ns_ip6_target) },
        }
    }
}

impl BondConfig {
    /// This configuration merged over `prev`.
    pub fn merged_over(&self, prev: &Self) -> (r: Self)
        ensures
            r@ == bond_conf_merged(self@, prev@),
    {
        BondConfig {
            mode: if self.mode.is_some() {
                self.mode
            } else {
                prev.mode
            },
            options: match (&self.options, &prev.options) {
                (Some(a), Some(b)) => Some(a.merged_over(b)),
                (Some(_), None) => clone_opt_bond_opts(&self.options),
                (None, _) => clone_opt_bond_opts(&prev.options),
            },
            port: match (&self.port, &prev.port) {
                (Some(p), _) => Some(clone_strings(p)),
                (None, Some(p)) => Some(clone_strings(p)),
                (None, None) => None,
            },
            ports_config: match (&self.ports_config, &prev.ports_config) {
                (Some(p), _) => Some(clone_port_configs(p)),
                (None, Some(p)) => Some(clone_port_configs(p)),
                (None, None) => None,
            },
        }
    }
}

} // verus!
