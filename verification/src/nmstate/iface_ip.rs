use vstd::prelude::*;

use crate::error::{ErrorKind, NipartError};
use crate::nmstate::ip::{IpAddr, Ipv6Segments};
use crate::text::{clone_opt_str, opt_str_eq, opt_str_is, opt_str_view, opt_vec_view};

verus! {

/// An IP address of an interface with its prefix length and, for dynamic
/// addresses, their remaining lifetimes.
#[derive(Debug)]
pub struct InterfaceIpAddr {
    pub ip: IpAddr,
    pub prefix_length: u8,
    /// Remaining valid lifetime, `forever` for static addresses.
    pub valid_life_time: Option<String>,
    /// Remaining preferred lifetime, `forever` for static addresses.
    pub preferred_life_time: Option<String>,
}

impl Clone for InterfaceIpAddr {
    fn clone(&self) -> (r: Self)
        ensures
            r == *self,
    {
        InterfaceIpAddr {
            ip: self.ip,
            prefix_length: self.prefix_length,
            valid_life_time: clone_opt_str(&self.valid_life_time),
            preferred_life_time: clone_opt_str(&self.preferred_life_time),
        }
    }
}

/// Whether two interface addresses are the same in every field.
pub open spec fn ip_addr_same(a: InterfaceIpAddr, b: InterfaceIpAddr) -> bool {
    &&& a.ip == b.ip
    &&& a.prefix_length == b.prefix_length
    &&& opt_str_view(a.valid_life_time) == opt_str_view(b.valid_life_time)
    &&& opt_str_view(a.preferred_life_time) == opt_str_view(b.preferred_life_time)
}

/// Whether the address was obtained dynamically: it has a valid lifetime
/// other than `forever`.
pub open spec fn ip_addr_is_auto(a: InterfaceIpAddr) -> bool {
    a.valid_life_time is Some && opt_str_view(a.valid_life_time) != Some("forever"@)
}

/// Whether the address is an IPv6 unicast link-local address (`fe80::/10`).
pub open spec fn ip_addr_is_link_local(a: InterfaceIpAddr) -> bool {
    a.ip matches IpAddr::V6(g) && (g.s0 & 0xffc0u16) == 0xfe80u16
}

/// The address with both lifetimes removed.
pub open spec fn without_lifetimes(a: InterfaceIpAddr) -> InterfaceIpAddr {
    InterfaceIpAddr { ip: a.ip, prefix_length: a.prefix_length, valid_life_time: None, preferred_life_time: None }
}

impl InterfaceIpAddr {
    /// A static address.
    pub fn new(ip: IpAddr, prefix_length: u8) -> (r: Self)
        ensures
            r.ip == ip,
            r.prefix_length == prefix_length,
            r.valid_life_time is None,
            r.preferred_life_time is None,
    {
        InterfaceIpAddr { ip, prefix_length, valid_life_time: None, preferred_life_time: None }
    }

    /// Whether the address was obtained dynamically.
    pub fn is_auto(&self) -> (r: bool)
        ensures
            r == ip_addr_is_auto(*self),
    {
        self.valid_life_time.is_some() && !opt_str_is(&self.valid_life_time, "forever")
    }

    /// Whether both addresses are the same in every field.
    pub fn same_as(&self, other: &Self) -> (r: bool)
        ensures
            r == ip_addr_same(*self, *other),
    {
        self.ip == other.ip && self.prefix_length == other.prefix_length && opt_str_eq(
            &self.valid_life_time,
            &other.valid_life_time,
        ) && opt_str_eq(&self.preferred_life_time, &other.preferred_life_time)
    }

    fn is_link_local(&self) -> (r: bool)
        ensures
            r == ip_addr_is_link_local(*self),
    {
        match self.ip {
            IpAddr::V6(g) => (g.s0 & 0xffc0u16) == 0xfe80u16,
            IpAddr::V4(_) => false,
        }
    }
}

/// Copy of a list of interface addresses.
pub fn clone_ip_addrs(v: &Vec<InterfaceIpAddr>) -> (r: Vec<InterfaceIpAddr>)
    ensures
        r@ == v@,
{
    let r = v.clone();
    proof {
        assert(r@ =~= v@);
    }
    r
}

/// Copy of an optional list of interface addresses.
pub fn clone_opt_ip_addrs(v: &Option<Vec<InterfaceIpAddr>>) -> (r: Option<Vec<InterfaceIpAddr>>)
    ensures
        opt_vec_view(r) == opt_vec_view(*v),
{
    match v {
        None => None,
        Some(a) => Some(clone_ip_addrs(a)),
    }
}

/// Whether there are no addresses, or every one is dynamic or an IPv6
/// link-local address.
pub open spec fn addrs_none_or_all_auto(addrs: Option<Vec<InterfaceIpAddr>>) -> bool {
    addrs_seq_none_or_all_auto(opt_vec_view(addrs))
}

/// Whether the address is dynamic or an IPv6 link-local address.
pub open spec fn ip_addr_auto_or_link_local(a: InterfaceIpAddr) -> bool {
    ip_addr_is_link_local(a) || ip_addr_is_auto(a)
}

/// Whether there are no addresses, or every one is dynamic or an IPv6
/// link-local address.
pub fn is_ip_addrs_none_or_all_auto(addrs: &Option<Vec<InterfaceIpAddr>>) -> (r: bool)
    ensures
        r == addrs_none_or_all_auto(*addrs),
{
    match addrs {
        None => true,
        Some(v) => {
            let r = all_auto_or_link_local(v);
            proof {
                assert(opt_vec_view(*addrs) == Some(v@));
            }
            r
        },
    }
}

fn all_auto_or_link_local(v: &Vec<InterfaceIpAddr>) -> (r: bool)
    ensures
        r == addrs_seq_none_or_all_auto(Some(v@)),
{
    let mut i: usize = 0;
    while i < v.len()
        invariant
            i <= v.len(),
            forall|k: int| 0 <= k < i ==> #[trigger] ip_addr_auto_or_link_local(v@[k]),
        decreases v.len() - i,
    {
        let ll = v[i].is_link_local();
        let au = v[i].is_auto();
        if !(ll || au) {
            proof {
                assert(!ip_addr_auto_or_link_local(v@[i as int]));
                let sv = v@;
                assert(0 <= i < sv.len());
                assert(!ip_addr_auto_or_link_local(sv[i as int]));
                assert(!seq_all_auto_or_link_local(sv));
            }
            return false;
        }
        i += 1;
    }
    true
}

/// Remove the lifetimes of every address, turning them static.
fn clear_lifetimes(addrs: &mut Vec<InterfaceIpAddr>)
    ensures
        final(addrs).len() == old(addrs).len(),
        forall|k: int| 0 <= k < old(addrs).len() ==> #[trigger] final(addrs)@[k] == without_lifetimes(old(addrs)@[k]),
{
    let mut i: usize = 0;
    while i < addrs.len()
        invariant
            i <= addrs.len(),
            addrs.len() == old(addrs).len(),
            forall|k: int| 0 <= k < i ==> #[trigger] addrs@[k] == without_lifetimes(old(addrs)@[k]),
            forall|k: int| i <= k < addrs.len() ==> #[trigger] addrs@[k] == old(addrs)@[k],
        decreases addrs.len() - i,
    {
        let a = InterfaceIpAddr::new(addrs[i].ip, addrs[i].prefix_length);
        addrs.set(i, a);
        i += 1;
    }
}

/// Whether the addresses are all IPv4 with a prefix length of at most 32.
pub open spec fn addrs_fit_family(addrs: Option<Vec<InterfaceIpAddr>>, v6: bool) -> bool {
    match addrs {
        None => true,
        Some(v) => forall|k: int|
            0 <= k < v.len() ==> (if v6 { (#[trigger] v@[k]).ip is V6 && v@[k].prefix_length <= 128 } else {
                v@[k].ip is V4 && v@[k].prefix_length <= 32
            }),
    }
}

fn check_addrs_family(addrs: &Option<Vec<InterfaceIpAddr>>, v6: bool) -> (r: Result<(), NipartError>)
    ensures
        r is Ok <==> addrs_fit_family(*addrs, v6),
        r matches Err(e) ==> e.kind == ErrorKind::InvalidArgument,
{
    match addrs {
        None => Ok(()),
        Some(v) => {
            let mut i: usize = 0;
            while i < v.len()
                invariant
                    i <= v.len(),
                    *addrs == Some(*v),
                    forall|k: int|
                        0 <= k < i ==> (if v6 { (#[trigger] v@[k]).ip is V6 && v@[k].prefix_length <= 128 } else {
                            v@[k].ip is V4 && v@[k].prefix_length <= 32
                        }),
                decreases v.len() - i,
            {
                let ok = match v[i].ip {
                    IpAddr::V4(_) => !v6 && v[i].prefix_length <= 32,
                    IpAddr::V6(_) => v6 && v[i].prefix_length <= 128,
                };
                if !ok {
                    proof {
                        let a = v@[i as int];
                        assert(!(if v6 { a.ip is V6 && a.prefix_length <= 128 } else {
                            a.ip is V4 && a.prefix_length <= 32
                        }));
                    }
                    return Err(
                        NipartError::from_str_msg(
                            ErrorKind::InvalidArgument,
                            if v6 {
                                "IPv6 configuration holds an address that is not IPv6 or has a prefix length above 128"
                            } else {
                                "IPv4 configuration holds an address that is not IPv4 or has a prefix length above 32"
                            },
                        ),
                    );
                }
                i += 1;
            }
            Ok(())
        },
    }
}

/// IPv4 configuration of an interface.
#[derive(Debug)]
pub struct InterfaceIpv4 {
    pub enabled: Option<bool>,
    pub dhcp: Option<bool>,
    pub addresses: Option<Vec<InterfaceIpAddr>>,
}

/// IPv6 configuration of an interface.
#[derive(Debug)]
pub struct InterfaceIpv6 {
    pub enabled: Option<bool>,
    pub autoconf: Option<bool>,
    pub dhcp: Option<bool>,
    pub addresses: Option<Vec<InterfaceIpAddr>>,
}

/// Model of [InterfaceIpv4]: its fields, the addresses as a sequence.
pub struct InterfaceIpv4View {
    pub enabled: Option<bool>,
    pub dhcp: Option<bool>,
    pub addresses: Option<Seq<InterfaceIpAddr>>,
}

/// Model of [InterfaceIpv6]: its fields, the addresses as a sequence.
pub struct InterfaceIpv6View {
    pub enabled: Option<bool>,
    pub autoconf: Option<bool>,
    pub dhcp: Option<bool>,
    pub addresses: Option<Seq<InterfaceIpAddr>>,
}

impl View for InterfaceIpv4 {
    type V = InterfaceIpv4View;

    open spec fn view(&self) -> InterfaceIpv4View {
        InterfaceIpv4View { enabled: self.enabled, dhcp: self.dhcp, addresses: opt_vec_view(self.addresses) }
    }
}

impl View for InterfaceIpv6 {
    type V = InterfaceIpv6View;

    open spec fn view(&self) -> InterfaceIpv6View {
        InterfaceIpv6View {
            enabled: self.enabled,
            autoconf: self.autoconf,
            dhcp: self.dhcp,
            addresses: opt_vec_view(self.addresses),
        }
    }
}

impl Clone for InterfaceIpv4 {
    fn clone(&self) -> (r: Self)
        ensures
            r@ == self@,
    {
        let addresses = clone_opt_ip_addrs(&self.addresses);
        InterfaceIpv4 { enabled: self.enabled, dhcp: self.dhcp, addresses }
    }
}

impl Clone for InterfaceIpv6 {
    fn clone(&self) -> (r: Self)
        ensures
            r@ == self@,
    {
        let addresses = clone_opt_ip_addrs(&self.addresses);
        InterfaceIpv6 { enabled: self.enabled, autoconf: self.autoconf, dhcp: self.dhcp, addresses }
    }
}

} // verus!

verus! {

/// `new` when it is set, else `old`: how a merge fills an undefined property.
pub open spec fn or_else<T>(new: Option<T>, prev: Option<T>) -> Option<T> {
    if new is Some {
        new
    } else {
        prev
    }
}

/// Whether merging `new` over `old` turns the addresses of `new` static: the
/// old configuration was automatic with only dynamic addresses, the new one is
/// enabled and static.
pub open spec fn ipv4_goes_static(new: InterfaceIpv4View, prev: InterfaceIpv4View) -> bool {
    &&& prev.dhcp == Some(true)
    &&& prev.addresses is Some
    &&& new.enabled == Some(true)
    &&& new.dhcp != Some(true)
    &&& addrs_seq_none_or_all_auto(prev.addresses)
    &&& new.addresses is Some
}

/// Whether merging `new` over `old` turns the addresses of `new` static.
pub open spec fn ipv6_goes_static(new: InterfaceIpv6View, prev: InterfaceIpv6View) -> bool {
    &&& (prev.dhcp == Some(true) || prev.autoconf == Some(true))
    &&& prev.addresses is Some
    &&& new.enabled == Some(true)
    &&& !(new.dhcp == Some(true) || new.autoconf == Some(true))
    &&& addrs_seq_none_or_all_auto(prev.addresses)
    &&& new.addresses is Some
}

/// [addrs_none_or_all_auto] over a sequence of addresses.
pub open spec fn addrs_seq_none_or_all_auto(addrs: Option<Seq<InterfaceIpAddr>>) -> bool {
    addrs is None || seq_all_auto_or_link_local(addrs->0)
}

/// Whether every address is dynamic or an IPv6 link-local address.
pub open spec fn seq_all_auto_or_link_local(v: Seq<InterfaceIpAddr>) -> bool {
    forall|k: int| 0 <= k < v.len() ==> #[trigger] ip_addr_auto_or_link_local(v[k])
}

/// The addresses with their lifetimes removed.
pub open spec fn seq_without_lifetimes(s: Seq<InterfaceIpAddr>) -> Seq<InterfaceIpAddr> {
    s.map_values(|a: InterfaceIpAddr| without_lifetimes(a))
}

impl InterfaceIpv4 {
    /// Whether the IPv4 stack is enabled.
    pub fn is_enabled(&self) -> (r: bool)
        ensures
            r == (self.enabled == Some(true)),
    {
        matches!(self.enabled, Some(true))
    }

    /// Whether addresses come from DHCP.
    pub fn is_auto(&self) -> (r: bool)
        ensures
            r == (self.dhcp == Some(true)),
    {
        matches!(self.dhcp, Some(true))
    }

    /// Validate the addresses: each must be IPv4 with a prefix length of at
    /// most 32. A disabled stack holds neither addresses nor DHCP setting.
    pub fn sanitize(&mut self) -> (r: Result<(), NipartError>)
        ensures
            r is Ok <==> addrs_fit_family(old(self).addresses, false),
            r matches Err(e) ==> e.kind == ErrorKind::InvalidArgument,
            r is Ok && old(self).enabled == Some(false) ==> final(self)@ == (InterfaceIpv4View {
                enabled: Some(false),
                dhcp: None,
                addresses: None,
            }),
            r is Ok && old(self).enabled != Some(false) ==> final(self)@ == old(self)@,
    {
        check_addrs_family(&self.addresses, false)?;
        if matches!(self.enabled, Some(false)) {
            self.dhcp = None;
            self.addresses = None;
        }
        Ok(())
    }

    /// After the generic merge: when DHCP is switched off, the addresses that
    /// were dynamic become static (their lifetimes are removed).
    pub fn post_merge(&mut self, prev: &Self)
        ensures
            final(self).enabled == old(self).enabled,
            final(self).dhcp == old(self).dhcp,
            ipv4_goes_static(old(self)@, prev@) ==> final(self)@.addresses == Some(
                seq_without_lifetimes(old(self)@.addresses->0),
            ),
            !ipv4_goes_static(old(self)@, prev@) ==> final(self)@.addresses == old(self)@.addresses,
    {
        let go = prev.is_auto() && prev.addresses.is_some() && self.is_enabled() && !self.is_auto()
            && is_ip_addrs_none_or_all_auto(&prev.addresses) && self.addresses.is_some();
        if go {
            let mut addrs = self.addresses.take().unwrap();
            clear_lifetimes(&mut addrs);
            proof {
                assert(addrs@ =~= seq_without_lifetimes(old(self)@.addresses->0));
            }
            self.addresses = Some(addrs);
        }
    }

    /// This configuration with every property left undefined here taken from
    /// `old`.
    pub fn merged_over(&self, prev: &Self) -> (r: Self)
        ensures
            r@ == (InterfaceIpv4View {
                enabled: or_else(self.enabled, prev.enabled),
                dhcp: or_else(self.dhcp, prev.dhcp),
                addresses: or_else(self@.addresses, prev@.addresses),
            }),
    {
        InterfaceIpv4 {
            enabled: if self.enabled.is_some() { self.enabled } else { prev.enabled },
            dhcp: if self.dhcp.is_some() { self.dhcp } else { prev.dhcp },
            addresses: if self.addresses.is_some() {
                clone_opt_ip_addrs(&self.addresses)
            } else {
                clone_opt_ip_addrs(&prev.addresses)
            },
        }
    }
}

impl InterfaceIpv6 {
    /// Whether the IPv6 stack is enabled.
    pub fn is_enabled(&self) -> (r: bool)
        ensures
            r == (self.enabled == Some(true)),
    {
        matches!(self.enabled, Some(true))
    }

    /// Whether addresses come from DHCPv6 or autoconf.
    pub fn is_auto(&self) -> (r: bool)
        ensures
            r == (self.dhcp == Some(true) || self.autoconf == Some(true)),
    {
        matches!(self.dhcp, Some(true)) || matches!(self.autoconf, Some(true))
    }

    /// Validate the addresses: each must be IPv6 with a prefix length of at
    /// most 128. A disabled stack holds neither addresses nor automatic
    /// settings.
    pub fn sanitize(&mut self) -> (r: Result<(), NipartError>)
        ensures
            r is Ok <==> addrs_fit_family(old(self).addresses, true),
            r matches Err(e) ==> e.kind == ErrorKind::InvalidArgument,
            r is Ok && old(self).enabled == Some(false) ==> final(self)@ == (InterfaceIpv6View {
                enabled: Some(false),
                autoconf: None,
                dhcp: None,
                addresses: None,
            }),
            r is Ok && old(self).enabled != Some(false) ==> final(self)@ == old(self)@,
    {
        check_addrs_family(&self.addresses, true)?;
        if matches!(self.enabled, Some(false)) {
            self.dhcp = None;
            self.autoconf = None;
            self.addresses = None;
        }
        Ok(())
    }

    /// After the generic merge: when DHCPv6 and autoconf are switched off, the
    /// addresses that were dynamic become static.
    pub fn post_merge(&mut self, prev: &Self)
        ensures
            final(self).enabled == old(self).enabled,
            final(self).dhcp == old(self).dhcp,
            final(self).autoconf == old(self).autoconf,
            ipv6_goes_static(old(self)@, prev@) ==> final(self)@.addresses == Some(
                seq_without_lifetimes(old(self)@.addresses->0),
            ),
            !ipv6_goes_static(old(self)@, prev@) ==> final(self)@.addresses == old(self)@.addresses,
    {
        let go = prev.is_auto() && prev.addresses.is_some() && self.is_enabled() && !self.is_auto()
            && is_ip_addrs_none_or_all_auto(&prev.addresses) && self.addresses.is_some();
        if go {
            let mut addrs = self.addresses.take().unwrap();
            clear_lifetimes(&mut addrs);
            proof {
                assert(addrs@ =~= seq_without_lifetimes(old(self)@.addresses->0));
            }
            self.addresses = Some(addrs);
        }
    }

    /// This configuration with every property left undefined here taken from
    /// `old`.
    pub fn merged_over(&self, prev: &Self) -> (r: Self)
        ensures
            r@ == (InterfaceIpv6View {
                enabled: or_else(self.enabled, prev.enabled),
                autoconf: or_else(self.autoconf, prev.autoconf),
                dhcp: or_else(self.dhcp, prev.dhcp),
                addresses: or_else(self@.addresses, prev@.addresses),
            }),
    {
        InterfaceIpv6 {
            enabled: if self.enabled.is_some() { self.enabled } else { prev.enabled },
            autoconf: if self.autoconf.is_some() { self.autoconf } else { prev.autoconf },
            dhcp: if self.dhcp.is_some() { self.dhcp } else { prev.dhcp },
            addresses: if self.addresses.is_some() {
                clone_opt_ip_addrs(&self.addresses)
            } else {
                clone_opt_ip_addrs(&prev.addresses)
            },
        }
    }
}

} // verus!
