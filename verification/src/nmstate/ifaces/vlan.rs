use vstd::prelude::*;
use vstd::string::*;

use crate::error::{ErrorKind, NipartError};
use crate::nmstate::iface_ip::or_else;
use crate::nmstate::iface_state::InterfaceState;
use crate::nmstate::iface_type::InterfaceType;
use crate::nmstate::ifaces::base::{bare_base, BaseInterface};
use crate::text::{
    clone_opt_str, lemma_contains_insert, lemma_contains_push, opt_str_eq, opt_str_view, opt_vec_view, str_to_string,
};

verus! {

/// VLAN interface
#[derive(Debug)]
#[non_exhaustive]
pub struct VlanInterface {
    pub base: BaseInterface,
    pub vlan: Option<VlanConfig>,
}

/// VLAN settings.
#[derive(Debug, Default)]
#[non_exhaustive]
pub struct VlanConfig {
    pub base_iface: Option<String>,
    pub id: Option<u16>,
    /// Could be `802.1q` or `802.1ad`. Default to `802.1q` if not defined.
    pub protocol: Option<VlanProtocol>,
    /// Could be `gvrp`, `mvrp` or `none`. Default to none if not defined.
    pub registration_protocol: Option<VlanRegistrationProtocol>,
    /// reordering of output packet headers. Default to True if not defined.
    pub reorder_headers: Option<bool>,
    /// loose binding of the interface to its master device's operating state
    pub loose_binding: Option<bool>,
    /// VLAN device link state tracks the state of bridge ports that are
    /// members of the VLAN
    pub bridge_binding: Option<bool>,
    /// Mapping VLAN header priority to linux internal packet priority for
    /// incoming packet.
    pub ingress_qos_map: Option<Vec<VlanQosMapping>>,
    /// Mapping linux internal packet priority to VLAN header priority for
    /// outgoing packet.
    pub egress_qos_map: Option<Vec<VlanQosMapping>>,
}

/// VLAN protocol.
#[derive(Debug, Clone, Copy, PartialEq, Eq, Structural)]
pub enum VlanProtocol {
    /// `802.1q`
    Ieee8021Q,
    /// `802.1ad`
    Ieee8021Ad,
    /// Unknown VLAN protocol
    Unknown,
}

impl VlanProtocol {
    /// The protocol name: `802.1q`, `802.1ad` or `unknown`.
    pub fn as_str(&self) -> (r: &'static str)
        ensures
            r@ == (match *self {
                VlanProtocol::Ieee8021Q => "802.1q"@,
                VlanProtocol::Ieee8021Ad => "802.1ad"@,
                VlanProtocol::Unknown => "unknown"@,
            }),
    {
        match self {
            VlanProtocol::Ieee8021Q => "802.1q",
            VlanProtocol::Ieee8021Ad => "802.1ad",
            VlanProtocol::Unknown => "unknown",
        }
    }
}

/// VLAN registration protocol.
#[derive(Debug, Clone, Copy, PartialEq, Eq, Structural)]
pub enum VlanRegistrationProtocol {
    /// GARP VLAN Registration Protocol
    Gvrp,
    /// Multiple VLAN Registration Protocol
    Mvrp,
    /// No Registration Protocol (`none`)
    NoRegistration,
}

/// VLAN QoS Mapping between linux internal packet priority and VLAN header
/// priority.
#[derive(Debug, Clone, Copy, PartialEq, Eq, Structural, Default)]
pub struct VlanQosMapping {
    pub from: u32,
    pub to: u32,
}

/// Order of QoS mappings: by `from`, then by `to`.
pub open spec fn qos_lt(a: VlanQosMapping, b: VlanQosMapping) -> bool {
    a.from < b.from || (a.from == b.from && a.to < b.to)
}

/// Whether the mappings are strictly increasing (sorted, no duplicates).
pub open spec fn qos_strictly_sorted(s: Seq<VlanQosMapping>) -> bool {
    forall|i: int, j: int| 0 <= i < j < s.len() ==> qos_lt(#[trigger] s[i], #[trigger] s[j])
}

/// Sort QoS mappings and drop duplicates.
pub fn sort_dedup_qos(v: &Vec<VlanQosMapping>) -> (r: Vec<VlanQosMapping>)
    ensures
        qos_strictly_sorted(r@),
        forall|x: VlanQosMapping| r@.contains(x) <==> v@.contains(x),
{
    let mut r: Vec<VlanQosMapping> = Vec::new();
    let mut j: usize = 0;
    while j < v.len()
        invariant
            j <= v.len(),
            qos_strictly_sorted(r@),
            forall|x: VlanQosMapping| r@.contains(x) <==> v@.take(j as int).contains(x),
        decreases v.len() - j,
    {
        let x = v[j];
        let mut p: usize = 0;
        while p < r.len() && (r[p].from < x.from || (r[p].from == x.from && r[p].to < x.to))
            invariant
                p <= r.len(),
                forall|q: int| 0 <= q < p ==> qos_lt(#[trigger] r@[q], x),
            decreases r.len() - p,
        {
            p += 1;
        }
        proof {
            assert(v@.take(j + 1) =~= v@.take(j as int).push(x));
        }
        if p < r.len() && r[p].from == x.from && r[p].to == x.to {
            proof {
                assert(r@[p as int] == x);
                assert forall|y: VlanQosMapping| r@.contains(y) <==> v@.take(j + 1).contains(y) by {
                    lemma_contains_push(v@.take(j as int), x, y);
                }
            }
        } else {
            let ghost old_r = r@;
            r.insert(p, x);
            proof {
                let n = r@;
                assert forall|a: int, b: int| 0 <= a < b < n.len() implies qos_lt(#[trigger] n[a], #[trigger] n[b]) by {
                    if b < p {
                        assert(n[a] == old_r[a] && n[b] == old_r[b]);
                    } else if b == p {
                        assert(n[a] == old_r[a]);
                    } else if a < p {
                        assert(n[a] == old_r[a] && n[b] == old_r[b - 1]);
                        assert(qos_lt(old_r[a], x));
                    } else if a == p {
                        assert(n[b] == old_r[b - 1]);
                        if p < old_r.len() {
                            assert(qos_lt(x, old_r[p as int]));
                            if b - 1 > p {
                                assert(qos_lt(old_r[p as int], old_r[b - 1]));
                            }
                        }
                    } else {
                        assert(n[a] == old_r[a - 1] && n[b] == old_r[b - 1]);
                    }
                }
                assert forall|y: VlanQosMapping| n.contains(y) <==> v@.take(j + 1).contains(y) by {
                    lemma_contains_insert(old_r, p as int, x, y);
                    lemma_contains_push(v@.take(j as int), x, y);
                }
            }
        }
        j += 1;
    }
    proof {
        assert(v@.take(v.len() as int) =~= v@);
    }
    r
}

/// Model of [VlanConfig]: its fields, the QoS maps as sequences.
pub struct VlanConfigView {
    pub base_iface: Option<String>,
    pub id: Option<u16>,
    pub protocol: Option<VlanProtocol>,
    pub registration_protocol: Option<VlanRegistrationProtocol>,
    pub reorder_headers: Option<bool>,
    pub loose_binding: Option<bool>,
    pub bridge_binding: Option<bool>,
    pub ingress_qos_map: Option<Seq<VlanQosMapping>>,
    pub egress_qos_map: Option<Seq<VlanQosMapping>>,
}

impl View for VlanConfig {
    type V = VlanConfigView;

    open spec fn view(&self) -> VlanConfigView {
        VlanConfigView {
            base_iface: self.base_iface,
            id: self.id,
            protocol: self.protocol,
            registration_protocol: self.registration_protocol,
            reorder_headers: self.reorder_headers,
            loose_binding: self.loose_binding,
            bridge_binding: self.bridge_binding,
            ingress_qos_map: opt_vec_view(self.ingress_qos_map),
            egress_qos_map: opt_vec_view(self.egress_qos_map),
        }
    }
}

fn clone_opt_qos(v: &Option<Vec<VlanQosMapping>>) -> (r: Option<Vec<VlanQosMapping>>)
    ensures
        opt_vec_view(r) == opt_vec_view(*v),
{
    match v {
        None => None,
        Some(m) => {
            let c = m.clone();
            proof {
                assert(c@ =~= m@);
            }
            Some(c)
        },
    }
}

fn qos_eq(a: &Option<Vec<VlanQosMapping>>, b: &Option<Vec<VlanQosMapping>>) -> (r: bool)
    ensures
        r == (opt_vec_view(*a) == opt_vec_view(*b)),
{
    match (a, b) {
        (None, None) => true,
        (Some(x), Some(y)) => {
            if x.len() != y.len() {
                return false;
            }
            let mut i: usize = 0;
            while i < x.len()
                invariant
                    i <= x.len() == y.len(),
                    opt_vec_view(*a) == Some(x@),
                    opt_vec_view(*b) == Some(y@),
                    forall|k: int| 0 <= k < i ==> x@[k] == y@[k],
                decreases x.len() - i,
            {
                if x[i] != y[i] {
                    return false;
                }
                i += 1;
            }
            proof {
                assert(x@ =~= y@);
            }
            true
        },
        _ => false,
    }
}

impl Clone for VlanConfig {
    fn clone(&self) -> (r: Self)
        ensures
            r@ == self@,
    {
        VlanConfig {
            base_iface: clone_opt_str(&self.base_iface),
            id: self.id,
            protocol: self.protocol,
            registration_protocol: self.registration_protocol,
            reorder_headers: self.reorder_headers,
            loose_binding: self.loose_binding,
            bridge_binding: self.bridge_binding,
            ingress_qos_map: clone_opt_qos(&self.ingress_qos_map),
            egress_qos_map: clone_opt_qos(&self.egress_qos_map),
        }
    }
}

/// Model of an optional VLAN configuration.
pub open spec fn opt_vlan_view(o: Option<VlanConfig>) -> Option<VlanConfigView> {
    match o {
        Some(v) => Some(v@),
        None => None,
    }
}

impl Clone for VlanInterface {
    fn clone(&self) -> (r: Self)
        ensures
            r.base@ == self.base@,
            opt_vlan_view(r.vlan) == opt_vlan_view(self.vlan),
    {
        VlanInterface {
            base: self.base.clone(),
            vlan: match &self.vlan {
                None => None,
                Some(v) => Some(v.clone()),
            },
        }
    }
}

/// The sorted, duplicate free form of an optional QoS map: same mappings.
pub open spec fn qos_sanitized(new: Option<Seq<VlanQosMapping>>, old: Option<Seq<VlanQosMapping>>) -> bool {
    match (new, old) {
        (None, None) => true,
        (Some(n), Some(o)) => qos_strictly_sorted(n) && forall|x: VlanQosMapping| n.contains(x) <==> o.contains(x),
        _ => false,
    }
}

/// Whether sanitizing a desired VLAN fails: without a current VLAN, both
/// `base-iface` and `id` are mandatory.
pub open spec fn vlan_sanitize_fails(d: Option<VlanConfigView>, current_has_vlan: bool) -> bool {
    d matches Some(v) && !current_has_vlan && (v.base_iface is None || v.id is None)
}

impl VlanInterface {
    /// A VLAN interface with the given name and settings.
    pub fn new(name: String, vlan: VlanConfig) -> (r: Self)
        ensures
            r.base@ == bare_base(name, InterfaceType::Vlan, InterfaceState::Up),
            opt_vlan_view(r.vlan) == Some(vlan@),
    {
        VlanInterface { base: BaseInterface::new(name, InterfaceType::Vlan), vlan: Some(vlan) }
    }

    /// The parent (base) interface name.
    pub fn parent(&self) -> (r: Option<&str>)
        ensures
            match r {
                Some(p) => self.vlan matches Some(v) && opt_str_view(v.base_iface) == Some(p@),
                None => self.vlan is None || self.vlan->0.base_iface is None,
            },
    {
        match &self.vlan {
            Some(v) => match &v.base_iface {
                Some(b) => Some(b.as_str()),
                None => None,
            },
            None => None,
        }
    }

    /// The base interface and ID are mandatory for a new VLAN and copied
    /// from the current VLAN when undefined; QoS maps are sorted and
    /// deduplicated.
    pub fn sanitize_iface_specfic(&mut self, current: Option<&Self>) -> (r: Result<(), NipartError>)
        ensures
            r is Err <==> vlan_sanitize_fails(opt_vlan_view(old(self).vlan), current matches Some(c) && c.vlan is Some),
            r matches Err(e) ==> e.kind == ErrorKind::InvalidArgument,
            final(self).base@ == old(self).base@,
            r is Ok ==> match (old(self).vlan, final(self).vlan) {
                (None, None) => true,
                (Some(o), Some(n)) => {
                    let cur = match current {
                        Some(c) => c.vlan,
                        None => None,
                    };
                    &&& n.id == (if cur is Some { or_else(o.id, cur->0.id) } else { o.id })
                    &&& n.base_iface == (if cur is Some {
                        or_else(o.base_iface, cur->0.base_iface)
                    } else {
                        o.base_iface
                    })
                    &&& n.protocol == o.protocol
                    &&& n.registration_protocol == o.registration_protocol
                    &&& n.reorder_headers == o.reorder_headers
                    &&& n.loose_binding == o.loose_binding
                    &&& n.bridge_binding == o.bridge_binding
                    &&& qos_sanitized(n@.ingress_qos_map, o@.ingress_qos_map)
                    &&& qos_sanitized(n@.egress_qos_map, o@.egress_qos_map)
                },
                _ => false,
            },
    {
        let mut conf = match self.vlan.take() {
            None => return Ok(()),
            Some(c) => c,
        };
        let cur = match current {
            Some(c) => match &c.vlan {
                Some(v) => Some(v),
                None => None,
            },
            None => None,
        };
        match cur {
            Some(cv) => {
                if conf.id.is_none() {
                    conf.id = cv.id;
                }
                if conf.base_iface.is_none() {
                    conf.base_iface = clone_opt_str(&cv.base_iface);
                }
            },
            None => {
                if conf.base_iface.is_none() {
                    self.vlan = Some(conf);
                    return Err(
                        NipartError::from_str_msg(
                            ErrorKind::InvalidArgument,
                            "`vlan.base-iface` is mandatory for creating new VLAN",
                        ),
                    );
                }
                if conf.id.is_none() {
                    self.vlan = Some(conf);
                    return Err(
                        NipartError::from_str_msg(ErrorKind::InvalidArgument, "`vlan.id` is mandatory for creating new VLAN"),
                    );
                }
            },
        }
        if let Some(m) = &conf.ingress_qos_map {
            conf.ingress_qos_map = Some(sort_dedup_qos(m));
        }
        if let Some(m) = &conf.egress_qos_map {
            conf.egress_qos_map = Some(sort_dedup_qos(m));
        }
        self.vlan = Some(conf);
        Ok(())
    }

    /// A VLAN whose ID, base interface, protocol or QoS maps change (where
    /// desired) must be deleted first; only checked when desired up.
    pub fn need_delete_before_change(&self, current: &Self) -> (r: bool)
        ensures
            r == (self.base.state == InterfaceState::Up && self.vlan is Some && current.vlan is Some && {
                let d = self.vlan->0;
                let c = current.vlan->0;
                ||| (d.id is Some && d.id != c.id)
                ||| (d.base_iface is Some && opt_str_view(d.base_iface) != opt_str_view(c.base_iface))
                ||| (d.protocol is Some && d.protocol != c.protocol)
                ||| (d.ingress_qos_map is Some && d@.ingress_qos_map != c@.ingress_qos_map)
                ||| (d.egress_qos_map is Some && d@.egress_qos_map != c@.egress_qos_map)
            }),
    {
        if !matches!(self.base.state, InterfaceState::Up) {
            return false;
        }
        match (&self.vlan, &current.vlan) {
            (Some(d), Some(c)) => {
                (d.id.is_some() && d.id != c.id) || (d.base_iface.is_some() && !opt_str_eq(&d.base_iface, &c.base_iface))
                    || (d.protocol.is_some() && d.protocol != c.protocol) || (d.ingress_qos_map.is_some() && !qos_eq(
                    &d.ingress_qos_map,
                    &c.ingress_qos_map,
                )) || (d.egress_qos_map.is_some() && !qos_eq(&d.egress_qos_map, &c.egress_qos_map))
            },
            _ => false,
        }
    }

    /// Before verification, undefined QoS maps of the current VLAN count as
    /// empty.
    pub fn sanitize_before_verify_iface_specfic(&mut self, current: &mut Self)
        ensures
            final(self).base@ == old(self).base@,
            opt_vlan_view(final(self).vlan) == opt_vlan_view(old(self).vlan),
            final(current).base@ == old(current).base@,
            match (opt_vlan_view(old(current).vlan), opt_vlan_view(final(current).vlan)) {
                (None, None) => true,
                (Some(o), Some(n)) => n == (VlanConfigView {
                    ingress_qos_map: Some(
                        match o.ingress_qos_map {
                            Some(m) => m,
                            None => Seq::empty(),
                        },
                    ),
                    egress_qos_map: Some(
                        match o.egress_qos_map {
                            Some(m) => m,
                            None => Seq::empty(),
                        },
                    ),
                    ..o
                }),
                _ => false,
            },
    {
        if let Some(mut v) = current.vlan.take() {
            if v.ingress_qos_map.is_none() {
                v.ingress_qos_map = Some(Vec::new());
            }
            if v.egress_qos_map.is_none() {
                v.egress_qos_map = Some(Vec::new());
            }
            current.vlan = Some(v);
        }
    }

    /// The type specific part of the generic merge: properties left
    /// undefined taken from `prev`.
    pub fn merged_vlan(&self, prev: &Self) -> (r: Option<VlanConfig>)
        ensures
            opt_vlan_view(r) == match (opt_vlan_view(self.vlan), opt_vlan_view(prev.vlan)) {
                (Some(n), Some(o)) => Some(
                    VlanConfigView {
                        base_iface: or_else(n.base_iface, o.base_iface),
                        id: or_else(n.id, o.id),
                        protocol: or_else(n.protocol, o.protocol),
                        registration_protocol: or_else(n.registration_protocol, o.registration_protocol),
                        reorder_headers: or_else(n.reorder_headers, o.reorder_headers),
                        loose_binding: or_else(n.loose_binding, o.loose_binding),
                        bridge_binding: or_else(n.bridge_binding, o.bridge_binding),
                        ingress_qos_map: or_else(n.ingress_qos_map, o.ingress_qos_map),
                        egress_qos_map: or_else(n.egress_qos_map, o.egress_qos_map),
                    },
                ),
                (n, o) => or_else(n, o),
            },
    {
        match (&self.vlan, &prev.vlan) {
            (Some(n), Some(o)) => Some(
                VlanConfig {
                    base_iface: if n.base_iface.is_some() {
                        clone_opt_str(&n.base_iface)
                    } else {
                        clone_opt_str(&o.base_iface)
                    },
                    id: if n.id.is_some() { n.id } else { o.id },
                    protocol: if n.protocol.is_some() { n.protocol } else { o.protocol },
                    registration_protocol: if n.registration_protocol.is_some() {
                        n.registration_protocol
                    } else {
                        o.registration_protocol
                    },
                    reorder_headers: if n.reorder_headers.is_some() { n.reorder_headers } else { o.reorder_headers },
                    loose_binding: if n.loose_binding.is_some() { n.loose_binding } else { o.loose_binding },
                    bridge_binding: if n.bridge_binding.is_some() { n.bridge_binding } else { o.bridge_binding },
                    ingress_qos_map: if n.ingress_qos_map.is_some() {
                        clone_opt_qos(&n.ingress_qos_map)
                    } else {
                        clone_opt_qos(&o.ingress_qos_map)
                    },
                    egress_qos_map: if n.egress_qos_map.is_some() {
                        clone_opt_qos(&n.egress_qos_map)
                    } else {
                        clone_opt_qos(&o.egress_qos_map)
                    },
                },
            ),
            (Some(n), None) => Some(n.clone()),
            (None, Some(o)) => Some(o.clone()),
            (None, None) => None,
        }
    }
}

} // verus!
