use vstd::prelude::*;
use vstd::string::*;

use crate::error::{ErrorKind, NipartError};
use crate::nmstate::iface_state::InterfaceState;
use crate::nmstate::merged::ifaces::MergedInterfaces;
use crate::nmstate::route::{
    clone_routes, names_contain, route_order, routes_key_sorted, sort_dedup_routes, RouteEntry, RouteState, Routes,
    LOOPBACK_IFACE_NAME,
};
use crate::text::{str_eq, str_to_string};

verus! {

/// Routes merged from a desired and a current state.
#[derive(Debug)]
#[non_exhaustive]
pub struct MergedRoutes {
    /// The merged routes, grouped by next hop interface; routes with a route
    /// type and no next hop interface go to the loopback interface. An
    /// interface whose routes are all removed has no group but is listed in
    /// `route_changed_ifaces`.
    pub merged: Vec<(String, Vec<RouteEntry>)>,
    /// Interfaces whose routes change.
    pub route_changed_ifaces: Vec<String>,
    /// Desired new routes and current routes marked absent; not including
    /// desired routes equal to current ones.
    pub changed_routes: Vec<RouteEntry>,
    pub desired: Routes,
    pub current: Routes,
}

/// The characters of each string.
pub open spec fn names_view(s: Seq<String>) -> Seq<Seq<char>> {
    s.map_values(|x: String| x@)
}

/// The interface a merged route is grouped under: its next hop interface,
/// or the loopback interface for a route with a route type.
pub open spec fn route_group(r: RouteEntry) -> Option<Seq<char>> {
    match r.next_hop_iface {
        Some(v) => Some(v@),
        None => if r.route_type is Some {
            Some(LOOPBACK_IFACE_NAME@)
        } else {
            None
        },
    }
}

/// Whether every route of each group is grouped under that group's name.
pub open spec fn groups_consistent(m: Seq<(String, Vec<RouteEntry>)>) -> bool {
    forall|g: int, k: int|
        0 <= g < m.len() && 0 <= k < m[g].1@.len() ==> route_group(#[trigger] m[g].1@[k]) == Some(m[g].0@)
}

fn add_name(v: &mut Vec<String>, n: &str)
    ensures
        names_view(final(v)@).contains(n@),
        forall|x: Seq<char>| names_view(old(v)@).contains(x) ==> #[trigger] names_view(final(v)@).contains(x),
        forall|x: Seq<char>| names_view(final(v)@).contains(x) ==> x == n@ || #[trigger] names_view(old(v)@).contains(x),
{
    if !names_contain(v, n) {
        let ghost before = v@;
        v.push(str_to_string(n));
        proof {
            assert(names_view(v@) =~= names_view(before).push(n@));
            assert(names_view(v@)[before.len() as int] == n@);
            assert forall|x: Seq<char>| names_view(before).contains(x) implies #[trigger] names_view(v@).contains(
                x,
            ) by {
                let k = choose|k: int| 0 <= k < names_view(before).len() && names_view(before)[k] == x;
                assert(names_view(v@)[k] == x);
            }
            assert forall|x: Seq<char>| names_view(v@).contains(x) implies x == n@ || #[trigger] names_view(
                before,
            ).contains(x) by {
                let k = choose|k: int| 0 <= k < names_view(v@).len() && names_view(v@)[k] == x;
                if k < before.len() {
                    assert(names_view(before)[k] == x);
                }
            }
        }
    }
}

fn add_to_group(m: &mut Vec<(String, Vec<RouteEntry>)>, name: &str, rt: RouteEntry)
    requires
        groups_consistent(old(m)@),
        route_group(rt) == Some(name@),
    ensures
        groups_consistent(final(m)@),
{
    let mut i: usize = 0;
    while i < m.len()
        invariant
            i <= m.len(),
            m@ == old(m)@,
            groups_consistent(old(m)@),
            route_group(rt) == Some(name@),
        decreases m.len() - i,
    {
        if str_eq(m[i].0.as_str(), name) {
            let ghost removed = m@[i as int];
            let (n, mut rts) = m.remove(i);
            assert(n == removed.0 && rts == removed.1);
            let ghost before_rts = rts@;
            rts.push(rt);
            let ghost mid = m@;
            m.insert(i, (n, rts));
            proof {
                assert forall|g: int, k: int|
                    0 <= g < m@.len() && 0 <= k < m@[g].1@.len() implies route_group(#[trigger] m@[g].1@[k])
                    == Some(m@[g].0@) by {
                    if g < i {
                        assert(m@[g] == old(m)@[g]);
                    } else if g > i {
                        assert(m@[g] == old(m)@[g]);
                    } else {
                        assert(m@[g].0 == n);
                        assert(n@ == name@);
                        if k < before_rts.len() {
                            assert(m@[g].1@[k] == old(m)@[g].1@[k]);
                        } else {
                            assert(m@[g].1@[k] == rt);
                        }
                    }
                }
            }
            return;
        }
        i += 1;
    }
    let mut rts: Vec<RouteEntry> = Vec::new();
    rts.push(rt);
    m.push((str_to_string(name), rts));
    proof {
        assert forall|g: int, k: int|
            0 <= g < m@.len() && 0 <= k < m@[g].1@.len() implies route_group(#[trigger] m@[g].1@[k]) == Some(
            m@[g].0@,
        ) by {
            if g < old(m)@.len() {
                assert(m@[g] == old(m)@[g]);
            }
        }
    }
}

/// The routes of an optional list; none when there is no list.
pub open spec fn routes_or_empty(o: Option<Seq<RouteEntry>>) -> Seq<RouteEntry> {
    match o {
        Some(c) => c,
        None => Seq::empty(),
    }
}

/// The routes of an optional list that are not marked ignored.
pub open spec fn kept_routes(o: Option<Seq<RouteEntry>>) -> Seq<RouteEntry> {
    match o {
        Some(c) => crate::nmstate::route::routes_without_state(c, RouteState::Ignore),
        None => Seq::empty(),
    }
}

/// Whether a changed route comes from the merge inputs: a current route
/// marked absent, or a desired route not marked absent, sanitized.
pub open spec fn changed_route_from(x: RouteEntry, current: Seq<RouteEntry>, desired: Seq<RouteEntry>) -> bool {
    ||| exists|i: int| 0 <= i < current.len() && x == crate::nmstate::route::marked_absent(#[trigger] current[i])
    ||| exists|i: int|
        0 <= i < desired.len() && (#[trigger] desired[i]).state != Some(RouteState::Absent)
            && crate::nmstate::route::route_sanitized_as(x, desired[i])
}

/// Each desired route, once sanitized, that is not absent and that no current
/// route matches (any, when there is no current route list) has its key
/// among the changed routes.
pub open spec fn added_routes_listed(
    changed: Seq<RouteEntry>,
    cur: Seq<RouteEntry>,
    has_current: bool,
    kept: Seq<RouteEntry>,
) -> bool {
    forall|n: RouteEntry, k: int|
        0 <= k < kept.len() && #[trigger] crate::nmstate::route::route_sanitized_as(n, kept[k]) && n.state != Some(
            RouteState::Absent,
        ) && !(has_current && current_matches(cur, n)) ==> crate::nmstate::route::has_key_in(changed, n)
}

/// An absent desired route, once sanitized, matches the route.
pub open spec fn absent_rule_matches(kept: Seq<RouteEntry>, rt: RouteEntry) -> bool {
    exists|k: int|
        0 <= k < kept.len() && (#[trigger] kept[k]).state == Some(RouteState::Absent) && forall|n: RouteEntry|
            #[trigger] crate::nmstate::route::route_sanitized_as(n, kept[k]) ==> crate::nmstate::route::route_matches(
                n,
                rt,
            )
}

/// A current route that the merge removes: it goes through an interface
/// that is absent or has the route's IP stack disabled, or an absent desired
/// route matches it.
pub open spec fn route_removed(
    rt: RouteEntry,
    kernel: Seq<crate::nmstate::merged::iface::MergedInterface>,
    kept: Seq<RouteEntry>,
) -> bool {
    rt.next_hop_iface matches Some(v) && (absent_iface_named(kernel, v@) || stack_disabled_named(
        kernel,
        v@,
        crate::nmstate::route::route_is_ipv6(rt),
    ) || absent_rule_matches(kept, rt))
}

proof fn lemma_push_keeps_contains(s: Seq<RouteEntry>, y: RouteEntry)
    ensures
        forall|x: RouteEntry| s.contains(x) ==> #[trigger] s.push(y).contains(x),
        s.push(y).contains(y),
{
    assert(s.push(y)[s.len() as int] == y);
    assert forall|x: RouteEntry| s.contains(x) implies #[trigger] s.push(y).contains(x) by {
        let w = choose|w: int| 0 <= w < s.len() && s[w] == x;
        assert(s.push(y)[w] == x);
    }
}

/// [added_routes_listed] for the first `upto` desired routes.
#[verifier::opaque]
spec fn added_upto(
    changed: Seq<RouteEntry>,
    cur: Seq<RouteEntry>,
    has_current: bool,
    kept: Seq<RouteEntry>,
    upto: int,
) -> bool {
    forall|n: RouteEntry, k: int|
        0 <= k < upto && #[trigger] crate::nmstate::route::route_sanitized_as(n, kept[k]) && n.state != Some(
            RouteState::Absent,
        ) && !(has_current && current_matches(cur, n)) ==> crate::nmstate::route::has_key_in(changed, n)
}

/// Two sanitized forms of one route share their key and their matches.
proof fn lemma_sanitized_alike(n1: RouteEntry, n2: RouteEntry, o: RouteEntry, z: RouteEntry)
    requires
        crate::nmstate::route::route_sanitized_as(n1, o),
        crate::nmstate::route::route_sanitized_as(n2, o),
    ensures
        route_order(n1, z) == route_order(n2, z),
        crate::nmstate::route::route_matches(z, n1) == crate::nmstate::route::route_matches(z, n2),
{
    reveal(route_order);
    assert(crate::nmstate::route::route_is_ipv6(n1) == crate::nmstate::route::route_is_ipv6(n2));
}

/// Routes of the same key as a third have the same key.
proof fn lemma_same_key_trans(a: RouteEntry, b: RouteEntry, c: RouteEntry)
    requires
        route_order(a, b) == 0,
        route_order(b, c) == 0,
    ensures
        route_order(a, c) == 0,
{
    reveal(route_order);
    crate::text::lemma_text_order_basics(crate::nmstate::route::text_or(a.next_hop_iface, "lo"@), crate::nmstate::route::text_or(b.next_hop_iface, "lo"@));
    crate::text::lemma_text_order_basics(crate::nmstate::route::text_or(a.destination, ""@), crate::nmstate::route::text_or(b.destination, ""@));
    crate::text::lemma_text_order_basics(crate::nmstate::route::text_or(a.next_hop_addr, ""@), crate::nmstate::route::text_or(b.next_hop_addr, ""@));
    crate::text::lemma_text_order_basics(crate::nmstate::route::text_or(a.source, ""@), crate::nmstate::route::text_or(b.source, ""@));
    crate::text::lemma_text_order_basics(crate::nmstate::route::text_or(b.next_hop_iface, "lo"@), crate::nmstate::route::text_or(c.next_hop_iface, "lo"@));
    crate::text::lemma_text_order_basics(crate::nmstate::route::text_or(b.destination, ""@), crate::nmstate::route::text_or(c.destination, ""@));
    crate::text::lemma_text_order_basics(crate::nmstate::route::text_or(b.next_hop_addr, ""@), crate::nmstate::route::text_or(c.next_hop_addr, ""@));
    crate::text::lemma_text_order_basics(crate::nmstate::route::text_or(b.source, ""@), crate::nmstate::route::text_or(c.source, ""@));
    crate::text::lemma_text_order_basics(crate::nmstate::route::text_or(a.next_hop_iface, "lo"@), crate::nmstate::route::text_or(c.next_hop_iface, "lo"@));
    crate::text::lemma_text_order_basics(crate::nmstate::route::text_or(a.destination, ""@), crate::nmstate::route::text_or(c.destination, ""@));
    crate::text::lemma_text_order_basics(crate::nmstate::route::text_or(a.next_hop_addr, ""@), crate::nmstate::route::text_or(c.next_hop_addr, ""@));
    crate::text::lemma_text_order_basics(crate::nmstate::route::text_or(a.source, ""@), crate::nmstate::route::text_or(c.source, ""@));
}

proof fn lemma_added_start(changed: Seq<RouteEntry>, cur: Seq<RouteEntry>, hc: bool, kept: Seq<RouteEntry>)
    ensures
        added_upto(changed, cur, hc, kept, 0),
{
    reveal(added_upto);
}

proof fn lemma_added_step(
    old_c: Seq<RouteEntry>,
    new_c: Seq<RouteEntry>,
    cur: Seq<RouteEntry>,
    hc: bool,
    kept: Seq<RouteEntry>,
    sane: RouteEntry,
    d: int,
)
    requires
        0 <= d < kept.len(),
        added_upto(old_c, cur, hc, kept, d),
        crate::nmstate::route::route_sanitized_as(sane, kept[d]),
        sane.state != Some(RouteState::Absent) && !(hc && current_matches(cur, sane))
            ==> crate::nmstate::route::has_key_in(new_c, sane),
        new_c == old_c || (exists|y: RouteEntry| new_c == old_c.push(y)),
    ensures
        added_upto(new_c, cur, hc, kept, d + 1),
{
    reveal(added_upto);
    assert forall|n: RouteEntry, k: int|
        0 <= k < d + 1 && #[trigger] crate::nmstate::route::route_sanitized_as(n, kept[k]) && n.state != Some(
            RouteState::Absent,
        ) && !(hc && current_matches(cur, n)) implies crate::nmstate::route::has_key_in(new_c, n) by {
        if k == d {
            assert forall|j: int| 0 <= j < cur.len() implies crate::nmstate::route::route_matches(#[trigger] cur[j], n)
                == crate::nmstate::route::route_matches(cur[j], sane) by {
                lemma_sanitized_alike(n, sane, kept[d], cur[j]);
            }
            assert(current_matches(cur, n) == current_matches(cur, sane));
            let i = choose|i: int| 0 <= i < new_c.len() && #[trigger] crate::nmstate::route::same_route_key(sane, new_c[i]);
            lemma_sanitized_alike(n, sane, kept[d], new_c[i]);
            assert(crate::nmstate::route::same_route_key(n, new_c[i]));
        } else {
            let i = choose|i: int| 0 <= i < old_c.len() && #[trigger] crate::nmstate::route::same_route_key(n, old_c[i]);
            if new_c != old_c {
                let y = choose|y: RouteEntry| new_c == old_c.push(y);
                assert(new_c[i] == old_c[i]);
            }
            assert(crate::nmstate::route::same_route_key(n, new_c[i]));
        }
    }
}

proof fn lemma_added_dedup(
    pre: Seq<RouteEntry>,
    out: Seq<RouteEntry>,
    cur: Seq<RouteEntry>,
    hc: bool,
    kept: Seq<RouteEntry>,
)
    requires
        added_upto(pre, cur, hc, kept, kept.len() as int),
        forall|j: int| 0 <= j < pre.len() ==> crate::nmstate::route::has_key_in(out, #[trigger] pre[j]),
    ensures
        added_routes_listed(out, cur, hc, kept),
{
    reveal(added_upto);
    assert forall|n: RouteEntry, k: int|
        0 <= k < kept.len() && #[trigger] crate::nmstate::route::route_sanitized_as(n, kept[k]) && n.state != Some(
            RouteState::Absent,
        ) && !(hc && current_matches(cur, n)) implies crate::nmstate::route::has_key_in(out, n) by {
        let i = choose|i: int| 0 <= i < pre.len() && #[trigger] crate::nmstate::route::same_route_key(n, pre[i]);
        assert(crate::nmstate::route::has_key_in(out, pre[i]));
        let q = choose|q: int| 0 <= q < out.len() && #[trigger] crate::nmstate::route::same_route_key(pre[i], out[q]);
        lemma_same_key_trans(n, pre[i], out[q]);
        assert(crate::nmstate::route::same_route_key(n, out[q]));
    }
}

/// Whether some current route matches a desired route.
pub open spec fn current_matches(cur: Seq<RouteEntry>, rt: RouteEntry) -> bool {
    exists|j: int| 0 <= j < cur.len() && crate::nmstate::route::route_matches(#[trigger] cur[j], rt)
}

/// Whether a merged kernel interface of the given name has the IPv4 (or,
/// for `v6`, the IPv6) stack disabled.
pub open spec fn stack_disabled_named(
    kernel: Seq<crate::nmstate::merged::iface::MergedInterface>,
    n: Seq<char>,
    v6: bool,
) -> bool {
    exists|i: int|
        0 <= i < kernel.len() && (#[trigger] kernel[i])@.merged.base.name@ == n && !(if v6 {
            kernel[i]@.merged.base.ipv6 matches Some(x) && x.enabled == Some(true)
        } else {
            kernel[i]@.merged.base.ipv4 matches Some(x) && x.enabled == Some(true)
        })
}

/// Whether the destination a route gets from sanitizing is an IPv6 network.
pub open spec fn sanitized_is_ipv6(o: RouteEntry) -> bool {
    crate::nmstate::route::sanitized_route_dst(o) matches Some(d) && d.contains(':')
}

/// Whether a desired route may not be merged: it is not marked absent and
/// its next hop interface is marked absent, or has the IP stack of its
/// (sanitized) destination disabled.
pub open spec fn next_hop_refused(o: RouteEntry, kernel: Seq<crate::nmstate::merged::iface::MergedInterface>) -> bool {
    o.state != Some(RouteState::Absent) && match o.next_hop_iface {
        Some(v) => absent_iface_named(kernel, v@) || stack_disabled_named(kernel, v@, sanitized_is_ipv6(o)),
        None => false,
    }
}

/// Whether merging the desired routes is refused: the routes not ignored
/// fail validation, or one fails to sanitize, or one may not be merged.
pub open spec fn routes_merge_refused(
    desired: Option<Seq<RouteEntry>>,
    kernel: Seq<crate::nmstate::merged::iface::MergedInterface>,
) -> bool {
    let f = kept_routes(desired);
    ||| crate::nmstate::route::routes_first_error(f) is Some
    ||| exists|k: int| 0 <= k < f.len() && (#[trigger] crate::nmstate::route::route_sanitize_error(f[k])) is Some
    ||| exists|k: int| 0 <= k < f.len() && #[trigger] next_hop_refused(f[k], kernel)
}

/// Whether a merged kernel interface of the given name has the given IP
/// stack disabled.
fn is_stack_disabled(merged_ifaces: &MergedInterfaces, name: &str, v6: bool) -> (r: bool)
    ensures
        r == stack_disabled_named(merged_ifaces.kernel_ifaces@, name@, v6),
{
    let mut i: usize = 0;
    while i < merged_ifaces.kernel_ifaces.len()
        invariant
            i <= merged_ifaces.kernel_ifaces.len(),
            forall|j: int|
                0 <= j < i ==> !((#[trigger] merged_ifaces.kernel_ifaces@[j])@.merged.base.name@ == name@ && !(if v6 {
                    merged_ifaces.kernel_ifaces@[j]@.merged.base.ipv6 matches Some(x) && x.enabled == Some(true)
                } else {
                    merged_ifaces.kernel_ifaces@[j]@.merged.base.ipv4 matches Some(x) && x.enabled == Some(true)
                })),
        decreases merged_ifaces.kernel_ifaces.len() - i,
    {
        let m = &merged_ifaces.kernel_ifaces[i].merged;
        let enabled = if v6 {
            m.base_iface().is_ipv6_enabled()
        } else {
            m.base_iface().is_ipv4_enabled()
        };
        if !enabled && str_eq(m.name(), name) {
            return true;
        }
        i += 1;
    }
    false
}

/// Whether a route that is not marked absent goes through an interface
/// marked absent.
pub open spec fn next_hop_absent(rt: RouteEntry, kernel: Seq<crate::nmstate::merged::iface::MergedInterface>) -> bool {
    rt.state != Some(RouteState::Absent) && match rt.next_hop_iface {
        Some(v) => absent_iface_named(kernel, v@),
        None => false,
    }
}

/// The model of route groups: each interface name with its routes.
pub open spec fn groups_view(g: Seq<(String, Vec<RouteEntry>)>) -> Seq<(Seq<char>, Seq<RouteEntry>)> {
    g.map_values(|p: (String, Vec<RouteEntry>)| (p.0@, p.1@))
}

/// Whether a merged kernel interface of the given name is ignored.
pub open spec fn ignored_iface_in(kernel: Seq<crate::nmstate::merged::iface::MergedInterface>, n: Seq<char>) -> bool {
    exists|i: int|
        0 <= i < kernel.len() && crate::nmstate::iface_state::state_is_ignore((#[trigger] kernel[i])@.merged.base.state)
            && kernel[i]@.merged.base.name@ == n
}

/// The route groups of interfaces that are not ignored, in order.
pub open spec fn groups_kept(
    g: Seq<(Seq<char>, Seq<RouteEntry>)>,
    kernel: Seq<crate::nmstate::merged::iface::MergedInterface>,
) -> Seq<(Seq<char>, Seq<RouteEntry>)>
    decreases g.len(),
{
    if g.len() == 0 {
        g
    } else if ignored_iface_in(kernel, g.last().0) {
        groups_kept(g.drop_last(), kernel)
    } else {
        groups_kept(g.drop_last(), kernel).push(g.last())
    }
}

/// The names of interfaces that are not ignored, in order.
pub open spec fn names_kept(n: Seq<Seq<char>>, kernel: Seq<crate::nmstate::merged::iface::MergedInterface>) -> Seq<
    Seq<char>,
>
    decreases n.len(),
{
    if n.len() == 0 {
        n
    } else if ignored_iface_in(kernel, n.last()) {
        names_kept(n.drop_last(), kernel)
    } else {
        names_kept(n.drop_last(), kernel).push(n.last())
    }
}

/// Whether a merged kernel interface of the given name is ignored.
fn is_ignored_iface(merged_ifaces: &MergedInterfaces, name: &str) -> (r: bool)
    ensures
        r == ignored_iface_in(merged_ifaces.kernel_ifaces@, name@),
{
    let mut i: usize = 0;
    while i < merged_ifaces.kernel_ifaces.len()
        invariant
            i <= merged_ifaces.kernel_ifaces.len(),
            forall|j: int|
                0 <= j < i ==> !(crate::nmstate::iface_state::state_is_ignore(
                    (#[trigger] merged_ifaces.kernel_ifaces@[j])@.merged.base.state,
                ) && merged_ifaces.kernel_ifaces@[j]@.merged.base.name@ == name@),
        decreases merged_ifaces.kernel_ifaces.len() - i,
    {
        let m = &merged_ifaces.kernel_ifaces[i].merged;
        if m.is_ignore() && str_eq(m.name(), name) {
            return true;
        }
        i += 1;
    }
    false
}

/// Whether a merged kernel interface of the given name is marked absent.
pub open spec fn absent_iface_named(kernel: Seq<crate::nmstate::merged::iface::MergedInterface>, n: Seq<char>) -> bool {
    exists|i: int|
        0 <= i < kernel.len() && (#[trigger] kernel[i])@.merged.base.state == InterfaceState::Absent
            && kernel[i]@.merged.base.name@ == n
}

/// Whether a merged kernel interface of the given name is marked absent.
fn is_absent_iface(merged_ifaces: &MergedInterfaces, name: &str) -> (r: bool)
    ensures
        r == absent_iface_named(merged_ifaces.kernel_ifaces@, name@),
{
    let mut i: usize = 0;
    while i < merged_ifaces.kernel_ifaces.len()
        invariant
            i <= merged_ifaces.kernel_ifaces.len(),
            forall|j: int|
                0 <= j < i ==> !((#[trigger] merged_ifaces.kernel_ifaces@[j])@.merged.base.state
                    == InterfaceState::Absent && merged_ifaces.kernel_ifaces@[j]@.merged.base.name@ == name@),
        decreases merged_ifaces.kernel_ifaces.len() - i,
    {
        let m = &merged_ifaces.kernel_ifaces[i].merged;
        if m.is_absent() && str_eq(m.name(), name) {
            return true;
        }
        i += 1;
    }
    false
}

fn any_absent_match(desired: &Vec<RouteEntry>, rt: &RouteEntry) -> (r: bool)
    ensures
        r == exists|i: int|
            0 <= i < desired@.len() && (#[trigger] desired@[i]).state == Some(RouteState::Absent)
                && crate::nmstate::route::route_matches(desired@[i], *rt),
{
    let mut i: usize = 0;
    while i < desired.len()
        invariant
            i <= desired.len(),
            forall|j: int|
                0 <= j < i ==> !((#[trigger] desired@[j]).state == Some(RouteState::Absent)
                    && crate::nmstate::route::route_matches(desired@[j], *rt)),
        decreases desired.len() - i,
    {
        if desired[i].is_absent() && desired[i].is_match(rt) {
            return true;
        }
        i += 1;
    }
    false
}

fn any_match(cur: &Vec<RouteEntry>, rt: &RouteEntry) -> (r: bool)
    ensures
        r == current_matches(cur@, *rt),
{
    let mut i: usize = 0;
    while i < cur.len()
        invariant
            i <= cur.len(),
            forall|j: int| 0 <= j < i ==> !crate::nmstate::route::route_matches(#[trigger] cur@[j], *rt),
        decreases cur.len() - i,
    {
        if cur[i].is_match(rt) {
            return true;
        }
        i += 1;
    }
    false
}

fn next_hop_error(rt: &RouteEntry, what: &str) -> (r: NipartError)
    ensures
        r.kind == ErrorKind::InvalidArgument,
{
    let mut msg = str_to_string("The next hop interface of desired Route to ");
    match &rt.destination {
        Some(d) => msg.append(d.as_str()),
        None => {},
    }
    msg.append(" has been marked as ");
    msg.append(what);
    NipartError::new(ErrorKind::InvalidArgument, msg)
}

/// Sanitize each route, in order; refused at the first one that fails.
fn sanitize_routes(rts: &Vec<RouteEntry>) -> (r: Result<Vec<RouteEntry>, NipartError>)
    ensures
        r is Err <==> exists|k: int|
            0 <= k < rts@.len() && (#[trigger] crate::nmstate::route::route_sanitize_error(rts@[k])) is Some,
        r matches Ok(v) ==> v@.len() == rts@.len() && forall|k: int|
            0 <= k < rts@.len() ==> crate::nmstate::route::route_sanitized_as(#[trigger] v@[k], rts@[k]),
        r matches Err(e) ==> e.kind == ErrorKind::InvalidArgument || e.kind == ErrorKind::NoSupport,
{
    let mut out: Vec<RouteEntry> = Vec::new();
    let mut i: usize = 0;
    while i < rts.len()
        invariant
            i <= rts.len(),
            out@.len() == i,
            forall|k: int| 0 <= k < i ==> (#[trigger] crate::nmstate::route::route_sanitize_error(rts@[k])) is None,
            forall|k: int| 0 <= k < i ==> crate::nmstate::route::route_sanitized_as(#[trigger] out@[k], rts@[k]),
        decreases rts.len() - i,
    {
        let mut rt = rts[i].clone();
        match rt.sanitize() {
            Ok(()) => {},
            Err(e) => {
                assert(crate::nmstate::route::route_sanitize_error(rts@[i as int]) is Some);
                return Err(e);
            },
        }
        out.push(rt);
        i += 1;
    }
    Ok(out)
}

/// Check the next hop of each desired route not marked absent, and list the
/// interfaces whose routes are added: the next hop interface, or the
/// loopback interface for a route with a route type.
fn check_next_hops(
    desired_routes: &Vec<RouteEntry>,
    merged_ifaces: &MergedInterfaces,
    Ghost(filtered): Ghost<Seq<RouteEntry>>,
) -> (r: Result<Vec<String>, NipartError>)
    requires
        desired_routes@.len() == filtered.len(),
        forall|k: int|
            0 <= k < filtered.len() ==> crate::nmstate::route::route_sanitized_as(
                #[trigger] desired_routes@[k],
                filtered[k],
            ),
    ensures
        r is Err <==> exists|k: int|
            0 <= k < filtered.len() && #[trigger] next_hop_refused(filtered[k], merged_ifaces.kernel_ifaces@),
        r matches Err(e) ==> e.kind == ErrorKind::InvalidArgument,
{
    let mut changed_ifaces: Vec<String> = Vec::new();
    let mut i: usize = 0;
    while i < desired_routes.len()
        invariant
            i <= desired_routes.len(),
            desired_routes@.len() == filtered.len(),
            forall|k: int|
                0 <= k < filtered.len() ==> crate::nmstate::route::route_sanitized_as(
                    #[trigger] desired_routes@[k],
                    filtered[k],
                ),
            forall|k: int| 0 <= k < i ==> !next_hop_refused(#[trigger] filtered[k], merged_ifaces.kernel_ifaces@),
        decreases desired_routes.len() - i,
    {
        let rt = &desired_routes[i];
        let ghost ki = i as int;
        proof {
            assert(crate::nmstate::route::route_sanitized_as(desired_routes@[ki], filtered[ki]));
            assert(crate::nmstate::route::route_is_ipv6(desired_routes@[ki]) == sanitized_is_ipv6(filtered[ki]));
        }
        i += 1;
        if rt.is_absent() {
            continue;
        }
        if let Some(via) = &rt.next_hop_iface {
            if is_absent_iface(merged_ifaces, via.as_str()) {
                assert(next_hop_refused(filtered[ki], merged_ifaces.kernel_ifaces@));
                return Err(next_hop_error(rt, "absent"));
            }
            if rt.is_ipv6() && is_stack_disabled(merged_ifaces, via.as_str(), true) {
                assert(next_hop_refused(filtered[ki], merged_ifaces.kernel_ifaces@));
                return Err(next_hop_error(rt, "IPv6 disabled"));
            }
            if !rt.is_ipv6() && is_stack_disabled(merged_ifaces, via.as_str(), false) {
                assert(next_hop_refused(filtered[ki], merged_ifaces.kernel_ifaces@));
                return Err(next_hop_error(rt, "IPv4 disabled"));
            }
            add_name(&mut changed_ifaces, via.as_str());
        } else if rt.route_type.is_some() {
            proof {
                reveal_strlit("lo");
            }
            add_name(&mut changed_ifaces, LOOPBACK_IFACE_NAME);
        }
    }
    Ok(changed_ifaces)
}

impl MergedRoutes {
    /// Merge desired routes over current ones, given the merged interfaces.
    /// Ignored desired routes are dropped; the desired routes are validated
    /// and sanitized; a desired route may not go through an interface marked
    /// absent or with the route's IP stack disabled. Current routes through
    /// such interfaces, or matched by a desired absent route, are removed;
    /// the others are kept and the desired ones added. The merged routes are
    /// grouped by interface; interfaces marked ignored keep their routes.
    #[verifier::rlimit(40)]
    pub fn new(desired: Routes, current: Routes, merged_ifaces: &MergedInterfaces) -> (r: Result<
        Self,
        NipartError,
    >)
        ensures
            r is Err <==> routes_merge_refused(desired@.config, merged_ifaces.kernel_ifaces@),
            r matches Err(e) ==> e.kind == ErrorKind::InvalidArgument || e.kind == ErrorKind::NoSupport
                || crate::nmstate::route::routes_first_error(kept_routes(desired@.config)) == Some(e.kind),
            r is Err && crate::nmstate::route::routes_first_error(kept_routes(desired@.config)) is Some
                ==> Some(r->Err_0.kind) == crate::nmstate::route::routes_first_error(kept_routes(desired@.config)),
            r is Err && crate::nmstate::route::routes_first_error(kept_routes(desired@.config)) is None
                && (forall|k: int|
                0 <= k < kept_routes(desired@.config).len() ==> (#[trigger] crate::nmstate::route::route_sanitize_error(
                    kept_routes(desired@.config)[k],
                )) is None) ==> r->Err_0.kind == ErrorKind::InvalidArgument,
            r matches Ok(m) ==> groups_consistent(m.merged@),
            r matches Ok(m) ==> m.current@ == current@,
            r matches Ok(m) ==> routes_key_sorted(m.changed_routes@),
            r matches Ok(m) ==> m.desired@.config == match desired@.config {
                Some(s) => Some(crate::nmstate::route::routes_without_state(s, RouteState::Ignore)),
                None => None,
            },
            r is Ok && desired@.config is Some ==> forall|k: int|
                0 <= k < crate::nmstate::route::routes_without_state(desired@.config->0, RouteState::Ignore).len()
                    ==> #[trigger] crate::nmstate::route::route_sanitize_error(
                    crate::nmstate::route::routes_without_state(desired@.config->0, RouteState::Ignore)[k],
                ) is None,
            r matches Ok(m) ==> forall|k: int|
                0 <= k < m.changed_routes@.len() ==> #[trigger] changed_route_from(
                    m.changed_routes@[k],
                    routes_or_empty(current@.config),
                    kept_routes(desired@.config),
                ),
            r matches Ok(m) ==> forall|k: int|
                0 <= k < routes_or_empty(current@.config).len() && #[trigger] route_removed(
                    routes_or_empty(current@.config)[k],
                    merged_ifaces.kernel_ifaces@,
                    kept_routes(desired@.config),
                ) ==> crate::nmstate::route::has_key_in(
                    m.changed_routes@,
                    crate::nmstate::route::marked_absent(routes_or_empty(current@.config)[k]),
                ),
            r matches Ok(m) ==> added_routes_listed(
                m.changed_routes@,
                routes_or_empty(current@.config),
                current@.config is Some,
                kept_routes(desired@.config),
            ),
            r is Ok && desired@.config is Some ==> forall|k: int|
                0 <= k < crate::nmstate::route::routes_without_state(desired@.config->0, RouteState::Ignore).len()
                    ==> !next_hop_absent(
                    #[trigger] crate::nmstate::route::routes_without_state(desired@.config->0, RouteState::Ignore)[k],
                    merged_ifaces.kernel_ifaces@,
                ),
    {
        let ghost given = desired@;
        let mut desired = desired;
        desired.remove_ignored_routes();
        match desired.validate() {
            Ok(()) => {},
            Err(e) => return Err(e),
        }
        let ghost kept = desired@;
        assert(kept_routes(given.config) == routes_or_empty(kept.config));
        let empty: Vec<RouteEntry> = Vec::new();
        let rts: &Vec<RouteEntry> = match &desired.config {
            Some(c) => c,
            None => &empty,
        };
        let desired_routes = match sanitize_routes(rts) {
            Ok(v) => v,
            Err(e) => return Err(e),
        };
        let mut changed_routes: Vec<RouteEntry> = Vec::new();
        let ghost sane = desired_routes@;
        let ghost filtered: Seq<RouteEntry> = kept_routes(given.config);
        assert(rts@ == filtered);
        let mut changed_ifaces = match check_next_hops(&desired_routes, merged_ifaces, Ghost(filtered)) {
            Ok(c) => c,
            Err(e) => return Err(e),
        };
        proof {
            assert(!routes_merge_refused(given.config, merged_ifaces.kernel_ifaces@));
            assert forall|k: int| 0 <= k < sane.len() implies (#[trigger] sane[k]).state == filtered[k].state
                && sane[k].next_hop_iface == filtered[k].next_hop_iface by {
                assert(crate::nmstate::route::route_sanitized_as(sane[k], filtered[k]));
            }
            assert forall|k: int| 0 <= k < filtered.len() implies !next_hop_absent(
                #[trigger] filtered[k],
                merged_ifaces.kernel_ifaces@,
            ) by {
                assert(!next_hop_refused(filtered[k], merged_ifaces.kernel_ifaces@));
            }
        }
        let cur_rts: Vec<RouteEntry> = match &current.config {
            Some(c) => clone_routes(c),
            None => Vec::new(),
        };
        let ghost cur_view: Seq<RouteEntry> = routes_or_empty(current@.config);
        assert(cur_rts@ == cur_view);
        let mut a: usize = 0;
        while a < desired_routes.len()
            invariant
                a <= desired_routes.len(),
            decreases desired_routes.len() - a,
        {
            let absent_rt = &desired_routes[a];
            a += 1;
            if !absent_rt.is_absent() {
                continue;
            }
            let mut c: usize = 0;
            while c < cur_rts.len()
                invariant
                    c <= cur_rts.len(),
                decreases cur_rts.len() - c,
            {
                let rt = &cur_rts[c];
                c += 1;
                if absent_rt.is_match(rt) {
                    match &rt.next_hop_iface {
                        Some(via) => add_name(&mut changed_ifaces, via.as_str()),
                        None => add_name(&mut changed_ifaces, LOOPBACK_IFACE_NAME),
                    }
                }
            }
        }
        let mut merged_routes: Vec<RouteEntry> = Vec::new();
        assert(changed_routes@.len() == 0);
        let mut c: usize = 0;
        while c < cur_rts.len()
            invariant
                c <= cur_rts.len(),
                cur_rts@ == cur_view,
                forall|k: int|
                    0 <= k < changed_routes@.len() ==> #[trigger] changed_route_from(
                        changed_routes@[k],
                        cur_view,
                        filtered,
                    ),
                sane == desired_routes@,
                sane.len() == filtered.len(),
                forall|k: int|
                    0 <= k < sane.len() ==> (#[trigger] sane[k]).state == filtered[k].state
                        && crate::nmstate::route::route_sanitized_as(sane[k], filtered[k]),
                forall|k: int|
                    0 <= k < c && #[trigger] route_removed(cur_view[k], merged_ifaces.kernel_ifaces@, filtered)
                        ==> changed_routes@.contains(crate::nmstate::route::marked_absent(cur_view[k])),
            decreases cur_rts.len() - c,
        {
            let rt = &cur_rts[c];
            let ghost ci = c as int;
            let ghost before = changed_routes@;
            c += 1;
            proof {
                if absent_rule_matches(filtered, cur_view[ci]) {
                    let k = choose|k: int|
                        0 <= k < filtered.len() && (#[trigger] filtered[k]).state == Some(RouteState::Absent)
                            && forall|n: RouteEntry|
                            #[trigger] crate::nmstate::route::route_sanitized_as(n, filtered[k])
                                ==> crate::nmstate::route::route_matches(n, cur_view[ci]);
                    assert(crate::nmstate::route::route_sanitized_as(sane[k], filtered[k]));
                    assert(sane[k].state == Some(RouteState::Absent));
                }
            }
            if let Some(via) = &rt.next_hop_iface {
                let gone = is_absent_iface(merged_ifaces, via.as_str()) || is_stack_disabled(
                    merged_ifaces,
                    via.as_str(),
                    rt.is_ipv6(),
                ) || any_absent_match(
                    &desired_routes,
                    rt,
                );
                if gone {
                    let mut new_rt = rt.clone();
                    new_rt.state = Some(RouteState::Absent);
                    assert(new_rt == crate::nmstate::route::marked_absent(cur_view[ci]));
                    changed_routes.push(new_rt);
                    proof {
                        assert(changed_route_from(changed_routes@[changed_routes@.len() - 1], cur_view, filtered));
                        lemma_push_keeps_contains(before, new_rt);
                        assert(changed_routes@[before.len() as int] == new_rt);
                    }
                } else {
                    merged_routes.push(rt.clone());
                }
            }
        }
        proof {
            lemma_added_start(changed_routes@, cur_view, current@.config is Some, filtered);
        }
        let mut d: usize = 0;
        while d < desired_routes.len()
            invariant
                d <= desired_routes.len(),
                cur_rts@ == cur_view,
                added_upto(changed_routes@, cur_view, current@.config is Some, filtered, d as int),
                forall|k: int|
                    0 <= k < cur_view.len() && #[trigger] route_removed(cur_view[k], merged_ifaces.kernel_ifaces@, filtered)
                        ==> changed_routes@.contains(crate::nmstate::route::marked_absent(cur_view[k])),
                sane == desired_routes@,
                sane.len() == filtered.len(),
                forall|k: int|
                    0 <= k < sane.len() ==> (#[trigger] sane[k]).state == filtered[k].state
                        && crate::nmstate::route::route_sanitized_as(sane[k], filtered[k]),
                forall|k: int|
                    0 <= k < changed_routes@.len() ==> #[trigger] changed_route_from(
                        changed_routes@[k],
                        cur_view,
                        filtered,
                    ),
            decreases desired_routes.len() - d,
        {
            let rt = &desired_routes[d];
            let ghost di = d as int;
            let ghost before = changed_routes@;
            d += 1;
            if rt.is_absent() {
                proof {
                    lemma_added_step(before, changed_routes@, cur_view, current@.config is Some, filtered, sane[di], di);
                }
                continue;
            }
            proof {
                assert(sane[di].state == filtered[di].state);
                assert(changed_route_from(sane[di], cur_view, filtered));
            }
            if current.config.is_some() {
                if !any_match(&cur_rts, rt) {
                    changed_routes.push(rt.clone());
                }
            } else {
                changed_routes.push(rt.clone());
            }
            proof {
                if changed_routes@ != before {
                    let last = changed_routes@.len() - 1;
                    crate::nmstate::route::lemma_route_order_antisym(sane[di], sane[di]);
                    assert(changed_routes@[last] == sane[di]);
                    assert(crate::nmstate::route::same_route_key(sane[di], changed_routes@[last]));
                    assert(changed_routes@ == before.push(changed_routes@[last]));
                    lemma_push_keeps_contains(before, changed_routes@[last]);
                }
                lemma_added_step(before, changed_routes@, cur_view, current@.config is Some, filtered, sane[di], di);
            }
            merged_routes.push(rt.clone());
        }
        let merged_routes = sort_dedup_routes(&merged_routes);
        let mut merged: Vec<(String, Vec<RouteEntry>)> = Vec::new();
        let mut g: usize = 0;
        while g < merged_routes.len()
            invariant
                g <= merged_routes.len(),
                groups_consistent(merged@),
            decreases merged_routes.len() - g,
        {
            let rt = merged_routes[g].clone();
            g += 1;
            match &rt.next_hop_iface {
                Some(via) => {
                    let name = via.clone();
                    add_to_group(&mut merged, name.as_str(), rt);
                },
                None => {
                    if rt.route_type.is_some() {
                        proof {
                            reveal_strlit("lo");
                        }
                        add_to_group(&mut merged, LOOPBACK_IFACE_NAME, rt);
                    }
                },
            }
        }
        let ghost pre_changed = changed_routes@;
        let changed_routes = sort_dedup_routes(&changed_routes);
        proof {
            lemma_added_dedup(pre_changed, changed_routes@, cur_view, current@.config is Some, filtered);
            assert forall|k: int|
                0 <= k < cur_view.len() && #[trigger] route_removed(cur_view[k], merged_ifaces.kernel_ifaces@, filtered)
                    implies crate::nmstate::route::has_key_in(
                    changed_routes@,
                    crate::nmstate::route::marked_absent(cur_view[k]),
                ) by {
                let w = choose|w: int|
                    0 <= w < pre_changed.len() && pre_changed[w] == crate::nmstate::route::marked_absent(cur_view[k]);
                assert(crate::nmstate::route::has_key_in(changed_routes@, pre_changed[w]));
            }
            assert forall|k: int| 0 <= k < changed_routes@.len() implies #[trigger] changed_route_from(
                changed_routes@[k],
                cur_view,
                filtered,
            ) by {
                assert(pre_changed.contains(changed_routes@[k]));
                let w = choose|w: int| 0 <= w < pre_changed.len() && pre_changed[w] == changed_routes@[k];
                assert(changed_route_from(pre_changed[w], cur_view, filtered));
            }
        }
        let mut ret = MergedRoutes {
            merged,
            desired,
            current,
            route_changed_ifaces: changed_ifaces,
            changed_routes,
        };
        ret.remove_routes_to_ignored_ifaces(merged_ifaces);
        proof {
            assert(filtered == kept_routes(given.config));
        }
        Ok(ret)
    }

    /// Routes of interfaces marked ignored are left alone: their groups and
    /// their entries in the changed interfaces are dropped, and only those.
    fn remove_routes_to_ignored_ifaces(&mut self, merged_ifaces: &MergedInterfaces)
        requires
            groups_consistent(old(self).merged@),
        ensures
            groups_consistent(final(self).merged@),
            groups_view(final(self).merged@) == groups_kept(groups_view(old(self).merged@), merged_ifaces.kernel_ifaces@),
            names_view(final(self).route_changed_ifaces@) == names_kept(
                names_view(old(self).route_changed_ifaces@),
                merged_ifaces.kernel_ifaces@,
            ),
            final(self).changed_routes@ == old(self).changed_routes@,
            final(self).current@ == old(self).current@,
            final(self).desired@ == old(self).desired@,
    {
        let ghost kifs = merged_ifaces.kernel_ifaces@;
        let mut kept: Vec<(String, Vec<RouteEntry>)> = Vec::new();
        let mut old_groups: Vec<(String, Vec<RouteEntry>)> = Vec::new();
        old_groups.append(&mut self.merged);
        let ghost og = old_groups@;
        let mut i: usize = 0;
        while i < old_groups.len()
            invariant
                i <= old_groups.len(),
                old_groups@ == og,
                kifs == merged_ifaces.kernel_ifaces@,
                groups_consistent(og),
                groups_consistent(kept@),
                groups_view(kept@) == groups_kept(groups_view(og).take(i as int), kifs),
            decreases old_groups.len() - i,
        {
            proof {
                assert(groups_view(og).take(i + 1).drop_last() =~= groups_view(og).take(i as int));
            }
            if !is_ignored_iface(merged_ifaces, old_groups[i].0.as_str()) {
                let ghost before = kept@;
                let (n, rts) = &old_groups[i];
                kept.push((n.clone(), clone_routes(rts)));
                proof {
                    assert(groups_view(kept@) =~= groups_view(before).push(groups_view(og)[i as int]));
                    assert forall|g: int, k: int|
                        0 <= g < kept@.len() && 0 <= k < kept@[g].1@.len() implies route_group(
                            #[trigger] kept@[g].1@[k],
                        ) == Some(kept@[g].0@) by {
                        if g < before.len() {
                            assert(kept@[g] == before[g]);
                        } else {
                            assert(kept@[g].1@[k] == og[i as int].1@[k]);
                        }
                    }
                }
            }
            i += 1;
        }
        proof {
            assert(groups_view(og).take(og.len() as int) =~= groups_view(og));
        }
        self.merged = kept;
        let ghost on = names_view(self.route_changed_ifaces@);
        let mut names: Vec<String> = Vec::new();
        let mut j: usize = 0;
        while j < self.route_changed_ifaces.len()
            invariant
                j <= self.route_changed_ifaces.len(),
                on == names_view(self.route_changed_ifaces@),
                kifs == merged_ifaces.kernel_ifaces@,
                names_view(names@) == names_kept(on.take(j as int), kifs),
            decreases self.route_changed_ifaces.len() - j,
        {
            proof {
                assert(on.take(j + 1).drop_last() =~= on.take(j as int));
            }
            if !is_ignored_iface(merged_ifaces, self.route_changed_ifaces[j].as_str()) {
                let ghost before = names@;
                names.push(self.route_changed_ifaces[j].clone());
                proof {
                    assert(names_view(names@) =~= names_view(before).push(on[j as int]));
                }
            }
            j += 1;
        }
        proof {
            assert(on.take(on.len() as int) =~= on);
        }
        self.route_changed_ifaces = names;
    }

    /// Whether the routes of some interface change.
    pub fn is_changed(&self) -> (r: bool)
        ensures
            r == (self.route_changed_ifaces@.len() > 0),
    {
        self.route_changed_ifaces.len() > 0
    }

    /// The routes to apply: the changed routes.
    pub fn gen_state_for_apply(&self) -> (r: Routes)
        ensures
            r@.running is None,
            r@.config == Some(self.changed_routes@),
    {
        Routes { running: None, config: Some(clone_routes(&self.changed_routes)) }
    }
}

} // verus!
