use vstd::prelude::*;
use vstd::string::*;

use crate::error::{ErrorKind, NipartError};
use crate::nmstate::ip::{
    all_dec_digits, dec_digit_exec, dec_value, ip_display, ip_text_addr, ip_to_string, ipv4_text_ok, ipv4_text_value,
    is_dec_digit, is_ipv6_addr, lemma_split_contains_sep, lemma_split_on_nonempty, parse_ip, parse_ipv4,
    sanitize_ip_network, sanitized_ip_network, split_chars, split_on, str_chars,
};
use crate::text::{
    clone_opt_str, decimal_string, lemma_text_order_basics, opt_str_eq, opt_str_is, opt_str_view, opt_vec_view, str_order, str_to_string,
    text_order,
};

verus! {

/// Name of the loopback interface, which blackhole-like routes go to.
pub const LOOPBACK_IFACE_NAME: &'static str = "lo";

/// Main route table ID.
pub const DEFAULT_TABLE_ID: u32 = 254;

/// Route state given when applying.
#[derive(Debug, Clone, Copy, PartialEq, Eq, Structural)]
#[non_exhaustive]
pub enum RouteState {
    /// Mark a route entry as absent to remove it.
    Absent,
    /// Mark a route as ignored
    Ignore,
}

/// Route type of a route that has no next hop.
#[derive(Debug, Clone, Copy, PartialEq, Eq, Structural)]
#[non_exhaustive]
pub enum RouteType {
    Blackhole,
    Unreachable,
    Prohibit,
}

/// Kernel route type number.
pub open spec fn route_type_number(t: RouteType) -> u8 {
    match t {
        RouteType::Blackhole => 6,
        RouteType::Unreachable => 7,
        RouteType::Prohibit => 8,
    }
}

impl RouteType {
    /// Kernel route type number (`RTN_BLACKHOLE` and so on).
    pub fn to_u8(&self) -> (r: u8)
        ensures
            r == route_type_number(*self),
    {
        match self {
            RouteType::Blackhole => 6,
            RouteType::Unreachable => 7,
            RouteType::Prohibit => 8,
        }
    }
}

/// Route entry
#[derive(Debug)]
#[non_exhaustive]
pub struct RouteEntry {
    /// Only used for delete route when applying.
    pub state: Option<RouteState>,
    /// Route destination address or network
    pub destination: Option<String>,
    /// Route next hop interface name.
    pub next_hop_iface: Option<String>,
    /// Route next hop IP address.
    pub next_hop_addr: Option<String>,
    /// Route metric.
    pub metric: Option<i64>,
    /// Route table id.
    pub table_id: Option<u32>,
    /// ECMP(Equal-Cost Multi-Path) route weight, 1 to 256.
    pub weight: Option<u16>,
    /// Route type
    pub route_type: Option<RouteType>,
    /// Congestion window clamp
    pub cwnd: Option<u32>,
    /// Route source address
    pub source: Option<String>,
    /// Initial congestion window size
    pub initcwnd: Option<u32>,
    /// Initial receive window size
    pub initrwnd: Option<u32>,
    /// MTU
    pub mtu: Option<u32>,
    /// Enable quickack will disable disables delayed acknowledgments.
    pub quickack: Option<bool>,
    /// Maximal Segment Size to advertise for TCP connections
    pub advmss: Option<u32>,
}

impl Clone for RouteEntry {
    fn clone(&self) -> (r: Self)
        ensures
            r == *self,
    {
        RouteEntry {
            state: self.state,
            destination: clone_opt_str(&self.destination),
            next_hop_iface: clone_opt_str(&self.next_hop_iface),
            next_hop_addr: clone_opt_str(&self.next_hop_addr),
            metric: self.metric,
            table_id: self.table_id,
            weight: self.weight,
            route_type: self.route_type,
            cwnd: self.cwnd,
            source: clone_opt_str(&self.source),
            initcwnd: self.initcwnd,
            initrwnd: self.initrwnd,
            mtu: self.mtu,
            quickack: self.quickack,
            advmss: self.advmss,
        }
    }
}

/// A route with every property undefined.
pub open spec fn empty_route() -> RouteEntry {
    RouteEntry {
        state: None,
        destination: None,
        next_hop_iface: None,
        next_hop_addr: None,
        metric: None,
        table_id: None,
        weight: None,
        route_type: None,
        cwnd: None,
        source: None,
        initcwnd: None,
        initrwnd: None,
        mtu: None,
        quickack: None,
        advmss: None,
    }
}

impl Default for RouteEntry {
    fn default() -> (r: Self)
        ensures
            r == empty_route(),
    {
        RouteEntry {
            state: None,
            destination: None,
            next_hop_iface: None,
            next_hop_addr: None,
            metric: None,
            table_id: None,
            weight: None,
            route_type: None,
            cwnd: None,
            source: None,
            initcwnd: None,
            initrwnd: None,
            mtu: None,
            quickack: None,
            advmss: None,
        }
    }
}

/// Whether an optional property of a desired route accepts the one of another:
/// undefined accepts anything.
pub open spec fn prop_accepts<T>(want: Option<T>, have: Option<T>) -> bool {
    want is None || want == have
}

/// [prop_accepts] for text properties, compared by their characters.
pub open spec fn text_prop_accepts(want: Option<String>, have: Option<String>) -> bool {
    want is None || opt_str_view(want) == opt_str_view(have)
}

/// Whether desired route `d` matches route `o`: every property `d` defines
/// (but the metric) is the same in `o`. An empty destination and table ID 0
/// (the default table) match anything too; an empty next hop address matches
/// only routes without one.
pub open spec fn route_matches(d: RouteEntry, o: RouteEntry) -> bool {
    &&& (opt_str_view(d.destination) == Some(""@) || text_prop_accepts(d.destination, o.destination))
    &&& text_prop_accepts(d.next_hop_iface, o.next_hop_iface)
    &&& if opt_str_view(d.next_hop_addr) == Some(""@) {
        o.next_hop_addr is None || opt_str_view(o.next_hop_addr) == Some(""@)
    } else {
        text_prop_accepts(d.next_hop_addr, o.next_hop_addr)
    }
    &&& (d.table_id == Some(0u32) || prop_accepts(d.table_id, o.table_id))
    &&& prop_accepts(d.weight, o.weight)
    &&& prop_accepts(d.route_type, o.route_type)
    &&& prop_accepts(d.cwnd, o.cwnd)
    &&& text_prop_accepts(d.source, o.source)
    &&& prop_accepts(d.initcwnd, o.initcwnd)
    &&& prop_accepts(d.initrwnd, o.initrwnd)
    &&& prop_accepts(d.mtu, o.mtu)
    &&& prop_accepts(d.quickack, o.quickack)
    &&& prop_accepts(d.advmss, o.advmss)
}

/// A desired route matches only routes that agree with it on every
/// property it defines, the metric aside: its next hop interface, its
/// destination (unless empty), its next hop address (an empty one matches
/// only routes without one), its table (unless the main table 0), its
/// source, and each numeric option.
pub proof fn law_match_agrees_on_defined(d: RouteEntry, o: RouteEntry)
    requires
        route_matches(d, o),
    ensures
        d.next_hop_iface is Some ==> opt_str_view(o.next_hop_iface) == opt_str_view(d.next_hop_iface),
        (d.destination matches Some(x) && x@ != ""@) ==> opt_str_view(o.destination) == opt_str_view(d.destination),
        (d.next_hop_addr matches Some(x) && x@ != ""@) ==> opt_str_view(o.next_hop_addr) == opt_str_view(
            d.next_hop_addr,
        ),
        (d.next_hop_addr matches Some(x) && x@ == ""@) ==> (o.next_hop_addr is None || opt_str_view(o.next_hop_addr)
            == Some(""@)),
        (d.table_id matches Some(t) && t != 0) ==> o.table_id == d.table_id,
        d.source is Some ==> opt_str_view(o.source) == opt_str_view(d.source),
        d.weight is Some ==> o.weight == d.weight,
        d.route_type is Some ==> o.route_type == d.route_type,
        d.cwnd is Some ==> o.cwnd == d.cwnd,
        d.initcwnd is Some ==> o.initcwnd == d.initcwnd,
        d.initrwnd is Some ==> o.initrwnd == d.initrwnd,
        d.mtu is Some ==> o.mtu == d.mtu,
        d.quickack is Some ==> o.quickack == d.quickack,
        d.advmss is Some ==> o.advmss == d.advmss,
{
}

fn u32_accepts(want: Option<u32>, have: Option<u32>) -> (r: bool)
    ensures
        r == prop_accepts(want, have),
{
    match (want, have) {
        (None, _) => true,
        (Some(a), Some(b)) => a == b,
        _ => false,
    }
}

fn text_accepts(want: &Option<String>, have: &Option<String>) -> (r: bool)
    ensures
        r == text_prop_accepts(*want, *have),
{
    want.is_none() || opt_str_eq(want, have)
}

/// Whether a route has a destination that is an IPv6 network.
pub open spec fn route_is_ipv6(r: RouteEntry) -> bool {
    r.destination matches Some(d) && d@.contains(':')
}

impl RouteEntry {
    /// Metric meaning the default of the network backend.
    pub const USE_DEFAULT_METRIC: i64 = -1;
    /// Table ID meaning the main route table 254.
    pub const USE_DEFAULT_ROUTE_TABLE: u32 = 0;

    /// Whether the route is marked absent.
    pub fn is_absent(&self) -> (r: bool)
        ensures
            r == (self.state == Some(RouteState::Absent)),
    {
        matches!(self.state, Some(RouteState::Absent))
    }

    /// Whether the route is marked ignored.
    pub fn is_ignore(&self) -> (r: bool)
        ensures
            r == (self.state == Some(RouteState::Ignore)),
    {
        matches!(self.state, Some(RouteState::Ignore))
    }

    /// Whether the destination is an IPv6 network.
    pub fn is_ipv6(&self) -> (r: bool)
        ensures
            r == route_is_ipv6(*self),
    {
        match &self.destination {
            Some(d) => is_ipv6_addr(d.as_str()),
            None => false,
        }
    }

    /// Whether the route is a unicast route (has no route type).
    pub fn is_unicast(&self) -> (r: bool)
        ensures
            r == (self.route_type is None),
    {
        self.route_type.is_none()
    }

    /// Whether this desired route matches `other`, the metric left aside.
    pub fn is_match(&self, other: &Self) -> (r: bool)
        ensures
            r == route_matches(*self, *other),
    {
        if !(opt_str_is(&self.destination, "") || text_accepts(&self.destination, &other.destination)) {
            return false;
        }
        if !text_accepts(&self.next_hop_iface, &other.next_hop_iface) {
            return false;
        }
        if opt_str_is(&self.next_hop_addr, "") {
            if !(other.next_hop_addr.is_none() || opt_str_is(&other.next_hop_addr, "")) {
                return false;
            }
        } else if !text_accepts(&self.next_hop_addr, &other.next_hop_addr) {
            return false;
        }
        if !(matches!(self.table_id, Some(0)) || u32_accepts(self.table_id, other.table_id)) {
            return false;
        }
        let weight_ok = match (self.weight, other.weight) {
            (None, _) => true,
            (Some(a), Some(b)) => a == b,
            _ => false,
        };
        if !weight_ok {
            return false;
        }
        let type_ok = match (self.route_type, other.route_type) {
            (None, _) => true,
            (Some(a), Some(b)) => a == b,
            _ => false,
        };
        if !type_ok {
            return false;
        }
        if !u32_accepts(self.cwnd, other.cwnd) {
            return false;
        }
        if !text_accepts(&self.source, &other.source) {
            return false;
        }
        if !u32_accepts(self.initcwnd, other.initcwnd) || !u32_accepts(self.initrwnd, other.initrwnd)
            || !u32_accepts(self.mtu, other.mtu) {
            return false;
        }
        let quickack_ok = match (self.quickack, other.quickack) {
            (None, _) => true,
            (Some(a), Some(b)) => a == b,
            _ => false,
        };
        quickack_ok && u32_accepts(self.advmss, other.advmss)
    }
}

} // verus!

verus! {

/// Order of two booleans, `false` first: -1, 0 or 1.
pub open spec fn bool_order(a: bool, b: bool) -> int {
    if a == b {
        0
    } else if !a {
        -1
    } else {
        1
    }
}

/// Order of two integers: -1, 0 or 1.
pub open spec fn num_order(a: int, b: int) -> int {
    if a < b {
        -1
    } else if a > b {
        1
    } else {
        0
    }
}

/// Lexicographic combination of orders: `c` unless it is 0, then `rest`.
pub open spec fn lex(c: int, rest: int) -> int {
    if c != 0 {
        c
    } else {
        rest
    }
}

/// Text of an optional string, `dflt` when undefined.
pub open spec fn text_or(o: Option<String>, dflt: Seq<char>) -> Seq<char> {
    match o {
        Some(s) => s@,
        None => dflt,
    }
}

/// Value of an optional number, `dflt` when undefined.
pub open spec fn num_or(o: Option<u32>, dflt: int) -> int {
    match o {
        Some(v) => v as int,
        None => dflt,
    }
}

/// Weight of a route as a key number, 0 when undefined.
pub open spec fn weight_key(r: RouteEntry) -> int {
    match r.weight {
        Some(w) => w as int,
        None => 0,
    }
}

/// Route type number of a route as a key number, 0 when undefined.
pub open spec fn type_key(r: RouteEntry) -> int {
    match r.route_type {
        Some(t) => route_type_number(t) as int,
        None => 0,
    }
}

/// Order of two routes by their sort key, properties compared in turn: not
/// absent, not IPv6, quickack; next hop interface (`lo` when undefined),
/// destination, next hop address, source; table ID (254 when undefined), cwnd,
/// initcwnd, initrwnd, mtu, weight, route type number, advmss. The metric is not
/// part of the key. The result is -1, 0 (same key) or 1.
#[verifier::opaque]
pub open spec fn route_order(a: RouteEntry, b: RouteEntry) -> int {
    lex(
        bool_order(a.state != Some(RouteState::Absent), b.state != Some(RouteState::Absent)),
        lex(
            bool_order(!route_is_ipv6(a), !route_is_ipv6(b)),
            lex(
                bool_order(a.quickack == Some(true), b.quickack == Some(true)),
                lex(
                    text_order(text_or(a.next_hop_iface, "lo"@), text_or(b.next_hop_iface, "lo"@)),
                    lex(
                        text_order(text_or(a.destination, ""@), text_or(b.destination, ""@)),
                        lex(
                            text_order(text_or(a.next_hop_addr, ""@), text_or(b.next_hop_addr, ""@)),
                            lex(
                                text_order(text_or(a.source, ""@), text_or(b.source, ""@)),
                                route_num_order(a, b),
                            ),
                        ),
                    ),
                ),
            ),
        ),
    )
}

/// The numeric part of [route_order].
pub open spec fn route_num_order(a: RouteEntry, b: RouteEntry) -> int {
    lex(
        num_order(num_or(a.table_id, 254), num_or(b.table_id, 254)),
        lex(
            num_order(num_or(a.cwnd, 0), num_or(b.cwnd, 0)),
            lex(
                num_order(num_or(a.initcwnd, 0), num_or(b.initcwnd, 0)),
                lex(
                    num_order(num_or(a.initrwnd, 0), num_or(b.initrwnd, 0)),
                    lex(
                        num_order(num_or(a.mtu, 0), num_or(b.mtu, 0)),
                        lex(
                            num_order(weight_key(a), weight_key(b)),
                            lex(num_order(type_key(a), type_key(b)), num_order(num_or(a.advmss, 0), num_or(b.advmss, 0))),
                        ),
                    ),
                ),
            ),
        ),
    )
}

/// Whether two routes have the same sort key (they differ at most in metric
/// and in an `ignore` state); such routes count as one.
pub open spec fn same_route_key(a: RouteEntry, b: RouteEntry) -> bool {
    route_order(a, b) == 0
}

/// Route order is antisymmetric, and every route has its own key.
pub proof fn lemma_route_order_antisym(a: RouteEntry, b: RouteEntry)
    ensures
        route_order(a, b) == -route_order(b, a),
        route_order(a, a) == 0,
{
    reveal(route_order);
    lemma_text_order_basics(text_or(a.next_hop_iface, "lo"@), text_or(b.next_hop_iface, "lo"@));
    lemma_text_order_basics(text_or(a.destination, ""@), text_or(b.destination, ""@));
    lemma_text_order_basics(text_or(a.next_hop_addr, ""@), text_or(b.next_hop_addr, ""@));
    lemma_text_order_basics(text_or(a.source, ""@), text_or(b.source, ""@));
    lemma_text_order_basics(text_or(a.next_hop_iface, "lo"@), text_or(a.next_hop_iface, "lo"@));
    lemma_text_order_basics(text_or(a.destination, ""@), text_or(a.destination, ""@));
    lemma_text_order_basics(text_or(a.next_hop_addr, ""@), text_or(a.next_hop_addr, ""@));
    lemma_text_order_basics(text_or(a.source, ""@), text_or(a.source, ""@));
}

fn text_or_str<'a>(o: &'a Option<String>, dflt: &'a str) -> (r: &'a str)
    ensures
        r@ == text_or(*o, dflt@),
{
    match o {
        Some(s) => s.as_str(),
        None => dflt,
    }
}

fn num_or_exec(o: Option<u32>, dflt: u32) -> (r: u32)
    ensures
        r as int == num_or(o, dflt as int),
{
    match o {
        Some(v) => v,
        None => dflt,
    }
}

fn bool_order_exec(a: bool, b: bool) -> (r: i8)
    ensures
        r as int == bool_order(a, b),
{
    if a == b {
        0
    } else if !a {
        -1
    } else {
        1
    }
}

fn num_order_exec(a: u32, b: u32) -> (r: i8)
    ensures
        r as int == num_order(a as int, b as int),
{
    if a < b {
        -1
    } else if a > b {
        1
    } else {
        0
    }
}

/// Order of two routes by their sort key: -1, 0 (same key) or 1.
pub fn route_order_exec(a: &RouteEntry, b: &RouteEntry) -> (r: i8)
    ensures
        r as int == route_order(*a, *b),
{
    proof {
        reveal(route_order);
    }
    let c = bool_order_exec(!a.is_absent(), !b.is_absent());
    if c != 0 {
        return c;
    }
    let c = bool_order_exec(!a.is_ipv6(), !b.is_ipv6());
    if c != 0 {
        return c;
    }
    let c = bool_order_exec(matches!(a.quickack, Some(true)), matches!(b.quickack, Some(true)));
    if c != 0 {
        return c;
    }
    let c = str_order(text_or_str(&a.next_hop_iface, "lo"), text_or_str(&b.next_hop_iface, "lo"));
    if c != 0 {
        return c;
    }
    let c = str_order(text_or_str(&a.destination, ""), text_or_str(&b.destination, ""));
    if c != 0 {
        return c;
    }
    let c = str_order(text_or_str(&a.next_hop_addr, ""), text_or_str(&b.next_hop_addr, ""));
    if c != 0 {
        return c;
    }
    let c = str_order(text_or_str(&a.source, ""), text_or_str(&b.source, ""));
    if c != 0 {
        return c;
    }
    route_num_order_exec(a, b)
}

fn route_num_order_exec(a: &RouteEntry, b: &RouteEntry) -> (r: i8)
    ensures
        r as int == route_num_order(*a, *b),
{
    let c = num_order_exec(num_or_exec(a.table_id, 254), num_or_exec(b.table_id, 254));
    if c != 0 {
        return c;
    }
    let c = num_order_exec(num_or_exec(a.cwnd, 0), num_or_exec(b.cwnd, 0));
    if c != 0 {
        return c;
    }
    let c = num_order_exec(num_or_exec(a.initcwnd, 0), num_or_exec(b.initcwnd, 0));
    if c != 0 {
        return c;
    }
    let c = num_order_exec(num_or_exec(a.initrwnd, 0), num_or_exec(b.initrwnd, 0));
    if c != 0 {
        return c;
    }
    let c = num_order_exec(num_or_exec(a.mtu, 0), num_or_exec(b.mtu, 0));
    if c != 0 {
        return c;
    }
    let wa: u32 = match a.weight {
        Some(w) => w as u32,
        None => 0,
    };
    let wb: u32 = match b.weight {
        Some(w) => w as u32,
        None => 0,
    };
    let c = num_order_exec(wa, wb);
    if c != 0 {
        return c;
    }
    let ta: u32 = match a.route_type {
        Some(t) => t.to_u8() as u32,
        None => 0,
    };
    let tb: u32 = match b.route_type {
        Some(t) => t.to_u8() as u32,
        None => 0,
    };
    let c = num_order_exec(ta, tb);
    if c != 0 {
        return c;
    }
    num_order_exec(num_or_exec(a.advmss, 0), num_or_exec(b.advmss, 0))
}

} // verus!

verus! {

/// Whether routes `s[i]` and `s[i + 1]` are in strictly increasing key order.
pub open spec fn key_sorted_at(s: Seq<RouteEntry>, i: int) -> bool {
    route_order(s[i], s[i + 1]) < 0
}

/// Whether the routes are in strictly increasing key order: sorted, and no
/// two neighbours share a key.
pub open spec fn routes_key_sorted(s: Seq<RouteEntry>) -> bool {
    forall|i: int| 0 <= i < s.len() - 1 ==> #[trigger] key_sorted_at(s, i)
}

/// Whether every route of `r` is one of `v`, and every route of `v` has one
/// with the same key in `r`.
pub open spec fn routes_cover_keys(r: Seq<RouteEntry>, v: Seq<RouteEntry>) -> bool {
    &&& forall|i: int| 0 <= i < r.len() ==> v.contains(#[trigger] r[i])
    &&& forall|j: int| 0 <= j < v.len() ==> has_key_in(r, #[trigger] v[j])
}

/// Whether some route of `r` has the key of `y`.
pub open spec fn has_key_in(r: Seq<RouteEntry>, y: RouteEntry) -> bool {
    exists|i: int| 0 <= i < r.len() && #[trigger] same_route_key(y, r[i])
}

/// Inserting `x` at `p`, after every route below it and before one above
/// it, keeps routes in strictly increasing key order.
proof fn lemma_insert_sorted(r: Seq<RouteEntry>, p: int, x: RouteEntry)
    requires
        0 <= p <= r.len(),
        routes_key_sorted(r),
        forall|q: int| 0 <= q < p ==> route_order(x, #[trigger] r[q]) > 0,
        p < r.len() ==> route_order(x, r[p]) < 0,
    ensures
        routes_key_sorted(r.insert(p, x)),
{
    let n = r.insert(p, x);
    if p > 0 {
        lemma_route_order_antisym(x, r[p - 1]);
        assert(route_order(x, r[p - 1]) > 0);
    }
    assert forall|i: int| 0 <= i < n.len() - 1 implies #[trigger] key_sorted_at(n, i) by {
        if i < p - 1 {
            assert(key_sorted_at(r, i));
        } else if i == p - 1 {
        } else if i == p {
        } else {
            assert(key_sorted_at(r, i - 1));
        }
    }
}

/// Inserting a route keeps the keys there were, and adds its own.
proof fn lemma_has_key_insert(r: Seq<RouteEntry>, p: int, x: RouteEntry, y: RouteEntry)
    requires
        0 <= p <= r.len(),
    ensures
        has_key_in(r, y) ==> has_key_in(r.insert(p, x), y),
        has_key_in(r.insert(p, x), x),
{
    let n = r.insert(p, x);
    if has_key_in(r, y) {
        let i0 = choose|i: int| 0 <= i < r.len() && #[trigger] same_route_key(y, r[i]);
        if i0 < p {
            assert(n[i0] == r[i0]);
            assert(same_route_key(y, n[i0]));
        } else {
            assert(n[i0 + 1] == r[i0]);
            assert(same_route_key(y, n[i0 + 1]));
        }
    }
    lemma_route_order_antisym(x, x);
    assert(same_route_key(x, n[p]));
}

/// A route whose key is already kept leaves the kept routes as they are.
proof fn lemma_dedup_found(v: Seq<RouteEntry>, r: Seq<RouteEntry>, j: int, p: int)
    requires
        0 <= j < v.len(),
        0 <= p < r.len(),
        route_order(v[j], r[p]) == 0,
        forall|i: int| 0 <= i < r.len() ==> v.take(j).contains(#[trigger] r[i]),
        forall|k: int| 0 <= k < j ==> has_key_in(r, #[trigger] v[k]),
    ensures
        forall|i: int| 0 <= i < r.len() ==> v.take(j + 1).contains(#[trigger] r[i]),
        forall|k: int| 0 <= k < j + 1 ==> has_key_in(r, #[trigger] v[k]),
{
    assert(same_route_key(v[j], r[p]));
    assert(has_key_in(r, v[j]));
    assert forall|i: int| 0 <= i < r.len() implies v.take(j + 1).contains(#[trigger] r[i]) by {
        let k = choose|k: int| 0 <= k < j && v.take(j)[k] == r[i];
        assert(v.take(j + 1)[k] == r[i]);
    }
}

/// A route with a new key inserted keeps every key known.
proof fn lemma_dedup_inserted_keys(v: Seq<RouteEntry>, r: Seq<RouteEntry>, j: int, p: int)
    requires
        0 <= j < v.len(),
        0 <= p <= r.len(),
        forall|k: int| 0 <= k < j ==> has_key_in(r, #[trigger] v[k]),
    ensures
        forall|k: int| 0 <= k < j + 1 ==> has_key_in(r.insert(p, v[j]), #[trigger] v[k]),
{
    assert forall|k: int| 0 <= k < j + 1 implies has_key_in(r.insert(p, v[j]), #[trigger] v[k]) by {
        lemma_has_key_insert(r, p, v[j], v[k]);
    }
}

/// A route inserted among kept ones keeps every kept route one of those
/// seen.
#[verifier::rlimit(30)]
proof fn lemma_dedup_inserted_seen(v: Seq<RouteEntry>, r: Seq<RouteEntry>, j: int, p: int)
    requires
        0 <= j < v.len(),
        0 <= p <= r.len(),
        forall|i: int| 0 <= i < r.len() ==> v.take(j).contains(#[trigger] r[i]),
    ensures
        forall|i: int| 0 <= i < r.len() + 1 ==> v.take(j + 1).contains(#[trigger] r.insert(p, v[j])[i]),
{
    let n = r.insert(p, v[j]);
    let t = v.take(j + 1);
    assert forall|i: int| 0 <= i < n.len() implies t.contains(#[trigger] n[i]) by {
        if i == p {
            assert(t[j] == n[i]);
        } else {
            let o = if i < p { i } else { i - 1 };
            assert(n[i] == r[o]);
            assert(v.take(j).contains(r[o]));
            let k = choose|k: int| 0 <= k < j && v.take(j)[k] == r[o];
            assert(t[k] == n[i]);
        }
    }
}

/// Sort routes by key, keeping only the first route of each key (what a sort
/// followed by a dedup on the key gives).
#[verifier::rlimit(30)]
pub fn sort_dedup_routes(v: &Vec<RouteEntry>) -> (r: Vec<RouteEntry>)
    ensures
        routes_key_sorted(r@),
        routes_cover_keys(r@, v@),
{
    let mut r: Vec<RouteEntry> = Vec::new();
    let mut j: usize = 0;
    while j < v.len()
        invariant
            j <= v.len(),
            routes_key_sorted(r@),
            forall|i: int| 0 <= i < r.len() ==> v@.take(j as int).contains(#[trigger] r@[i]),
            forall|k: int| 0 <= k < j ==> has_key_in(r@, #[trigger] v@[k]),
        decreases v.len() - j,
    {
        let x = v[j].clone();
        let mut p: usize = 0;
        while p < r.len() && route_order_exec(&x, &r[p]) > 0
            invariant
                p <= r.len(),
                forall|q: int| 0 <= q < p ==> route_order(x, #[trigger] r@[q]) > 0,
            decreases r.len() - p,
        {
            p += 1;
        }
        let ghost old_r = r@;
        proof {
            assert(v@.take(j + 1).drop_last() =~= v@.take(j as int));
        }
        if p < r.len() && route_order_exec(&x, &r[p]) == 0 {
            proof {
                lemma_dedup_found(v@, old_r, j as int, p as int);
            }
        } else {
            proof {
                lemma_insert_sorted(old_r, p as int, x);
            }
            r.insert(p, x);
            proof {
                lemma_dedup_inserted_keys(v@, old_r, j as int, p as int);
                lemma_dedup_inserted_seen(v@, old_r, j as int, p as int);
            }
        }
        j += 1;
    }
    proof {
        assert(v@.take(v.len() as int) =~= v@);
    }
    r
}

} // verus!

verus! {

/// Canonical text of the IP address written by `s`, if it is one.
pub open spec fn ip_text_display(s: Seq<char>) -> Option<Seq<char>> {
    match ip_text_addr(s) {
        Some(a) => Some(ip_display(a)),
        None => None,
    }
}

/// Canonical text of an IP address text (`2001:DB8::0` becomes `2001:db8::`),
/// or an `InvalidArgument` error when it is not an address.
pub fn normalize_ip_text(s: &str) -> (r: Result<String, NipartError>)
    ensures
        r is Ok <==> ip_text_addr(s@) is Some,
        r matches Ok(t) ==> Some(t@) == ip_text_display(s@),
        r matches Err(e) ==> e.kind == ErrorKind::InvalidArgument,
{
    let chars = str_chars(s);
    match parse_ip(&chars) {
        Some(a) => Ok(ip_to_string(&a)),
        None => Err(NipartError::from_str_msg(ErrorKind::InvalidArgument, "Invalid IP address")),
    }
}

/// The destination a route has after sanitizing: none for an empty one,
/// else the canonical network text.
pub open spec fn sanitized_route_dst(r: RouteEntry) -> Option<Seq<char>> {
    match r.destination {
        None => None,
        Some(d) => if d@.len() == 0 {
            None
        } else {
            sanitized_ip_network(d@)
        },
    }
}

/// The error kind sanitizing a route gives, if any: a malformed destination,
/// next hop or source address, a weight outside 1 to 256, or a cwnd, mtu or
/// advmss of 0 are invalid; a weight on an IPv6 route is not supported.
pub open spec fn route_sanitize_error(r: RouteEntry) -> Option<ErrorKind> {
    if r.destination matches Some(d) && d@.len() > 0 && sanitized_ip_network(d@) is None {
        Some(ErrorKind::InvalidArgument)
    } else if r.next_hop_addr matches Some(v) && ip_text_addr(v@) is None {
        Some(ErrorKind::InvalidArgument)
    } else if r.source matches Some(v) && ip_text_addr(v@) is None {
        Some(ErrorKind::InvalidArgument)
    } else if r.weight matches Some(w) && !(1 <= w <= 256) {
        Some(ErrorKind::InvalidArgument)
    } else if r.weight is Some && (sanitized_route_dst(r) matches Some(d) && d.contains(':')) {
        Some(ErrorKind::NoSupport)
    } else if r.cwnd == Some(0u32) || r.mtu == Some(0u32) || r.advmss == Some(0u32) {
        Some(ErrorKind::InvalidArgument)
    } else {
        None
    }
}

/// The route after a successful sanitize: canonical destination, next hop
/// address and source texts, every other property kept.
pub open spec fn route_sanitized_as(n: RouteEntry, o: RouteEntry) -> bool {
    &&& opt_str_view(n.destination) == sanitized_route_dst(o)
    &&& opt_str_view(n.next_hop_addr) == (match o.next_hop_addr {
        Some(v) => ip_text_display(v@),
        None => None,
    })
    &&& opt_str_view(n.source) == (match o.source {
        Some(v) => ip_text_display(v@),
        None => None,
    })
    &&& n.state == o.state
    &&& n.next_hop_iface == o.next_hop_iface
    &&& n.metric == o.metric
    &&& n.table_id == o.table_id
    &&& n.weight == o.weight
    &&& n.route_type == o.route_type
    &&& n.cwnd == o.cwnd
    &&& n.initcwnd == o.initcwnd
    &&& n.initrwnd == o.initrwnd
    &&& n.mtu == o.mtu
    &&& n.quickack == o.quickack
    &&& n.advmss == o.advmss
}

impl RouteEntry {
    /// Validate the route and bring its addresses to canonical text.
    pub fn sanitize(&mut self) -> (r: Result<(), NipartError>)
        ensures
            r is Ok <==> route_sanitize_error(*old(self)) is None,
            r matches Err(e) ==> Some(e.kind) == route_sanitize_error(*old(self)),
            r is Ok ==> route_sanitized_as(*final(self), *old(self)),
    {
        let ghost o = *self;
        let new_dst: Option<String> = match &self.destination {
            None => None,
            Some(dst) => {
                if dst.as_str().unicode_len() == 0 {
                    None
                } else {
                    Some(sanitize_ip_network(dst.as_str())?)
                }
            },
        };
        self.destination = new_dst;
        let new_via: Option<String> = match &self.next_hop_addr {
            None => None,
            Some(via) => Some(normalize_ip_text(via.as_str())?),
        };
        self.next_hop_addr = new_via;
        let new_src: Option<String> = match &self.source {
            None => None,
            Some(src) => Some(normalize_ip_text(src.as_str())?),
        };
        self.source = new_src;
        if let Some(weight) = self.weight {
            if !(1 <= weight && weight <= 256) {
                let mut msg = str_to_string("Invalid ECMP route weight ");
                msg.append(decimal_string(weight as u64).as_str());
                msg.append(", should be in the range of 1 to 256");
                return Err(NipartError::new(ErrorKind::InvalidArgument, msg));
            }
            if let Some(dst) = &self.destination {
                if is_ipv6_addr(dst.as_str()) {
                    return Err(
                        NipartError::from_str_msg(ErrorKind::NoSupport, "IPv6 ECMP route with weight is not supported yet"),
                    );
                }
            }
        }
        if matches!(self.cwnd, Some(0)) {
            return Err(NipartError::from_str_msg(ErrorKind::InvalidArgument, "The value of 'cwnd' cannot be 0"));
        }
        if matches!(self.mtu, Some(0)) {
            return Err(NipartError::from_str_msg(ErrorKind::InvalidArgument, "The value of 'mtu' cannot be 0"));
        }
        if matches!(self.advmss, Some(0)) {
            return Err(NipartError::from_str_msg(ErrorKind::InvalidArgument, "The value of 'advmss' cannot be 0"));
        }
        Ok(())
    }
}

/// The value of a signed 32-bit integer text: an optional `+` or `-` then one
/// or more decimal digits, within the range of `i32`.
pub open spec fn i32_text_value(s: Seq<char>) -> Option<int> {
    let neg = s.len() > 0 && s[0] == '-';
    let d = if s.len() > 0 && (s[0] == '+' || s[0] == '-') { s.subrange(1, s.len() as int) } else { s };
    let v: int = if neg { -(dec_value(d) as int) } else { dec_value(d) as int };
    if d.len() > 0 && all_dec_digits(d) && -2147483648 <= v <= 2147483647 {
        Some(v)
    } else {
        None
    }
}

/// Parse a signed 32-bit integer text.
#[verifier::spinoff_prover]
#[verifier::rlimit(30)]
pub fn parse_i32(v: &Vec<char>) -> (r: Option<i64>)
    ensures
        r is Some <==> i32_text_value(v@) is Some,
        r matches Some(x) ==> x as int == i32_text_value(v@)->0,
{
    let neg = v.len() > 0 && v[0] == '-';
    let start: usize = if v.len() > 0 && (v[0] == '+' || v[0] == '-') { 1 } else { 0 };
    let ghost d = if v@.len() > 0 && (v@[0] == '+' || v@[0] == '-') { v@.subrange(1, v@.len() as int) } else { v@ };
    if start >= v.len() {
        return None;
    }
    let mut val: u64 = 0;
    let mut i = start;
    proof {
        assert(d =~= v@.subrange(start as int, v@.len() as int));
        assert(d.take(0) =~= Seq::<char>::empty());
    }
    while i < v.len()
        invariant
            start <= i <= v.len(),
            d == v@.subrange(start as int, v@.len() as int),
            d == (if v@.len() > 0 && (v@[0] == '+' || v@[0] == '-') { v@.subrange(1, v@.len() as int) } else { v@ }),
            val == if dec_value(d.take(i - start)) > 2147483648 { 2147483649 } else { dec_value(d.take(i - start)) },
            all_dec_digits(d.take(i - start)),
        decreases v.len() - i,
    {
        match dec_digit_exec(v[i]) {
            None => {
                proof {
                    assert(d[i - start] == v@[i as int]);
                    assert(!is_dec_digit(d[i - start]));
                }
                return None;
            },
            Some(x) => {
                let ghost pre = d.take(i - start);
                let ghost nxt = d.take(i + 1 - start);
                proof {
                    assert(nxt.drop_last() =~= pre);
                    assert(nxt.last() == v@[i as int]);
                    assert forall|k: int| 0 <= k < nxt.len() implies is_dec_digit(#[trigger] nxt[k]) by {
                        if k < pre.len() {
                            assert(nxt[k] == pre[k]);
                        }
                    }
                }
                if val > 2147483648 {
                    val = 2147483649;
                } else {
                    val = val * 10 + x as u64;
                    if val > 2147483648 {
                        val = 2147483649;
                    }
                }
            },
        }
        i += 1;
    }
    proof {
        assert(d.take(v.len() - start) =~= d);
    }
    if neg {
        if val > 2147483648 {
            None
        } else {
            Some(-(val as i64))
        }
    } else {
        if val > 2147483647 {
            None
        } else {
            Some(val as i64)
        }
    }
}

/// Whether the destination of a route is refused: an IPv4 destination that
/// is not a valid address, or that lies in `0.0.0.0/8` on a unicast route with
/// a prefix length of 8 or more (or none), or has a malformed prefix length.
pub open spec fn route_dst_refused(r: RouteEntry) -> bool {
    r.destination matches Some(d) && !d@.contains(':') && v4_dst_refused(d@, r.route_type is None)
}

/// [route_dst_refused] for an IPv4 destination text.
pub open spec fn v4_dst_refused(d: Seq<char>, unicast: bool) -> bool {
    let parts = split_on(d, '/');
    if !ipv4_text_ok(parts[0]) {
        true
    } else if ipv4_text_value(parts[0]) / 16777216 != 0 {
        false
    } else if d.contains('/') {
        match i32_text_value(parts[1]) {
            None => true,
            Some(p) => p >= 8 && unicast,
        }
    } else {
        unicast
    }
}

fn contains_char(s: &str, c: char) -> (r: bool)
    ensures
        r == s@.contains(c),
{
    let n = s.unicode_len();
    let mut i: usize = 0;
    while i < n
        invariant
            n == s@.len(),
            i <= n,
            forall|k: int| 0 <= k < i ==> s@[k] != c,
        decreases n - i,
    {
        if s.get_char(i) == c {
            return true;
        }
        i += 1;
    }
    false
}

/// Validate the route destination: `0.0.0.0/8` and its subnets cannot be
/// the destination of a unicast route (the default gateway is `0.0.0.0/0`).
pub fn validate_route_dst(route: &RouteEntry) -> (r: Result<(), NipartError>)
    ensures
        r is Ok <==> !route_dst_refused(*route),
        r matches Err(e) ==> e.kind == ErrorKind::InvalidArgument,
{
    let dst = match &route.destination {
        None => return Ok(()),
        Some(d) => d.as_str(),
    };
    if is_ipv6_addr(dst) {
        return Ok(());
    }
    let chars = str_chars(dst);
    let parts = split_chars(&chars, '/');
    proof {
        lemma_split_on_nonempty(dst@, '/');
        assert(parts@[0]@ == split_on(dst@, '/')[0]);
    }
    let addr = match parse_ipv4(&parts[0]) {
        None => return Err(NipartError::from_str_msg(ErrorKind::InvalidArgument, "Invalid IP address")),
        Some(a) => a,
    };
    if addr / 16777216 != 0 {
        return Ok(());
    }
    if contains_char(dst, '/') {
        proof {
            lemma_split_contains_sep(dst@, '/');
            assert(parts@[1]@ == split_on(dst@, '/')[1]);
        }
        match parse_i32(&parts[1]) {
            None => Err(
                NipartError::from_str_msg(ErrorKind::InvalidArgument, "The prefix of the route destination network is invalid"),
            ),
            Some(p) => {
                if p >= 8 && route.is_unicast() {
                    Err(
                        NipartError::from_str_msg(
                            ErrorKind::InvalidArgument,
                            "0.0.0.0/8 and its subnet cannot be used as the route destination for unicast route, please use the default gateway 0.0.0.0/0 instead",
                        ),
                    )
                } else {
                    Ok(())
                }
            },
        }
    } else if route.is_unicast() {
        Err(
            NipartError::from_str_msg(
                ErrorKind::InvalidArgument,
                "0.0.0.0/8 and its subnet cannot be used as the route destination for unicast route, please use the default gateway 0.0.0.0/0 instead",
            ),
        )
    } else {
        Ok(())
    }
}

} // verus!

verus! {

/// IP routes: the running ones (query only) and the configured ones.
#[derive(Debug)]
#[non_exhaustive]
pub struct Routes {
    /// Running effected routes. Ignored when applying.
    pub running: Option<Vec<RouteEntry>>,
    /// Static routes. When applying, `None` means preserve current routes;
    /// listed routes are added, and a route marked absent removes every
    /// route it matches.
    pub config: Option<Vec<RouteEntry>>,
}

/// Model of [Routes]: the two route lists as sequences.
pub struct RoutesView {
    pub running: Option<Seq<RouteEntry>>,
    pub config: Option<Seq<RouteEntry>>,
}

impl View for Routes {
    type V = RoutesView;

    open spec fn view(&self) -> RoutesView {
        RoutesView { running: opt_vec_view(self.running), config: opt_vec_view(self.config) }
    }
}

/// Copy of a list of routes.
pub fn clone_routes(v: &Vec<RouteEntry>) -> (r: Vec<RouteEntry>)
    ensures
        r@ == v@,
{
    let r = v.clone();
    proof {
        assert(r@ =~= v@);
    }
    r
}

/// Copy of an optional list of routes.
pub fn clone_opt_routes(v: &Option<Vec<RouteEntry>>) -> (r: Option<Vec<RouteEntry>>)
    ensures
        opt_vec_view(r) == opt_vec_view(*v),
{
    match v {
        None => None,
        Some(a) => Some(clone_routes(a)),
    }
}

impl Clone for Routes {
    fn clone(&self) -> (r: Self)
        ensures
            r@ == self@,
    {
        Routes { running: clone_opt_routes(&self.running), config: clone_opt_routes(&self.config) }
    }
}

impl Default for Routes {
    fn default() -> (r: Self)
        ensures
            r@.running is None,
            r@.config is None,
    {
        Routes { running: None, config: None }
    }
}

/// The error kind validating one desired route gives, if any: a route with a
/// route type cannot have a next hop (but `lo`); a unicast route needs a next
/// hop interface; and [route_dst_refused]. Absent routes are only checked for
/// their destination.
pub open spec fn route_validate_error(r: RouteEntry) -> Option<ErrorKind> {
    if r.state != Some(RouteState::Absent) && r.route_type is Some && ((r.next_hop_iface is Some
        && opt_str_view(r.next_hop_iface) != Some("lo"@)) || r.next_hop_addr is Some) {
        Some(ErrorKind::InvalidArgument)
    } else if r.state != Some(RouteState::Absent) && r.next_hop_iface is None && r.route_type is None {
        Some(ErrorKind::NoSupport)
    } else if route_dst_refused(r) {
        Some(ErrorKind::InvalidArgument)
    } else {
        None
    }
}

/// The error kind of the first route of `s` that fails validation.
pub open spec fn routes_first_error(s: Seq<RouteEntry>) -> Option<ErrorKind>
    decreases s.len(),
{
    if s.len() == 0 {
        None
    } else if route_validate_error(s[0]) is Some {
        route_validate_error(s[0])
    } else {
        routes_first_error(s.skip(1))
    }
}

/// The routes of `s` but those in `state`, in order.
pub open spec fn routes_without_state(s: Seq<RouteEntry>, state: RouteState) -> Seq<RouteEntry>
    decreases s.len(),
{
    if s.len() == 0 {
        s
    } else if s.last().state == Some(state) {
        routes_without_state(s.drop_last(), state)
    } else {
        routes_without_state(s.drop_last(), state).push(s.last())
    }
}

/// The route marked absent.
pub open spec fn marked_absent(o: RouteEntry) -> RouteEntry {
    RouteEntry { state: Some(RouteState::Absent), ..o }
}

/// Whether some absent route of `new` matches route `o`.
pub open spec fn absent_match_any(new: Seq<RouteEntry>, o: RouteEntry) -> bool {
    exists|k: int| 0 <= k < new.len() && (#[trigger] new[k]).state == Some(RouteState::Absent) && route_matches(new[k], o)
}

/// Old routes, those that an absent route of `new` matches marked absent.
pub open spec fn old_routes_after(new: Seq<RouteEntry>, old: Seq<RouteEntry>) -> Seq<RouteEntry> {
    Seq::new(old.len(), |i: int| if absent_match_any(new, old[i]) { marked_absent(old[i]) } else { old[i] })
}

/// The routes a merge of `new` over `old` collects before sorting: the new
/// routes that are not absent, then the old ones (marked absent when an absent
/// new route matches them).
pub open spec fn merge_collected(new: Seq<RouteEntry>, old: Option<Seq<RouteEntry>>) -> Seq<RouteEntry> {
    routes_without_state(new, RouteState::Absent) + match old {
        Some(o) => old_routes_after(new, o),
        None => Seq::empty(),
    }
}

/// Keep the routes not in `state`, in order.
fn filter_out_state(v: &Vec<RouteEntry>, state: RouteState) -> (r: Vec<RouteEntry>)
    ensures
        r@ == routes_without_state(v@, state),
{
    let mut r: Vec<RouteEntry> = Vec::new();
    let mut i: usize = 0;
    while i < v.len()
        invariant
            i <= v.len(),
            r@ == routes_without_state(v@.take(i as int), state),
        decreases v.len() - i,
    {
        proof {
            assert(v@.take(i + 1).drop_last() =~= v@.take(i as int));
            assert(v@.take(i + 1).last() == v@[i as int]);
        }
        if v[i].state != Some(state) {
            r.push(v[i].clone());
        }
        i += 1;
    }
    proof {
        assert(v@.take(v.len() as int) =~= v@);
    }
    r
}

/// Whether `names` holds the text of `n`.
pub fn names_contain(names: &Vec<String>, n: &str) -> (r: bool)
    ensures
        r == names@.map_values(|s: String| s@).contains(n@),
{
    let ghost ns = names@.map_values(|s: String| s@);
    let mut i: usize = 0;
    while i < names.len()
        invariant
            i <= names.len(),
            ns == names@.map_values(|s: String| s@),
            forall|k: int| 0 <= k < i ==> ns[k] != n@,
        decreases names.len() - i,
    {
        if crate::text::str_eq(names[i].as_str(), n) {
            proof {
                assert(ns[i as int] == n@);
            }
            return true;
        }
        i += 1;
    }
    false
}

/// Whether some kernel interface of the given name is ignored.
pub open spec fn ignored_iface_named(k: Seq<crate::nmstate::iface::InterfaceView>, n: Seq<char>) -> bool {
    exists|i: int|
        0 <= i < k.len() && crate::nmstate::iface_state::state_is_ignore((#[trigger] k[i]).base.state)
            && k[i].base.name@ == n
}

/// A route marked ignored when its next hop interface is an ignored kernel
/// interface; otherwise the route itself.
pub open spec fn route_marked_ignored(rt: RouteEntry, k: Seq<crate::nmstate::iface::InterfaceView>) -> RouteEntry {
    match rt.next_hop_iface {
        Some(v) => if ignored_iface_named(k, v@) {
            RouteEntry { state: Some(RouteState::Ignore), ..rt }
        } else {
            rt
        },
        None => rt,
    }
}

fn is_ignored_iface(ifaces: &crate::nmstate::interfaces::Interfaces, name: &str) -> (r: bool)
    ensures
        r == ignored_iface_named(crate::nmstate::interfaces::ifaces_view(ifaces.kernel_ifaces@), name@),
{
    let ghost k = crate::nmstate::interfaces::ifaces_view(ifaces.kernel_ifaces@);
    let mut i: usize = 0;
    while i < ifaces.kernel_ifaces.len()
        invariant
            i <= ifaces.kernel_ifaces.len(),
            k == crate::nmstate::interfaces::ifaces_view(ifaces.kernel_ifaces@),
            forall|j: int|
                0 <= j < i ==> !(crate::nmstate::iface_state::state_is_ignore((#[trigger] k[j]).base.state)
                    && k[j].base.name@ == name@),
        decreases ifaces.kernel_ifaces.len() - i,
    {
        if ifaces.kernel_ifaces[i].is_ignore() && crate::text::str_eq(ifaces.kernel_ifaces[i].name(), name) {
            assert(k[i as int] == ifaces.kernel_ifaces@[i as int]@);
            return true;
        }
        i += 1;
    }
    false
}

fn mark_ignored_in(v: &mut Vec<RouteEntry>, ifaces: &crate::nmstate::interfaces::Interfaces)
    ensures
        final(v)@ == old(v)@.map_values(
            |rt: RouteEntry| route_marked_ignored(rt, crate::nmstate::interfaces::ifaces_view(ifaces.kernel_ifaces@)),
        ),
{
    let ghost k = crate::nmstate::interfaces::ifaces_view(ifaces.kernel_ifaces@);
    let mut i: usize = 0;
    while i < v.len()
        invariant
            i <= v.len(),
            v@.len() == old(v)@.len(),
            k == crate::nmstate::interfaces::ifaces_view(ifaces.kernel_ifaces@),
            forall|j: int| 0 <= j < i ==> #[trigger] v@[j] == route_marked_ignored(old(v)@[j], k),
            forall|j: int| i <= j < v@.len() ==> #[trigger] v@[j] == old(v)@[j],
        decreases v.len() - i,
    {
        let mark = match &v[i].next_hop_iface {
            Some(via) => is_ignored_iface(ifaces, via.as_str()),
            None => false,
        };
        if mark {
            let mut rt = v[i].clone();
            rt.state = Some(RouteState::Ignore);
            v.set(i, rt);
        }
        i += 1;
    }
    proof {
        assert(v@ =~= old(v)@.map_values(|rt: RouteEntry| route_marked_ignored(rt, k)));
    }
}

impl Routes {
    /// Mark as ignored the routes, running and configured, whose next hop
    /// interface is an ignored kernel interface.
    pub fn mark_route_as_ignored_ifaces(&mut self, ifaces: &crate::nmstate::interfaces::Interfaces)
        ensures
            final(self)@.running == match old(self)@.running {
                Some(s) => Some(
                    s.map_values(
                        |rt: RouteEntry|
                            route_marked_ignored(rt, crate::nmstate::interfaces::ifaces_view(ifaces.kernel_ifaces@)),
                    ),
                ),
                None => None,
            },
            final(self)@.config == match old(self)@.config {
                Some(s) => Some(
                    s.map_values(
                        |rt: RouteEntry|
                            route_marked_ignored(rt, crate::nmstate::interfaces::ifaces_view(ifaces.kernel_ifaces@)),
                    ),
                ),
                None => None,
            },
    {
        if let Some(rts) = &mut self.running {
            mark_ignored_in(rts, ifaces);
        }
        if let Some(rts) = &mut self.config {
            mark_ignored_in(rts, ifaces);
        }
    }

    /// Whether configured routes is empty or undefined.
    pub fn is_empty(&self) -> (r: bool)
        ensures
            r == (self@.config is None || self@.config->0.len() == 0),
    {
        match &self.config {
            Some(rts) => rts.len() == 0,
            None => true,
        }
    }

    /// Validate the configured routes, in order; the first refused route
    /// gives the error.
    pub fn validate(&self) -> (r: Result<(), NipartError>)
        ensures
            r is Ok <==> (self@.config is None || routes_first_error(self@.config->0) is None),
            r matches Err(e) ==> Some(e.kind) == routes_first_error(self@.config->0),
    {
        let rts = match &self.config {
            None => return Ok(()),
            Some(r) => r,
        };
        let mut i: usize = 0;
        proof {
            assert(rts@.skip(0) =~= rts@);
        }
        while i < rts.len()
            invariant
                i <= rts.len(),
                self@.config == Some(rts@),
                routes_first_error(rts@) == routes_first_error(rts@.skip(i as int)),
            decreases rts.len() - i,
        {
            let route = &rts[i];
            proof {
                assert(rts@.skip(i as int)[0] == rts@[i as int]);
                assert(rts@.skip(i as int).skip(1) =~= rts@.skip(i + 1));
            }
            if !route.is_absent() {
                let lo = match &route.next_hop_iface {
                    Some(n) => {
                        proof {
                            reveal_strlit("lo");
                        }
                        opt_str_is(&route.next_hop_iface, "lo")
                    },
                    None => false,
                };
                if !route.is_unicast() && ((route.next_hop_iface.is_some() && !lo) || route.next_hop_addr.is_some()) {
                    return Err(
                        NipartError::from_str_msg(ErrorKind::InvalidArgument, "A route with a route type cannot have a next hop"),
                    );
                } else if route.next_hop_iface.is_none() && route.is_unicast() {
                    return Err(
                        NipartError::from_str_msg(ErrorKind::NoSupport, "Route with empty next hop interface is not supported"),
                    );
                }
            }
            validate_route_dst(route)?;
            i += 1;
        }
        Ok(())
    }

    /// Drop the routes marked ignored from both lists.
    pub fn remove_ignored_routes(&mut self)
        ensures
            final(self)@.running == (match old(self)@.running {
                Some(s) => Some(routes_without_state(s, RouteState::Ignore)),
                None => None,
            }),
            final(self)@.config == (match old(self)@.config {
                Some(s) => Some(routes_without_state(s, RouteState::Ignore)),
                None => None,
            }),
    {
        if let Some(rts) = &self.running {
            self.running = Some(filter_out_state(rts, RouteState::Ignore));
        }
        if let Some(rts) = &self.config {
            self.config = Some(filter_out_state(rts, RouteState::Ignore));
        }
    }

    /// The routes of `self` with `new_routes` merged in: when the new routes
    /// configure something, the result's configured routes are the new
    /// routes that are not absent and the old routes (those matched by an
    /// absent new route marked absent), one per key, sorted by key; the
    /// running routes are dropped. Otherwise `self` is returned. The new routes
    /// are validated first.
    pub fn merge(&self, new_routes: &Self) -> (r: Result<Self, NipartError>)
        ensures
            r is Ok <==> (new_routes@.config is None || routes_first_error(new_routes@.config->0) is None),
            r matches Err(e) ==> Some(e.kind) == routes_first_error(new_routes@.config->0),
            r matches Ok(m) ==> (if new_routes@.config is Some {
                &&& m@.running is None
                &&& m@.config is Some
                &&& routes_key_sorted(m@.config->0)
                &&& routes_cover_keys(m@.config->0, merge_collected(new_routes@.config->0, self@.config))
            } else {
                m@ == self@
            }),
    {
        new_routes.validate()?;
        let new = match &new_routes.config {
            None => return Ok(self.clone()),
            Some(n) => n,
        };
        let mut collected = filter_out_state(new, RouteState::Absent);
        if let Some(old_rts) = &self.config {
            let ghost start = collected@;
            let mut i: usize = 0;
            while i < old_rts.len()
                invariant
                    i <= old_rts.len(),
                    collected@ == start + old_routes_after(new@, old_rts@).take(i as int),
                decreases old_rts.len() - i,
            {
                let o = &old_rts[i];
                let mut hit = false;
                let mut k: usize = 0;
                while k < new.len()
                    invariant
                        k <= new.len(),
                        hit == exists|q: int|
                            0 <= q < k && (#[trigger] new@[q]).state == Some(RouteState::Absent) && route_matches(
                                new@[q],
                                *o,
                            ),
                    decreases new.len() - k,
                {
                    if !hit && new[k].is_absent() && new[k].is_match(o) {
                        hit = true;
                    }
                    k += 1;
                }
                let mut rt = o.clone();
                if hit {
                    rt.state = Some(RouteState::Absent);
                }
                proof {
                    assert(old_routes_after(new@, old_rts@).take(i + 1) =~= old_routes_after(new@, old_rts@).take(
                        i as int,
                    ).push(rt));
                }
                collected.push(rt);
                i += 1;
            }
            proof {
                assert(old_routes_after(new@, old_rts@).take(old_rts.len() as int) =~= old_routes_after(
                    new@,
                    old_rts@,
                ));
            }
        }
        let routes = sort_dedup_routes(&collected);
        Ok(Routes { running: None, config: Some(routes) })
    }
}

} // verus!
