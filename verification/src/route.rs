//! IPv4 routing table: longest-prefix match for next-hop determination.
//!
//! The table is an ordered sequence of routes with no uniqueness invariant.
//! Lookup selects the route with the greatest prefix length (popcount of the
//! netmask) among all whose network matches the destination; ties go to the
//! first matching route in insertion order.

use vstd::prelude::*;

use crate::ipv4::Ipv4Addr;
use crate::NetError;

verus! {

/// Route is up.
pub const RTF_UP: u32 = 0x0001;

/// Destination is reached through a gateway.
pub const RTF_GATEWAY: u32 = 0x0002;

/// Destination is a single host.
pub const RTF_HOST: u32 = 0x0004;

/// Route was installed dynamically.
pub const RTF_DYNAMIC: u32 = 0x0010;

/// Route is the default route.
pub const RTF_DEFAULT: u32 = 0x10000;

/// One routing table entry.
#[derive(Clone, Copy, PartialEq, Eq, Structural, Debug)]
pub struct Route {
    /// Destination network
    pub dest: Ipv4Addr,
    /// Network mask
    pub netmask: Ipv4Addr,
    /// Gateway (0.0.0.0 for directly connected)
    pub gateway: Ipv4Addr,
    /// Output interface identifier
    pub dev: u32,
    /// Route flags
    pub flags: u32,
    /// Metric (lower is better)
    pub metric: u32,
}

/// The number of set bits in `n`, counted arithmetically over the
/// non-negative value.
pub open spec fn spec_popcount(n: int) -> int
    decreases n,
{
    if n <= 0 {
        0
    } else {
        n % 2 + spec_popcount(n / 2)
    }
}

/// Popcount is non-negative and no larger than its argument.
pub proof fn lemma_popcount_le(n: int)
    requires
        n >= 0,
    ensures
        0 <= spec_popcount(n) <= n,
    decreases n,
{
    if n > 0 {
        lemma_popcount_le(n / 2);
    }
}

/// Whether a route's network matches a destination address.
pub open spec fn spec_route_matches(r: Route, dest: Ipv4Addr) -> bool {
    dest.bits & r.netmask.bits == r.dest.bits & r.netmask.bits
}

/// A route's prefix length: the popcount of its netmask.
pub open spec fn spec_prefix_len(r: Route) -> int {
    spec_popcount(r.netmask.bits as int)
}

/// The next hop a route yields for a destination: its gateway when one is
/// set, otherwise the destination itself (directly connected).
pub open spec fn spec_next_hop(r: Route, dest: Ipv4Addr) -> Ipv4Addr {
    if r.gateway.bits != 0 {
        r.gateway
    } else {
        dest
    }
}

/// Index `i` holds the route that lookup must select for `dest`: it
/// matches, no match anywhere has a longer prefix, and no earlier match
/// has an equal prefix.
pub open spec fn spec_is_best_route(routes: Seq<Route>, dest: Ipv4Addr, i: int) -> bool {
    &&& 0 <= i < routes.len()
    &&& spec_route_matches(routes[i], dest)
    &&& forall|j: int|
        0 <= j < routes.len() && #[trigger] spec_route_matches(routes[j], dest)
            ==> spec_prefix_len(routes[j]) <= spec_prefix_len(routes[i])
    &&& forall|j: int|
        0 <= j < i && #[trigger] spec_route_matches(routes[j], dest)
            ==> spec_prefix_len(routes[j]) < spec_prefix_len(routes[i])
}

impl Route {
    /// Whether this route's network matches a destination.
    pub fn matches(&self, dest: Ipv4Addr) -> (r: bool)
        ensures
            r == spec_route_matches(*self, dest),
    {
        dest.mask(self.netmask) == self.dest.mask(self.netmask)
    }

    /// Whether the destination is reached through a gateway.
    pub fn is_gateway(&self) -> (r: bool)
        ensures
            r == (self.gateway.bits != 0),
    {
        !self.gateway.is_unspecified()
    }

    /// The number of bits in the prefix, for longest-prefix matching.
    pub fn prefix_len(&self) -> (r: u32)
        ensures
            r == spec_prefix_len(*self),
    {
        proof {
            lemma_popcount_le(self.netmask.bits as int);
        }
        let mut n: u32 = self.netmask.bits;
        let mut count: u32 = 0;
        while n > 0
            invariant
                count + spec_popcount(n as int) == spec_popcount(self.netmask.bits as int),
                count <= spec_popcount(self.netmask.bits as int) <= self.netmask.bits,
            decreases n,
        {
            proof {
                lemma_popcount_le(n as int);
                lemma_popcount_le(n as int / 2);
            }
            count = count + n % 2;
            n = n / 2;
        }
        count
    }
}

/// The routing table: an ordered sequence of routes.
pub struct RoutingTable {
    /// Routes in insertion order.
    pub routes: Vec<Route>,
}

/// Create an empty routing table; routes are added as interfaces come up.
pub fn init() -> (r: RoutingTable)
    ensures
        r.routes@.len() == 0,
{
    RoutingTable { routes: Vec::new() }
}

/// Add a route for a directly connected interface.
pub fn add_interface_route(table: &mut RoutingTable, dest: Ipv4Addr, netmask: Ipv4Addr, dev: u32)
    ensures
        final(table).routes@ == old(table).routes@.push(
            Route {
                dest,
                netmask,
                gateway: Ipv4Addr { bits: 0 },
                dev,
                flags: RTF_UP,
                metric: 0,
            },
        ),
{
    let route = Route { dest, netmask, gateway: Ipv4Addr::from_u32(0), dev, flags: RTF_UP, metric: 0 };
    table.routes.push(route);
}

/// Add a default route through a gateway.
pub fn add_default_route(table: &mut RoutingTable, gateway: Ipv4Addr, dev: u32)
    ensures
        final(table).routes@ == old(table).routes@.push(
            Route {
                dest: Ipv4Addr { bits: 0 },
                netmask: Ipv4Addr { bits: 0 },
                gateway,
                dev,
                flags: (RTF_UP | RTF_GATEWAY | RTF_DEFAULT) as u32,
                metric: 100,
            },
        ),
{
    let route = Route {
        dest: Ipv4Addr::from_u32(0),
        netmask: Ipv4Addr::from_u32(0),
        gateway,
        dev,
        flags: RTF_UP | RTF_GATEWAY | RTF_DEFAULT,
        metric: 100,
    };
    table.routes.push(route);
}

/// Add a host route: a /32 entry for a single destination.
pub fn add_host_route(table: &mut RoutingTable, dest: Ipv4Addr, gateway: Ipv4Addr, dev: u32)
    ensures
        final(table).routes@ == old(table).routes@.push(
            Route {
                dest,
                netmask: Ipv4Addr { bits: 0xffffffff },
                gateway,
                dev,
                flags: if gateway.bits != 0 {
                    (RTF_UP | RTF_HOST | RTF_GATEWAY) as u32
                } else {
                    (RTF_UP | RTF_HOST) as u32
                },
                metric: 0,
            },
        ),
{
    let gw_flag: u32 = if !gateway.is_unspecified() {
        RTF_GATEWAY
    } else {
        0
    };
    let route = Route {
        dest,
        netmask: Ipv4Addr::from_u32(0xffffffff),
        gateway,
        dev,
        flags: RTF_UP | RTF_HOST | gw_flag,
        metric: 0,
    };
    proof {
        assert((RTF_UP | RTF_HOST | 0u32) == (RTF_UP | RTF_HOST)) by (bit_vector);
    }
    table.routes.push(route);
}

/// Look up the route for a destination address. Returns the output device
/// and the next hop of the route with the longest matching prefix, ties
/// broken by insertion order; fails with `NoRoute` exactly when no route
/// matches.
pub fn route_lookup(table: &RoutingTable, dest: Ipv4Addr) -> (r: Result<(u32, Ipv4Addr), NetError>)
    ensures
        r is Ok <==> exists|i: int|
            0 <= i < table.routes@.len() && #[trigger] spec_route_matches(table.routes@[i], dest),
        r is Ok ==> exists|i: int|
            #[trigger] spec_is_best_route(table.routes@, dest, i) && r->Ok_0 == (
                table.routes@[i].dev,
                spec_next_hop(table.routes@[i], dest),
            ),
        r is Err ==> r->Err_0 == NetError::NoRoute,
{
    let n: usize = table.routes.len();
    let mut best: usize = n;
    let mut best_prefix: u32 = 0;
    let mut i: usize = 0;
    while i < n
        invariant
            n == table.routes@.len(),
            i <= n,
            best <= n,
            best == n ==> forall|j: int|
                0 <= j < i ==> !spec_route_matches(table.routes@[j], dest),
            best < n ==> {
                &&& best < i
                &&& spec_route_matches(table.routes@[best as int], dest)
                &&& best_prefix == spec_prefix_len(table.routes@[best as int])
                &&& forall|j: int|
                    0 <= j < i && #[trigger] spec_route_matches(table.routes@[j], dest)
                        ==> spec_prefix_len(table.routes@[j]) <= best_prefix
                &&& forall|j: int|
                    0 <= j < best && #[trigger] spec_route_matches(table.routes@[j], dest)
                        ==> spec_prefix_len(table.routes@[j]) < best_prefix
            },
        decreases n - i,
    {
        let route = &table.routes[i];
        if route.matches(dest) {
            let pl = route.prefix_len();
            if best == n || pl > best_prefix {
                best = i;
                best_prefix = pl;
            }
        }
        i = i + 1;
    }
    if best < n {
        let route = &table.routes[best];
        let next_hop = if route.is_gateway() {
            route.gateway
        } else {
            dest
        };
        proof {
            assert(spec_is_best_route(table.routes@, dest, best as int));
        }
        Ok((route.dev, next_hop))
    } else {
        Err(NetError::NoRoute)
    }
}

/// All routes, in insertion order.
pub fn get_routes(table: &RoutingTable) -> (r: Vec<Route>)
    ensures
        r@ == table.routes@,
{
    let mut out: Vec<Route> = Vec::new();
    let mut i: usize = 0;
    while i < table.routes.len()
        invariant
            i <= table.routes@.len(),
            out@ == table.routes@.subrange(0, i as int),
        decreases table.routes@.len() - i,
    {
        out.push(table.routes[i]);
        proof {
            assert(out@ =~= table.routes@.subrange(0, i + 1));
        }
        i = i + 1;
    }
    proof {
        assert(out@ =~= table.routes@);
    }
    out
}

/// Remove every route.
pub fn clear_routes(table: &mut RoutingTable)
    ensures
        final(table).routes@.len() == 0,
{
    table.routes.clear();
}

} // verus!
