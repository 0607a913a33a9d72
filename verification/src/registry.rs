//! The route registry: the single source of truth for the active forwarding
//! routes. It enforces the public-endpoint uniqueness invariant and offers
//! atomic add/replace and remove operations, modelled by the spec functions
//! `spec_add` and `remove_endpoint` over the sequence of route views.

use vstd::prelude::*;

use crate::route::{ForwardingRoute, RouteView};

verus! {

/// Whether a route occupies the given public endpoint.
pub open spec fn ep_matches(r: RouteView, ip: Seq<char>, port: u16) -> bool {
    r.pub_ip == ip && r.pub_port == port
}

/// The first route at the given public endpoint, if any.
pub open spec fn route_at(s: Seq<RouteView>, ip: Seq<char>, port: u16) -> Option<RouteView>
    decreases s.len(),
{
    if s.len() == 0 {
        None
    } else if ep_matches(s[0], ip, port) {
        Some(s[0])
    } else {
        route_at(s.drop_first(), ip, port)
    }
}

/// The sequence with the first route at the given public endpoint taken out;
/// unchanged when no route occupies it.
pub open spec fn remove_endpoint(s: Seq<RouteView>, ip: Seq<char>, port: u16) -> Seq<RouteView>
    decreases s.len(),
{
    if s.len() == 0 {
        s
    } else if ep_matches(s[0], ip, port) {
        s.drop_first()
    } else {
        seq![s[0]] + remove_endpoint(s.drop_first(), ip, port)
    }
}

/// The registry transition of an add: any colliding route leaves, the new
/// route enters.
pub open spec fn spec_add(s: Seq<RouteView>, r: RouteView) -> Seq<RouteView> {
    remove_endpoint(s, r.pub_ip, r.pub_port).push(r)
}

/// The registry invariant: at most one route per public endpoint.
pub open spec fn registry_wf(s: Seq<RouteView>) -> bool {
    forall|i: int, j: int|
        #![trigger s[i], s[j]]
        0 <= i < j < s.len() ==> !ep_matches(s[j], s[i].pub_ip, s[i].pub_port)
}

/// When no route occupies the endpoint, the lookup is empty and removal
/// changes nothing.
pub proof fn lemma_route_at_no_match(s: Seq<RouteView>, ip: Seq<char>, port: u16)
    requires
        forall|j: int| 0 <= j < s.len() ==> !ep_matches(#[trigger] s[j], ip, port),
    ensures
        route_at(s, ip, port) is None,
        remove_endpoint(s, ip, port) == s,
    decreases s.len(),
{
    if s.len() == 0 {
        assert(remove_endpoint(s, ip, port) =~= s);
    } else {
        let t = s.drop_first();
        assert(forall|j: int| 0 <= j < t.len() ==> !ep_matches(#[trigger] t[j], ip, port)) by {
            assert(forall|j: int| 0 <= j < t.len() ==> #[trigger] t[j] == s[j + 1]);
        }
        lemma_route_at_no_match(t, ip, port);
        assert(remove_endpoint(s, ip, port) =~= s);
    }
}

/// An empty lookup means no route occupies the endpoint.
pub proof fn lemma_route_at_none_no_match(s: Seq<RouteView>, ip: Seq<char>, port: u16)
    requires
        route_at(s, ip, port) is None,
    ensures
        forall|j: int| 0 <= j < s.len() ==> !ep_matches(#[trigger] s[j], ip, port),
        remove_endpoint(s, ip, port) == s,
    decreases s.len(),
{
    if s.len() > 0 {
        let t = s.drop_first();
        lemma_route_at_none_no_match(t, ip, port);
        assert forall|j: int| 0 <= j < s.len() implies !ep_matches(#[trigger] s[j], ip, port) by {
            if j > 0 {
                assert(s[j] == t[j - 1]);
            }
        }
        assert(remove_endpoint(s, ip, port) =~= s);
    } else {
        assert(remove_endpoint(s, ip, port) =~= s);
    }
}

/// The first matching index determines both the lookup and the removal.
pub proof fn lemma_route_at_first_match(s: Seq<RouteView>, ip: Seq<char>, port: u16, i: int)
    requires
        0 <= i < s.len(),
        ep_matches(s[i], ip, port),
        forall|j: int| 0 <= j < i ==> !ep_matches(#[trigger] s[j], ip, port),
    ensures
        route_at(s, ip, port) == Some(s[i]),
        remove_endpoint(s, ip, port) == s.remove(i),
    decreases i,
{
    if i == 0 {
        assert(s.drop_first() =~= s.remove(0));
    } else {
        let t = s.drop_first();
        assert(t[i - 1] == s[i]);
        assert(forall|j: int| 0 <= j < i - 1 ==> !ep_matches(#[trigger] t[j], ip, port)) by {
            assert(forall|j: int| 0 <= j < t.len() ==> #[trigger] t[j] == s[j + 1]);
        }
        lemma_route_at_first_match(t, ip, port, i - 1);
        assert(seq![s[0]] + t.remove(i - 1) =~= s.remove(i));
    }
}

/// Recovers the index of the first route at an occupied endpoint.
pub proof fn lemma_route_at_match_index(s: Seq<RouteView>, ip: Seq<char>, port: u16) -> (i: int)
    requires
        route_at(s, ip, port) is Some,
    ensures
        0 <= i < s.len(),
        ep_matches(s[i], ip, port),
        forall|j: int| 0 <= j < i ==> !ep_matches(#[trigger] s[j], ip, port),
        route_at(s, ip, port) == Some(s[i]),
        remove_endpoint(s, ip, port) == s.remove(i),
    decreases s.len(),
{
    if ep_matches(s[0], ip, port) {
        lemma_route_at_first_match(s, ip, port, 0);
        0
    } else {
        let t = s.drop_first();
        let i0 = lemma_route_at_match_index(t, ip, port);
        assert(s[i0 + 1] == t[i0]);
        assert forall|j: int| 0 <= j < i0 + 1 implies !ep_matches(#[trigger] s[j], ip, port) by {
            if j > 0 {
                assert(s[j] == t[j - 1]);
            }
        }
        lemma_route_at_first_match(s, ip, port, i0 + 1);
        i0 + 1
    }
}

/// Appending a route changes a lookup only where nothing occupied the
/// endpoint and the new route does.
pub proof fn lemma_route_at_push(s: Seq<RouteView>, r: RouteView, ip: Seq<char>, port: u16)
    ensures
        route_at(s.push(r), ip, port) == (if route_at(s, ip, port) is Some {
            route_at(s, ip, port)
        } else if ep_matches(r, ip, port) {
            Some(r)
        } else {
            None
        }),
    decreases s.len(),
{
    if s.len() == 0 {
        assert(s.push(r)[0] == r);
        assert(s.push(r).drop_first() =~= Seq::<RouteView>::empty());
    } else {
        assert(s.push(r)[0] == s[0]);
        assert(s.push(r).drop_first() =~= s.drop_first().push(r));
        lemma_route_at_push(s.drop_first(), r, ip, port);
    }
}

/// Taking out a route that does not occupy an endpoint leaves that endpoint's
/// lookup unchanged.
pub proof fn lemma_route_at_remove_other(s: Seq<RouteView>, i: int, ip: Seq<char>, port: u16)
    requires
        0 <= i < s.len(),
        !ep_matches(s[i], ip, port),
    ensures
        route_at(s.remove(i), ip, port) == route_at(s, ip, port),
    decreases s.len(),
{
    if i == 0 {
        assert(s.remove(0) =~= s.drop_first());
    } else {
        assert(s.remove(i)[0] == s[0]);
        if !ep_matches(s[0], ip, port) {
            assert(s.remove(i).drop_first() =~= s.drop_first().remove(i - 1));
            assert(s.drop_first()[i - 1] == s[i]);
            lemma_route_at_remove_other(s.drop_first(), i - 1, ip, port);
        }
    }
}

/// Removal keeps the uniqueness invariant and leaves the endpoint vacant.
pub proof fn lemma_remove_endpoint_wf(s: Seq<RouteView>, ip: Seq<char>, port: u16)
    requires
        registry_wf(s),
    ensures
        registry_wf(remove_endpoint(s, ip, port)),
        forall|j: int|
            0 <= j < remove_endpoint(s, ip, port).len() ==> !ep_matches(
                #[trigger] remove_endpoint(s, ip, port)[j],
                ip,
                port,
            ),
{
    if route_at(s, ip, port) is Some {
        let i = lemma_route_at_match_index(s, ip, port);
        let t = s.remove(i);
        assert(forall|j: int| 0 <= j < t.len() ==> #[trigger] t[j] == (if j < i {
            s[j]
        } else {
            s[j + 1]
        }));
        assert forall|j: int| 0 <= j < t.len() implies !ep_matches(#[trigger] t[j], ip, port) by {
            if j >= i {
                assert(!ep_matches(s[j + 1], s[i].pub_ip, s[i].pub_port));
            }
        }
        assert(registry_wf(t)) by {
            assert forall|a: int, b: int|
                #![trigger t[a], t[b]]
                0 <= a < b < t.len() implies !ep_matches(t[b], t[a].pub_ip, t[a].pub_port) by {
                let a0 = if a < i {
                    a
                } else {
                    a + 1
                };
                let b0 = if b < i {
                    b
                } else {
                    b + 1
                };
                assert(t[a] == s[a0] && t[b] == s[b0] && a0 < b0);
            }
        }
    } else {
        lemma_route_at_none_no_match(s, ip, port);
    }
}

/// An add keeps the uniqueness invariant.
pub proof fn lemma_spec_add_wf(s: Seq<RouteView>, r: RouteView)
    requires
        registry_wf(s),
    ensures
        registry_wf(spec_add(s, r)),
{
    lemma_remove_endpoint_wf(s, r.pub_ip, r.pub_port);
    let t = remove_endpoint(s, r.pub_ip, r.pub_port);
    let u = t.push(r);
    assert forall|a: int, b: int|
        #![trigger u[a], u[b]]
        0 <= a < b < u.len() implies !ep_matches(u[b], u[a].pub_ip, u[a].pub_port) by {
        if b < t.len() {
            assert(u[a] == t[a] && u[b] == t[b]);
        } else {
            assert(u[a] == t[a] && u[b] == r);
            assert(!ep_matches(t[a], r.pub_ip, r.pub_port));
        }
    }
}

/// An add acts on lookups exactly as a map update: the added route's endpoint
/// now yields the new route, every other endpoint is untouched.
pub proof fn lemma_spec_add_route_at(s: Seq<RouteView>, r: RouteView, ip: Seq<char>, port: u16)
    requires
        registry_wf(s),
    ensures
        route_at(spec_add(s, r), ip, port) == (if r.pub_ip == ip && r.pub_port == port {
            Some(r)
        } else {
            route_at(s, ip, port)
        }),
{
    lemma_remove_endpoint_wf(s, r.pub_ip, r.pub_port);
    let t = remove_endpoint(s, r.pub_ip, r.pub_port);
    lemma_route_at_push(t, r, ip, port);
    if r.pub_ip == ip && r.pub_port == port {
        lemma_route_at_no_match(t, ip, port);
    } else {
        if route_at(s, r.pub_ip, r.pub_port) is Some {
            let i = lemma_route_at_match_index(s, r.pub_ip, r.pub_port);
            lemma_route_at_remove_other(s, i, ip, port);
        } else {
            lemma_route_at_none_no_match(s, r.pub_ip, r.pub_port);
        }
    }
}

/// Adding two routes with distinct public endpoints leaves both retrievable,
/// and neither add evicts the other: the second add's lookup of its own
/// endpoint is exactly what it was before the first add.
pub proof fn lemma_add_distinct_endpoints(s: Seq<RouteView>, r1: RouteView, r2: RouteView)
    requires
        registry_wf(s),
        !(r1.pub_ip == r2.pub_ip && r1.pub_port == r2.pub_port),
    ensures
        route_at(spec_add(spec_add(s, r1), r2), r1.pub_ip, r1.pub_port) == Some(r1),
        route_at(spec_add(spec_add(s, r1), r2), r2.pub_ip, r2.pub_port) == Some(r2),
        route_at(spec_add(s, r1), r2.pub_ip, r2.pub_port) == route_at(s, r2.pub_ip, r2.pub_port),
{
    lemma_spec_add_route_at(s, r1, r1.pub_ip, r1.pub_port);
    lemma_spec_add_route_at(s, r1, r2.pub_ip, r2.pub_port);
    lemma_spec_add_wf(s, r1);
    lemma_spec_add_route_at(spec_add(s, r1), r2, r1.pub_ip, r1.pub_port);
    lemma_spec_add_route_at(spec_add(s, r1), r2, r2.pub_ip, r2.pub_port);
}

/// Adding at an occupied endpoint replaces: afterwards the registry holds the
/// new route, and only the new route, at that endpoint. That the add returns
/// the displaced route is stated by `AppState::add`'s own ensures.
pub proof fn lemma_add_replaces(s: Seq<RouteView>, r: RouteView)
    requires
        registry_wf(s),
        route_at(s, r.pub_ip, r.pub_port) is Some,
    ensures
        route_at(spec_add(s, r), r.pub_ip, r.pub_port) == Some(r),
        registry_wf(spec_add(s, r)),
        forall|j: int|
            0 <= j < spec_add(s, r).len() && ep_matches(
                #[trigger] spec_add(s, r)[j],
                r.pub_ip,
                r.pub_port,
            ) ==> spec_add(s, r)[j] == r,
{
    lemma_spec_add_route_at(s, r, r.pub_ip, r.pub_port);
    lemma_spec_add_wf(s, r);
    lemma_remove_endpoint_wf(s, r.pub_ip, r.pub_port);
    let t = remove_endpoint(s, r.pub_ip, r.pub_port);
    assert forall|j: int|
        0 <= j < spec_add(s, r).len() && ep_matches(
            #[trigger] spec_add(s, r)[j],
            r.pub_ip,
            r.pub_port,
        ) implies spec_add(s, r)[j] == r by {
        if j < t.len() {
            assert(spec_add(s, r)[j] == t[j]);
        }
    }
}

/// The view of an optionally returned route.
pub open spec fn option_route_view(o: Option<ForwardingRoute>) -> Option<RouteView> {
    match o {
        Some(r) => Some(r@),
        None => None,
    }
}

/// A request to remove whatever route is active at a public port.
pub struct RemoveRequest {
    pub public_port: u16,
}

/// The registry of active routes together with the process-wide settings the
/// control operations read: the configured public address and whether
/// mutations are only simulated.
pub struct AppState {
    pub routes: Vec<ForwardingRoute>,
    pub dry_run: bool,
    pub public_ip: String,
}

/// The mathematical model of the state: the route views in registry order,
/// the public address and the dry-run flag.
pub ghost struct AppStateView {
    pub routes: Seq<RouteView>,
    pub public_ip: Seq<char>,
    pub dry_run: bool,
}

impl View for AppState {
    type V = AppStateView;

    open spec fn view(&self) -> AppStateView {
        AppStateView {
            routes: self.routes.deep_view(),
            public_ip: self.public_ip@,
            dry_run: self.dry_run,
        }
    }
}

impl AppState {
    /// The registry invariant: at most one route per public endpoint.
    pub open spec fn wf(&self) -> bool {
        registry_wf(self@.routes)
    }

    /// A fresh state with no active routes.
    pub fn new(public_ip: String, dry_run: bool) -> (s: AppState)
        ensures
            s@.routes == Seq::<RouteView>::empty(),
            s@.public_ip == public_ip@,
            s@.dry_run == dry_run,
            s.wf(),
    {
        let s = AppState { routes: Vec::new(), dry_run, public_ip };
        proof {
            assert(s@.routes =~= Seq::<RouteView>::empty());
        }
        s
    }

    /// Inserts a route. A route already at the same public endpoint is
    /// atomically replaced and handed back for cleanup; otherwise nothing is
    /// returned.
    pub fn add(&mut self, route: ForwardingRoute) -> (evicted: Option<ForwardingRoute>)
        requires
            old(self).wf(),
        ensures
            final(self).wf(),
            final(self)@.routes == spec_add(old(self)@.routes, route@),
            option_route_view(evicted) == route_at(
                old(self)@.routes,
                route@.pub_ip,
                route@.pub_port,
            ),
            final(self)@.public_ip == old(self)@.public_ip,
            final(self)@.dry_run == old(self)@.dry_run,
    {
        let ghost s0 = self@.routes;
        let mut i: usize = 0;
        while i < self.routes.len()
            invariant
                *self == *old(self),
                old(self).wf(),
                s0 == old(self)@.routes,
                i <= self.routes.len(),
                forall|j: int|
                    0 <= j < i ==> !ep_matches(#[trigger] self@.routes[j], route@.pub_ip, route@.pub_port),
            decreases self.routes.len() - i,
        {
            if self.routes[i].pub_ip == route.pub_ip && self.routes[i].pub_port == route.pub_port {
                proof {
                    assert(self@.routes[i as int] == self.routes@[i as int]@);
                    lemma_route_at_first_match(s0, route@.pub_ip, route@.pub_port, i as int);
                    lemma_spec_add_wf(s0, route@);
                }
                let old_route = self.routes.remove(i);
                self.routes.push(route);
                proof {
                    assert(self@.routes =~= s0.remove(i as int).push(route@));
                }
                return Some(old_route);
            }
            proof {
                assert(self@.routes[i as int] == self.routes@[i as int]@);
            }
            i += 1;
        }
        proof {
            lemma_route_at_no_match(s0, route@.pub_ip, route@.pub_port);
            lemma_spec_add_wf(s0, route@);
        }
        self.routes.push(route);
        proof {
            assert(self@.routes =~= s0.push(route@));
        }
        None
    }

    /// Removes and returns the route at the requested public port under the
    /// configured public address, if one is active; otherwise the registry is
    /// untouched and nothing is returned.
    pub fn remove(&mut self, req: &RemoveRequest) -> (removed: Option<ForwardingRoute>)
        requires
            old(self).wf(),
        ensures
            final(self).wf(),
            final(self)@.routes == remove_endpoint(
                old(self)@.routes,
                old(self)@.public_ip,
                req.public_port,
            ),
            option_route_view(removed) == route_at(
                old(self)@.routes,
                old(self)@.public_ip,
                req.public_port,
            ),
            route_at(old(self)@.routes, old(self)@.public_ip, req.public_port) is None
                ==> final(self)@.routes == old(self)@.routes,
            final(self)@.public_ip == old(self)@.public_ip,
            final(self)@.dry_run == old(self)@.dry_run,
    {
        let ghost s0 = self@.routes;
        let mut i: usize = 0;
        while i < self.routes.len()
            invariant
                *self == *old(self),
                old(self).wf(),
                s0 == old(self)@.routes,
                i <= self.routes.len(),
                forall|j: int|
                    0 <= j < i ==> !ep_matches(
                        #[trigger] self@.routes[j],
                        self@.public_ip,
                        req.public_port,
                    ),
            decreases self.routes.len() - i,
        {
            if self.routes[i].pub_ip == self.public_ip && self.routes[i].pub_port
                == req.public_port {
                proof {
                    assert(self@.routes[i as int] == self.routes@[i as int]@);
                    lemma_route_at_first_match(s0, self@.public_ip, req.public_port, i as int);
                    lemma_remove_endpoint_wf(s0, self@.public_ip, req.public_port);
                }
                let removed = self.routes.remove(i);
                proof {
                    assert(self@.routes =~= s0.remove(i as int));
                }
                return Some(removed);
            }
            proof {
                assert(self@.routes[i as int] == self.routes@[i as int]@);
            }
            i += 1;
        }
        proof {
            lemma_route_at_no_match(s0, self@.public_ip, req.public_port);
        }
        None
    }
}

} // verus!
