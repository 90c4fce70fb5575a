//! The route registry: local routes in order of creation, with ids that are
//! never reused.
use vstd::prelude::*;
use crate::model::{LocalRoute, RouteView};

verus! {

pub open spec fn route_views(v: Seq<LocalRoute>) -> Seq<RouteView> {
    v.map_values(|r: LocalRoute| r@)
}

/// The largest id among the routes, 0 when there is none.
pub open spec fn max_id(s: Seq<RouteView>) -> u32
    decreases s.len(),
{
    if s.len() == 0 {
        0
    } else {
        let m = max_id(s.drop_last());
        if s.last().id > m {
            s.last().id
        } else {
            m
        }
    }
}

pub open spec fn is_enabled(r: RouteView) -> bool {
    r.enabled
}

/// Index of the first route with id `id`.
pub open spec fn is_first_with_id(s: Seq<RouteView>, id: u32, i: int) -> bool {
    &&& 0 <= i < s.len()
    &&& s[i].id == id
    &&& forall|j: int| 0 <= j < i ==> (#[trigger] s[j]).id != id
}

pub open spec fn has_route_id(s: Seq<RouteView>, id: u32) -> bool {
    exists|i: int| 0 <= i < s.len() && (#[trigger] s[i]).id == id
}

/// A route with the fields that are given replaced.
pub open spec fn updated_route(
    r: RouteView,
    domain: Option<String>,
    target_host: Option<String>,
    target_port: Option<u16>,
    enabled: Option<bool>,
) -> RouteView {
    RouteView {
        id: r.id,
        domain: match domain {
            Some(d) => d@,
            None => r.domain,
        },
        target_host: match target_host {
            Some(h) => h@,
            None => r.target_host,
        },
        target_port: match target_port {
            Some(p) => p,
            None => r.target_port,
        },
        enabled: match enabled {
            Some(e) => e,
            None => r.enabled,
        },
    }
}

proof fn lemma_max_id_bounds(s: Seq<RouteView>)
    ensures
        forall|i: int| 0 <= i < s.len() ==> (#[trigger] s[i]).id <= max_id(s),
    decreases s.len(),
{
    if s.len() > 0 {
        lemma_max_id_bounds(s.drop_last());
        assert forall|i: int| 0 <= i < s.len() implies (#[trigger] s[i]).id <= max_id(s) by {
            if i < s.len() - 1 {
                assert(s[i] == s.drop_last()[i]);
            }
        }
    }
}

/// Copies of the routes, in order.
pub fn copy_routes(v: &[LocalRoute]) -> (r: Vec<LocalRoute>)
    ensures
        route_views(r@) == route_views(v@),
{
    let mut out: Vec<LocalRoute> = Vec::new();
    let mut i: usize = 0;
    while i < v.len()
        invariant
            i <= v@.len(),
            route_views(out@) == route_views(v@.subrange(0, i as int)),
        decreases v@.len() - i,
    {
        out.push(v[i].copy());
        proof {
            assert(route_views(v@.subrange(0, i + 1)) =~= route_views(v@.subrange(0, i as int)).push(
                v@[i as int]@,
            ));
            assert(route_views(out@) =~= route_views(v@.subrange(0, i + 1)));
        }
        i = i + 1;
    }
    assert(v@.subrange(0, v@.len() as int) =~= v@);
    out
}

fn position_of_route(v: &Vec<LocalRoute>, id: u32) -> (r: Option<usize>)
    ensures
        match r {
            Some(i) => is_first_with_id(route_views(v@), id, i as int),
            None => !has_route_id(route_views(v@), id),
        },
{
    let mut i: usize = 0;
    while i < v.len()
        invariant
            i <= v@.len(),
            forall|j: int| 0 <= j < i ==> (#[trigger] route_views(v@)[j]).id != id,
        decreases v@.len() - i,
    {
        if v[i].id == id {
            return Some(i);
        }
        i = i + 1;
    }
    None
}

/// Largest id among the routes, 0 when there is none.
fn max_route_id(v: &[LocalRoute]) -> (m: u32)
    ensures
        m == max_id(route_views(v@)),
{
    let ghost all = route_views(v@);
    let mut m: u32 = 0;
    let mut i: usize = 0;
    while i < v.len()
        invariant
            i <= v@.len(),
            all == route_views(v@),
            m == max_id(all.subrange(0, i as int)),
        decreases v@.len() - i,
    {
        proof {
            assert(all.subrange(0, i + 1).drop_last() =~= all.subrange(0, i as int));
        }
        if v[i].id > m {
            m = v[i].id;
        }
        i = i + 1;
    }
    assert(all.subrange(0, all.len() as int) =~= all);
    m
}

/// The id after the largest of `s`, or `u32::MAX` when there is no room.
pub open spec fn after_max(s: Seq<RouteView>) -> u32 {
    if max_id(s) < u32::MAX {
        (max_id(s) + 1) as u32
    } else {
        u32::MAX
    }
}

/// The local routes, and the id that the next route will get. Ids are
/// issued in increasing order and never issued twice: removing a route does
/// not make its id available again.
pub struct LocalRouteService {
    routes: Vec<LocalRoute>,
    next_id: u32,
}

impl View for LocalRouteService {
    type V = Seq<RouteView>;

    closed spec fn view(&self) -> Seq<RouteView> {
        route_views(self.routes@)
    }
}

impl LocalRouteService {
    /// The id that the next added route gets.
    pub closed spec fn next_id(&self) -> u32 {
        self.next_id
    }

    /// Every route's id was issued before the next one.
    pub open spec fn wf(&self) -> bool {
        forall|i: int| 0 <= i < self@.len() ==> (#[trigger] self@[i]).id < self.next_id()
    }

    /// A registry holding `routes`, as loaded from storage; the next id is
    /// one past the largest of theirs.
    pub fn new(routes: Vec<LocalRoute>) -> (s: LocalRouteService)
        ensures
            s@ == route_views(routes@),
            s.next_id() == after_max(route_views(routes@)),
            max_id(route_views(routes@)) < u32::MAX ==> s.wf(),
    {
        let m = max_route_id(routes.as_slice());
        proof {
            lemma_max_id_bounds(route_views(routes@));
        }
        let next_id = if m < u32::MAX {
            m + 1
        } else {
            u32::MAX
        };
        LocalRouteService { routes, next_id }
    }

    /// The id that the next added route gets.
    pub fn next_route_id(&self) -> (r: u32)
        ensures
            r == self.next_id(),
    {
        self.next_id
    }

    pub fn get_all(&self) -> (r: Vec<LocalRoute>)
        ensures
            route_views(r@) == self@,
    {
        copy_routes(self.routes.as_slice())
    }

    /// The enabled routes, in order.
    pub fn get_enabled(&self) -> (r: Vec<LocalRoute>)
        ensures
            route_views(r@) == self@.filter(|x: RouteView| is_enabled(x)),
    {
        let ghost all = route_views(self.routes@);
        let mut out: Vec<LocalRoute> = Vec::new();
        let mut i: usize = 0;
        while i < self.routes.len()
            invariant
                i <= self.routes@.len(),
                all == route_views(self.routes@),
                route_views(out@) == all.subrange(0, i as int).filter(|x: RouteView| is_enabled(x)),
            decreases self.routes@.len() - i,
        {
            proof {
                assert(all.subrange(0, i + 1).drop_last() =~= all.subrange(0, i as int));
                reveal(Seq::filter);
            }
            if self.routes[i].enabled {
                out.push(self.routes[i].copy());
                assert(route_views(out@) =~= all.subrange(0, i + 1).filter(
                    |x: RouteView| is_enabled(x),
                ));
            }
            i = i + 1;
        }
        assert(all.subrange(0, all.len() as int) =~= all);
        out
    }

    /// Adds an enabled route with the next id; the next id moves past it.
    pub fn add(&mut self, domain: String, target_host: String, target_port: u16) -> (r: LocalRoute)
        requires
            old(self).wf(),
            old(self).next_id() < u32::MAX,
        ensures
            r@ == (RouteView {
                id: old(self).next_id(),
                domain: domain@,
                target_host: target_host@,
                target_port,
                enabled: true,
            }),
            final(self).next_id() == old(self).next_id() + 1,
            final(self)@ == old(self)@.push(r@),
            final(self).wf(),
    {
        let ghost before = route_views(self.routes@);
        let id = self.next_id;
        let route = LocalRoute { id, domain, target_host, target_port, enabled: true };
        let out = route.copy();
        self.routes.push(route);
        self.next_id = id + 1;
        assert(route_views(self.routes@) =~= before.push(out@));
        out
    }

    /// Changes the fields that are given of the first route with id `id`;
    /// `None` when there is no such route.
    pub fn update(
        &mut self,
        id: u32,
        domain: Option<String>,
        target_host: Option<String>,
        target_port: Option<u16>,
        enabled: Option<bool>,
    ) -> (r: Option<LocalRoute>)
        ensures
            match r {
                Some(x) => exists|i: int|
                    is_first_with_id(old(self)@, id, i) && x@ == updated_route(
                        old(self)@[i],
                        domain,
                        target_host,
                        target_port,
                        enabled,
                    ) && final(self)@ == old(self)@.update(i, x@),
                None => !has_route_id(old(self)@, id) && final(self)@ == old(self)@,
            },
            final(self).next_id() == old(self).next_id(),
            old(self).wf() ==> final(self).wf(),
    {
        match position_of_route(&self.routes, id) {
            None => None,
            Some(pos) => {
                let old_r = self.routes[pos].copy();
                let new_r = LocalRoute {
                    id: old_r.id,
                    domain: match domain {
                        Some(d) => d,
                        None => old_r.domain,
                    },
                    target_host: match target_host {
                        Some(h) => h,
                        None => old_r.target_host,
                    },
                    target_port: match target_port {
                        Some(p) => p,
                        None => old_r.target_port,
                    },
                    enabled: match enabled {
                        Some(e) => e,
                        None => old_r.enabled,
                    },
                };
                let out = new_r.copy();
                self.routes.set(pos, new_r);
                assert(route_views(self.routes@) =~= route_views(old(self).routes@).update(
                    pos as int,
                    out@,
                ));
                assert(route_views(old(self).routes@)[pos as int] == old_r@);
                assert(is_first_with_id(old(self)@, id, pos as int));
                assert(out@ == updated_route(
                    old(self)@[pos as int],
                    domain,
                    target_host,
                    target_port,
                    enabled,
                ));
                Some(out)
            },
        }
    }

    /// Removes the first route with id `id` and returns it.
    pub fn remove(&mut self, id: u32) -> (r: Option<LocalRoute>)
        ensures
            match r {
                Some(x) => exists|i: int|
                    is_first_with_id(old(self)@, id, i) && x@ == old(self)@[i] && final(self)@
                        == old(self)@.remove(i),
                None => !has_route_id(old(self)@, id) && final(self)@ == old(self)@,
            },
            final(self).next_id() == old(self).next_id(),
            old(self).wf() ==> final(self).wf(),
    {
        match position_of_route(&self.routes, id) {
            None => None,
            Some(pos) => {
                let removed = self.routes.remove(pos);
                assert(route_views(self.routes@) =~= route_views(old(self).routes@).remove(
                    pos as int,
                ));
                assert(route_views(old(self).routes@)[pos as int] == removed@);
                assert(is_first_with_id(old(self)@, id, pos as int));
                Some(removed)
            },
        }
    }

    /// Turns the first route with id `id` on or off.
    pub fn set_enabled(&mut self, id: u32, enabled: bool) -> (r: Option<LocalRoute>)
        ensures
            match r {
                Some(x) => exists|i: int|
                    is_first_with_id(old(self)@, id, i) && x@ == (RouteView {
                        enabled,
                        ..old(self)@[i]
                    }) && final(self)@ == old(self)@.update(i, x@),
                None => !has_route_id(old(self)@, id) && final(self)@ == old(self)@,
            },
            final(self).next_id() == old(self).next_id(),
            old(self).wf() ==> final(self).wf(),
    {
        self.update(id, None, None, None, Some(enabled))
    }

    /// Replaces every route (an import). The next id never goes back: it
    /// stays, or moves past the largest imported id.
    pub fn replace_all(&mut self, routes: Vec<LocalRoute>) -> (r: Vec<LocalRoute>)
        ensures
            final(self)@ == route_views(routes@),
            route_views(r@) == route_views(routes@),
            final(self).next_id() == if after_max(route_views(routes@)) > old(self).next_id() {
                after_max(route_views(routes@))
            } else {
                old(self).next_id()
            },
            max_id(route_views(routes@)) < u32::MAX ==> final(self).wf(),
    {
        let m = max_route_id(routes.as_slice());
        proof {
            lemma_max_id_bounds(route_views(routes@));
        }
        let after = if m < u32::MAX {
            m + 1
        } else {
            u32::MAX
        };
        if after > self.next_id {
            self.next_id = after;
        }
        self.routes = routes;
        copy_routes(self.routes.as_slice())
    }

    /// The routes themselves, for routing.
    pub fn as_slice(&self) -> (r: &[LocalRoute])
        ensures
            route_views(r@) == self@,
    {
        self.routes.as_slice()
    }
}

} // verus!
