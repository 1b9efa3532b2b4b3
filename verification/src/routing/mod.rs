//! Routing of interactions by identifier.
pub mod command_router;
pub mod command_service;

use crate::interaction::Interaction;
use crate::layer::Layer;
use crate::readiness::Readiness;
use std::collections::HashMap;
use vstd::prelude::*;

verus! {

broadcast use vstd::std_specs::hash::group_hash_axioms;

/// The handle that `routes` holds for `id`, if it holds one.
pub open spec fn lookup<S>(routes: Map<u64, S>, id: u64) -> Option<S> {
    if routes.contains_key(id) {
        Some(routes[id])
    } else {
        None
    }
}

/// What a dispatch to `id` does to the table where `id` is registered: the
/// caller gets the stored `handle`, a duplicate of it takes its place, and
/// every other route stays as it is.
pub open spec fn handed_out<S: Clone>(
    before: Map<u64, S>,
    after: Map<u64, S>,
    id: u64,
    handle: S,
) -> bool {
    &&& before.contains_key(id)
    &&& handle == before[id]
    &&& after.dom() == before.dom()
    &&& cloned(handle, after[id])
    &&& forall|other: u64|
        other != id && before.contains_key(other) ==> #[trigger] after[other] == before[other]
}

/// Whether one probe of the handle `before` by `poll` left `after` in its place
/// and reported that a call may proceed.
pub open spec fn probed_ready<S, E, F: Fn(S) -> (S, Readiness<E>)>(
    poll: F,
    before: S,
    after: S,
) -> bool {
    exists|status: Readiness<E>| #[trigger]
        poll.ensures((before,), (after, status)) && status.is_ok()
}

/// What one round of probing the routes `before` in the order `order` may
/// leave behind: the routes `after` and the aggregated `status`.
///
/// Either every route was probed and reported that a call may proceed, or
/// `status` is what the first other report said: the routes before it were
/// probed and were ready, those after it were left alone.
pub open spec fn probe_round<S, E, F: Fn(S) -> (S, Readiness<E>)>(
    poll: F,
    order: Seq<u64>,
    before: Map<u64, S>,
    after: Map<u64, S>,
    status: Readiness<E>,
) -> bool {
    if status.is_ok() {
        forall|k: int|
            0 <= k < order.len() ==> probed_ready::<S, E, F>(
                poll,
                before[#[trigger] order[k]],
                after[order[k]],
            )
    } else {
        exists|k: int|
            {
                &&& 0 <= k < order.len()
                &&& #[trigger] poll.ensures((before[order[k]],), (after[order[k]], status))
                &&& forall|j: int|
                    0 <= j < k ==> probed_ready::<S, E, F>(
                        poll,
                        before[#[trigger] order[j]],
                        after[order[j]],
                    )
                &&& forall|j: int| k < j < order.len() ==> after[#[trigger] order[j]] == before[order[j]]
            }
    }
}

/// The table of routes: for each registered identifier the handle that serves
/// it, and the stack of transformations that every handler passes on its way in.
#[derive(Clone, Debug)]
pub struct InteractionRouterService<S, L = ()> {
    layer: L,
    order: Vec<u64>,
    routes: HashMap<u64, S>,
}

impl<S, L: Default> Default for InteractionRouterService<S, L> {
    fn default() -> (router: Self)
        ensures
            router.wf(),
            router.routes() == Map::<u64, S>::empty(),
            router.order() == Seq::<u64>::empty(),
            call_ensures(L::default, (), router.stack()),
    {
        InteractionRouterService { layer: L::default(), order: Vec::new(), routes: HashMap::new() }
    }
}

impl<S> InteractionRouterService<S> {
    /// A router without routes and with the empty stack.
    #[must_use]
    pub fn new() -> (router: Self)
        ensures
            router.wf(),
            router.routes() == Map::<u64, S>::empty(),
            router.order() == Seq::<u64>::empty(),
            router.stack() == (),
    {
        InteractionRouterService { layer: (), order: Vec::new(), routes: HashMap::new() }
    }
}

impl<S, L> InteractionRouterService<S, L> {
    /// The route table: the handle stored for each registered identifier.
    pub closed spec fn routes(&self) -> Map<u64, S> {
        self.routes@
    }

    /// The registered identifiers, in the order in which they were first registered.
    /// Readiness is probed in this order.
    pub closed spec fn order(&self) -> Seq<u64> {
        self.order@
    }

    /// The stack of transformations that is applied to a handler on registration.
    pub closed spec fn stack(&self) -> L {
        self.layer
    }

    /// Every registered identifier stands in `order` once, and no other does.
    pub open spec fn wf(&self) -> bool {
        &&& self.order().no_duplicates()
        &&& forall|id: u64| self.order().contains(id) <==> self.routes().contains_key(id)
    }

    /// A router without routes, with `layer` as its stack.
    #[must_use]
    pub fn with_layer(layer: L) -> (router: Self)
        ensures
            router.wf(),
            router.routes() == Map::<u64, S>::empty(),
            router.order() == Seq::<u64>::empty(),
            router.stack() == layer,
    {
        InteractionRouterService { layer, order: Vec::new(), routes: HashMap::new() }
    }

    /// Registers `service` at `id`, as `mut_route` does, and hands the router on.
    #[must_use]
    pub fn route<R>(self, id: u64, service: R) -> (router: Self) where L: Layer<R, Service = S>
        requires
            self.wf(),
        ensures
            router.wf(),
            router.stack() == self.stack(),
            router.routes().contains_key(id),
            self.stack().wraps(service, router.routes()[id]),
            router.routes() == self.routes().insert(id, router.routes()[id]),
            router.order() == if self.routes().contains_key(id) {
                self.order()
            } else {
                self.order().push(id)
            },
    {
        let mut router = self;
        let _ = router.mut_route(id, service);
        router
    }

    /// Wraps `service` by the router's stack and stores the result at `id`.
    ///
    /// A handle that was stored at `id` before is replaced and handed back;
    /// every other route stays as it is.
    pub fn mut_route<R>(&mut self, id: u64, service: R) -> (previous: Option<S>) where
        L: Layer<R, Service = S>,

        requires
            old(self).wf(),
        ensures
            final(self).wf(),
            final(self).stack() == old(self).stack(),
            final(self).routes().contains_key(id),
            old(self).stack().wraps(service, final(self).routes()[id]),
            final(self).routes() == old(self).routes().insert(id, final(self).routes()[id]),
            previous == lookup(old(self).routes(), id),
            final(self).order() == if old(self).routes().contains_key(id) {
                old(self).order()
            } else {
                old(self).order().push(id)
            },
    {
        let layered = self.layer.layer(service);
        let previous = self.routes.insert(id, layered);
        if previous.is_none() {
            self.order.push(id);
            proof {
                let before = old(self).order@;
                assert(!before.contains(id));
                assert(self.order@ == before.push(id));
                assert forall|a: int, b: int|
                    0 <= a < self.order@.len() && 0 <= b < self.order@.len() && a != b implies self.order@[a]
                    != self.order@[b] by {
                    if a < before.len() {
                        assert(before.contains(before[a]));
                    }
                    if b < before.len() {
                        assert(before.contains(before[b]));
                    }
                }
                assert forall|other: u64| self.order@.contains(other) <==> self.routes@.contains_key(
                    other,
                ) by {
                    if self.order@.contains(other) {
                        let k = choose|k: int| 0 <= k < self.order@.len() && self.order@[k] == other;
                        if k < before.len() {
                            assert(before.contains(other));
                        }
                    }
                    if self.routes@.contains_key(other) {
                        if other == id {
                            assert(self.order@[before.len() as int] == id);
                        } else {
                            assert(before.contains(other));
                            let k = choose|k: int| 0 <= k < before.len() && before[k] == other;
                            assert(self.order@[k] == other);
                        }
                    }
                }
            }
        }
        previous
    }

    /// Wraps every stored handle by `layer` and puts `layer` on top of the stack,
    /// so that handlers registered from now on pass through it too, outermost.
    #[must_use]
    pub fn layer<N>(self, layer: N) -> (router: InteractionRouterService<N::Service, (N, L)>) where
        N: Layer<S>,

        requires
            self.wf(),
        ensures
            router.wf(),
            router.stack() == (layer, self.stack()),
            router.order() == self.order(),
            router.routes().dom() == self.routes().dom(),
            forall|id: u64|
                self.routes().contains_key(id) ==> layer.wraps(
                    self.routes()[id],
                    #[trigger] router.routes()[id],
                ),
    {
        let ghost before = self.routes@;
        let InteractionRouterService { layer: stack, order, routes } = self;
        let mut routes = routes;
        let mut rewrapped: HashMap<u64, N::Service> = HashMap::new();
        let mut i: usize = 0;
        proof {
            assert forall|j: int| 0 <= j < order.len() implies routes@.contains_key(
                #[trigger] order@[j],
            ) by {
                assert(order@.contains(order@[j]));
            }
        }
        while i < order.len()
            invariant
                0 <= i <= order.len(),
                order@.no_duplicates(),
                forall|id: u64| order@.contains(id) <==> before.contains_key(id),
                forall|j: int|
                    i <= j < order.len() ==> routes@.contains_key(#[trigger] order@[j])
                        && routes@[order@[j]] == before[order@[j]],
                forall|id: u64|
                    rewrapped@.contains_key(id) <==> exists|j: int|
                        0 <= j < i && #[trigger] order@[j] == id,
                forall|id: u64|
                    rewrapped@.contains_key(id) ==> layer.wraps(
                        before[id],
                        #[trigger] rewrapped@[id],
                    ),
            decreases order.len() - i,
        {
            let id: u64 = order[i];
            match routes.remove(&id) {
                Some(service) => {
                    let wrapped = layer.layer(service);
                    rewrapped.insert(id, wrapped);
                },
                None => {},
            }
            proof {
                assert(order@.contains(order@[i as int]));
                assert forall|j: int| i < j < order.len() implies order@[j] != id by {}
                assert forall|other: u64|
                    rewrapped@.contains_key(other) <==> exists|j: int|
                        0 <= j < i + 1 && #[trigger] order@[j] == other by {
                    if rewrapped@.contains_key(other) {
                        if other == id {
                            assert(order@[i as int] == other);
                        } else {
                            let j = choose|j: int| 0 <= j < i && #[trigger] order@[j] == other;
                            assert(0 <= j < i + 1 && order@[j] == other);
                        }
                    }
                }
            }
            i += 1;
        }
        proof {
            assert forall|id: u64| before.contains_key(id) <==> rewrapped@.contains_key(id) by {
                if before.contains_key(id) {
                    assert(order@.contains(id));
                    let k = choose|k: int| 0 <= k < order@.len() && order@[k] == id;
                    assert(order@[k] == id);
                }
                if rewrapped@.contains_key(id) {
                    let j = choose|j: int| 0 <= j < i && #[trigger] order@[j] == id;
                    assert(order@.contains(order@[j]));
                }
            }
            assert(rewrapped@.dom() =~= before.dom());
        }
        InteractionRouterService { layer: (layer, stack), order, routes: rewrapped }
    }

    /// Begins a dispatch of `interaction`.
    ///
    /// Where its identifier is registered, the stored handle is exchanged for a
    /// duplicate of itself and handed back, with the interaction it is to be
    /// invoked with: the caller owns that handle alone, and the table can serve
    /// the same identifier again at once. Where it is not registered, nothing
    /// is touched and nothing is to be invoked.
    pub fn call<C>(&mut self, interaction: Interaction<C>) -> (dispatch: Option<
        (S, Interaction<C>),
    >) where S: Clone
        requires
            old(self).wf(),
        ensures
            final(self).wf(),
            final(self).stack() == old(self).stack(),
            final(self).order() == old(self).order(),
            match lookup(old(self).routes(), interaction.id) {
                Some(handle) => dispatch == Some((handle, interaction)) && handed_out(
                    old(self).routes(),
                    final(self).routes(),
                    interaction.id,
                    handle,
                ),
                None => dispatch.is_none() && final(self).routes() == old(self).routes(),
            },
    {
        let id: u64 = interaction.id;
        match self.routes.remove(&id) {
            Some(handle) => {
                let duplicate = handle.clone();
                self.routes.insert(id, duplicate);
                assert(self.routes@.dom() =~= old(self).routes@.dom());
                Some((handle, interaction))
            },
            None => {
                assert(self.routes@ =~= old(self).routes@);
                None
            },
        }
    }

    /// Probes the routes for readiness, in the order of `order`, until one
    /// reports anything but that a call may proceed, and answers with that
    /// report; where all are ready, and where there is no route, the router is
    /// ready.
    ///
    /// `poll` probes one handle and hands it back with its report.
    pub fn poll_ready<E, F>(&mut self, poll: F) -> (status: Readiness<E>) where
        F: Fn(S) -> (S, Readiness<E>),

        requires
            old(self).wf(),
            forall|id: u64| #[trigger]
                old(self).routes().contains_key(id) ==> poll.requires((old(self).routes()[id],)),
        ensures
            final(self).wf(),
            final(self).stack() == old(self).stack(),
            final(self).order() == old(self).order(),
            final(self).routes().dom() == old(self).routes().dom(),
            probe_round(
                poll,
                old(self).order(),
                old(self).routes(),
                final(self).routes(),
                status,
            ),
    {
        let ghost before = self.routes();
        let mut i: usize = 0;
        while i < self.order.len()
            invariant
                0 <= i <= self.order.len(),
                before == old(self).routes@,
                self.order == old(self).order,
                self.layer == old(self).layer,
                self.wf(),
                self.routes@.dom() == before.dom(),
                forall|j: int|
                    i <= j < self.order.len() ==> self.routes@[#[trigger] self.order@[j]]
                        == before[self.order@[j]],
                forall|j: int|
                    0 <= j < i ==> probed_ready::<S, E, F>(
                        poll,
                        before[#[trigger] self.order@[j]],
                        self.routes@[self.order@[j]],
                    ),
                forall|id: u64| #[trigger] before.contains_key(id) ==> poll.requires((before[id],)),
            decreases self.order.len() - i,
        {
            let id: u64 = self.order[i];
            assert(self.order@.contains(self.order@[i as int]));
            assert(before.contains_key(id));
            match self.routes.remove(&id) {
                Some(handle) => {
                    let ghost earlier = self.routes@;
                    let (probed, status) = poll(handle);
                    let ready = status.is_ready_ok();
                    self.routes.insert(id, probed);
                    proof {
                        let k = i as int;
                        assert(self.routes@.dom() =~= before.dom());
                        assert(handle == before[self.order@[k]]);
                        assert(poll.ensures(
                            (before[self.order@[k]],),
                            (self.routes@[self.order@[k]], status),
                        ));
                        assert forall|j: int| 0 <= j < self.order.len() && j != k implies self.routes@[#[trigger] self.order@[j]]
                            == earlier[self.order@[j]] by {
                            assert(self.order@[j] != id);
                        }
                        assert forall|j: int| 0 <= j < k implies probed_ready::<S, E, F>(
                            poll,
                            before[#[trigger] self.order@[j]],
                            self.routes@[self.order@[j]],
                        ) by {
                            assert(self.order@[j] != id);
                        }
                        assert forall|j: int| k < j < self.order.len() implies self.routes@[#[trigger] self.order@[j]]
                            == before[self.order@[j]] by {
                            assert(self.order@[j] != id);
                        }
                    }
                    if !ready {
                        return status;
                    }
                },
                None => {},
            }
            i += 1;
        }
        Readiness::Ready(Ok(()))
    }
}

/// A route answers for its own identifier alone: registering a handle at `a`
/// changes nothing of what a dispatch to another identifier `b` finds.
pub proof fn lemma_routes_are_independent<S>(routes: Map<u64, S>, a: u64, b: u64, stored: S)
    requires
        a != b,
    ensures
        lookup(routes.insert(a, stored), b) == lookup(routes, b),
        lookup(routes.insert(a, stored), a) == Some(stored),
{
}

/// Registering twice at one identifier: the second registration finds the
/// first handle as the previous one, and a dispatch after it finds the second
/// handle and nothing of the first.
pub proof fn lemma_registration_replaces<S>(routes: Map<u64, S>, id: u64, first: S, second: S)
    ensures
        lookup(routes.insert(id, first), id) == Some(first),
        lookup(routes.insert(id, first).insert(id, second), id) == Some(second),
        routes.insert(id, first).insert(id, second) == routes.insert(id, second),
{
    assert(routes.insert(id, first).insert(id, second) =~= routes.insert(id, second));
}

/// A dispatch leaves its route in the table: a second dispatch to the same
/// identifier, begun before the first has finished, finds a handle of its own,
/// which is a duplicate of the one that the first dispatch took.
pub proof fn lemma_dispatch_keeps_route<S: Clone>(
    before: Map<u64, S>,
    after: Map<u64, S>,
    id: u64,
    handle: S,
)
    requires
        handed_out(before, after, id, handle),
    ensures
        lookup(after, id) is Some,
        cloned(handle, lookup(after, id)->Some_0),
        forall|other: u64| other != id ==> lookup(after, other) == lookup(before, other),
{
    assert(after.dom().contains(id));
    assert forall|other: u64| other != id implies lookup(after, other) == lookup(
        before,
        other,
    ) by {
        assert(after.dom().contains(other) == before.dom().contains(other));
    }
}

/// A round of probing over a table without routes reports that a call may
/// proceed, whatever `poll` would have said.
pub proof fn lemma_no_route_is_ready<S, E, F: Fn(S) -> (S, Readiness<E>)>(
    poll: F,
    order: Seq<u64>,
    before: Map<u64, S>,
    after: Map<u64, S>,
    status: Readiness<E>,
)
    requires
        probe_round(poll, order, before, after, status),
        forall|id: u64| order.contains(id) <==> before.contains_key(id),
        before == Map::<u64, S>::empty(),
    ensures
        status.is_ok(),
{
    if order.len() > 0 {
        assert(order.contains(order[0]));
    }
}

/// A route that cannot report ready keeps the whole router from reporting
/// ready, whatever the other routes report.
pub proof fn lemma_unready_route_blocks<S, E, F: Fn(S) -> (S, Readiness<E>)>(
    poll: F,
    order: Seq<u64>,
    before: Map<u64, S>,
    after: Map<u64, S>,
    status: Readiness<E>,
    route: int,
)
    requires
        probe_round(poll, order, before, after, status),
        0 <= route < order.len(),
        forall|probed: S, report: Readiness<E>| #[trigger]
            poll.ensures((before[order[route]],), (probed, report)) ==> !report.is_ok(),
    ensures
        !status.is_ok(),
{
    if status.is_ok() {
        assert(probed_ready::<S, E, F>(poll, before[order[route]], after[order[route]]));
    }
}

} // verus!
