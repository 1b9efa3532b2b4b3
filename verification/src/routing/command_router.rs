//! The router of commands: it builds, for every handler that is registered,
//! the pipeline from the raw interaction down to the handler, and stores it in
//! a table of routes.
use crate::command_model_layer::{CommandModelLayer, CommandModelLayerService};
use crate::interaction::Interaction;
use crate::layer::Layer;
use crate::readiness::Readiness;
use crate::routing::{handed_out, lookup, probe_round, InteractionRouterService};
use crate::state::{StateLayer, StateLayerService};
use std::marker::PhantomData;
use vstd::prelude::*;

verus! {

/// Whether `stored` is the pipeline that a command router with the given
/// state and stacks builds around the handler `service`.
///
/// From the handler outwards: the stack `after_state`, the injector with a
/// duplicate of `state`, the decoding adapter, then `erase`, which gives the
/// pipeline the type that the table holds, and outermost the stack
/// `before_state`.
pub open spec fn built<State: Clone, L: Layer<R>, R, M, X, B>(
    state: State,
    after_state: L,
    erase: X,
    before_state: B,
    service: R,
    stored: B::Service,
) -> bool where
    X: Layer<CommandModelLayerService<StateLayerService<L::Service, State>, M>>,
    B: Layer<X::Service>,
 {
    exists|
        injector: StateLayer<State>,
        typed: CommandModelLayerService<StateLayerService<L::Service, State>, M>,
        erased: X::Service,
    |
        {
            &&& cloned(state, injector.state)
            &&& #[trigger] (
                CommandModelLayer::<M> { phantom_data: PhantomData },
                injector,
                &after_state,
            ).wraps(service, typed)
            &&& #[trigger] erase.wraps(typed, erased)
            &&& #[trigger] before_state.wraps(erased, stored)
        }
}

/// A table of routes whose handlers take the shared state and a decoded command.
#[derive(Clone, Debug)]
pub struct CommandRouterService<State, L, S, B> {
    state: State,
    layer: L,
    inner: InteractionRouterService<S, B>,
}

impl<State, S> CommandRouterService<State, (), S, ()> {
    /// A router without routes and with empty stacks, holding `state`.
    #[must_use]
    pub fn new(state: State) -> (router: Self)
        ensures
            router.wf(),
            router.state() == state,
            router.after_state() == (),
            router.before_state() == (),
            router.routes() == Map::<u64, S>::empty(),
            router.order() == Seq::<u64>::empty(),
    {
        CommandRouterService { state, layer: (), inner: InteractionRouterService::new() }
    }
}

impl<State, L, S, B> CommandRouterService<State, L, S, B> {
    /// The state that every handler is called with.
    pub closed spec fn state(&self) -> State {
        self.state
    }

    /// The stack between the state injector and the handler.
    pub closed spec fn after_state(&self) -> L {
        self.layer
    }

    /// The stack around the whole pipeline, on the uniform type.
    pub closed spec fn before_state(&self) -> B {
        self.inner.stack()
    }

    /// The route table: the pipeline stored for each registered identifier.
    pub closed spec fn routes(&self) -> Map<u64, S> {
        self.inner.routes()
    }

    /// The registered identifiers, in the order in which readiness is probed.
    pub closed spec fn order(&self) -> Seq<u64> {
        self.inner.order()
    }

    /// Every registered identifier stands in `order` once, and no other does.
    pub open spec fn wf(&self) -> bool {
        &&& self.order().no_duplicates()
        &&& forall|id: u64| self.order().contains(id) <==> self.routes().contains_key(id)
    }

    /// A router without routes, holding `state`, with `after_state_layer`
    /// between injector and handler and `before_state_layer` around the pipeline.
    #[must_use]
    pub fn with_layers(state: State, after_state_layer: L, before_state_layer: B) -> (router: Self)
        ensures
            router.wf(),
            router.state() == state,
            router.after_state() == after_state_layer,
            router.before_state() == before_state_layer,
            router.routes() == Map::<u64, S>::empty(),
            router.order() == Seq::<u64>::empty(),
    {
        CommandRouterService {
            state,
            layer: after_state_layer,
            inner: InteractionRouterService::with_layer(before_state_layer),
        }
    }

    /// Registers `service` at `id`, as `mut_route` does, and hands the router on.
    #[must_use]
    pub fn route<R, M, X>(self, id: u64, service: R, erase: &X) -> (router: Self) where
        State: Clone,
        L: Layer<R>,
        X: Layer<CommandModelLayerService<StateLayerService<L::Service, State>, M>>,
        B: Layer<X::Service, Service = S>,

        requires
            self.wf(),
        ensures
            router.wf(),
            router.state() == self.state(),
            router.after_state() == self.after_state(),
            router.before_state() == self.before_state(),
            router.routes().contains_key(id),
            built(
                self.state(),
                self.after_state(),
                *erase,
                self.before_state(),
                service,
                router.routes()[id],
            ),
            router.routes() == self.routes().insert(id, router.routes()[id]),
            router.order() == if self.routes().contains_key(id) {
                self.order()
            } else {
                self.order().push(id)
            },
    {
        let mut router = self;
        let _ = router.mut_route::<R, M, X>(id, service, erase);
        router
    }

    /// Builds the pipeline around `service` and stores it at `id`.
    ///
    /// The pipeline is built in a fixed order, see `built`. A pipeline that was
    /// stored at `id` before is replaced and handed back; every other route
    /// stays as it is.
    pub fn mut_route<R, M, X>(&mut self, id: u64, service: R, erase: &X) -> (previous: Option<
        S,
    >) where
        State: Clone,
        L: Layer<R>,
        X: Layer<CommandModelLayerService<StateLayerService<L::Service, State>, M>>,
        B: Layer<X::Service, Service = S>,

        requires
            old(self).wf(),
        ensures
            final(self).wf(),
            final(self).state() == old(self).state(),
            final(self).after_state() == old(self).after_state(),
            final(self).before_state() == old(self).before_state(),
            final(self).routes().contains_key(id),
            built(
                old(self).state(),
                old(self).after_state(),
                *erase,
                old(self).before_state(),
                service,
                final(self).routes()[id],
            ),
            final(self).routes() == old(self).routes().insert(id, final(self).routes()[id]),
            previous == lookup(old(self).routes(), id),
            final(self).order() == if old(self).routes().contains_key(id) {
                old(self).order()
            } else {
                old(self).order().push(id)
            },
    {
        let injector = StateLayer::new(self.state.clone());
        let ghost held = injector;
        let typed = (CommandModelLayer::<M>::new(), injector, &self.layer).layer(service);
        let erased = erase.layer(typed);
        let previous = self.inner.mut_route(id, erased);
        proof {
            assert((CommandModelLayer::<M> { phantom_data: PhantomData }, held, &self.layer).wraps(service, typed));
            assert(erase.wraps(typed, erased));
            assert(self.inner.stack().wraps(erased, self.inner.routes()[id]));
        }
        previous
    }

    /// Wraps every stored pipeline by `new_layer` and puts `new_layer` on top of
    /// the stack around the pipelines; the stack between injector and handler
    /// stays as it is.
    #[must_use]
    pub fn layer<N>(self, new_layer: N) -> (router: CommandRouterService<
        State,
        L,
        N::Service,
        (N, B),
    >) where N: Layer<S>
        requires
            self.wf(),
        ensures
            router.wf(),
            router.state() == self.state(),
            router.after_state() == self.after_state(),
            router.before_state() == (new_layer, self.before_state()),
            router.order() == self.order(),
            router.routes().dom() == self.routes().dom(),
            forall|id: u64|
                self.routes().contains_key(id) ==> new_layer.wraps(
                    self.routes()[id],
                    #[trigger] router.routes()[id],
                ),
    {
        CommandRouterService {
            state: self.state,
            layer: self.layer,
            inner: self.inner.layer(new_layer),
        }
    }

    /// Probes the routes for readiness, as the table of routes does.
    pub fn poll_ready<E, F>(&mut self, poll: F) -> (status: Readiness<E>) where
        F: Fn(S) -> (S, Readiness<E>),

        requires
            old(self).wf(),
            forall|id: u64| #[trigger]
                old(self).routes().contains_key(id) ==> poll.requires((old(self).routes()[id],)),
        ensures
            final(self).wf(),
            final(self).state() == old(self).state(),
            final(self).after_state() == old(self).after_state(),
            final(self).before_state() == old(self).before_state(),
            final(self).order() == old(self).order(),
            final(self).routes().dom() == old(self).routes().dom(),
            probe_round(
                poll,
                old(self).order(),
                old(self).routes(),
                final(self).routes(),
                status,
            ),
    {
        assert(self.routes() == self.inner.routes());
        self.inner.poll_ready(poll)
    }

    /// Begins a dispatch of `req`, as the table of routes does.
    pub fn call<C>(&mut self, req: Interaction<C>) -> (dispatch: Option<(S, Interaction<C>)>) where
        S: Clone,

        requires
            old(self).wf(),
        ensures
            final(self).wf(),
            final(self).state() == old(self).state(),
            final(self).after_state() == old(self).after_state(),
            final(self).before_state() == old(self).before_state(),
            final(self).order() == old(self).order(),
            match lookup(old(self).routes(), req.id) {
                Some(handle) => dispatch == Some((handle, req)) && handed_out(
                    old(self).routes(),
                    final(self).routes(),
                    req.id,
                    handle,
                ),
                None => dispatch.is_none() && final(self).routes() == old(self).routes(),
            },
    {
        self.inner.call(req)
    }
}

/// The order of composition: in a pipeline that a command router built, the
/// handler is wrapped by the stack `after_state` first, the injector holds
/// that result together with a duplicate of a duplicate of the router's
/// state, the decoding adapter holds the injector, and only then come `erase`
/// and, outermost, the stack `before_state`, which see the pipeline from
/// outside the adapter.
pub proof fn lemma_composition_order<State: Clone, L: Layer<R>, R, M, X, B>(
    state: State,
    after_state: L,
    erase: X,
    before_state: B,
    service: R,
    stored: B::Service,
) where
    X: Layer<CommandModelLayerService<StateLayerService<L::Service, State>, M>>,
    B: Layer<X::Service>,

    requires
        built(state, after_state, erase, before_state, service, stored),
    ensures
        exists|
            wrapped: L::Service,
            held: State,
            injected: State,
            typed: CommandModelLayerService<StateLayerService<L::Service, State>, M>,
            erased: X::Service,
        |
            {
                &&& #[trigger] after_state.wraps(service, wrapped)
                &&& #[trigger] cloned(state, held)
                &&& #[trigger] cloned(held, injected)
                &&& typed.inner == (StateLayerService { inner: wrapped, state: injected })
                &&& #[trigger] erase.wraps(typed, erased)
                &&& #[trigger] before_state.wraps(erased, stored)
            },
{
    let (injector, typed, erased) = choose|
        injector: StateLayer<State>,
        typed: CommandModelLayerService<StateLayerService<L::Service, State>, M>,
        erased: X::Service,
    |
        {
            &&& cloned(state, injector.state)
            &&& #[trigger] (
                CommandModelLayer::<M> { phantom_data: PhantomData },
                injector,
                &after_state,
            ).wraps(service, typed)
            &&& #[trigger] erase.wraps(typed, erased)
            &&& #[trigger] before_state.wraps(erased, stored)
        };
    let stack = (CommandModelLayer::<M> { phantom_data: PhantomData }, injector, &after_state);
    let (low, mid) = choose|low: L::Service, mid: StateLayerService<L::Service, State>| #[trigger]
        stack.2.wraps(service, low) && #[trigger] stack.1.wraps(low, mid) && stack.0.wraps(
            mid,
            typed,
        );
    assert(after_state.wraps(service, low));
    assert(cloned(state, injector.state));
    assert(cloned(injector.state, mid.state));
    assert(typed.inner == (StateLayerService { inner: low, state: mid.state }));
}

} // verus!
