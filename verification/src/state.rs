//! The transformation that hands a shared state to a handler with every call.
use crate::layer::Layer;
use vstd::prelude::*;

verus! {

/// The transformation that puts a state injector around a handler.
#[derive(Debug)]
pub struct StateLayer<State> {
    pub state: State,
}

impl<State: Clone> Clone for StateLayer<State> {
    fn clone(&self) -> (copy: Self)
        ensures
            cloned(self.state, copy.state),
    {
        StateLayer { state: self.state.clone() }
    }
}

impl<State> StateLayer<State> {
    /// The transformation that injects `state`.
    #[must_use]
    pub fn new(state: State) -> (layer: Self)
        ensures
            layer.state == state,
    {
        StateLayer { state }
    }
}

impl<S, State: Clone> Layer<S> for StateLayer<State> {
    type Service = StateLayerService<S, State>;

    open spec fn wraps(&self, inner: S, outer: StateLayerService<S, State>) -> bool {
        outer.inner == inner && cloned(self.state, outer.state)
    }

    fn layer(&self, inner: S) -> (outer: StateLayerService<S, State>) {
        StateLayerService { inner, state: self.state.clone() }
    }
}

/// A handler of `(State, Request)`, seen as a handler of `Request` alone.
#[derive(Debug)]
pub struct StateLayerService<S, State> {
    pub inner: S,
    pub state: State,
}

impl<S: Clone, State: Clone> Clone for StateLayerService<S, State> {
    fn clone(&self) -> (copy: Self)
        ensures
            cloned(self.inner, copy.inner),
            cloned(self.state, copy.state),
    {
        StateLayerService { inner: self.inner.clone(), state: self.state.clone() }
    }
}

impl<S, State: Clone> StateLayerService<S, State> {
    /// Begins a call: hands back the handle to invoke and its argument, which
    /// is a duplicate of the state followed by the request as it came.
    ///
    /// The stored handler is exchanged for a duplicate of itself; the state
    /// that the injector holds stays as it is.
    pub fn call<Request>(&mut self, req: Request) -> (next: (S, (State, Request))) where S: Clone
        ensures
            next.0 == old(self).inner,
            cloned(old(self).state, next.1.0),
            next.1.1 == req,
            final(self).state == old(self).state,
            cloned(old(self).inner, final(self).inner),
    {
        let mut handle = self.inner.clone();
        std::mem::swap(&mut self.inner, &mut handle);
        (handle, (self.state.clone(), req))
    }
}

} // verus!
