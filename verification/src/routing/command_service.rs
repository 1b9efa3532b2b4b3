//! A handler made of a plain function of the shared state and a command model.
use crate::readiness::Readiness;
use vstd::prelude::*;

verus! {

/// A unit of work that calls a function with the state and the decoded command.
#[derive(Copy, Clone, Debug)]
pub struct CommandService<F> {
    function: F,
}

impl<F> CommandService<F> {
    /// The function that this handler calls.
    pub closed spec fn function(self) -> F {
        self.function
    }

    /// A handler of this kind never has to wait and never fails to get ready.
    pub fn poll_ready<E>(&self) -> (status: Readiness<E>)
        ensures
            status.is_ok(),
    {
        Readiness::Ready(Ok(()))
    }

    /// Calls the function with `state` and `model` and hands back what it returns.
    pub fn call<State, Model, Output>(&self, state: State, model: Model) -> (output: Output) where
        F: Fn(State, Model) -> Output,

        requires
            self.function().requires((state, model)),
        ensures
            self.function().ensures((state, model), output),
    {
        (self.function)(state, model)
    }
}

/// Makes a handler out of `function`.
pub fn command_service<F>(function: F) -> (service: CommandService<F>)
    ensures
        service.function() == function,
{
    CommandService { function }
}

} // verus!
