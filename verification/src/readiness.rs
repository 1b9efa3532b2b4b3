//! The outcome of a readiness probe on a unit of work.
use vstd::prelude::*;

verus! {

/// What a unit of work answers when asked whether a call could proceed now.
#[derive(Debug)]
pub enum Readiness<E> {
    /// The unit cannot take a call yet.
    Pending,
    /// The probe finished: the unit is usable, or it failed with an error.
    Ready(Result<(), E>),
}

impl<E> Readiness<E> {
    /// Whether this is `Ready(Ok(()))`, the only status on which a call may proceed.
    pub open spec fn is_ok(self) -> bool {
        match self {
            Readiness::Ready(Ok(_)) => true,
            _ => false,
        }
    }

    /// Tests for `Ready(Ok(()))`.
    pub fn is_ready_ok(&self) -> (b: bool)
        ensures
            b == self.is_ok(),
    {
        match self {
            Readiness::Ready(Ok(())) => true,
            _ => false,
        }
    }
}

} // verus!
