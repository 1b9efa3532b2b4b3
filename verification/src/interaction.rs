//! The inbound event as far as routing and decoding read it.
use vstd::prelude::*;

verus! {

/// The payload of an interaction, by category.
#[derive(Debug)]
pub enum InteractionData<C> {
    /// An application command, with its raw data.
    ApplicationCommand(C),
    /// Any payload that is not an application command.
    Other,
}

/// An inbound event: the identifier it is routed by and its payload, if it has one.
#[derive(Debug)]
pub struct Interaction<C> {
    pub id: u64,
    pub data: Option<InteractionData<C>>,
}

impl<C> Interaction<C> {
    /// The raw command data, where the payload is an application command.
    pub open spec fn command(self) -> Option<C> {
        match self.data {
            Some(InteractionData::ApplicationCommand(command)) => Some(command),
            _ => None,
        }
    }
}

} // verus!
