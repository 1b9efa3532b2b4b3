//! The adapter that turns a handler of typed commands into a handler of raw
//! interactions, by decoding the payload.
use crate::interaction::{Interaction, InteractionData};
use crate::layer::Layer;
use crate::readiness::Readiness;
use std::marker::PhantomData;
use twilight_interactions::error::ParseError;
use vstd::prelude::*;

verus! {

/// `twilight_interactions::error::ParseError`, the error that decoding a
/// command's data gives. Its values are carried through unread: nothing is
/// claimed of what one holds.
#[verifier::external_type_specification]
#[verifier::external_body]
pub struct ExParseError(ParseError);

/// The transformation that puts the decoding adapter around a handler of the
/// command model `CommandModel`.
#[derive(Debug)]
pub struct CommandModelLayer<CommandModel> {
    pub phantom_data: PhantomData<CommandModel>,
}

impl<CommandModel> Clone for CommandModelLayer<CommandModel> {
    fn clone(&self) -> (copy: Self)
        ensures
            copy == *self,
    {
        CommandModelLayer { phantom_data: PhantomData }
    }
}

impl<CommandModel> Copy for CommandModelLayer<CommandModel> {}

impl<CommandModel> CommandModelLayer<CommandModel> {
    /// The transformation for the command model `CommandModel`; it holds nothing.
    #[must_use]
    pub fn new() -> (layer: Self)
        ensures
            layer == (CommandModelLayer::<CommandModel> { phantom_data: PhantomData }),
    {
        CommandModelLayer { phantom_data: PhantomData }
    }
}

impl<CommandModel> Default for CommandModelLayer<CommandModel> {
    fn default() -> (layer: Self)
        ensures
            layer == (CommandModelLayer::<CommandModel> { phantom_data: PhantomData }),
    {
        CommandModelLayer { phantom_data: PhantomData }
    }
}

impl<S, CommandModel> Layer<S> for CommandModelLayer<CommandModel> {
    type Service = CommandModelLayerService<S, CommandModel>;

    open spec fn wraps(&self, inner: S, outer: CommandModelLayerService<S, CommandModel>) -> bool {
        outer.inner == inner
    }

    fn layer(&self, inner: S) -> (outer: CommandModelLayerService<S, CommandModel>) {
        CommandModelLayerService { inner, phantom_data: PhantomData }
    }
}

/// Why a raw interaction did not give a handler's response.
#[derive(Debug, PartialEq)]
pub enum CommandModelServiceError<ServiceError> {
    /// The payload is an application command whose data could not be decoded.
    Parse(ParseError),
    /// The interaction carries no application command.
    NotACommand,
    /// The handler itself failed.
    Service(ServiceError),
}

impl<ServiceError> CommandModelServiceError<ServiceError> {
    /// The text that describes this kind of error.
    pub open spec fn text(&self) -> Seq<char> {
        match self {
            CommandModelServiceError::Parse(_) => "Error parsing command data"@,
            CommandModelServiceError::NotACommand => "Interaction was not a command"@,
            CommandModelServiceError::Service(_) => "Inner service error"@,
        }
    }

    /// Describes this kind of error in words.
    pub fn message(&self) -> (message: String)
        ensures
            message@ == self.text(),
    {
        match self {
            CommandModelServiceError::Parse(_) => "Error parsing command data".to_owned(),
            CommandModelServiceError::NotACommand => "Interaction was not a command".to_owned(),
            CommandModelServiceError::Service(_) => "Inner service error".to_owned(),
        }
    }
}

/// What the adapter hands back for the outcome of decoding: the handle to
/// invoke together with the decoded model, or the decoding error.
pub open spec fn decoded<S, M, E>(handle: S, outcome: Result<M, ParseError>) -> Result<
    (S, M),
    CommandModelServiceError<E>,
> {
    match outcome {
        Ok(model) => Ok((handle, model)),
        Err(error) => Err(CommandModelServiceError::Parse(error)),
    }
}

/// What the adapter answers for the handler's own outcome.
pub open spec fn served<R, E>(outcome: Result<R, E>) -> Result<R, CommandModelServiceError<E>> {
    match outcome {
        Ok(response) => Ok(response),
        Err(error) => Err(CommandModelServiceError::Service(error)),
    }
}

/// The adapter's readiness for the readiness of the handler it wraps.
pub open spec fn adapted<E>(status: Readiness<E>) -> Readiness<CommandModelServiceError<E>> {
    match status {
        Readiness::Pending => Readiness::Pending,
        Readiness::Ready(Ok(_)) => Readiness::Ready(Ok(())),
        Readiness::Ready(Err(error)) => Readiness::Ready(
            Err(CommandModelServiceError::Service(error)),
        ),
    }
}

/// A handler of the decoded command model `M`, seen as a handler of raw
/// interactions.
#[derive(Debug)]
pub struct CommandModelLayerService<S, M> {
    pub inner: S,
    pub phantom_data: PhantomData<M>,
}

impl<S: Clone, M> Clone for CommandModelLayerService<S, M> {
    fn clone(&self) -> (copy: Self)
        ensures
            cloned(self.inner, copy.inner),
    {
        CommandModelLayerService { inner: self.inner.clone(), phantom_data: PhantomData }
    }
}

impl<S, M> CommandModelLayerService<S, M> {
    /// The adapter never waits by itself: it is as ready as the handler is, and
    /// a failure of the handler to get ready is a handler error.
    pub fn poll_ready<E>(&self, inner: Readiness<E>) -> (status: Readiness<
        CommandModelServiceError<E>,
    >)
        ensures
            status == adapted(inner),
    {
        match inner {
            Readiness::Pending => Readiness::Pending,
            Readiness::Ready(Ok(_)) => Readiness::Ready(Ok(())),
            Readiness::Ready(Err(error)) => Readiness::Ready(
                Err(CommandModelServiceError::Service(error)),
            ),
        }
    }

    /// The raw command data of `req`, or `NotACommand` where it has none.
    pub fn command_data<C, E>(req: Interaction<C>) -> (data: Result<C, CommandModelServiceError<E>>)
        ensures
            data == match req.command() {
                Some(command) => Ok::<C, CommandModelServiceError<E>>(command),
                None => Err(CommandModelServiceError::NotACommand),
            },
    {
        match req.data {
            Some(InteractionData::ApplicationCommand(command)) => Ok(command),
            _ => Err(CommandModelServiceError::NotACommand),
        }
    }

    /// The step after decoding: the model goes to `handle`, a decoding error
    /// ends the call.
    pub fn decoded<E>(handle: S, outcome: Result<M, ParseError>) -> (next: Result<
        (S, M),
        CommandModelServiceError<E>,
    >)
        ensures
            next == decoded::<S, M, E>(handle, outcome),
    {
        match outcome {
            Ok(model) => Ok((handle, model)),
            Err(error) => Err(CommandModelServiceError::Parse(error)),
        }
    }

    /// The last step: the handler's response as it is, its error as `Service`.
    pub fn served<R, E>(outcome: Result<R, E>) -> (answer: Result<R, CommandModelServiceError<E>>)
        ensures
            answer == served(outcome),
    {
        match outcome {
            Ok(response) => Ok(response),
            Err(error) => Err(CommandModelServiceError::Service(error)),
        }
    }

    /// Begins a call on a raw interaction.
    ///
    /// The stored handler is exchanged for a duplicate of itself, so that this
    /// call owns a handle of its own and the adapter can take the next call at
    /// once. An interaction without an application command ends the call with
    /// `NotACommand`, before anything is decoded. Otherwise `decode` is run on
    /// the command data: its error ends the call with `Parse`, its model is
    /// handed back with the handle that is to be invoked with it.
    pub fn call<C, E, D>(&mut self, req: Interaction<C>, decode: D) -> (next: Result<
        (S, M),
        CommandModelServiceError<E>,
    >) where S: Clone, D: FnOnce(C) -> Result<M, ParseError>
        requires
            req.command() matches Some(command) ==> decode.requires((command,)),
        ensures
            cloned(old(self).inner, final(self).inner),
            match req.command() {
                Some(command) => exists|outcome: Result<M, ParseError>|
                    #[trigger] decode.ensures((command,), outcome) && next == decoded::<S, M, E>(
                        old(self).inner,
                        outcome,
                    ),
                None => next == Err::<(S, M), CommandModelServiceError<E>>(
                    CommandModelServiceError::NotACommand,
                ),
            },
    {
        let mut handle = self.inner.clone();
        std::mem::swap(&mut self.inner, &mut handle);
        match Self::command_data::<C, E>(req) {
            Ok(command) => {
                let outcome = decode(command);
                Self::decoded(handle, outcome)
            },
            Err(error) => Err(error),
        }
    }
}

} // verus!
