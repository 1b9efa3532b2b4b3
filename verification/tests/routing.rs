use interaction_router::command_model_layer::{
    CommandModelLayer, CommandModelLayerService, CommandModelServiceError,
};
use interaction_router::interaction::{Interaction, InteractionData};
use interaction_router::layer::Layer;
use interaction_router::readiness::Readiness;
use interaction_router::routing::command_router::CommandRouterService;
use interaction_router::routing::command_service::{command_service, CommandService};
use interaction_router::routing::InteractionRouterService;
use interaction_router::state::{StateLayer, StateLayerService};
use std::rc::Rc;
use std::sync::atomic::{AtomicI64, Ordering};
use std::sync::Arc;
use twilight_interactions::error::ParseError;

/// The raw data of a command: the list of its option values.
type Raw = Vec<i64>;

type Answer<R> = Result<R, CommandModelServiceError<()>>;

type Erased<R> = Rc<dyn Fn(Interaction<Raw>) -> Answer<R>>;

trait Decode: Sized {
    fn decode(raw: Raw) -> Result<Self, ParseError>;
}

#[derive(Debug, PartialEq)]
struct HasCommandModelA {}

#[derive(Debug, PartialEq)]
struct HasCommandModelB {}

#[derive(Debug, PartialEq)]
struct Pair(i64, i64);

impl Decode for HasCommandModelA {
    fn decode(_raw: Raw) -> Result<Self, ParseError> {
        Ok(HasCommandModelA {})
    }
}

impl Decode for HasCommandModelB {
    fn decode(_raw: Raw) -> Result<Self, ParseError> {
        Ok(HasCommandModelB {})
    }
}

impl Decode for Pair {
    fn decode(raw: Raw) -> Result<Self, ParseError> {
        if raw.len() == 2 {
            Ok(Pair(raw[0], raw[1]))
        } else {
            Err(ParseError::EmptyOptions)
        }
    }
}

/// A handler that can be invoked at once.
trait Invoke<Request> {
    type Output;
    fn invoke(&self, req: Request) -> Self::Output;
}

impl<F, State, Model, Output> Invoke<(State, Model)> for CommandService<F>
where
    F: Fn(State, Model) -> Output,
{
    type Output = Output;
    fn invoke(&self, (state, model): (State, Model)) -> Output {
        self.call(state, model)
    }
}

#[derive(Clone)]
struct ServiceFn<F>(F);

impl<F, Request, Output> Invoke<Request> for ServiceFn<F>
where
    F: Fn(Request) -> Output,
{
    type Output = Output;
    fn invoke(&self, req: Request) -> Output {
        (self.0)(req)
    }
}

/// Runs a typed pipeline on a raw interaction, step by step.
fn run<H, State, Model, R>(
    adapter: &CommandModelLayerService<StateLayerService<H, State>, Model>,
    req: Interaction<Raw>,
) -> Answer<R>
where
    H: Invoke<(State, Model), Output = Result<R, ()>> + Clone,
    State: Clone,
    Model: Decode,
{
    let mut adapter = adapter.clone();
    let (mut injector, model) = adapter.call(req, Model::decode)?;
    let (handler, request) = injector.call(model);
    CommandModelLayerService::<StateLayerService<H, State>, Model>::served(handler.invoke(request))
}

/// Gives every pipeline the one type that a table of routes holds.
struct Erase;

impl<H, State, Model, R> Layer<CommandModelLayerService<StateLayerService<H, State>, Model>>
    for Erase
where
    H: Invoke<(State, Model), Output = Result<R, ()>> + Clone + 'static,
    State: Clone + 'static,
    Model: Decode + 'static,
    R: 'static,
{
    type Service = Erased<R>;

    fn layer(
        &self,
        inner: CommandModelLayerService<StateLayerService<H, State>, Model>,
    ) -> Erased<R> {
        Rc::new(move |req| run::<H, State, Model, R>(&inner, req))
    }
}

fn interaction(id: u64) -> Interaction<Raw> {
    Interaction { id, data: Some(InteractionData::ApplicationCommand(vec![])) }
}

fn interaction_with(id: u64, raw: Raw) -> Interaction<Raw> {
    Interaction { id, data: Some(InteractionData::ApplicationCommand(raw)) }
}

fn dispatch<State, L, R, B>(
    router: &mut CommandRouterService<State, L, Erased<R>, B>,
    req: Interaction<Raw>,
) -> Option<Answer<R>> {
    let status: Readiness<()> = router.poll_ready(|handle| (handle, Readiness::Ready(Ok(()))));
    assert!(status.is_ready_ok());
    router.call(req).map(|(handle, req)| handle(req))
}

/// A transformation that turns the response of a stored pipeline by a function.
struct MapResponseLayer<F>(F);

impl<F, R, T> Layer<Erased<R>> for MapResponseLayer<F>
where
    F: Fn(R) -> T + Clone + 'static,
    R: 'static,
    T: 'static,
{
    type Service = Erased<T>;

    fn layer(&self, inner: Erased<R>) -> Erased<T> {
        let map = self.0.clone();
        Rc::new(move |req| inner(req).map(&map))
    }
}

/// A transformation that turns the request on its way to the handler by a function.
struct MapRequestLayer<F>(F);

#[derive(Clone)]
struct MapRequest<H, F> {
    inner: H,
    map: F,
}

impl<H, F: Clone> Layer<H> for MapRequestLayer<F> {
    type Service = MapRequest<H, F>;

    fn layer(&self, inner: H) -> MapRequest<H, F> {
        MapRequest { inner, map: self.0.clone() }
    }
}

impl<H, F, Request, Mapped> Invoke<Request> for MapRequest<H, F>
where
    F: Fn(Request) -> Mapped,
    H: Invoke<Mapped>,
{
    type Output = H::Output;
    fn invoke(&self, req: Request) -> H::Output {
        self.inner.invoke((self.map)(req))
    }
}

struct Mapped<S>(S);

/// Asserts what the wrapped handler answers, and answers 42 itself.
struct Answering;

impl<H> Layer<StateLayerService<H, i64>> for Answering
where
    H: Invoke<(i64, Interaction<Raw>), Output = Result<i64, ()>> + Clone + 'static,
{
    type Service = Rc<dyn Fn(Interaction<Raw>) -> Result<i64, ()>>;

    fn layer(&self, service: StateLayerService<H, i64>) -> Self::Service {
        Rc::new(move |x| {
            let mut service = service.clone();
            let (handler, request) = service.call(x);
            assert_eq!(handler.invoke(request).unwrap(), 1);
            Ok::<_, ()>(42)
        })
    }
}

#[test]
fn it_works() {
    let mut router = InteractionRouterService::with_layer(StateLayer::new(2))
        .route(
            12,
            ServiceFn(|(state, _interaction): (i64, Interaction<Raw>)| {
                assert_eq!(state, 2);
                Ok::<_, ()>(1)
            }),
        )
        .layer(Answering);
    let value = router.call(interaction(12)).map(|(handle, req)| handle(req)).unwrap().unwrap();

    assert_eq!(value, 42);
}

#[test]
fn command_service_test() {
    fn command(_state: (), _model: HasCommandModelA) -> Result<i64, ()> {
        Ok(1)
    }

    fn command2(_state: (), _model: HasCommandModelB) -> Result<i64, ()> {
        Ok(2)
    }

    let mut router = CommandRouterService::new(())
        .route(1, command_service(command), &Erase)
        .route(2, command_service(command2), &Erase);

    let res1 = dispatch(&mut router, interaction(1)).unwrap().unwrap();
    assert_eq!(res1, 1);

    let res2 = dispatch(&mut router, interaction(2)).unwrap().unwrap();
    assert_eq!(res2, 2);
}

#[test]
fn test_layers() {
    let atomic = Arc::new(AtomicI64::new(0));

    let after = MapRequestLayer(Mapped::<(Arc<AtomicI64>, HasCommandModelA)>);
    let before = MapResponseLayer(Mapped::<i64>);
    let erase = Erase;

    let mut router = CommandRouterService::with_layers(atomic.clone(), after, before)
        .route(
            1,
            ServiceFn(|Mapped((state, _interaction)): Mapped<(Arc<AtomicI64>, HasCommandModelA)>| {
                state.fetch_add(1, Ordering::Relaxed);
                Ok::<_, ()>(1)
            }),
            &erase,
        )
        .route(
            2,
            ServiceFn(|Mapped((state, _interaction)): Mapped<(Arc<AtomicI64>, HasCommandModelA)>| {
                state.fetch_add(1, Ordering::Relaxed);
                Ok::<_, ()>(2)
            }),
            &erase,
        )
        .route(
            3,
            ServiceFn(|Mapped((state, _interaction)): Mapped<(Arc<AtomicI64>, HasCommandModelA)>| {
                state.fetch_add(1, Ordering::Relaxed);
                Ok::<_, ()>(3)
            }),
            &erase,
        );

    assert_eq!(atomic.load(Ordering::Relaxed), 0);

    let Mapped(res1) = dispatch(&mut router, interaction(1)).unwrap().unwrap();
    assert_eq!(res1, 1);
    assert_eq!(atomic.load(Ordering::Relaxed), 1);

    let Mapped(res2) = dispatch(&mut router, interaction(2)).unwrap().unwrap();
    assert_eq!(res2, 2);
    assert_eq!(atomic.load(Ordering::Relaxed), 2);

    let Mapped(res3) = dispatch(&mut router, interaction(3)).unwrap().unwrap();
    assert_eq!(res3, 3);
    assert_eq!(atomic.load(Ordering::Relaxed), 3);
}

#[test]
fn matched_route_answers_and_unknown_id_gives_none() {
    fn handler_a(state: i64, model: Pair) -> Result<i64, ()> {
        Ok(state * (model.0 + model.1))
    }
    fn handler_b(_state: i64, _model: HasCommandModelB) -> Result<i64, ()> {
        Ok(-1)
    }
    let mut router = CommandRouterService::new(2)
        .route(1, command_service(handler_a), &Erase)
        .route(2, command_service(handler_b), &Erase);

    assert_eq!(dispatch(&mut router, interaction_with(1, vec![3, 4])), Some(Ok(14)));
    assert_eq!(dispatch(&mut router, interaction_with(2, vec![3, 4])), Some(Ok(-1)));
    assert_eq!(dispatch(&mut router, interaction_with(99, vec![3, 4])), None);
}

#[test]
fn payload_that_is_no_command_gives_not_a_command() {
    fn handler(_state: (), _model: HasCommandModelA) -> Result<i64, ()> {
        Ok(1)
    }
    let mut router = CommandRouterService::new(())
        .route(1, command_service(handler), &Erase);

    let other = Interaction { id: 1, data: Some(InteractionData::Other) };
    assert_eq!(dispatch(&mut router, other), Some(Err(CommandModelServiceError::NotACommand)));
    let missing = Interaction { id: 1, data: None };
    assert_eq!(dispatch(&mut router, missing), Some(Err(CommandModelServiceError::NotACommand)));
}

#[test]
fn malformed_command_gives_parse_and_failing_handler_gives_service() {
    fn handler(_state: (), model: Pair) -> Result<i64, ()> {
        if model.0 < 0 {
            Err(())
        } else {
            Ok(model.1)
        }
    }
    let mut router =
        CommandRouterService::new(()).route(7, command_service(handler), &Erase);

    assert_eq!(
        dispatch(&mut router, interaction_with(7, vec![1])),
        Some(Err(CommandModelServiceError::Parse(ParseError::EmptyOptions)))
    );
    assert_eq!(
        dispatch(&mut router, interaction_with(7, vec![-1, 5])),
        Some(Err(CommandModelServiceError::Service(())))
    );
    assert_eq!(dispatch(&mut router, interaction_with(7, vec![1, 5])), Some(Ok(5)));
}

#[test]
fn dispatch_reaches_only_the_route_of_its_identifier() {
    let calls_a = Rc::new(AtomicI64::new(0));
    let calls_b = Rc::new(AtomicI64::new(0));
    let (a, b) = (calls_a.clone(), calls_b.clone());
    let mut router: InteractionRouterService<Rc<dyn Fn() -> i64>> = InteractionRouterService::new();
    let first: Rc<dyn Fn() -> i64> = Rc::new(move || a.fetch_add(1, Ordering::Relaxed) + 10);
    let second: Rc<dyn Fn() -> i64> = Rc::new(move || b.fetch_add(1, Ordering::Relaxed) + 20);
    assert!(router.mut_route(1, first).is_none());
    assert!(router.mut_route(2, second).is_none());

    let (handle, req) = router.call(interaction(1)).unwrap();
    assert_eq!(req.id, 1);
    assert_eq!(handle(), 10);
    assert_eq!(calls_a.load(Ordering::Relaxed), 1);
    assert_eq!(calls_b.load(Ordering::Relaxed), 0);

    let (handle, _) = router.call(interaction(2)).unwrap();
    assert_eq!(handle(), 20);
    assert_eq!(calls_a.load(Ordering::Relaxed), 1);
    assert_eq!(calls_b.load(Ordering::Relaxed), 1);
}

#[test]
fn unknown_identifier_invokes_nothing() {
    let mut router: InteractionRouterService<i64> = InteractionRouterService::new();
    assert!(router.call(interaction(5)).is_none());
    let mut router = router.route(5, 50);
    assert!(router.call(interaction(6)).is_none());
    assert_eq!(router.call(interaction(5)).map(|(handle, _)| handle), Some(50));
}

#[test]
fn registering_again_hands_back_the_previous_route() {
    let mut router: InteractionRouterService<i64> = InteractionRouterService::new();
    assert_eq!(router.mut_route(3, 30), None);
    assert_eq!(router.mut_route(4, 40), None);
    assert_eq!(router.mut_route(3, 31), Some(30));
    assert_eq!(router.call(interaction(3)).map(|(handle, _)| handle), Some(31));
    assert_eq!(router.call(interaction(4)).map(|(handle, _)| handle), Some(40));
    assert_eq!(router.mut_route(3, 32), Some(31));

    fn one(_state: (), _model: HasCommandModelA) -> Result<i64, ()> {
        Ok(1)
    }
    fn two(_state: (), _model: HasCommandModelA) -> Result<i64, ()> {
        Ok(2)
    }
    let erase = Erase;
    let mut commands = CommandRouterService::new(());
    assert!(commands.mut_route(9, command_service(one), &erase).is_none());
    let previous = commands.mut_route(9, command_service(two), &erase).unwrap();
    assert_eq!(previous(interaction(9)), Ok(1));
    assert_eq!(dispatch(&mut commands, interaction(9)), Some(Ok(2)));
}

#[test]
fn router_without_routes_is_ready() {
    let mut router: InteractionRouterService<i64> = InteractionRouterService::new();
    let status: Readiness<()> = router.poll_ready(|handle| (handle, Readiness::Pending));
    assert!(matches!(status, Readiness::Ready(Ok(()))));
    let mut router: InteractionRouterService<i64> = InteractionRouterService::default();
    let status: Readiness<()> = router.poll_ready(|handle| (handle, Readiness::Pending));
    assert!(status.is_ready_ok());
    let mut commands: CommandRouterService<(), (), i64, ()> = CommandRouterService::new(());
    let status: Readiness<()> = commands.poll_ready(|handle| (handle, Readiness::Pending));
    assert!(status.is_ready_ok());
}

#[test]
fn first_route_that_is_not_ready_decides() {
    let mut router: InteractionRouterService<i64> =
        InteractionRouterService::new().route(1, 10).route(2, 20).route(3, 30).route(4, 40);
    let probed = Rc::new(AtomicI64::new(0));
    let count = probed.clone();
    let status = router.poll_ready(move |handle: i64| {
        count.fetch_add(1, Ordering::Relaxed);
        let report = match handle {
            20 => Readiness::Pending,
            30 => Readiness::Ready(Err("broken")),
            _ => Readiness::Ready(Ok(())),
        };
        (handle + 1, report)
    });
    assert!(matches!(status, Readiness::Pending));
    assert_eq!(probed.load(Ordering::Relaxed), 2);
    assert_eq!(router.call(interaction(1)).map(|(handle, _)| handle), Some(11));
    assert_eq!(router.call(interaction(2)).map(|(handle, _)| handle), Some(21));
    assert_eq!(router.call(interaction(3)).map(|(handle, _)| handle), Some(30));
    assert_eq!(router.call(interaction(4)).map(|(handle, _)| handle), Some(40));

    let status = router.poll_ready(|handle: i64| {
        let report = if handle == 30 { Readiness::Ready(Err("broken")) } else { Readiness::Ready(Ok(())) };
        (handle, report)
    });
    assert!(matches!(status, Readiness::Ready(Err("broken"))));

    let status: Readiness<&str> = router.poll_ready(|handle: i64| (handle, Readiness::Ready(Ok(()))));
    assert!(matches!(status, Readiness::Ready(Ok(()))));
}

#[test]
fn two_dispatches_to_one_identifier_own_a_handle_each() {
    let shared = Rc::new(AtomicI64::new(0));
    let mut router: InteractionRouterService<Rc<AtomicI64>> =
        InteractionRouterService::new().route(1, shared.clone());
    let (first, _) = router.call(interaction(1)).unwrap();
    let (second, _) = router.call(interaction(1)).unwrap();
    second.fetch_add(5, Ordering::Relaxed);
    first.fetch_add(1, Ordering::Relaxed);
    drop(first);
    assert_eq!(shared.load(Ordering::Relaxed), 6);
    let (third, _) = router.call(interaction(1)).unwrap();
    assert!(Rc::ptr_eq(&third, &shared));
}

#[test]
fn later_transformation_is_outermost() {
    struct Tag(&'static str);
    impl Layer<String> for Tag {
        type Service = String;
        fn layer(&self, inner: String) -> String {
            format!("{}({})", self.0, inner)
        }
    }
    assert_eq!(().layer(String::from("h")), "h");
    assert_eq!((Tag("a"), Tag("b")).layer(String::from("h")), "a(b(h))");
    assert_eq!((Tag("a"), Tag("b"), Tag("c")).layer(String::from("h")), "a(b(c(h)))");
    assert_eq!((&Tag("r")).layer(String::from("h")), "r(h)");

    let router = InteractionRouterService::with_layer(Tag("first"))
        .route(1, String::from("one"))
        .layer(Tag("second"))
        .route(2, String::from("two"))
        .layer(Tag("third"));
    let mut router = router;
    assert_eq!(
        router.call(interaction(1)).map(|(handle, _)| handle),
        Some(String::from("third(second(first(one)))"))
    );
    assert_eq!(
        router.call(interaction(2)).map(|(handle, _)| handle),
        Some(String::from("third(second(first(two)))"))
    );
    assert!(router.call(interaction(3)).is_none());
}

#[test]
fn adapter_and_injector_wrap_in_the_stated_order() {
    let adapter = (CommandModelLayer::<Pair>::new(), StateLayer::new(7), ()).layer("handler");
    assert_eq!(adapter.inner.state, 7);
    assert_eq!(adapter.inner.inner, "handler");
    let mut adapter = CommandModelLayer::<Pair>::default().layer(StateLayer::new(8).layer("h"));
    let next: Result<_, CommandModelServiceError<()>> =
        adapter.call(interaction_with(1, vec![1, 2]), Pair::decode);
    let (mut injector, model) = next.unwrap();
    assert_eq!(model, Pair(1, 2));
    let (handler, request) = injector.call(model);
    assert_eq!(handler, "h");
    assert_eq!(request, (8, Pair(1, 2)));
    assert_eq!(adapter.inner.state, 8);
}

#[test]
fn adapter_is_as_ready_as_its_handler() {
    let adapter = CommandModelLayer::<()>::new().layer(0);
    assert!(matches!(adapter.poll_ready::<i64>(Readiness::Pending), Readiness::Pending));
    assert!(matches!(adapter.poll_ready::<i64>(Readiness::Ready(Ok(()))), Readiness::Ready(Ok(()))));
    assert!(matches!(
        adapter.poll_ready(Readiness::Ready(Err(4))),
        Readiness::Ready(Err(CommandModelServiceError::Service(4)))
    ));
    let handler = command_service(|_state: (), _model: ()| 0);
    assert!(handler.poll_ready::<()>().is_ready_ok());
    assert!(!Readiness::<()>::Pending.is_ready_ok());
    assert!(!Readiness::Ready(Err(1)).is_ready_ok());
}

#[test]
fn each_error_kind_has_its_words() {
    let parse: CommandModelServiceError<()> = CommandModelServiceError::Parse(ParseError::EmptyOptions);
    assert_eq!(parse.message(), "Error parsing command data");
    let not_a_command: CommandModelServiceError<()> = CommandModelServiceError::NotACommand;
    assert_eq!(not_a_command.message(), "Interaction was not a command");
    assert_eq!(CommandModelServiceError::Service(3).message(), "Inner service error");
}

#[test]
fn adapter_steps_map_each_outcome() {
    type Adapter = CommandModelLayerService<i64, i64>;
    assert_eq!(Adapter::command_data::<Raw, ()>(interaction_with(1, vec![9])), Ok(vec![9]));
    assert_eq!(
        Adapter::command_data::<Raw, ()>(Interaction { id: 1, data: None }),
        Err(CommandModelServiceError::NotACommand)
    );
    assert_eq!(Adapter::decoded::<()>(3, Ok(4)), Ok((3, 4)));
    assert_eq!(
        Adapter::decoded::<()>(3, Err(ParseError::EmptyOptions)),
        Err(CommandModelServiceError::Parse(ParseError::EmptyOptions))
    );
    assert_eq!(Adapter::served::<i64, i64>(Ok(1)), Ok(1));
    assert_eq!(Adapter::served::<i64, i64>(Err(2)), Err(CommandModelServiceError::Service(2)));
}

#[test]
fn transformation_added_to_command_router_wraps_stored_and_later_routes() {
    fn one(_state: i64, _model: HasCommandModelA) -> Result<i64, ()> {
        Ok(1)
    }
    fn two(state: i64, _model: HasCommandModelB) -> Result<i64, ()> {
        Ok(state)
    }
    let mut router = CommandRouterService::new(5)
        .route(1, command_service(one), &Erase)
        .layer(MapResponseLayer(|response: i64| response * 100))
        .route(2, command_service(two), &Erase)
        .layer(MapResponseLayer(|response: i64| response + 7));

    assert_eq!(dispatch(&mut router, interaction(1)), Some(Ok(107)));
    assert_eq!(dispatch(&mut router, interaction(2)), Some(Ok(507)));
    assert_eq!(dispatch(&mut router, interaction(3)), None);

    let status = router.poll_ready(|handle| (handle, Readiness::Ready(Err(3))));
    assert!(matches!(status, Readiness::Ready(Err(3))));
    let status: Readiness<i64> = router.poll_ready(|handle| (handle, Readiness::Pending));
    assert!(matches!(status, Readiness::Pending));
}
