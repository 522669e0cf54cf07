//! The dispatch coordinator: one request from the routing decision to the
//! answer.
//!
//! A dispatch that finds a backend launches two things at once, the call to
//! the backend and the telemetry sampler. It waits for the call alone. When
//! the call is over, however it ended, it cancels the sampler, waits until
//! the sampler has stopped, and only then hands the call's result on.

use crate::backend::{
    classify, classify_model, CallOutcome, CallOutcomeView, DispatchResult, DispatchResultView,
};
use crate::routing::{resolution, Endpoint, RoutingTable};
use vstd::prelude::*;

verus! {

/// One inbound request: the body to forward, the id under which telemetry is
/// reported, and the model that is to serve it.
#[derive(Debug, Clone, PartialEq, Eq)]
pub struct DispatchRequest {
    pub payload: Vec<u8>,
    pub request_id: String,
    pub model_name: String,
}

/// A request as a mathematical value.
pub struct DispatchRequestView {
    pub payload: Seq<u8>,
    pub request_id: Seq<char>,
    pub model_name: Seq<char>,
}

impl View for DispatchRequest {
    type V = DispatchRequestView;

    open spec fn view(&self) -> DispatchRequestView {
        DispatchRequestView {
            payload: self.payload@,
            request_id: self.request_id@,
            model_name: self.model_name@,
        }
    }
}

/// Where a dispatch stands.
#[derive(Debug, Clone, PartialEq, Eq)]
pub enum Coordinator {
    /// Call and sampler are running; the call has not ended.
    AwaitingCaller,
    /// The call has ended with `result` and the sampler has been cancelled,
    /// but has not yet said that it stopped.
    AwaitingSampler { result: DispatchResult },
    /// The result has been handed on.
    Done,
}

/// A coordinator's state as a mathematical value.
pub enum CoordinatorView {
    AwaitingCaller,
    AwaitingSampler { result: DispatchResultView },
    Done,
}

impl View for Coordinator {
    type V = CoordinatorView;

    open spec fn view(&self) -> CoordinatorView {
        match self {
            Coordinator::AwaitingCaller => CoordinatorView::AwaitingCaller,
            Coordinator::AwaitingSampler { result } => CoordinatorView::AwaitingSampler {
                result: result@,
            },
            Coordinator::Done => CoordinatorView::Done,
        }
    }
}

/// What a coordinator is told.
#[derive(Debug, Clone, PartialEq, Eq)]
pub enum CoordinatorEvent {
    /// The call to the backend has ended, in this way.
    CallerFinished(CallOutcome),
    /// The sampler has stopped, its finished event issued.
    SamplerStopped,
}

/// A coordinator event as a mathematical value.
pub enum CoordinatorEventView {
    CallerFinished(CallOutcomeView),
    SamplerStopped,
}

impl View for CoordinatorEvent {
    type V = CoordinatorEventView;

    open spec fn view(&self) -> CoordinatorEventView {
        match self {
            CoordinatorEvent::CallerFinished(outcome) => CoordinatorEventView::CallerFinished(
                outcome@,
            ),
            CoordinatorEvent::SamplerStopped => CoordinatorEventView::SamplerStopped,
        }
    }
}

/// What a coordinator wants done.
#[derive(Debug, Clone, PartialEq, Eq)]
pub enum Directive {
    /// Start the sampler for this request, and the call that carries
    /// `payload` to `endpoint`.
    Launch { endpoint: Endpoint, payload: Vec<u8>, request_id: String, model_name: String },
    /// Signal the sampler to stop, and wait until it has.
    CancelSampler,
    /// Hand this result to the request's originator.
    Reply(DispatchResult),
    /// Nothing is to be done.
    Nothing,
}

/// A directive as a mathematical value.
pub enum DirectiveView {
    Launch { endpoint: Endpoint, payload: Seq<u8>, request_id: Seq<char>, model_name: Seq<char> },
    CancelSampler,
    Reply(DispatchResultView),
    Nothing,
}

impl View for Directive {
    type V = DirectiveView;

    open spec fn view(&self) -> DirectiveView {
        match self {
            Directive::Launch { endpoint, payload, request_id, model_name } => DirectiveView::Launch {
                endpoint: *endpoint,
                payload: payload@,
                request_id: request_id@,
                model_name: model_name@,
            },
            Directive::CancelSampler => DirectiveView::CancelSampler,
            Directive::Reply(result) => DirectiveView::Reply(result@),
            Directive::Nothing => DirectiveView::Nothing,
        }
    }
}

/// How a dispatch begins. A request for a model that the table knows
/// launches call and sampler. A request for any other model is answered at
/// once with `ModelNotFound`, and nothing is launched for it.
pub open spec fn begin_model(table: Map<Seq<char>, u16>, request: DispatchRequestView) -> (
    CoordinatorView,
    DirectiveView,
) {
    match resolution(table, request.model_name) {
        Ok(endpoint) => (
            CoordinatorView::AwaitingCaller,
            DirectiveView::Launch {
                endpoint,
                payload: request.payload,
                request_id: request.request_id,
                model_name: request.model_name,
            },
        ),
        Err(_) => (
            CoordinatorView::Done,
            DirectiveView::Reply(DispatchResultView::ModelNotFound),
        ),
    }
}

/// The coordinator's rule. The end of the call, whatever its outcome,
/// cancels the sampler and keeps the verdict on the call. The sampler's stop
/// then releases that verdict, unchanged. Any event that comes out of turn is
/// passed over.
pub open spec fn coordinate_model(state: CoordinatorView, event: CoordinatorEventView) -> (
    CoordinatorView,
    DirectiveView,
) {
    match (state, event) {
        (CoordinatorView::AwaitingCaller, CoordinatorEventView::CallerFinished(outcome)) => (
            CoordinatorView::AwaitingSampler { result: classify_model(outcome) },
            DirectiveView::CancelSampler,
        ),
        (CoordinatorView::AwaitingSampler { result }, CoordinatorEventView::SamplerStopped) => (
            CoordinatorView::Done,
            DirectiveView::Reply(result),
        ),
        _ => (state, DirectiveView::Nothing),
    }
}

impl Coordinator {
    /// Begins the dispatch of `request`.
    pub fn begin(table: &RoutingTable, request: DispatchRequest) -> (r: (Coordinator, Directive))
        ensures
            (r.0@, r.1@) == begin_model(table@, request@),
    {
        match table.resolve(&request.model_name) {
            Ok(endpoint) => (
                Coordinator::AwaitingCaller,
                Directive::Launch {
                    endpoint,
                    payload: request.payload,
                    request_id: request.request_id,
                    model_name: request.model_name,
                },
            ),
            Err(_) => (Coordinator::Done, Directive::Reply(DispatchResult::ModelNotFound)),
        }
    }

    /// Takes one event: gives the next state and what is to be done.
    pub fn step(self, event: CoordinatorEvent) -> (r: (Coordinator, Directive))
        ensures
            (r.0@, r.1@) == coordinate_model(self@, event@),
    {
        match self {
            Coordinator::AwaitingCaller => match event {
                CoordinatorEvent::CallerFinished(outcome) => (
                    Coordinator::AwaitingSampler { result: classify(outcome) },
                    Directive::CancelSampler,
                ),
                CoordinatorEvent::SamplerStopped => (Coordinator::AwaitingCaller, Directive::Nothing),
            },
            Coordinator::AwaitingSampler { result } => match event {
                CoordinatorEvent::SamplerStopped => (Coordinator::Done, Directive::Reply(result)),
                CoordinatorEvent::CallerFinished(_) => (
                    Coordinator::AwaitingSampler { result },
                    Directive::Nothing,
                ),
            },
            Coordinator::Done => (Coordinator::Done, Directive::Nothing),
        }
    }

    /// Whether the result has been handed on.
    pub fn is_done(&self) -> (r: bool)
        ensures
            r == (self@ is Done),
    {
        match self {
            Coordinator::Done => true,
            _ => false,
        }
    }
}

/// The cancellation is on every path out of the call: whatever the outcome,
/// success or failure, the end of the call cancels the sampler, and the
/// sampler's stop then releases the verdict on that outcome and no other.
pub proof fn lemma_every_outcome_cancels(outcome: CallOutcomeView)
    ensures
        coordinate_model(
            CoordinatorView::AwaitingCaller,
            CoordinatorEventView::CallerFinished(outcome),
        ).1 is CancelSampler,
        coordinate_model(
            coordinate_model(
                CoordinatorView::AwaitingCaller,
                CoordinatorEventView::CallerFinished(outcome),
            ).0,
            CoordinatorEventView::SamplerStopped,
        ) == (CoordinatorView::Done, DirectiveView::Reply(classify_model(outcome))),
{
}

/// No result is handed on before the sampler says that it stopped, and the
/// sampler is cancelled by nothing but the end of the call.
pub proof fn lemma_directives_in_turn(state: CoordinatorView, event: CoordinatorEventView)
    ensures
        coordinate_model(state, event).1 is Reply ==> event is SamplerStopped
            && state is AwaitingSampler,
        coordinate_model(state, event).1 is CancelSampler ==> event is CallerFinished
            && state is AwaitingCaller,
        !(coordinate_model(state, event).1 is Launch),
        state is Done ==> coordinate_model(state, event) == (state, DirectiveView::Nothing),
{
}

} // verus!
