//! The backend caller: how one forwarding call ended, and what that means
//! for the request.

use vstd::prelude::*;

verus! {

/// What the program saw of one forwarding call to a backend.
#[derive(Debug, Clone, PartialEq, Eq)]
pub enum CallOutcome {
    /// No connection to the backend could be opened.
    ConnectFailed,
    /// The connection was opened, but the protocol handshake on it failed.
    HandshakeFailed,
    /// The request went out, and the connection broke before the reply was
    /// complete.
    TransferFailed,
    /// The call did not end within its time budget.
    TimedOut,
    /// The backend replied.
    Replied { status: u16, body: Vec<u8> },
}

/// A call outcome as a mathematical value.
pub enum CallOutcomeView {
    ConnectFailed,
    HandshakeFailed,
    TransferFailed,
    TimedOut,
    Replied { status: u16, body: Seq<u8> },
}

impl View for CallOutcome {
    type V = CallOutcomeView;

    open spec fn view(&self) -> CallOutcomeView {
        match self {
            CallOutcome::ConnectFailed => CallOutcomeView::ConnectFailed,
            CallOutcome::HandshakeFailed => CallOutcomeView::HandshakeFailed,
            CallOutcome::TransferFailed => CallOutcomeView::TransferFailed,
            CallOutcome::TimedOut => CallOutcomeView::TimedOut,
            CallOutcome::Replied { status, body } => CallOutcomeView::Replied {
                status: *status,
                body: body@,
            },
        }
    }
}

/// The one terminal outcome of a dispatch, as the request's originator is
/// to learn it.
#[derive(Debug, Clone, PartialEq, Eq)]
pub enum DispatchResult {
    /// The backend accepted the request; status and body are its own.
    Success { status: u16, body: Vec<u8> },
    /// No backend serves the model that the request names.
    ModelNotFound,
    /// The backend could not be reached, or the connection to it failed.
    BackendUnreachable,
    /// The backend exceeded its time budget.
    BackendTimeout,
    /// The backend rejected the request with this status.
    BackendError { status: u16 },
}

/// A dispatch result as a mathematical value.
pub enum DispatchResultView {
    Success { status: u16, body: Seq<u8> },
    ModelNotFound,
    BackendUnreachable,
    BackendTimeout,
    BackendError { status: u16 },
}

impl View for DispatchResult {
    type V = DispatchResultView;

    open spec fn view(&self) -> DispatchResultView {
        match self {
            DispatchResult::Success { status, body } => DispatchResultView::Success {
                status: *status,
                body: body@,
            },
            DispatchResult::ModelNotFound => DispatchResultView::ModelNotFound,
            DispatchResult::BackendUnreachable => DispatchResultView::BackendUnreachable,
            DispatchResult::BackendTimeout => DispatchResultView::BackendTimeout,
            DispatchResult::BackendError { status } => DispatchResultView::BackendError {
                status: *status,
            },
        }
    }
}

/// Whether an HTTP status says that the request was accepted: 200 to 299.
pub open spec fn is_success_status(status: u16) -> bool {
    200 <= status <= 299
}

/// The verdict on a call. A reply with a success status is a success and
/// keeps status and body as they came; a reply with any other status is a
/// rejection; a call that ran out of time is a timeout; and a connection that
/// could not be made, shaken hands on or kept is an unreachable backend.
pub open spec fn classify_model(outcome: CallOutcomeView) -> DispatchResultView {
    match outcome {
        CallOutcomeView::ConnectFailed => DispatchResultView::BackendUnreachable,
        CallOutcomeView::HandshakeFailed => DispatchResultView::BackendUnreachable,
        CallOutcomeView::TransferFailed => DispatchResultView::BackendUnreachable,
        CallOutcomeView::TimedOut => DispatchResultView::BackendTimeout,
        CallOutcomeView::Replied { status, body } => if is_success_status(status) {
            DispatchResultView::Success { status, body }
        } else {
            DispatchResultView::BackendError { status }
        },
    }
}

/// Gives the verdict on a call.
pub fn classify(outcome: CallOutcome) -> (r: DispatchResult)
    ensures
        r@ == classify_model(outcome@),
{
    match outcome {
        CallOutcome::ConnectFailed => DispatchResult::BackendUnreachable,
        CallOutcome::HandshakeFailed => DispatchResult::BackendUnreachable,
        CallOutcome::TransferFailed => DispatchResult::BackendUnreachable,
        CallOutcome::TimedOut => DispatchResult::BackendTimeout,
        CallOutcome::Replied { status, body } => {
            if 200 <= status && status <= 299 {
                DispatchResult::Success { status, body }
            } else {
                DispatchResult::BackendError { status }
            }
        },
    }
}

/// What the relay answers to the request's originator.
#[derive(Debug, Clone, PartialEq, Eq)]
pub struct Answer {
    /// The HTTP status of the answer.
    pub status: u16,
    /// Whether the body is announced as JSON.
    pub json: bool,
    /// The body of the answer.
    pub body: Vec<u8>,
}

/// An answer as a mathematical value.
pub struct AnswerView {
    pub status: u16,
    pub json: bool,
    pub body: Seq<u8>,
}

impl View for Answer {
    type V = AnswerView;

    open spec fn view(&self) -> AnswerView {
        AnswerView { status: self.status, json: self.json, body: self.body@ }
    }
}

/// The status that tells the originator of a failure: 404 for a model that
/// is not served, 504 for a backend that ran out of time, 502 for one that
/// could not be reached or that rejected the request.
pub open spec fn failure_status(result: DispatchResultView) -> u16 {
    match result {
        DispatchResultView::ModelNotFound => 404,
        DispatchResultView::BackendTimeout => 504,
        _ => 502,
    }
}

/// The answer for a dispatch result. A success hands on the backend's status
/// and body, announced as JSON; a failure has its status and an empty body.
pub open spec fn answer_model(result: DispatchResultView) -> AnswerView {
    match result {
        DispatchResultView::Success { status, body } => AnswerView { status, json: true, body },
        _ => AnswerView { status: failure_status(result), json: false, body: Seq::empty() },
    }
}

/// Makes the answer for a dispatch result.
pub fn answer(result: DispatchResult) -> (r: Answer)
    ensures
        r@ == answer_model(result@),
{
    match result {
        DispatchResult::Success { status, body } => Answer { status, json: true, body },
        DispatchResult::ModelNotFound => Answer { status: 404, json: false, body: Vec::new() },
        DispatchResult::BackendTimeout => Answer { status: 504, json: false, body: Vec::new() },
        DispatchResult::BackendUnreachable => Answer {
            status: 502,
            json: false,
            body: Vec::new(),
        },
        DispatchResult::BackendError { status: _ } => Answer {
            status: 502,
            json: false,
            body: Vec::new(),
        },
    }
}

} // verus!
