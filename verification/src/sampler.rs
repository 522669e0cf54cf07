//! The telemetry sampler of one request, as a state machine.
//!
//! The program around this crate owns the timer, the cancellation signal and
//! the connection to the collector. Whenever one of them has something to
//! say it hands the sampler an event, and does what the sampler answers.

use crate::metrics::{RawMetrics, SampleError};
use crate::telemetry::{
    gives_sample, sample_of, FinishedEvent, FinishedEventView, TelemetrySample,
    TelemetrySampleView,
};
use vstd::prelude::*;

verus! {

/// The state of a sampler. It starts `Idle`, samples for one request, and
/// ends `Stopped`; a sampler is never used for a second request.
#[derive(Debug, Clone, PartialEq, Eq)]
pub enum Sampler {
    Idle,
    Sampling { request_id: String, model_name: String },
    Stopped,
}

/// A sampler's state as a mathematical value.
pub enum SamplerView {
    Idle,
    Sampling { request_id: Seq<char>, model_name: Seq<char> },
    Stopped,
}

impl View for Sampler {
    type V = SamplerView;

    open spec fn view(&self) -> SamplerView {
        match self {
            Sampler::Idle => SamplerView::Idle,
            Sampler::Sampling { request_id, model_name } => SamplerView::Sampling {
                request_id: request_id@,
                model_name: model_name@,
            },
            Sampler::Stopped => SamplerView::Stopped,
        }
    }
}

/// What can happen to a sampler.
#[derive(Debug, PartialEq, Eq)]
pub enum SamplerEvent {
    /// Sampling is to begin for this request.
    Start { request_id: String, model_name: String },
    /// A period has passed, and this is what the hardware gave.
    Tick(Result<RawMetrics, SampleError>),
    /// The collector could not be told of the last sample.
    ReportFailed,
    /// The request is over.
    Cancel,
}

/// A sampler event as a mathematical value.
pub enum SamplerEventView {
    Start { request_id: Seq<char>, model_name: Seq<char> },
    Tick(Result<RawMetrics, SampleError>),
    ReportFailed,
    Cancel,
}

impl View for SamplerEvent {
    type V = SamplerEventView;

    open spec fn view(&self) -> SamplerEventView {
        match self {
            SamplerEvent::Start { request_id, model_name } => SamplerEventView::Start {
                request_id: request_id@,
                model_name: model_name@,
            },
            SamplerEvent::Tick(reading) => SamplerEventView::Tick(*reading),
            SamplerEvent::ReportFailed => SamplerEventView::ReportFailed,
            SamplerEvent::Cancel => SamplerEventView::Cancel,
        }
    }
}

/// What the sampler wants done in answer to an event.
#[derive(Debug, Clone, PartialEq, Eq)]
pub enum SamplerAction {
    /// Nothing is to be done.
    Nothing,
    /// Send this sample to the collector.
    Report(TelemetrySample),
    /// The tick gave no sample; note why and go on.
    Skip(SampleError),
    /// Send this finished event to the collector, then end the task.
    Finish(FinishedEvent),
}

/// A sampler action as a mathematical value.
pub enum SamplerActionView {
    Nothing,
    Report(TelemetrySampleView),
    Skip(SampleError),
    Finish(FinishedEventView),
}

impl View for SamplerAction {
    type V = SamplerActionView;

    open spec fn view(&self) -> SamplerActionView {
        match self {
            SamplerAction::Nothing => SamplerActionView::Nothing,
            SamplerAction::Report(sample) => SamplerActionView::Report(sample@),
            SamplerAction::Skip(e) => SamplerActionView::Skip(*e),
            SamplerAction::Finish(event) => SamplerActionView::Finish(event@),
        }
    }
}

/// What a tick gives while sampling for a request: the report of a sample,
/// or the reason to skip it.
pub open spec fn tick_action(
    reading: Result<RawMetrics, SampleError>,
    request_id: Seq<char>,
    model_name: Seq<char>,
) -> SamplerActionView {
    match sample_of(reading, request_id, model_name) {
        Ok(sample) => SamplerActionView::Report(sample),
        Err(e) => SamplerActionView::Skip(e),
    }
}

/// The sampler's rule: the state after an event, and the action it asks for.
///
/// An idle sampler starts on `Start`, and stops at once on `Cancel`: it has
/// sampled for no request, so it owes no finished event. A sampling one
/// answers a tick with a report or a skip, lets a failed report pass, and on
/// `Cancel` stops with the finished event of its request. A stopped one stays
/// stopped and asks for nothing.
pub open spec fn step_model(state: SamplerView, event: SamplerEventView) -> (
    SamplerView,
    SamplerActionView,
) {
    match state {
        SamplerView::Idle => match event {
            SamplerEventView::Start { request_id, model_name } => (
                SamplerView::Sampling { request_id, model_name },
                SamplerActionView::Nothing,
            ),
            SamplerEventView::Cancel => (SamplerView::Stopped, SamplerActionView::Nothing),
            _ => (SamplerView::Idle, SamplerActionView::Nothing),
        },
        SamplerView::Sampling { request_id, model_name } => match event {
            SamplerEventView::Tick(reading) => (
                state,
                tick_action(reading, request_id, model_name),
            ),
            SamplerEventView::Cancel => (
                SamplerView::Stopped,
                SamplerActionView::Finish(FinishedEventView { request_id }),
            ),
            _ => (state, SamplerActionView::Nothing),
        },
        SamplerView::Stopped => (SamplerView::Stopped, SamplerActionView::Nothing),
    }
}

/// The state after a series of events, and the actions asked for, one for
/// each event.
pub open spec fn run_model(state: SamplerView, events: Seq<SamplerEventView>) -> (
    SamplerView,
    Seq<SamplerActionView>,
)
    decreases events.len(),
{
    if events.len() == 0 {
        (state, Seq::empty())
    } else {
        let (before, actions) = run_model(state, events.drop_last());
        let (after, action) = step_model(before, events.last());
        (after, actions.push(action))
    }
}

/// How many of the actions are finished events.
pub open spec fn finish_count(actions: Seq<SamplerActionView>) -> nat
    decreases actions.len(),
{
    if actions.len() == 0 {
        0
    } else {
        finish_count(actions.drop_last()) + if actions.last() is Finish {
            1nat
        } else {
            0nat
        }
    }
}

/// How many of the actions are reports of a sample.
pub open spec fn report_count(actions: Seq<SamplerActionView>) -> nat
    decreases actions.len(),
{
    if actions.len() == 0 {
        0
    } else {
        report_count(actions.drop_last()) + if actions.last() is Report {
            1nat
        } else {
            0nat
        }
    }
}

/// Which of the two things a sampler waits for it attends to.
#[derive(Debug, Clone, Copy, PartialEq, Eq, Structural)]
pub enum Wake {
    Cancel,
    Tick,
}

/// How the race between the cancellation signal and the timer is decided:
/// where both are ready the cancellation wins, so that no tick is taken once
/// the request is over. `None` means that the sampler goes on waiting.
pub open spec fn arbitration(cancel_ready: bool, tick_ready: bool) -> Option<Wake> {
    if cancel_ready {
        Some(Wake::Cancel)
    } else if tick_ready {
        Some(Wake::Tick)
    } else {
        None
    }
}

/// Decides the race between the cancellation signal and the timer.
pub fn arbitrate(cancel_ready: bool, tick_ready: bool) -> (r: Option<Wake>)
    ensures
        r == arbitration(cancel_ready, tick_ready),
{
    if cancel_ready {
        Some(Wake::Cancel)
    } else if tick_ready {
        Some(Wake::Tick)
    } else {
        None
    }
}

/// The time between two ticks, in milliseconds.
pub const SAMPLING_PERIOD_MS: u64 = 1000;

/// How many ticks a sampler takes while a call of `elapsed_ms` milliseconds
/// is in flight. The timer fires one period after the start and every period
/// from then on, and a firing is taken where it comes before the call's end.
pub open spec fn ticks_before(elapsed_ms: nat) -> nat {
    if elapsed_ms == 0 {
        0
    } else {
        ((elapsed_ms - 1) / (SAMPLING_PERIOD_MS as int)) as nat
    }
}

/// Counts the ticks that a sampler takes during a call of `elapsed_ms`
/// milliseconds.
pub fn ticks_during(elapsed_ms: u64) -> (n: u64)
    ensures
        n == ticks_before(elapsed_ms as nat),
{
    if elapsed_ms == 0 {
        0
    } else {
        (elapsed_ms - 1) / SAMPLING_PERIOD_MS
    }
}

/// The `k`-th firing of the timer comes `k` periods after the start, when
/// the cancellation is ready if the call has ended by then. It is taken as a
/// tick exactly if it is one of the first `ticks_before(elapsed_ms)`, which is
/// to say, exactly if it comes before the call's end.
pub proof fn lemma_ticks_before(elapsed_ms: nat, k: nat)
    requires
        k >= 1,
    ensures
        k <= ticks_before(elapsed_ms) <==> k * SAMPLING_PERIOD_MS < elapsed_ms,
        k <= ticks_before(elapsed_ms) <==> arbitration(
            elapsed_ms <= k * SAMPLING_PERIOD_MS,
            true,
        ) == Some(Wake::Tick),
{
}

impl Sampler {
    /// A sampler that has not been started.
    pub fn new() -> (r: Sampler)
        ensures
            r@ == SamplerView::Idle,
    {
        Sampler::Idle
    }

    /// Whether the sampler has reached its last state.
    pub fn is_stopped(&self) -> (r: bool)
        ensures
            r == (self@ is Stopped),
    {
        match self {
            Sampler::Stopped => true,
            _ => false,
        }
    }

    /// Takes one event: gives the next state and the action to perform.
    pub fn step(self, event: SamplerEvent) -> (r: (Sampler, SamplerAction))
        ensures
            (r.0@, r.1@) == step_model(self@, event@),
    {
        match self {
            Sampler::Idle => match event {
                SamplerEvent::Start { request_id, model_name } => (
                    Sampler::Sampling { request_id, model_name },
                    SamplerAction::Nothing,
                ),
                SamplerEvent::Cancel => (Sampler::Stopped, SamplerAction::Nothing),
                _ => (Sampler::Idle, SamplerAction::Nothing),
            },
            Sampler::Sampling { request_id, model_name } => match event {
                SamplerEvent::Tick(reading) => {
                    let made = TelemetrySample::from_reading(
                        reading,
                        request_id.clone(),
                        model_name.clone(),
                    );
                    let action = match made {
                        Ok(sample) => SamplerAction::Report(sample),
                        Err(e) => SamplerAction::Skip(e),
                    };
                    (Sampler::Sampling { request_id, model_name }, action)
                },
                SamplerEvent::Cancel => (
                    Sampler::Stopped,
                    SamplerAction::Finish(FinishedEvent { request_id }),
                ),
                _ => (Sampler::Sampling { request_id, model_name }, SamplerAction::Nothing),
            },
            Sampler::Stopped => (Sampler::Stopped, SamplerAction::Nothing),
        }
    }
}

/// Cancelling is one-shot: whatever the state, a second `Cancel` right after
/// the first changes nothing and asks for nothing, so no second finished
/// event can come of it.
pub proof fn lemma_cancel_twice(state: SamplerView)
    ensures
        step_model(state, SamplerEventView::Cancel).0 is Stopped,
        step_model(step_model(state, SamplerEventView::Cancel).0, SamplerEventView::Cancel) == (
            SamplerView::Stopped,
            SamplerActionView::Nothing,
        ),
{
}

/// A stopped sampler is at its end: no series of events moves it, and none
/// of the actions it answers with is a report or a finished event.
pub proof fn lemma_stopped_is_final(events: Seq<SamplerEventView>)
    ensures
        run_model(SamplerView::Stopped, events).0 is Stopped,
        run_model(SamplerView::Stopped, events).1.len() == events.len(),
        forall|i: int|
            0 <= i < events.len() ==> #[trigger] run_model(SamplerView::Stopped, events).1[i]
                is Nothing,
        finish_count(run_model(SamplerView::Stopped, events).1) == 0,
        report_count(run_model(SamplerView::Stopped, events).1) == 0,
    decreases events.len(),
{
    if events.len() > 0 {
        lemma_stopped_is_final(events.drop_last());
        let actions = run_model(SamplerView::Stopped, events).1;
        assert(actions.drop_last() == run_model(SamplerView::Stopped, events.drop_last()).1);
    }
}

/// Whatever the state and whatever the events, at most one finished event is
/// asked for; once one was, the sampler is stopped; and a sampler that is not
/// sampling at the start asks for none at all unless it is started first.
pub proof fn lemma_at_most_one_finish(state: SamplerView, events: Seq<SamplerEventView>)
    ensures
        run_model(state, events).1.len() == events.len(),
        finish_count(run_model(state, events).1) <= 1,
        finish_count(run_model(state, events).1) == 1 ==> run_model(state, events).0 is Stopped,
        state is Stopped ==> finish_count(run_model(state, events).1) == 0,
    decreases events.len(),
{
    if events.len() > 0 {
        lemma_at_most_one_finish(state, events.drop_last());
        let actions = run_model(state, events).1;
        assert(actions.drop_last() == run_model(state, events.drop_last()).1);
        if state is Stopped {
            lemma_stopped_is_final(events);
        }
    }
}

/// A finished event is asked for only in answer to `Cancel`, only by a
/// sampler that was sampling, and it names the request that was sampled.
pub proof fn lemma_finish_answers_cancel(
    state: SamplerView,
    events: Seq<SamplerEventView>,
    i: int,
)
    requires
        0 <= i < events.len(),
        run_model(state, events).1[i] is Finish,
    ensures
        events[i] is Cancel,
        run_model(state, events.take(i)).0 matches SamplerView::Sampling { request_id, .. }
            && run_model(state, events).1[i] == SamplerActionView::Finish(
            FinishedEventView { request_id },
        ),
    decreases events.len(),
{
    lemma_at_most_one_finish(state, events.drop_last());
    if i == events.len() - 1 {
        assert(events.take(i) == events.drop_last());
    } else {
        assert(events.drop_last().take(i) == events.take(i));
        lemma_finish_answers_cancel(state, events.drop_last(), i);
    }
}

/// Telemetry failures are absorbed. A reading that gives no sample is
/// skipped, a report that could not be delivered is passed over, and either
/// way the sampler goes on sampling for its request.
pub proof fn lemma_failures_are_absorbed(
    state: SamplerView,
    reading: Result<RawMetrics, SampleError>,
)
    requires
        state is Sampling,
    ensures
        step_model(state, SamplerEventView::ReportFailed) == (state, SamplerActionView::Nothing),
        step_model(state, SamplerEventView::Tick(reading)).0 == state,
        gives_sample(reading) <==> step_model(state, SamplerEventView::Tick(reading)).1 is Report,
        !gives_sample(reading) <==> step_model(state, SamplerEventView::Tick(reading)).1 is Skip,
{
}

/// The course of a sampler that is started by the first event and cancelled
/// by the event at `cancel`: up to there it samples for the request it was
/// started for and has asked for no finished event; from there on it is
/// stopped and has asked for exactly one.
proof fn lemma_course(events: Seq<SamplerEventView>, cancel: int, k: int)
    requires
        0 < cancel < events.len(),
        events[0] is Start,
        events[cancel] is Cancel,
        forall|j: int| 0 < j < cancel ==> !((#[trigger] events[j]) is Cancel),
        1 <= k <= events.len(),
    ensures
        run_model(SamplerView::Idle, events.take(k)).1.len() == k,
        k <= cancel ==> run_model(SamplerView::Idle, events.take(k)).0 == (SamplerView::Sampling {
            request_id: events[0]->request_id,
            model_name: events[0]->model_name,
        }) && finish_count(run_model(SamplerView::Idle, events.take(k)).1) == 0,
        k > cancel ==> run_model(SamplerView::Idle, events.take(k)).0 is Stopped && finish_count(
            run_model(SamplerView::Idle, events.take(k)).1,
        ) == 1 && run_model(SamplerView::Idle, events.take(k)).1[cancel]
            == SamplerActionView::Finish(FinishedEventView { request_id: events[0]->request_id }),
    decreases k,
{
    let upto = events.take(k);
    assert(upto.last() == events[k - 1]);
    assert(upto.drop_last() == events.take(k - 1));
    let actions = run_model(SamplerView::Idle, upto).1;
    assert(actions.drop_last() == run_model(SamplerView::Idle, events.take(k - 1)).1);
    if k == 1 {
        assert(events.take(0).len() == 0);
        assert(run_model(SamplerView::Idle, events.take(0)) == (
            SamplerView::Idle,
            Seq::<SamplerActionView>::empty(),
        ));
        assert(finish_count(actions.drop_last()) == 0);
    } else {
        lemma_course(events, cancel, k - 1);
    }
}

/// A sampler that is started and then cancelled asks for exactly one
/// finished event, whatever comes in between and whatever comes after:
/// ticks, failed reports, more cancellations. It asks for it in answer to the
/// first cancellation, and for the request that it was started for.
pub proof fn lemma_started_then_cancelled(events: Seq<SamplerEventView>, cancel: int)
    requires
        0 < cancel < events.len(),
        events[0] is Start,
        events[cancel] is Cancel,
        forall|j: int| 0 < j < cancel ==> !((#[trigger] events[j]) is Cancel),
    ensures
        finish_count(run_model(SamplerView::Idle, events).1) == 1,
        run_model(SamplerView::Idle, events).1[cancel] == SamplerActionView::Finish(
            FinishedEventView { request_id: events[0]->request_id },
        ),
        run_model(SamplerView::Idle, events).0 is Stopped,
{
    lemma_course(events, cancel, events.len() as int);
    assert(events.take(events.len() as int) == events);
}

} // verus!
