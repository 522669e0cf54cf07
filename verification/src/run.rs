//! One dispatch from beginning to end, against a recorded backend and
//! recorded hardware.
//!
//! What the backend did, how long it took and what the hardware gave at each
//! tick are handed in as values. The coordinator and the sampler then play
//! their parts in the order in which the running relay lets them, and the
//! report tells what the originator and the collector got to see. The laws of
//! a dispatch are stated of that report.

use crate::backend::{
    classify_model, CallOutcome, CallOutcomeView, DispatchResult, DispatchResultView,
};
use crate::dispatch::{
    Coordinator, CoordinatorEvent, Directive, DispatchRequest, DispatchRequestView,
};
use crate::metrics::{RawMetrics, SampleError};
use crate::routing::RoutingTable;
use crate::sampler::{
    run_model, ticks_before, ticks_during, Sampler, SamplerAction, SamplerActionView,
    SamplerEvent, SamplerEventView, SamplerView, SAMPLING_PERIOD_MS,
};
use crate::telemetry::{
    gives_sample, sample_of, FinishedEvent, FinishedEventView, TelemetrySample,
    TelemetrySampleView,
};
use vstd::pervasive::unreached;
use vstd::prelude::*;

verus! {

/// What a backend did with one call, and how long the call was in flight.
#[derive(Debug, Clone, PartialEq, Eq)]
pub struct BackendExchange {
    pub outcome: CallOutcome,
    pub elapsed_ms: u64,
}

/// A backend exchange as a mathematical value.
pub struct BackendExchangeView {
    pub outcome: CallOutcomeView,
    pub elapsed_ms: u64,
}

impl View for BackendExchange {
    type V = BackendExchangeView;

    open spec fn view(&self) -> BackendExchangeView {
        BackendExchangeView { outcome: self.outcome@, elapsed_ms: self.elapsed_ms }
    }
}

/// Something that happened during a dispatch and that the world outside can
/// tell: the collector got a sample, the call to the backend came to its end,
/// the collector got the finished event.
#[derive(Debug, Clone, PartialEq, Eq)]
pub enum Milestone {
    Sampled(TelemetrySample),
    CallCompleted,
    Finished(FinishedEvent),
}

/// A milestone as a mathematical value.
pub enum MilestoneView {
    Sampled(TelemetrySampleView),
    CallCompleted,
    Finished(FinishedEventView),
}

impl View for Milestone {
    type V = MilestoneView;

    open spec fn view(&self) -> MilestoneView {
        match self {
            Milestone::Sampled(sample) => MilestoneView::Sampled(sample@),
            Milestone::CallCompleted => MilestoneView::CallCompleted,
            Milestone::Finished(event) => MilestoneView::Finished(event@),
        }
    }
}

/// A series of milestones as mathematical values.
pub open spec fn milestones(timeline: Seq<Milestone>) -> Seq<MilestoneView> {
    timeline.map_values(|m: Milestone| m@)
}

/// What came of a dispatch: the result for the originator, and the
/// milestones in the order in which they were reached.
#[derive(Debug, Clone, PartialEq, Eq)]
pub struct DispatchReport {
    pub result: DispatchResult,
    pub timeline: Vec<Milestone>,
}

/// A dispatch report as a mathematical value.
pub struct DispatchReportView {
    pub result: DispatchResultView,
    pub timeline: Seq<MilestoneView>,
}

impl View for DispatchReport {
    type V = DispatchReportView;

    open spec fn view(&self) -> DispatchReportView {
        DispatchReportView { result: self.result@, timeline: milestones(self.timeline@) }
    }
}

/// The samples that the collector gets for a series of readings, one tick
/// each, in their order. A reading that failed or is out of range gives no
/// sample and does not keep the later ones back.
pub open spec fn samples_of(
    readings: Seq<Result<RawMetrics, SampleError>>,
    request_id: Seq<char>,
    model_name: Seq<char>,
) -> Seq<MilestoneView>
    decreases readings.len(),
{
    if readings.len() == 0 {
        Seq::empty()
    } else {
        let earlier = samples_of(readings.drop_last(), request_id, model_name);
        match sample_of(readings.last(), request_id, model_name) {
            Ok(sample) => earlier.push(MilestoneView::Sampled(sample)),
            Err(_) => earlier,
        }
    }
}

/// How many of the recorded readings are used: one for each tick taken while
/// the call is in flight, as far as the record goes.
pub open spec fn readings_used(elapsed_ms: nat, recorded: nat) -> nat {
    if ticks_before(elapsed_ms) <= recorded {
        ticks_before(elapsed_ms)
    } else {
        recorded
    }
}

/// What a dispatch comes to.
///
/// For a model that the table does not know, the result is `ModelNotFound`
/// and nothing else happens. For any other, the result is the verdict on the
/// backend's outcome, and the timeline holds the samples of the ticks taken
/// during the call, then the end of the call, then the finished event of the
/// request.
pub open spec fn dispatch_model(
    table: Map<Seq<char>, u16>,
    request: DispatchRequestView,
    exchange: BackendExchangeView,
    readings: Seq<Result<RawMetrics, SampleError>>,
) -> DispatchReportView {
    if table.contains_key(request.model_name) {
        DispatchReportView {
            result: classify_model(exchange.outcome),
            timeline: samples_of(
                readings.take(readings_used(exchange.elapsed_ms as nat, readings.len()) as int),
                request.request_id,
                request.model_name,
            ).push(MilestoneView::CallCompleted).push(
                MilestoneView::Finished(FinishedEventView { request_id: request.request_id }),
            ),
        }
    } else {
        DispatchReportView { result: DispatchResultView::ModelNotFound, timeline: Seq::empty() }
    }
}

/// Carries one request through a dispatch. `exchange` is what the backend
/// does once the call reaches it, and `readings` is what the hardware gives
/// at the first tick, the second, and so on.
pub fn dispatch(
    table: &RoutingTable,
    request: DispatchRequest,
    exchange: BackendExchange,
    readings: &Vec<Result<RawMetrics, SampleError>>,
) -> (report: DispatchReport)
    ensures
        report@ == dispatch_model(table@, request@, exchange@, readings@),
{
    let ghost id = request.request_id@;
    let ghost model = request.model_name@;
    let (coordinator, directive) = Coordinator::begin(table, request);
    let (request_id, model_name) = match directive {
        Directive::Launch { endpoint: _, payload: _, request_id, model_name } => (
            request_id,
            model_name,
        ),
        Directive::Reply(result) => {
            let report = DispatchReport { result, timeline: Vec::new() };
            assert(report@.timeline == Seq::<MilestoneView>::empty());
            return report;
        },
        _ => unreached(),
    };

    let (started, _) = Sampler::new().step(SamplerEvent::Start { request_id, model_name });
    let mut sampler = started;
    let mut timeline: Vec<Milestone> = Vec::new();
    let due = ticks_during(exchange.elapsed_ms);
    let used: usize = if due < readings.len() as u64 {
        due as usize
    } else {
        readings.len()
    };
    let mut k: usize = 0;
    assert(readings@.take(0) == Seq::<Result<RawMetrics, SampleError>>::empty());
    assert(milestones(timeline@) == Seq::<MilestoneView>::empty());
    while k < used
        invariant
            k <= used <= readings.len(),
            sampler@ == (SamplerView::Sampling { request_id: id, model_name: model }),
            milestones(timeline@) == samples_of(readings@.take(k as int), id, model),
        decreases used - k,
    {
        let ghost before = timeline@;
        let (next, action) = sampler.step(SamplerEvent::Tick(readings[k]));
        sampler = next;
        proof {
            assert(readings@.take(k + 1).drop_last() == readings@.take(k as int));
            assert(readings@.take(k + 1).last() == readings@[k as int]);
        }
        match action {
            SamplerAction::Report(sample) => {
                timeline.push(Milestone::Sampled(sample));
                assert(milestones(timeline@) == milestones(before).push(
                    MilestoneView::Sampled(sample@),
                ));
            },
            _ => {},
        }
        k = k + 1;
    }

    let (coordinator, directive) = coordinator.step(
        CoordinatorEvent::CallerFinished(exchange.outcome),
    );
    let ghost sampled = timeline@;
    timeline.push(Milestone::CallCompleted);
    assert(milestones(timeline@) == milestones(sampled).push(MilestoneView::CallCompleted));
    match directive {
        Directive::CancelSampler => {},
        _ => unreached(),
    }

    let ghost completed = timeline@;
    let (_, action) = sampler.step(SamplerEvent::Cancel);
    match action {
        SamplerAction::Finish(event) => {
            timeline.push(Milestone::Finished(event));
            assert(milestones(timeline@) == milestones(completed).push(
                MilestoneView::Finished(event@),
            ));
        },
        _ => unreached(),
    }

    let (_, directive) = coordinator.step(CoordinatorEvent::SamplerStopped);
    match directive {
        Directive::Reply(result) => DispatchReport { result, timeline },
        _ => unreached(),
    }
}

/// What the collector gets to see of a sampler's actions: a sample for each
/// report and a finished event for each finish, in their order.
pub open spec fn collector_sees(actions: Seq<SamplerActionView>) -> Seq<MilestoneView>
    decreases actions.len(),
{
    if actions.len() == 0 {
        Seq::empty()
    } else {
        let earlier = collector_sees(actions.drop_last());
        match actions.last() {
            SamplerActionView::Report(sample) => earlier.push(MilestoneView::Sampled(sample)),
            SamplerActionView::Finish(event) => earlier.push(MilestoneView::Finished(event)),
            _ => earlier,
        }
    }
}

/// What a sampler is told in the course of a dispatch, up to the end of the
/// call: that it is to start, and then one tick for each reading.
pub open spec fn sampling_script(
    request_id: Seq<char>,
    model_name: Seq<char>,
    readings: Seq<Result<RawMetrics, SampleError>>,
) -> Seq<SamplerEventView>
    decreases readings.len(),
{
    if readings.len() == 0 {
        seq![SamplerEventView::Start { request_id, model_name }]
    } else {
        sampling_script(request_id, model_name, readings.drop_last()).push(
            SamplerEventView::Tick(readings.last()),
        )
    }
}

/// A sampler that is started and handed one tick for each reading is still
/// sampling for its request, and the collector has seen the samples of these
/// readings and nothing else.
pub proof fn lemma_sampling_course(
    request_id: Seq<char>,
    model_name: Seq<char>,
    readings: Seq<Result<RawMetrics, SampleError>>,
)
    ensures
        run_model(SamplerView::Idle, sampling_script(request_id, model_name, readings)).0 == (
        SamplerView::Sampling { request_id, model_name }),
        collector_sees(
            run_model(SamplerView::Idle, sampling_script(request_id, model_name, readings)).1,
        ) == samples_of(readings, request_id, model_name),
    decreases readings.len(),
{
    let script = sampling_script(request_id, model_name, readings);
    let actions = run_model(SamplerView::Idle, script).1;
    if readings.len() == 0 {
        assert(script.drop_last() == Seq::<SamplerEventView>::empty());
        assert(run_model(SamplerView::Idle, script.drop_last()) == (
            SamplerView::Idle,
            Seq::<SamplerActionView>::empty(),
        ));
        assert(actions.drop_last() == Seq::<SamplerActionView>::empty());
        assert(collector_sees(actions.drop_last()) == Seq::<MilestoneView>::empty());
    } else {
        let shorter = sampling_script(request_id, model_name, readings.drop_last());
        lemma_sampling_course(request_id, model_name, readings.drop_last());
        assert(script.drop_last() == shorter);
        assert(actions.drop_last() == run_model(SamplerView::Idle, shorter).1);
    }
}

/// The timeline of a dispatch is the course of its sampler. Start a sampler
/// for the request, hand it a tick for each reading used, and cancel it: what
/// the collector then has seen is the timeline's samples and its finished
/// event, and the cancellation, which the end of the call sets off, is what
/// the finished event answers.
pub proof fn lemma_timeline_is_sampler_course(
    table: Map<Seq<char>, u16>,
    request: DispatchRequestView,
    exchange: BackendExchangeView,
    readings: Seq<Result<RawMetrics, SampleError>>,
)
    requires
        table.contains_key(request.model_name),
    ensures
        ({
            let used = readings.take(
                readings_used(exchange.elapsed_ms as nat, readings.len()) as int,
            );
            let script = sampling_script(request.request_id, request.model_name, used).push(
                SamplerEventView::Cancel,
            );
            let course = run_model(SamplerView::Idle, script);
            let seen = collector_sees(course.1);
            let timeline = dispatch_model(table, request, exchange, readings).timeline;
            &&& course.0 is Stopped
            &&& seen.len() + 1 == timeline.len()
            &&& seen.drop_last() == timeline.take(seen.len() - 1)
            &&& seen.last() == timeline.last()
            &&& course.1.last() is Finish
        }),
{
    let used = readings.take(readings_used(exchange.elapsed_ms as nat, readings.len()) as int);
    let started = sampling_script(request.request_id, request.model_name, used);
    let script = started.push(SamplerEventView::Cancel);
    lemma_sampling_course(request.request_id, request.model_name, used);
    assert(script.drop_last() == started);
    let course = run_model(SamplerView::Idle, script);
    assert(course.1.drop_last() == run_model(SamplerView::Idle, started).1);
    let samples = samples_of(used, request.request_id, request.model_name);
    let seen = collector_sees(course.1);
    let event = FinishedEventView { request_id: request.request_id };
    assert(seen == samples.push(MilestoneView::Finished(event)));
    assert(seen.drop_last() == samples);
    let timeline = dispatch_model(table, request, exchange, readings).timeline;
    assert(timeline.take(seen.len() - 1) == samples);
}

/// How many of the milestones are finished events.
pub open spec fn finished_count(timeline: Seq<MilestoneView>) -> nat
    decreases timeline.len(),
{
    if timeline.len() == 0 {
        0
    } else {
        finished_count(timeline.drop_last()) + if timeline.last() is Finished {
            1nat
        } else {
            0nat
        }
    }
}

/// How many of the milestones are samples.
pub open spec fn sampled_count(timeline: Seq<MilestoneView>) -> nat
    decreases timeline.len(),
{
    if timeline.len() == 0 {
        0
    } else {
        sampled_count(timeline.drop_last()) + if timeline.last() is Sampled {
            1nat
        } else {
            0nat
        }
    }
}

/// The samples of a series of readings are samples and nothing else, at most
/// one for each reading.
pub proof fn lemma_samples_only(
    readings: Seq<Result<RawMetrics, SampleError>>,
    request_id: Seq<char>,
    model_name: Seq<char>,
)
    ensures
        samples_of(readings, request_id, model_name).len() <= readings.len(),
        forall|i: int|
            0 <= i < samples_of(readings, request_id, model_name).len() ==> (#[trigger] samples_of(
                readings,
                request_id,
                model_name,
            )[i]) is Sampled,
        finished_count(samples_of(readings, request_id, model_name)) == 0,
        sampled_count(samples_of(readings, request_id, model_name)) == samples_of(
            readings,
            request_id,
            model_name,
        ).len(),
    decreases readings.len(),
{
    if readings.len() > 0 {
        lemma_samples_only(readings.drop_last(), request_id, model_name);
        let earlier = samples_of(readings.drop_last(), request_id, model_name);
        if let Ok(sample) = sample_of(readings.last(), request_id, model_name) {
            assert(earlier.push(MilestoneView::Sampled(sample)).drop_last() == earlier);
        }
    }
}

/// Where every reading succeeds and is in range, each gives its sample, in
/// the order of the readings.
pub proof fn lemma_samples_all(
    readings: Seq<Result<RawMetrics, SampleError>>,
    request_id: Seq<char>,
    model_name: Seq<char>,
)
    requires
        forall|i: int|
            0 <= i < readings.len() ==> gives_sample(#[trigger] readings[i]),
    ensures
        samples_of(readings, request_id, model_name).len() == readings.len(),
        forall|i: int|
            0 <= i < readings.len() ==> (#[trigger] samples_of(readings, request_id, model_name)[i])
                == MilestoneView::Sampled(
                TelemetrySampleView { metrics: readings[i]->Ok_0, request_id, model_name },
            ),
    decreases readings.len(),
{
    if readings.len() > 0 {
        let front = readings.drop_last();
        assert forall|i: int| 0 <= i < front.len() implies gives_sample(#[trigger] front[i]) by {
            assert(front[i] == readings[i]);
        }
        lemma_samples_all(front, request_id, model_name);
        assert(readings.last() == readings[readings.len() - 1]);
        let all = samples_of(readings, request_id, model_name);
        assert forall|i: int| 0 <= i < readings.len() implies (#[trigger] all[i])
            == MilestoneView::Sampled(
            TelemetrySampleView { metrics: readings[i]->Ok_0, request_id, model_name },
        ) by {
            if i < front.len() {
                assert(all[i] == samples_of(front, request_id, model_name)[i]);
                assert(front[i] == readings[i]);
            }
        }
    }
}

/// The end of a timeline that closes with the end of the call and one
/// finished event: the counts are those of what came before, and one
/// finished event more.
proof fn lemma_closing_counts(samples: Seq<MilestoneView>, event: FinishedEventView)
    ensures
        finished_count(
            samples.push(MilestoneView::CallCompleted).push(MilestoneView::Finished(event)),
        ) == finished_count(samples) + 1,
        sampled_count(
            samples.push(MilestoneView::CallCompleted).push(MilestoneView::Finished(event)),
        ) == sampled_count(samples),
{
    let completed = samples.push(MilestoneView::CallCompleted);
    let closed = completed.push(MilestoneView::Finished(event));
    assert(closed.drop_last() == completed);
    assert(completed.drop_last() == samples);
    assert(finished_count(completed) == finished_count(samples));
    assert(sampled_count(completed) == sampled_count(samples));
}

/// Every request for a model that the table knows gets exactly one finished
/// event. The event bears the request's id, and it comes after the end of
/// the call to the backend, whatever the backend did and however long it
/// took.
pub proof fn lemma_one_finished_after_call(
    table: Map<Seq<char>, u16>,
    request: DispatchRequestView,
    exchange: BackendExchangeView,
    readings: Seq<Result<RawMetrics, SampleError>>,
)
    requires
        table.contains_key(request.model_name),
    ensures
        ({
            let timeline = dispatch_model(table, request, exchange, readings).timeline;
            &&& finished_count(timeline) == 1
            &&& timeline.len() >= 2
            &&& timeline.last() == MilestoneView::Finished(
                FinishedEventView { request_id: request.request_id },
            )
            &&& timeline[timeline.len() - 2] is CallCompleted
            &&& forall|i: int, j: int|
                0 <= i < timeline.len() && 0 <= j < timeline.len()
                    && (#[trigger] timeline[i]) is CallCompleted && (#[trigger] timeline[j])
                    is Finished ==> i < j
        }),
{
    let used = readings.take(readings_used(exchange.elapsed_ms as nat, readings.len()) as int);
    let samples = samples_of(used, request.request_id, request.model_name);
    lemma_samples_only(used, request.request_id, request.model_name);
    lemma_closing_counts(samples, FinishedEventView { request_id: request.request_id });
    let timeline = dispatch_model(table, request, exchange, readings).timeline;
    assert forall|i: int, j: int|
        0 <= i < timeline.len() && 0 <= j < timeline.len() && (#[trigger] timeline[i])
            is CallCompleted && (#[trigger] timeline[j]) is Finished implies i < j by {
        if i < samples.len() {
            assert(timeline[i] == samples[i]);
        }
        if j < samples.len() {
            assert(timeline[j] == samples[j]);
        }
    }
}

/// A request for a model that the table does not know is answered with
/// `ModelNotFound`, and the sampler does nothing for it: no sample, no
/// finished event.
pub proof fn lemma_unknown_model_is_silent(
    table: Map<Seq<char>, u16>,
    request: DispatchRequestView,
    exchange: BackendExchangeView,
    readings: Seq<Result<RawMetrics, SampleError>>,
)
    requires
        !table.contains_key(request.model_name),
    ensures
        dispatch_model(table, request, exchange, readings).result is ModelNotFound,
        dispatch_model(table, request, exchange, readings).timeline.len() == 0,
        sampled_count(dispatch_model(table, request, exchange, readings).timeline) == 0,
        finished_count(dispatch_model(table, request, exchange, readings).timeline) == 0,
{
}

/// A call that is over in less than one sampling period gives no sample and
/// exactly one finished event.
pub proof fn lemma_short_call(
    table: Map<Seq<char>, u16>,
    request: DispatchRequestView,
    exchange: BackendExchangeView,
    readings: Seq<Result<RawMetrics, SampleError>>,
)
    requires
        table.contains_key(request.model_name),
        exchange.elapsed_ms < SAMPLING_PERIOD_MS,
    ensures
        sampled_count(dispatch_model(table, request, exchange, readings).timeline) == 0,
        finished_count(dispatch_model(table, request, exchange, readings).timeline) == 1,
{
    let used = readings.take(readings_used(exchange.elapsed_ms as nat, readings.len()) as int);
    assert(used.len() == 0);
    let samples = samples_of(used, request.request_id, request.model_name);
    lemma_samples_only(used, request.request_id, request.model_name);
    lemma_closing_counts(samples, FinishedEventView { request_id: request.request_id });
}

/// A call that lasts more than `n` sampling periods and less than `n + 1`
/// gives exactly `n` samples, those of the ticks after one period, two, and
/// so on to `n`, and after them the finished event: provided that the
/// hardware gave a reading in range at each of these ticks.
pub proof fn lemma_whole_periods(
    table: Map<Seq<char>, u16>,
    request: DispatchRequestView,
    exchange: BackendExchangeView,
    readings: Seq<Result<RawMetrics, SampleError>>,
    n: nat,
)
    requires
        table.contains_key(request.model_name),
        n * SAMPLING_PERIOD_MS < exchange.elapsed_ms < (n + 1) * SAMPLING_PERIOD_MS,
        readings.len() >= n,
        forall|i: int|
            0 <= i < n ==> gives_sample(#[trigger] readings[i]),
    ensures
        ({
            let timeline = dispatch_model(table, request, exchange, readings).timeline;
            &&& timeline.len() == n + 2
            &&& sampled_count(timeline) == n
            &&& finished_count(timeline) == 1
            &&& forall|i: int|
                0 <= i < n ==> (#[trigger] timeline[i]) == MilestoneView::Sampled(
                    TelemetrySampleView {
                        metrics: readings[i]->Ok_0,
                        request_id: request.request_id,
                        model_name: request.model_name,
                    },
                )
            &&& timeline[n as int] is CallCompleted
            &&& timeline[(n + 1) as int] == MilestoneView::Finished(
                FinishedEventView { request_id: request.request_id },
            )
        }),
{
    assert(ticks_before(exchange.elapsed_ms as nat) == n);
    let used = readings.take(n as int);
    assert forall|i: int| 0 <= i < used.len() implies gives_sample(#[trigger] used[i]) by {
        assert(used[i] == readings[i]);
    }
    let samples = samples_of(used, request.request_id, request.model_name);
    lemma_samples_all(used, request.request_id, request.model_name);
    lemma_samples_only(used, request.request_id, request.model_name);
    lemma_closing_counts(samples, FinishedEventView { request_id: request.request_id });
    let timeline = dispatch_model(table, request, exchange, readings).timeline;
    assert forall|i: int| 0 <= i < n implies (#[trigger] timeline[i]) == MilestoneView::Sampled(
        TelemetrySampleView {
            metrics: readings[i]->Ok_0,
            request_id: request.request_id,
            model_name: request.model_name,
        },
    ) by {
        assert(timeline[i] == samples[i]);
        assert(used[i] == readings[i]);
    }
}

} // verus!
