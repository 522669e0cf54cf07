use model_relay::backend::{CallOutcome, DispatchResult};
use model_relay::dispatch::{Coordinator, CoordinatorEvent, Directive, DispatchRequest};
use model_relay::metrics::{Metric, RawMetrics, SampleError};
use model_relay::routing::{Endpoint, RoutingTable};
use model_relay::run::{dispatch, BackendExchange, DispatchReport, Milestone};
use model_relay::telemetry::{FinishedEvent, TelemetrySample};

fn two_models() -> RoutingTable {
    RoutingTable::from_routes(&vec![("llama".to_string(), 9001), ("mistral".to_string(), 9002)])
}

fn request(model: &str, payload: &[u8], id: &str) -> DispatchRequest {
    DispatchRequest {
        payload: payload.to_vec(),
        request_id: id.to_string(),
        model_name: model.to_string(),
    }
}

fn reading(load: u64) -> Result<RawMetrics, SampleError> {
    Ok(RawMetrics { memory_used: 3058, memory_total: 7620, gpu_percent: load, power_milliwatts: 1449 })
}

fn sample(load: u64, id: &str, model: &str) -> Milestone {
    Milestone::Sampled(TelemetrySample {
        metrics: RawMetrics {
            memory_used: 3058,
            memory_total: 7620,
            gpu_percent: load,
            power_milliwatts: 1449,
        },
        request_id: id.to_string(),
        model_name: model.to_string(),
    })
}

fn finished(id: &str) -> Milestone {
    Milestone::Finished(FinishedEvent { request_id: id.to_string() })
}

fn replied(status: u16, body: &[u8], elapsed_ms: u64) -> BackendExchange {
    BackendExchange { outcome: CallOutcome::Replied { status, body: body.to_vec() }, elapsed_ms }
}

fn count_finished(report: &DispatchReport) -> usize {
    report.timeline.iter().filter(|m| matches!(m, Milestone::Finished(_))).count()
}

fn count_sampled(report: &DispatchReport) -> usize {
    report.timeline.iter().filter(|m| matches!(m, Milestone::Sampled(_))).count()
}

fn position_of_completion(report: &DispatchReport) -> usize {
    report.timeline.iter().position(|m| matches!(m, Milestone::CallCompleted)).unwrap()
}

fn position_of_finished(report: &DispatchReport) -> usize {
    report.timeline.iter().position(|m| matches!(m, Milestone::Finished(_))).unwrap()
}

#[test]
fn llama_replies_after_two_and_a_bit_seconds() {
    let report = dispatch(
        &two_models(),
        request("llama", b"hi", "r1"),
        replied(200, b"hello", 2300),
        &vec![reading(10), reading(20), reading(30), reading(40)],
    );
    assert_eq!(report.result, DispatchResult::Success { status: 200, body: b"hello".to_vec() });
    assert_eq!(
        report.timeline,
        vec![
            sample(10, "r1", "llama"),
            sample(20, "r1", "llama"),
            Milestone::CallCompleted,
            finished("r1"),
        ]
    );
}

#[test]
fn a_model_outside_the_table_is_not_found_and_the_collector_hears_nothing() {
    let report = dispatch(
        &two_models(),
        request("gpt-z", b"hi", "r2"),
        replied(200, b"hello", 2300),
        &vec![reading(10), reading(20)],
    );
    assert_eq!(report.result, DispatchResult::ModelNotFound);
    assert_eq!(report.timeline, vec![]);
}

#[test]
fn a_refused_connection_still_ends_with_one_finished_event() {
    let report = dispatch(
        &two_models(),
        request("mistral", b"hi", "r3"),
        BackendExchange { outcome: CallOutcome::ConnectFailed, elapsed_ms: 3 },
        &vec![reading(10)],
    );
    assert_eq!(report.result, DispatchResult::BackendUnreachable);
    assert_eq!(report.timeline, vec![Milestone::CallCompleted, finished("r3")]);
    assert_eq!(count_finished(&report), 1);
}

#[test]
fn every_outcome_gets_exactly_one_finished_event_after_the_call() {
    let outcomes = vec![
        CallOutcome::Replied { status: 200, body: b"ok".to_vec() },
        CallOutcome::Replied { status: 500, body: b"no".to_vec() },
        CallOutcome::ConnectFailed,
        CallOutcome::HandshakeFailed,
        CallOutcome::TransferFailed,
        CallOutcome::TimedOut,
    ];
    for outcome in outcomes {
        for elapsed_ms in [0u64, 1, 999, 1000, 1001, 4500] {
            let report = dispatch(
                &two_models(),
                request("llama", b"hi", "r4"),
                BackendExchange { outcome: outcome.clone(), elapsed_ms },
                &vec![reading(1), Err(SampleError::Unavailable), reading(3)],
            );
            assert_eq!(count_finished(&report), 1);
            assert_eq!(report.timeline.last(), Some(&finished("r4")));
            assert!(position_of_completion(&report) < position_of_finished(&report));
        }
    }
}

#[test]
fn a_call_under_one_period_gives_no_sample_and_one_finished_event() {
    for elapsed_ms in [0u64, 1, 500, 999, 1000] {
        let report = dispatch(
            &two_models(),
            request("llama", b"hi", "r5"),
            replied(200, b"", elapsed_ms),
            &vec![reading(10), reading(20)],
        );
        assert_eq!(count_sampled(&report), 0);
        assert_eq!(count_finished(&report), 1);
        assert_eq!(report.timeline, vec![Milestone::CallCompleted, finished("r5")]);
    }
}

#[test]
fn a_call_of_three_and_a_half_periods_gives_three_samples() {
    let report = dispatch(
        &two_models(),
        request("mistral", b"hi", "r6"),
        replied(200, b"", 3500),
        &vec![reading(10), reading(20), reading(30), reading(40), reading(50)],
    );
    assert_eq!(
        report.timeline,
        vec![
            sample(10, "r6", "mistral"),
            sample(20, "r6", "mistral"),
            sample(30, "r6", "mistral"),
            Milestone::CallCompleted,
            finished("r6"),
        ]
    );
}

#[test]
fn a_call_that_ends_on_a_tick_does_not_take_that_tick() {
    let report = dispatch(
        &two_models(),
        request("llama", b"hi", "r7"),
        replied(200, b"", 3000),
        &vec![reading(10), reading(20), reading(30), reading(40)],
    );
    assert_eq!(count_sampled(&report), 2);
    assert_eq!(report.timeline[2], Milestone::CallCompleted);
}

#[test]
fn a_failed_reading_is_skipped_and_sampling_goes_on() {
    let report = dispatch(
        &two_models(),
        request("llama", b"hi", "r8"),
        replied(200, b"", 4200),
        &vec![
            reading(10),
            Err(SampleError::Malformed(Metric::Memory)),
            reading(300),
            reading(40),
        ],
    );
    assert_eq!(
        report.timeline,
        vec![
            sample(10, "r8", "llama"),
            sample(40, "r8", "llama"),
            Milestone::CallCompleted,
            finished("r8"),
        ]
    );
}

#[test]
fn ticks_without_a_recorded_reading_give_no_sample() {
    let report = dispatch(
        &two_models(),
        request("llama", b"hi", "r9"),
        replied(200, b"", 10_500),
        &vec![reading(10)],
    );
    assert_eq!(
        report.timeline,
        vec![sample(10, "r9", "llama"), Milestone::CallCompleted, finished("r9")]
    );
    let silent = dispatch(
        &two_models(),
        request("llama", b"hi", "r9"),
        replied(200, b"", 10_500),
        &vec![],
    );
    assert_eq!(silent.timeline, vec![Milestone::CallCompleted, finished("r9")]);
}

#[test]
fn the_result_is_the_callers_result_unchanged() {
    let report = dispatch(
        &two_models(),
        request("llama", b"hi", "r10"),
        replied(503, b"busy", 10),
        &vec![],
    );
    assert_eq!(report.result, DispatchResult::BackendError { status: 503 });
    let report = dispatch(
        &two_models(),
        request("llama", b"hi", "r10"),
        BackendExchange { outcome: CallOutcome::TimedOut, elapsed_ms: 30_000 },
        &vec![],
    );
    assert_eq!(report.result, DispatchResult::BackendTimeout);
}

#[test]
fn a_known_model_launches_call_and_sampler() {
    let (state, directive) = Coordinator::begin(&two_models(), request("llama", b"hi", "r1"));
    assert_eq!(state, Coordinator::AwaitingCaller);
    assert!(!state.is_done());
    assert_eq!(
        directive,
        Directive::Launch {
            endpoint: Endpoint { port: 9001 },
            payload: b"hi".to_vec(),
            request_id: "r1".to_string(),
            model_name: "llama".to_string(),
        }
    );
}

#[test]
fn an_unknown_model_is_answered_at_once() {
    let (state, directive) = Coordinator::begin(&two_models(), request("gpt-z", b"hi", "r1"));
    assert_eq!(state, Coordinator::Done);
    assert!(state.is_done());
    assert_eq!(directive, Directive::Reply(DispatchResult::ModelNotFound));
}

#[test]
fn the_end_of_the_call_cancels_the_sampler() {
    let (state, directive) = Coordinator::AwaitingCaller.step(CoordinatorEvent::CallerFinished(
        CallOutcome::Replied { status: 200, body: b"hello".to_vec() },
    ));
    assert_eq!(
        state,
        Coordinator::AwaitingSampler {
            result: DispatchResult::Success { status: 200, body: b"hello".to_vec() }
        }
    );
    assert_eq!(directive, Directive::CancelSampler);
}

#[test]
fn a_failed_call_cancels_the_sampler_too() {
    for outcome in [
        CallOutcome::ConnectFailed,
        CallOutcome::HandshakeFailed,
        CallOutcome::TransferFailed,
        CallOutcome::TimedOut,
    ] {
        let (state, directive) =
            Coordinator::AwaitingCaller.step(CoordinatorEvent::CallerFinished(outcome));
        assert!(matches!(state, Coordinator::AwaitingSampler { .. }));
        assert_eq!(directive, Directive::CancelSampler);
    }
}

#[test]
fn the_stop_of_the_sampler_releases_the_result() {
    let waiting = Coordinator::AwaitingSampler { result: DispatchResult::BackendUnreachable };
    let (state, directive) = waiting.step(CoordinatorEvent::SamplerStopped);
    assert_eq!(state, Coordinator::Done);
    assert_eq!(directive, Directive::Reply(DispatchResult::BackendUnreachable));
}

#[test]
fn no_result_is_released_while_the_call_runs() {
    let (state, directive) = Coordinator::AwaitingCaller.step(CoordinatorEvent::SamplerStopped);
    assert_eq!(state, Coordinator::AwaitingCaller);
    assert_eq!(directive, Directive::Nothing);
}

#[test]
fn a_second_end_of_the_call_changes_nothing() {
    let waiting = Coordinator::AwaitingSampler { result: DispatchResult::BackendTimeout };
    let (state, directive) =
        waiting.step(CoordinatorEvent::CallerFinished(CallOutcome::ConnectFailed));
    assert_eq!(state, Coordinator::AwaitingSampler { result: DispatchResult::BackendTimeout });
    assert_eq!(directive, Directive::Nothing);
}

#[test]
fn a_finished_dispatch_answers_only_once() {
    let (state, directive) = Coordinator::Done.step(CoordinatorEvent::SamplerStopped);
    assert_eq!(state, Coordinator::Done);
    assert_eq!(directive, Directive::Nothing);
    let (state, directive) =
        state.step(CoordinatorEvent::CallerFinished(CallOutcome::TimedOut));
    assert_eq!(state, Coordinator::Done);
    assert_eq!(directive, Directive::Nothing);
}
