use model_relay::metrics::{Metric, RawMetrics, SampleError};
use model_relay::sampler::{
    arbitrate, ticks_during, Sampler, SamplerAction, SamplerEvent, Wake, SAMPLING_PERIOD_MS,
};
use model_relay::telemetry::{FinishedEvent, TelemetrySample};

fn steady() -> RawMetrics {
    RawMetrics { memory_used: 3058, memory_total: 7620, gpu_percent: 12, power_milliwatts: 1449 }
}

fn start(id: &str, model: &str) -> SamplerEvent {
    SamplerEvent::Start { request_id: id.to_string(), model_name: model.to_string() }
}

fn sampling(id: &str, model: &str) -> Sampler {
    Sampler::Sampling { request_id: id.to_string(), model_name: model.to_string() }
}

fn run(sampler: Sampler, events: Vec<SamplerEvent>) -> (Sampler, Vec<SamplerAction>) {
    let mut state = sampler;
    let mut actions = Vec::new();
    for event in events {
        let (next, action) = state.step(event);
        state = next;
        actions.push(action);
    }
    (state, actions)
}

fn finishes(actions: &[SamplerAction]) -> usize {
    actions.iter().filter(|a| matches!(a, SamplerAction::Finish(_))).count()
}

fn reports(actions: &[SamplerAction]) -> usize {
    actions.iter().filter(|a| matches!(a, SamplerAction::Report(_))).count()
}

#[test]
fn a_new_sampler_is_idle() {
    assert_eq!(Sampler::new(), Sampler::Idle);
    assert!(!Sampler::new().is_stopped());
}

#[test]
fn start_moves_an_idle_sampler_to_sampling() {
    let (state, action) = Sampler::new().step(start("r1", "llama"));
    assert_eq!(state, sampling("r1", "llama"));
    assert_eq!(action, SamplerAction::Nothing);
}

#[test]
fn a_tick_with_a_good_reading_is_reported() {
    let (state, action) = sampling("r1", "llama").step(SamplerEvent::Tick(Ok(steady())));
    assert_eq!(state, sampling("r1", "llama"));
    assert_eq!(
        action,
        SamplerAction::Report(TelemetrySample {
            metrics: steady(),
            request_id: "r1".to_string(),
            model_name: "llama".to_string(),
        })
    );
}

#[test]
fn a_tick_with_a_failed_reading_is_skipped() {
    let (state, action) =
        sampling("r1", "llama").step(SamplerEvent::Tick(Err(SampleError::Malformed(Metric::Load))));
    assert_eq!(state, sampling("r1", "llama"));
    assert_eq!(action, SamplerAction::Skip(SampleError::Malformed(Metric::Load)));
}

#[test]
fn a_tick_with_a_reading_out_of_range_is_skipped() {
    let wild = RawMetrics { memory_used: 1, memory_total: 2, gpu_percent: 250, power_milliwatts: 1 };
    let (state, action) = sampling("r1", "llama").step(SamplerEvent::Tick(Ok(wild)));
    assert_eq!(state, sampling("r1", "llama"));
    assert_eq!(action, SamplerAction::Skip(SampleError::OutOfRange(Metric::Load)));
}

#[test]
fn a_failed_report_does_not_stop_sampling() {
    let (state, action) = sampling("r1", "llama").step(SamplerEvent::ReportFailed);
    assert_eq!(state, sampling("r1", "llama"));
    assert_eq!(action, SamplerAction::Nothing);
    let (state, action) = state.step(SamplerEvent::Tick(Ok(steady())));
    assert_eq!(state, sampling("r1", "llama"));
    assert!(matches!(action, SamplerAction::Report(_)));
}

#[test]
fn cancel_stops_a_sampling_sampler_with_the_finished_event() {
    let (state, action) = sampling("r1", "llama").step(SamplerEvent::Cancel);
    assert_eq!(state, Sampler::Stopped);
    assert!(state.is_stopped());
    assert_eq!(action, SamplerAction::Finish(FinishedEvent { request_id: "r1".to_string() }));
}

#[test]
fn cancelling_twice_gives_one_finished_event() {
    let (state, actions) = run(
        Sampler::new(),
        vec![start("r1", "llama"), SamplerEvent::Cancel, SamplerEvent::Cancel],
    );
    assert_eq!(state, Sampler::Stopped);
    assert_eq!(finishes(&actions), 1);
    assert_eq!(actions[2], SamplerAction::Nothing);
}

#[test]
fn a_stopped_sampler_answers_nothing_to_anything() {
    for event in vec![
        start("r2", "mistral"),
        SamplerEvent::Tick(Ok(steady())),
        SamplerEvent::Tick(Err(SampleError::Unavailable)),
        SamplerEvent::ReportFailed,
        SamplerEvent::Cancel,
    ] {
        let (state, action) = Sampler::Stopped.step(event);
        assert_eq!(state, Sampler::Stopped);
        assert_eq!(action, SamplerAction::Nothing);
    }
}

#[test]
fn an_idle_sampler_takes_no_tick() {
    let (state, action) = Sampler::Idle.step(SamplerEvent::Tick(Ok(steady())));
    assert_eq!(state, Sampler::Idle);
    assert_eq!(action, SamplerAction::Nothing);
    let (state, action) = state.step(SamplerEvent::ReportFailed);
    assert_eq!(state, Sampler::Idle);
    assert_eq!(action, SamplerAction::Nothing);
}

#[test]
fn an_idle_sampler_that_is_cancelled_never_samples() {
    let (state, actions) = run(
        Sampler::new(),
        vec![SamplerEvent::Cancel, start("r1", "llama"), SamplerEvent::Tick(Ok(steady()))],
    );
    assert_eq!(state, Sampler::Stopped);
    assert_eq!(finishes(&actions), 0);
    assert_eq!(reports(&actions), 0);
}

#[test]
fn a_second_start_does_not_rebind_the_sampler() {
    let (state, action) = sampling("r1", "llama").step(start("r2", "mistral"));
    assert_eq!(state, sampling("r1", "llama"));
    assert_eq!(action, SamplerAction::Nothing);
}

#[test]
fn a_whole_course_reports_each_good_tick_and_finishes_once() {
    let (state, actions) = run(
        Sampler::new(),
        vec![
            start("r1", "llama"),
            SamplerEvent::Tick(Ok(steady())),
            SamplerEvent::Tick(Err(SampleError::Unavailable)),
            SamplerEvent::ReportFailed,
            SamplerEvent::Tick(Ok(steady())),
            SamplerEvent::Cancel,
            SamplerEvent::Tick(Ok(steady())),
            SamplerEvent::Cancel,
        ],
    );
    assert_eq!(state, Sampler::Stopped);
    assert_eq!(reports(&actions), 2);
    assert_eq!(finishes(&actions), 1);
    assert_eq!(actions[5], SamplerAction::Finish(FinishedEvent { request_id: "r1".to_string() }));
    assert_eq!(actions[6], SamplerAction::Nothing);
    assert_eq!(actions[7], SamplerAction::Nothing);
}

#[test]
fn cancellation_wins_the_race() {
    assert_eq!(arbitrate(true, true), Some(Wake::Cancel));
    assert_eq!(arbitrate(true, false), Some(Wake::Cancel));
    assert_eq!(arbitrate(false, true), Some(Wake::Tick));
    assert_eq!(arbitrate(false, false), None);
}

#[test]
fn the_period_is_one_second() {
    assert_eq!(SAMPLING_PERIOD_MS, 1000);
}

#[test]
fn a_call_shorter_than_a_period_has_no_tick() {
    assert_eq!(ticks_during(0), 0);
    assert_eq!(ticks_during(1), 0);
    assert_eq!(ticks_during(999), 0);
}

#[test]
fn a_tick_at_the_very_end_of_the_call_is_not_taken() {
    assert_eq!(ticks_during(1000), 0);
    assert_eq!(ticks_during(2000), 1);
    assert_eq!(ticks_during(3000), 2);
}

#[test]
fn a_call_of_n_and_a_bit_periods_has_n_ticks() {
    assert_eq!(ticks_during(1001), 1);
    assert_eq!(ticks_during(1999), 1);
    assert_eq!(ticks_during(2300), 2);
    assert_eq!(ticks_during(10_500), 10);
    assert_eq!(ticks_during(u64::MAX), 18_446_744_073_709_551);
}
