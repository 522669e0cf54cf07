//! What the metrics collector is told: a sample per tick, and one finished
//! event when the request is over.

use crate::metrics::{RawMetrics, SampleError};
use vstd::prelude::*;

verus! {

/// One hardware reading, bound to the request that was in flight.
///
/// The GPU utilization is `metrics.gpu_percent` of 100, the memory usage is
/// `metrics.memory_used` of `metrics.memory_total`, and the power draw is
/// `metrics.power_milliwatts` thousandths of a watt.
#[derive(Debug, Clone, PartialEq, Eq)]
pub struct TelemetrySample {
    pub metrics: RawMetrics,
    pub request_id: String,
    pub model_name: String,
}

/// A telemetry sample as a mathematical value.
pub struct TelemetrySampleView {
    pub metrics: RawMetrics,
    pub request_id: Seq<char>,
    pub model_name: Seq<char>,
}

impl View for TelemetrySample {
    type V = TelemetrySampleView;

    open spec fn view(&self) -> TelemetrySampleView {
        TelemetrySampleView {
            metrics: self.metrics,
            request_id: self.request_id@,
            model_name: self.model_name@,
        }
    }
}

impl TelemetrySampleView {
    /// Whether utilization and memory usage are shares between 0 and 1.
    pub open spec fn well_formed(self) -> bool {
        self.metrics.in_range()
    }
}

/// Whether a reading gives a sample: it succeeded, and its quantities are in
/// range.
pub open spec fn gives_sample(reading: Result<RawMetrics, SampleError>) -> bool {
    match reading {
        Ok(metrics) => metrics.in_range(),
        Err(_) => false,
    }
}

/// The sample that a reading gives for a request, or the reason why it gives
/// none: the reading failed, or one of its quantities is out of range.
pub open spec fn sample_of(
    reading: Result<RawMetrics, SampleError>,
    request_id: Seq<char>,
    model_name: Seq<char>,
) -> Result<TelemetrySampleView, SampleError> {
    match reading {
        Err(e) => Err(e),
        Ok(metrics) => match metrics.out_of_range() {
            Some(metric) => Err(SampleError::OutOfRange(metric)),
            None => Ok(TelemetrySampleView { metrics, request_id, model_name }),
        },
    }
}

impl TelemetrySample {
    /// Makes the sample of a reading for the request `request_id` to the
    /// model `model_name`.
    pub fn from_reading(
        reading: Result<RawMetrics, SampleError>,
        request_id: String,
        model_name: String,
    ) -> (r: Result<TelemetrySample, SampleError>)
        ensures
            match r {
                Ok(sample) => sample_of(reading, request_id@, model_name@) == Ok::<
                    TelemetrySampleView,
                    SampleError,
                >(sample@) && sample@.well_formed(),
                Err(e) => sample_of(reading, request_id@, model_name@) == Err::<
                    TelemetrySampleView,
                    SampleError,
                >(e),
            },
    {
        match reading {
            Err(e) => Err(e),
            Ok(metrics) => match metrics.check_range() {
                Some(metric) => Err(SampleError::OutOfRange(metric)),
                None => Ok(TelemetrySample { metrics, request_id, model_name }),
            },
        }
    }
}

/// The last word on a request: its telemetry has ended.
#[derive(Debug, Clone, PartialEq, Eq)]
pub struct FinishedEvent {
    pub request_id: String,
}

/// A finished event as a mathematical value.
pub struct FinishedEventView {
    pub request_id: Seq<char>,
}

impl View for FinishedEvent {
    type V = FinishedEventView;

    open spec fn view(&self) -> FinishedEventView {
        FinishedEventView { request_id: self.request_id@ }
    }
}

} // verus!
