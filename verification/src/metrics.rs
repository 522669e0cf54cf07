//! Hardware readings: the numbers in one line of the sampling command's
//! output, and the telemetry made from them.

use crate::decimal::{numeral, parse_u64};
use crate::fields::{before_mark, field, nth_field, prefix_before, trim_trailing, without_trailing};
use vstd::prelude::*;

verus! {

/// The byte between two fields of a line.
pub const FIELD_SEPARATOR: u8 = 0x20;

/// The field that holds memory in use and memory in total, as `used/totalMB`.
pub const MEMORY_FIELD: usize = 3;

/// The field that holds the GPU load, as a number of percent and `%`.
pub const LOAD_FIELD: usize = 9;

/// The field that holds the power drawn, as a number of milliwatts and `mW`.
pub const POWER_FIELD: usize = 21;

/// The letter that ends the two memory numbers.
pub const MEMORY_UNIT: u8 = 0x4d;

/// The byte between memory in use and memory in total.
pub const MEMORY_DIVIDER: u8 = 0x2f;

/// The sign behind the GPU load.
pub const PERCENT_SIGN: u8 = 0x25;

/// The letter that ends the power number.
pub const POWER_UNIT: u8 = 0x6d;

/// One of the three quantities of a reading.
#[derive(Debug, Clone, Copy, PartialEq, Eq, Structural)]
pub enum Metric {
    Memory,
    Load,
    Power,
}

/// Why a tick produced no telemetry sample.
#[derive(Debug, Clone, Copy, PartialEq, Eq, Structural)]
pub enum SampleError {
    /// The sampling command gave no line at all.
    Unavailable,
    /// The line is too short to hold the field of this quantity.
    Missing(Metric),
    /// The field of this quantity does not have the expected shape, or its
    /// number does not fit in 64 bits.
    Malformed(Metric),
    /// The quantity cannot be put as a share between 0 and 1.
    OutOfRange(Metric),
}

/// The raw numbers of one reading.
#[derive(Debug, Clone, Copy, PartialEq, Eq, Structural)]
pub struct RawMetrics {
    /// Memory in use, in the unit of `memory_total`.
    pub memory_used: u64,
    /// Memory in total.
    pub memory_total: u64,
    /// GPU load in percent.
    pub gpu_percent: u64,
    /// Power drawn, in milliwatts.
    pub power_milliwatts: u64,
}

impl RawMetrics {
    /// The first quantity that is no share between 0 and 1, if there is one:
    /// memory needs a total above zero and no more in use than that, the load
    /// no more than 100 percent.
    pub open spec fn out_of_range(self) -> Option<Metric> {
        if self.memory_total == 0 || self.memory_used > self.memory_total {
            Some(Metric::Memory)
        } else if self.gpu_percent > 100 {
            Some(Metric::Load)
        } else {
            None
        }
    }

    /// Whether GPU load and memory use are both shares between 0 and 1.
    pub open spec fn in_range(self) -> bool {
        self.out_of_range() is None
    }

    /// Tells which quantity, if any, is no share between 0 and 1.
    pub fn check_range(&self) -> (r: Option<Metric>)
        ensures
            r == self.out_of_range(),
    {
        if self.memory_total == 0 || self.memory_used > self.memory_total {
            Some(Metric::Memory)
        } else if self.gpu_percent > 100 {
            Some(Metric::Load)
        } else {
            None
        }
    }
}

/// What a field holds when it must be a numeral of 64 bits.
pub open spec fn number_in(s: Seq<u8>, metric: Metric) -> Result<u64, SampleError> {
    match numeral(s, u64::MAX as nat) {
        Some(n) => Ok(n as u64),
        None => Err(SampleError::Malformed(metric)),
    }
}

/// Memory in use and in total as the line gives them: the memory field up to
/// its first unit letter is two numerals with one divider between them.
pub open spec fn memory_of(line: Seq<u8>) -> Result<(u64, u64), SampleError> {
    match field(line, FIELD_SEPARATOR, MEMORY_FIELD as nat) {
        None => Err(SampleError::Missing(Metric::Memory)),
        Some(f) => match before_mark(f, MEMORY_UNIT) {
            None => Err(SampleError::Malformed(Metric::Memory)),
            Some(pair) => match (
                field(pair, MEMORY_DIVIDER, 0),
                field(pair, MEMORY_DIVIDER, 1),
                field(pair, MEMORY_DIVIDER, 2),
            ) {
                (Some(used), Some(total), None) => match (
                    number_in(used, Metric::Memory),
                    number_in(total, Metric::Memory),
                ) {
                    (Ok(u), Ok(t)) => Ok((u, t)),
                    _ => Err(SampleError::Malformed(Metric::Memory)),
                },
                _ => Err(SampleError::Malformed(Metric::Memory)),
            },
        },
    }
}

/// The GPU load as the line gives it: the load field without the percent
/// signs at its end is a numeral.
pub open spec fn load_of(line: Seq<u8>) -> Result<u64, SampleError> {
    match field(line, FIELD_SEPARATOR, LOAD_FIELD as nat) {
        None => Err(SampleError::Missing(Metric::Load)),
        Some(f) => number_in(without_trailing(f, PERCENT_SIGN), Metric::Load),
    }
}

/// The power drawn as the line gives it: the power field up to its first unit
/// letter is a numeral.
pub open spec fn power_of(line: Seq<u8>) -> Result<u64, SampleError> {
    match field(line, FIELD_SEPARATOR, POWER_FIELD as nat) {
        None => Err(SampleError::Missing(Metric::Power)),
        Some(f) => match before_mark(f, POWER_UNIT) {
            None => Err(SampleError::Malformed(Metric::Power)),
            Some(digits) => number_in(digits, Metric::Power),
        },
    }
}

/// The reading that a line of the sampling command's output holds. Memory is
/// looked at first, then the load, then the power; the first that fails gives
/// the error.
pub open spec fn reading_of(line: Seq<u8>) -> Result<RawMetrics, SampleError> {
    match memory_of(line) {
        Err(e) => Err(e),
        Ok((used, total)) => match load_of(line) {
            Err(e) => Err(e),
            Ok(load) => match power_of(line) {
                Err(e) => Err(e),
                Ok(power) => Ok(
                    RawMetrics {
                        memory_used: used,
                        memory_total: total,
                        gpu_percent: load,
                        power_milliwatts: power,
                    },
                ),
            },
        },
    }
}

/// Reads a field that must be a numeral of 64 bits.
fn parse_number(s: &[u8], metric: Metric) -> (r: Result<u64, SampleError>)
    ensures
        r == number_in(s@, metric),
{
    match parse_u64(s) {
        Some(n) => Ok(n),
        None => Err(SampleError::Malformed(metric)),
    }
}

/// Reads memory in use and memory in total from a line.
pub fn parse_memory(line: &[u8]) -> (r: Result<(u64, u64), SampleError>)
    ensures
        r == memory_of(line@),
{
    let f = match nth_field(line, FIELD_SEPARATOR, MEMORY_FIELD) {
        Some(f) => f,
        None => { return Err(SampleError::Missing(Metric::Memory)); },
    };
    let pair = match prefix_before(f, MEMORY_UNIT) {
        Some(p) => p,
        None => { return Err(SampleError::Malformed(Metric::Memory)); },
    };
    let used = nth_field(pair, MEMORY_DIVIDER, 0);
    let total = nth_field(pair, MEMORY_DIVIDER, 1);
    let more = nth_field(pair, MEMORY_DIVIDER, 2);
    match (used, total, more) {
        (Some(used), Some(total), None) => {
            let u = parse_number(used, Metric::Memory);
            let t = parse_number(total, Metric::Memory);
            match (u, t) {
                (Ok(u), Ok(t)) => Ok((u, t)),
                _ => Err(SampleError::Malformed(Metric::Memory)),
            }
        },
        _ => Err(SampleError::Malformed(Metric::Memory)),
    }
}

/// Reads the GPU load in percent from a line.
pub fn parse_load(line: &[u8]) -> (r: Result<u64, SampleError>)
    ensures
        r == load_of(line@),
{
    match nth_field(line, FIELD_SEPARATOR, LOAD_FIELD) {
        Some(f) => parse_number(trim_trailing(f, PERCENT_SIGN), Metric::Load),
        None => Err(SampleError::Missing(Metric::Load)),
    }
}

/// Reads the power drawn in milliwatts from a line.
pub fn parse_power(line: &[u8]) -> (r: Result<u64, SampleError>)
    ensures
        r == power_of(line@),
{
    match nth_field(line, FIELD_SEPARATOR, POWER_FIELD) {
        Some(f) => match prefix_before(f, POWER_UNIT) {
            Some(digits) => parse_number(digits, Metric::Power),
            None => Err(SampleError::Malformed(Metric::Power)),
        },
        None => Err(SampleError::Missing(Metric::Power)),
    }
}

/// Reads one line of the sampling command's output.
pub fn parse_reading(line: &[u8]) -> (r: Result<RawMetrics, SampleError>)
    ensures
        r == reading_of(line@),
{
    let (used, total) = match parse_memory(line) {
        Ok(pair) => pair,
        Err(e) => { return Err(e); },
    };
    let load = match parse_load(line) {
        Ok(load) => load,
        Err(e) => { return Err(e); },
    };
    let power = match parse_power(line) {
        Ok(power) => power,
        Err(e) => { return Err(e); },
    };
    Ok(RawMetrics { memory_used: used, memory_total: total, gpu_percent: load, power_milliwatts: power })
}

} // verus!
