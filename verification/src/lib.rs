//! A routing relay for inference backends: the decisions of one dispatch.
//!
//! A request names a model. The relay forwards the request body to the backend
//! that serves the model and, while that call is in flight, samples hardware
//! telemetry once per period and reports it to a metrics collector. When the
//! call is over the sampler is cancelled and reports that the request has
//! finished, exactly once.
//!
//! This crate holds the rules of that protocol as verified functions on plain
//! values. Sockets, timers and tasks belong to the program around it.

pub mod backend;
pub mod config;
pub mod decimal;
pub mod dispatch;
pub mod fields;
pub mod metrics;
pub mod routing;
pub mod run;
pub mod sampler;
pub mod telemetry;
pub mod wire;
