//! The download pipeline: resolver, bounded queue, worker pool and aggregator
//! as one state machine.
//!
//! - [`types`]: the values that flow through the pipeline;
//! - [`model`]: the pipeline in mathematical terms: its state, what each
//!   event does to it, and the invariant that every reachable state
//!   satisfies;
//! - [`counting`]: counts over states, workers and outcomes;
//! - [`laws`]: what is proved of every run;
//! - [`aggregate`]: the collector of outcomes;
//! - [`engine`]: the executable pipeline, each of whose operations is proved
//!   to do exactly what the model says.

pub mod aggregate;
pub mod counting;
pub mod engine;
pub mod laws;
pub mod model;
pub mod types;
