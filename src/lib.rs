//! Orchestration core of a scheduled report generator.
//!
//! The library holds the decision logic of the report pipeline: the retry and
//! routing policy, the pipeline steps as pure transitions over a shared state
//! record, the workflow engine as a state machine that asks its caller for
//! outside work, the progress registry, and the scheduler's calendar logic.
//! Network, storage and timers are left to the caller.

pub mod api;
pub mod extract;
pub mod models;
pub mod progress;
pub mod prompts;
pub mod routing;
pub mod scheduler;
pub mod settings;
pub mod state;
pub mod steps;
pub mod text;
pub mod validate;
pub mod workflow;
