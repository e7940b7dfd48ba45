//! Policy evaluation core for CI-style workflow execution requests.
//!
//! A request carries a workflow definition (a job graph) together with its
//! inputs, context and invocation stack.  This crate parses such a request
//! from a structured document, validates the workflow, tracks the lifecycle
//! of one evaluation as step status reports arrive, and folds the accumulated
//! step state into a terminal completion record.

pub mod complete;
pub mod doc;
pub mod engine;
pub mod error;
pub mod parse;
pub mod status;
pub mod tracker;
pub mod workflow;

pub use complete::{PolicyEngineComplete, PolicyEngineCompleteExitStatuses, StepAnnotation};
pub use doc::DocValue;
pub use engine::submit_policy_engine_request;
pub use error::{validate_id, PathSegment, ValidationError, ValidationErrorKind};
pub use parse::{parse_policy_engine_request, PolicyEngineRequest};
pub use status::{validate_status, PolicyEngineStatus, PolicyEngineStatuses};
pub use tracker::{JobStepStatusUpdate, JobTrack, StatusTracker};
pub use workflow::{
    PolicyEngineWorkflow, PolicyEngineWorkflowJob, PolicyEngineWorkflowJobStep, ValidationOptions,
};
