//! The submission entry point: from a request document to a live tracker.

use vstd::prelude::*;

use crate::doc::DocValue;
use crate::error::ValidationError;
use crate::parse::{parse_policy_engine_request, spec_parse_request};
use crate::status::PolicyEngineStatuses;
use crate::tracker::{tracker_wf, StatusTracker};
use crate::workflow::{default_options, workflow_admissible, workflow_error};

verus! {

/// Relies on `uuid::Uuid::new_v4` and the `Display` form of `Uuid`: a fresh
/// random version-4 UUID rendered hyphenated, which is always 36 characters
/// long.  Nothing else is assumed of the drawn value.
#[verifier::external_body]
fn fresh_evaluation_id() -> (r: String)
    ensures
        r@.len() == 36,
{
    uuid::Uuid::new_v4().to_string()
}

/// Accepts one evaluation submission end to end: parses the document,
/// validates the embedded workflow, and on success opens a tracker in
/// `Submitted` under a fresh evaluation id.  A request that fails parsing
/// or workflow validation is never admitted to tracking.
pub fn submit_policy_engine_request(doc: DocValue) -> (r: Result<StatusTracker, ValidationError>)
    ensures
        r is Ok <==> (spec_parse_request(doc) matches Ok(rv) && workflow_admissible(
            rv.workflow,
            default_options(),
        )),
        r matches Ok(t) ==> {
            &&& tracker_wf(t@)
            &&& (spec_parse_request(doc) matches Ok(rv) && t@.workflow == rv.workflow)
            &&& t@.overall == PolicyEngineStatuses::Submitted
            &&& !t@.abandoned
            &&& t@.id.len() == 36
        },
        spec_parse_request(doc) matches Err(e) ==> r matches Err(re) && re@ == e,
        spec_parse_request(doc) matches Ok(rv) ==> (!workflow_admissible(
            rv.workflow,
            default_options(),
        ) ==> (r matches Err(re) && workflow_error(rv.workflow, default_options()) == Some(re@))),
{
    let req = match parse_policy_engine_request(doc) {
        Ok(req) => req,
        Err(e) => return Err(e),
    };
    let id = fresh_evaluation_id();
    StatusTracker::new(id, req.workflow)
}

} // verus!
