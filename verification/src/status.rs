//! Lifecycle statuses and the per-evaluation status snapshot.

use vstd::prelude::*;

use crate::doc::DocValue;
use crate::error::{names_field, PathSegment, ValidationError, ValidationErrorKind};
use crate::validate_id;

verus! {

/// The lifecycle states of one evaluation.
///
/// `Unknown` is a defensive sentinel: no accepted transition produces it and
/// [`PolicyEngineStatus::new`] refuses to construct a snapshot with it.
#[derive(Clone, Copy, Debug, PartialEq, Eq, Structural)]
pub enum PolicyEngineStatuses {
    Submitted,
    InProgress,
    Complete,
    Unknown,
    InputValidationError,
}

/// The total order on statuses that step updates must respect:
/// `Submitted (0) < InProgress (1) < {Complete, InputValidationError} (2)`.
/// The sentinel `Unknown` never enters the order; it is mapped to the bottom
/// rank for totality.
pub open spec fn status_rank(s: PolicyEngineStatuses) -> int {
    match s {
        PolicyEngineStatuses::Submitted => 0,
        PolicyEngineStatuses::InProgress => 1,
        PolicyEngineStatuses::Complete => 2,
        PolicyEngineStatuses::InputValidationError => 2,
        PolicyEngineStatuses::Unknown => 0,
    }
}

impl PolicyEngineStatuses {
    /// The rank of this status in the update order.
    pub fn rank(&self) -> (r: u8)
        ensures
            r as int == status_rank(*self),
    {
        match self {
            PolicyEngineStatuses::Submitted => 0,
            PolicyEngineStatuses::InProgress => 1,
            PolicyEngineStatuses::Complete => 2,
            PolicyEngineStatuses::InputValidationError => 2,
            PolicyEngineStatuses::Unknown => 0,
        }
    }

    /// Whether this status ends the evaluation.
    pub fn is_terminal(&self) -> (r: bool)
        ensures
            r == spec_is_terminal(*self),
    {
        match self {
            PolicyEngineStatuses::Complete => true,
            PolicyEngineStatuses::InputValidationError => true,
            _ => false,
        }
    }
}

/// The two terminal states: no accepted transition leaves either.
pub open spec fn spec_is_terminal(s: PolicyEngineStatuses) -> bool {
    s == PolicyEngineStatuses::Complete || s == PolicyEngineStatuses::InputValidationError
}

/// Rejects the sentinel status, which no snapshot may carry.
pub fn validate_status(status: &PolicyEngineStatuses) -> (r: Result<(), ValidationError>)
    ensures
        r is Ok <==> *status != PolicyEngineStatuses::Unknown,
        r matches Err(e) ==> {
            &&& e.kind == ValidationErrorKind::CustomError
            &&& names_field(e, "status"@)
        },
{
    match status {
        PolicyEngineStatuses::Unknown => Err(
            ValidationError {
                kind: ValidationErrorKind::CustomError,
                message: "Unknown status is not allowed.".to_owned(),
                path: vec![PathSegment::Field("status".to_owned())],
            },
        ),
        _ => Ok(()),
    }
}

/// The current lifecycle snapshot of one evaluation: its id, its overall
/// status, and free-form detail.
#[derive(Debug)]
pub struct PolicyEngineStatus {
    pub id: String,
    pub status: PolicyEngineStatuses,
    pub detail: Vec<(String, DocValue)>,
}

impl PolicyEngineStatus {
    /// Builds a snapshot, refusing an empty id and the sentinel status.
    ///
    /// Succeeds on exactly the ids that are non-empty paired with the
    /// statuses that are not `Unknown`.
    pub fn new(id: String, status: PolicyEngineStatuses, detail: Vec<(String, DocValue)>) -> (r:
        Result<PolicyEngineStatus, ValidationError>)
        ensures
            r is Ok <==> (id@.len() > 0 && status != PolicyEngineStatuses::Unknown),
            r matches Ok(p) ==> p.id == id && p.status == status && p.detail == detail,
            r matches Err(e) ==> if status == PolicyEngineStatuses::Unknown {
                e.kind == ValidationErrorKind::CustomError && names_field(e, "status"@)
            } else {
                e.kind == ValidationErrorKind::MissingField && names_field(e, "id"@)
            },
    {
        validate_status(&status)?;
        validate_id(id.as_str())?;
        Ok(PolicyEngineStatus { id, status, detail })
    }
}

} // verus!
