use policy_engine::validate_id;
use policy_engine::validate_status;
use policy_engine::DocValue;
use policy_engine::JobStepStatusUpdate;
use policy_engine::PolicyEngineStatus;
use policy_engine::PolicyEngineStatuses;
use policy_engine::PolicyEngineWorkflow;
use policy_engine::PolicyEngineWorkflowJob;
use policy_engine::PolicyEngineWorkflowJobStep;
use policy_engine::StatusTracker;
use policy_engine::ValidationErrorKind;

fn tt_step_uses(u: &str) -> PolicyEngineWorkflowJobStep {
    PolicyEngineWorkflowJobStep {
        if_condition: None,
        name: None,
        uses: Some(u.to_string()),
        shell: None,
        with_inputs: vec![],
        env: vec![],
        run: None,
    }
}

fn tt_workflow(jobs: Vec<&str>) -> PolicyEngineWorkflow {
    PolicyEngineWorkflow {
        name: None,
        on: DocValue::Text("push".to_string()),
        jobs: jobs
            .into_iter()
            .map(|id| {
                (
                    id.to_string(),
                    PolicyEngineWorkflowJob {
                        runs_on: Some(DocValue::Text("ubuntu-latest".to_string())),
                        steps: vec![tt_step_uses("actions/checkout@v4")],
                    },
                )
            })
            .collect(),
    }
}

fn tt_update(status: PolicyEngineStatuses) -> JobStepStatusUpdate {
    JobStepStatusUpdate { status, metadata: vec![], outputs: vec![] }
}

#[test]
fn status_new_rejects_an_empty_id() {
    let e = PolicyEngineStatus::new(String::new(), PolicyEngineStatuses::Submitted, vec![])
        .unwrap_err();
    assert_eq!(e.kind, ValidationErrorKind::MissingField);
}

#[test]
fn status_new_rejects_the_unknown_sentinel() {
    let e = PolicyEngineStatus::new("id-1".to_string(), PolicyEngineStatuses::Unknown, vec![])
        .unwrap_err();
    assert_eq!(e.kind, ValidationErrorKind::CustomError);
}

#[test]
fn status_new_accepts_every_other_pairing() {
    for status in [
        PolicyEngineStatuses::Submitted,
        PolicyEngineStatuses::InProgress,
        PolicyEngineStatuses::Complete,
        PolicyEngineStatuses::InputValidationError,
    ] {
        let p = PolicyEngineStatus::new("id-1".to_string(), status, vec![]).unwrap();
        assert_eq!(p.id, "id-1");
        assert_eq!(p.status, status);
    }
}

#[test]
fn validators_check_id_and_status() {
    assert!(validate_id("x").is_ok());
    assert_eq!(validate_id("").unwrap_err().kind, ValidationErrorKind::MissingField);
    assert!(validate_status(&PolicyEngineStatuses::Complete).is_ok());
    assert_eq!(
        validate_status(&PolicyEngineStatuses::Unknown).unwrap_err().kind,
        ValidationErrorKind::CustomError
    );
}

#[test]
fn tracker_new_starts_submitted() {
    let t = StatusTracker::new("eval-1".to_string(), tt_workflow(vec!["lint"])).unwrap();
    assert_eq!(t.overall, PolicyEngineStatuses::Submitted);
    assert!(!t.abandoned);
    let snap = t.status_snapshot();
    assert_eq!(snap.id, "eval-1");
    assert_eq!(snap.status, PolicyEngineStatuses::Submitted);
}

#[test]
fn tracker_new_rejects_an_invalid_workflow() {
    let mut wf = tt_workflow(vec!["lint"]);
    wf.jobs[0].1.runs_on = None;
    let e = StatusTracker::new("eval-1".to_string(), wf).unwrap_err();
    assert_eq!(e.kind, ValidationErrorKind::MissingField);
}

#[test]
fn updates_in_rank_order_succeed() {
    let mut t = StatusTracker::new("eval-1".to_string(), tt_workflow(vec!["lint"])).unwrap();
    assert!(t.submit_update("lint", 0, tt_update(PolicyEngineStatuses::Submitted)).is_ok());
    assert!(t.submit_update("lint", 0, tt_update(PolicyEngineStatuses::InProgress)).is_ok());
    assert!(t.submit_update("lint", 0, tt_update(PolicyEngineStatuses::Complete)).is_ok());
    assert_eq!(t.overall, PolicyEngineStatuses::Complete);
}

#[test]
fn a_backward_update_is_rejected_and_changes_nothing() {
    let mut t = StatusTracker::new("eval-1".to_string(), tt_workflow(vec!["lint"])).unwrap();
    t.submit_update("lint", 0, tt_update(PolicyEngineStatuses::Complete)).unwrap();
    let e = t.submit_update("lint", 0, tt_update(PolicyEngineStatuses::InProgress)).unwrap_err();
    assert_eq!(e.kind, ValidationErrorKind::CustomError);
    let stored = t.jobs[0].slots[0].as_ref().unwrap();
    assert_eq!(stored.status, PolicyEngineStatuses::Complete);
    assert_eq!(t.overall, PolicyEngineStatuses::Complete);
}

#[test]
fn an_unknown_status_update_is_rejected() {
    let mut t = StatusTracker::new("eval-1".to_string(), tt_workflow(vec!["lint"])).unwrap();
    let e = t.submit_update("lint", 0, tt_update(PolicyEngineStatuses::Unknown)).unwrap_err();
    assert_eq!(e.kind, ValidationErrorKind::CustomError);
    assert_eq!(t.overall, PolicyEngineStatuses::Submitted);
}

#[test]
fn an_update_for_an_unknown_target_is_rejected() {
    let mut t = StatusTracker::new("eval-1".to_string(), tt_workflow(vec!["lint"])).unwrap();
    let e = t.submit_update("build", 0, tt_update(PolicyEngineStatuses::InProgress)).unwrap_err();
    assert_eq!(e.kind, ValidationErrorKind::CustomError);
    let e2 = t.submit_update("lint", 1, tt_update(PolicyEngineStatuses::InProgress)).unwrap_err();
    assert_eq!(e2.kind, ValidationErrorKind::CustomError);
    assert_eq!(t.overall, PolicyEngineStatuses::Submitted);
}

#[test]
fn scenario_one_job_runs_to_success() {
    let mut t = StatusTracker::new("eval-a".to_string(), tt_workflow(vec!["lint"])).unwrap();
    t.submit_update("lint", 0, tt_update(PolicyEngineStatuses::InProgress)).unwrap();
    assert_eq!(t.overall, PolicyEngineStatuses::InProgress);
    t.submit_update("lint", 0, tt_update(PolicyEngineStatuses::Complete)).unwrap();
    assert_eq!(t.overall, PolicyEngineStatuses::Complete);
    let c = t.into_completion().unwrap();
    assert_eq!(c.id, "eval-a");
    assert_eq!(c.exit_status, policy_engine::PolicyEngineCompleteExitStatuses::Success);
}

#[test]
fn scenario_a_validation_failure_is_terminal() {
    let mut t = StatusTracker::new("eval-b".to_string(), tt_workflow(vec!["lint"])).unwrap();
    t.submit_update("lint", 0, tt_update(PolicyEngineStatuses::InputValidationError)).unwrap();
    assert_eq!(t.overall, PolicyEngineStatuses::InputValidationError);
    // A later report for the same step is accepted for audit but the overall
    // status does not change.
    assert!(t.submit_update("lint", 0, tt_update(PolicyEngineStatuses::Complete)).is_ok());
    assert_eq!(t.overall, PolicyEngineStatuses::InputValidationError);
    let c = t.into_completion().unwrap();
    assert_eq!(c.exit_status, policy_engine::PolicyEngineCompleteExitStatuses::Failure);
}

#[test]
fn scenario_two_jobs_wait_for_each_other() {
    let mut t = StatusTracker::new("eval-c".to_string(), tt_workflow(vec!["lint", "test"]))
        .unwrap();
    t.submit_update("lint", 0, tt_update(PolicyEngineStatuses::Complete)).unwrap();
    assert_eq!(t.overall, PolicyEngineStatuses::InProgress);
    t.submit_update("test", 0, tt_update(PolicyEngineStatuses::Complete)).unwrap();
    assert_eq!(t.overall, PolicyEngineStatuses::Complete);
}

#[test]
fn an_abandoned_evaluation_stops_aggregating() {
    let mut t = StatusTracker::new("eval-d".to_string(), tt_workflow(vec!["lint"])).unwrap();
    t.mark_abandoned();
    assert!(t.submit_update("lint", 0, tt_update(PolicyEngineStatuses::Complete)).is_ok());
    assert_eq!(t.overall, PolicyEngineStatuses::Submitted);
    assert!(t.into_completion().is_err());
}
