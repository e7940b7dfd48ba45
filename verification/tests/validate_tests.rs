use policy_engine::DocValue;
use policy_engine::PathSegment;
use policy_engine::PolicyEngineWorkflow;
use policy_engine::PolicyEngineWorkflowJob;
use policy_engine::PolicyEngineWorkflowJobStep;
use policy_engine::ValidationErrorKind;
use policy_engine::ValidationOptions;

fn vt_step(uses: Option<&str>, run: Option<&str>) -> PolicyEngineWorkflowJobStep {
    PolicyEngineWorkflowJobStep {
        if_condition: None,
        name: None,
        uses: uses.map(|s| s.to_string()),
        shell: None,
        with_inputs: vec![],
        env: vec![],
        run: run.map(|s| s.to_string()),
    }
}

fn vt_job(runs_on: Option<DocValue>, steps: Vec<PolicyEngineWorkflowJobStep>) -> PolicyEngineWorkflowJob {
    PolicyEngineWorkflowJob { runs_on, steps }
}

fn vt_workflow(jobs: Vec<(&str, PolicyEngineWorkflowJob)>) -> PolicyEngineWorkflow {
    PolicyEngineWorkflow {
        name: None,
        on: DocValue::Text("push".to_string()),
        jobs: jobs.into_iter().map(|(k, v)| (k.to_string(), v)).collect(),
    }
}

fn vt_label(s: &str) -> Option<DocValue> {
    Some(DocValue::Text(s.to_string()))
}

#[test]
fn validate_accepts_a_clean_workflow() {
    let wf = vt_workflow(vec![(
        "lint",
        vt_job(vt_label("ubuntu-latest"), vec![vt_step(Some("actions/checkout@v4"), None)]),
    )]);
    assert!(wf.validate().is_ok());
}

#[test]
fn validate_rejects_a_step_with_uses_and_run() {
    let wf = vt_workflow(vec![(
        "lint",
        vt_job(vt_label("ubuntu-latest"), vec![vt_step(Some("actions/checkout@v4"), Some("make"))]),
    )]);
    let e = wf.validate().unwrap_err();
    assert_eq!(e.kind, ValidationErrorKind::InvalidField);
    assert_eq!(
        e.path,
        vec![
            PathSegment::Field("jobs".to_string()),
            PathSegment::Field("lint".to_string()),
            PathSegment::Field("steps".to_string()),
            PathSegment::Item(0),
        ]
    );
}

#[test]
fn validate_rejects_an_inert_step_by_default() {
    let wf = vt_workflow(vec![("lint", vt_job(vt_label("x"), vec![vt_step(None, None)]))]);
    let e = wf.validate().unwrap_err();
    assert_eq!(e.kind, ValidationErrorKind::CustomError);
}

#[test]
fn validate_tolerates_an_inert_step_when_allowed() {
    let wf = vt_workflow(vec![("lint", vt_job(vt_label("x"), vec![vt_step(None, None)]))]);
    let opts = ValidationOptions { strict_jobs: false, allow_inert_steps: true };
    assert!(wf.validate_with(opts).is_ok());
}

#[test]
fn validate_permits_an_empty_job_set_by_default() {
    let wf = vt_workflow(vec![]);
    assert!(wf.validate().is_ok());
}

#[test]
fn validate_flags_an_empty_job_set_in_strict_mode() {
    let wf = vt_workflow(vec![]);
    let opts = ValidationOptions { strict_jobs: true, allow_inert_steps: false };
    let e = wf.validate_with(opts).unwrap_err();
    assert_eq!(e.kind, ValidationErrorKind::CustomError);
    assert_eq!(e.path, vec![PathSegment::Field("jobs".to_string())]);
}

#[test]
fn validate_requires_runs_on() {
    let wf = vt_workflow(vec![("lint", vt_job(None, vec![vt_step(Some("a"), None)]))]);
    let e = wf.validate().unwrap_err();
    assert_eq!(e.kind, ValidationErrorKind::MissingField);
    assert_eq!(
        e.path,
        vec![
            PathSegment::Field("jobs".to_string()),
            PathSegment::Field("lint".to_string()),
            PathSegment::Field("runs-on".to_string()),
        ]
    );
}

#[test]
fn validate_accepts_a_label_sequence_for_runs_on() {
    let labels = DocValue::Items(vec![
        DocValue::Text("self-hosted".to_string()),
        DocValue::Text("linux".to_string()),
    ]);
    let wf = vt_workflow(vec![("lint", vt_job(Some(labels), vec![vt_step(Some("a"), None)]))]);
    assert!(wf.validate().is_ok());
}

#[test]
fn validate_rejects_a_malformed_runs_on() {
    let wf = vt_workflow(vec![(
        "lint",
        vt_job(Some(DocValue::Integer(5)), vec![vt_step(Some("a"), None)]),
    )]);
    let e = wf.validate().unwrap_err();
    assert_eq!(e.kind, ValidationErrorKind::InvalidField);
    assert_eq!(
        e.path,
        vec![
            PathSegment::Field("jobs".to_string()),
            PathSegment::Field("lint".to_string()),
            PathSegment::Field("runs-on".to_string()),
        ]
    );
}

#[test]
fn validate_rejects_a_duplicate_job_id() {
    let wf = vt_workflow(vec![
        ("lint", vt_job(vt_label("x"), vec![])),
        ("lint", vt_job(vt_label("y"), vec![])),
    ]);
    let e = wf.validate().unwrap_err();
    assert_eq!(e.kind, ValidationErrorKind::InvalidField);
}

#[test]
fn validate_rejects_an_empty_job_id() {
    let wf = vt_workflow(vec![("", vt_job(vt_label("x"), vec![]))]);
    let e = wf.validate().unwrap_err();
    assert_eq!(e.kind, ValidationErrorKind::InvalidField);
    assert_eq!(e.path, vec![PathSegment::Field("jobs".to_string())]);
}

#[test]
fn validate_reports_the_first_violation_in_declared_order() {
    let wf = vt_workflow(vec![
        ("a", vt_job(None, vec![])),
        ("b", vt_job(vt_label("x"), vec![vt_step(Some("u"), Some("r"))])),
    ]);
    let e = wf.validate().unwrap_err();
    assert_eq!(e.kind, ValidationErrorKind::MissingField);
    assert_eq!(
        e.path,
        vec![
            PathSegment::Field("jobs".to_string()),
            PathSegment::Field("a".to_string()),
            PathSegment::Field("runs-on".to_string()),
        ]
    );
}
