use policy_engine::submit_policy_engine_request;
use policy_engine::DocValue;
use policy_engine::JobStepStatusUpdate;
use policy_engine::PolicyEngineCompleteExitStatuses;
use policy_engine::PolicyEngineStatuses;
use policy_engine::PolicyEngineWorkflow;
use policy_engine::PolicyEngineWorkflowJob;
use policy_engine::PolicyEngineWorkflowJobStep;
use policy_engine::StatusTracker;
use policy_engine::ValidationErrorKind;

fn ct_text(s: &str) -> DocValue {
    DocValue::Text(s.to_string())
}

fn ct_map(entries: Vec<(&str, DocValue)>) -> DocValue {
    DocValue::Entries(entries.into_iter().map(|(k, v)| (k.to_string(), v)).collect())
}

fn ct_workflow(jobs: Vec<&str>) -> PolicyEngineWorkflow {
    PolicyEngineWorkflow {
        name: None,
        on: ct_text("push"),
        jobs: jobs
            .into_iter()
            .map(|id| {
                (
                    id.to_string(),
                    PolicyEngineWorkflowJob {
                        runs_on: Some(ct_text("ubuntu-latest")),
                        steps: vec![PolicyEngineWorkflowJobStep {
                            if_condition: None,
                            name: None,
                            uses: Some("actions/checkout@v4".to_string()),
                            shell: None,
                            with_inputs: vec![],
                            env: vec![],
                            run: None,
                        }],
                    },
                )
            })
            .collect(),
    }
}

fn ct_update(
    status: PolicyEngineStatuses,
    metadata: Vec<(&str, &str)>,
    outputs: Vec<(&str, DocValue)>,
) -> JobStepStatusUpdate {
    JobStepStatusUpdate {
        status,
        metadata: metadata.into_iter().map(|(k, v)| (k.to_string(), v.to_string())).collect(),
        outputs: outputs.into_iter().map(|(k, v)| (k.to_string(), v)).collect(),
    }
}

#[test]
fn completion_is_refused_before_a_terminal_status() {
    let t = StatusTracker::new("eval-1".to_string(), ct_workflow(vec!["lint"])).unwrap();
    let e = t.into_completion().unwrap_err();
    assert_eq!(e.kind, ValidationErrorKind::CustomError);
}

#[test]
fn outputs_merge_in_declared_order_whatever_the_arrival_order() {
    let upd_a = || {
        ct_update(
            PolicyEngineStatuses::Complete,
            vec![("host", "runner-1")],
            vec![("k", ct_text("from-a")), ("x", ct_text("only-a"))],
        )
    };
    let upd_b = || {
        ct_update(
            PolicyEngineStatuses::Complete,
            vec![("host", "runner-2")],
            vec![("k", ct_text("from-b"))],
        )
    };

    let mut t1 = StatusTracker::new("eval-1".to_string(), ct_workflow(vec!["a", "b"])).unwrap();
    t1.submit_update("a", 0, upd_a()).unwrap();
    t1.submit_update("b", 0, upd_b()).unwrap();
    let c1 = t1.into_completion().unwrap();

    let mut t2 = StatusTracker::new("eval-1".to_string(), ct_workflow(vec!["a", "b"])).unwrap();
    t2.submit_update("b", 0, upd_b()).unwrap();
    t2.submit_update("a", 0, upd_a()).unwrap();
    let c2 = t2.into_completion().unwrap();

    assert_eq!(c1, c2);
    // The later declared writer (job "b") wins the collision on "k", while
    // the key keeps its first position.
    assert_eq!(
        c1.outputs,
        vec![
            ("k".to_string(), ct_text("from-b")),
            ("x".to_string(), ct_text("only-a")),
        ]
    );
}

#[test]
fn annotations_keep_every_step_tagged() {
    let mut t = StatusTracker::new("eval-1".to_string(), ct_workflow(vec!["a", "b"])).unwrap();
    t.submit_update("b", 0, ct_update(PolicyEngineStatuses::Complete, vec![("n", "2")], vec![]))
        .unwrap();
    t.submit_update("a", 0, ct_update(PolicyEngineStatuses::Complete, vec![("n", "1")], vec![]))
        .unwrap();
    let c = t.into_completion().unwrap();
    assert_eq!(c.annotations.len(), 2);
    assert_eq!(c.annotations[0].job_id, "a");
    assert_eq!(c.annotations[0].step_index, 0);
    assert_eq!(c.annotations[0].metadata, vec![("n".to_string(), "1".to_string())]);
    assert_eq!(c.annotations[1].job_id, "b");
    assert_eq!(c.annotations[1].metadata, vec![("n".to_string(), "2".to_string())]);
}

#[test]
fn exit_status_reflects_the_terminal_state() {
    let mut ok = StatusTracker::new("eval-1".to_string(), ct_workflow(vec!["a"])).unwrap();
    ok.submit_update("a", 0, ct_update(PolicyEngineStatuses::Complete, vec![], vec![])).unwrap();
    assert_eq!(ok.into_completion().unwrap().exit_status, PolicyEngineCompleteExitStatuses::Success);

    let mut bad = StatusTracker::new("eval-2".to_string(), ct_workflow(vec!["a"])).unwrap();
    bad.submit_update("a", 0, ct_update(PolicyEngineStatuses::InputValidationError, vec![], vec![]))
        .unwrap();
    assert_eq!(
        bad.into_completion().unwrap().exit_status,
        PolicyEngineCompleteExitStatuses::Failure
    );
}

#[test]
fn submission_opens_a_tracker_under_a_fresh_uuid() {
    let doc = || {
        ct_map(vec![
            ("inputs", ct_map(vec![])),
            (
                "workflow",
                ct_map(vec![
                    ("on", ct_text("push")),
                    (
                        "jobs",
                        ct_map(vec![(
                            "lint",
                            ct_map(vec![
                                ("runs-on", ct_text("ubuntu-latest")),
                                (
                                    "steps",
                                    DocValue::Items(vec![ct_map(vec![(
                                        "uses",
                                        ct_text("actions/checkout@v4"),
                                    )])]),
                                ),
                            ]),
                        )]),
                    ),
                ]),
            ),
            ("context", ct_map(vec![])),
            ("stack", ct_map(vec![])),
        ])
    };
    let t1 = submit_policy_engine_request(doc()).unwrap();
    let t2 = submit_policy_engine_request(doc()).unwrap();
    assert_eq!(t1.overall, PolicyEngineStatuses::Submitted);
    assert_eq!(t1.id.len(), 36);
    assert_eq!(t1.id.matches('-').count(), 4);
    assert_ne!(t1.id, t2.id);
}

#[test]
fn submission_refuses_an_inadmissible_workflow() {
    let doc = ct_map(vec![
        ("inputs", ct_map(vec![])),
        (
            "workflow",
            ct_map(vec![
                ("on", ct_text("push")),
                ("jobs", ct_map(vec![("lint", ct_map(vec![]))])),
            ]),
        ),
        ("context", ct_map(vec![])),
        ("stack", ct_map(vec![])),
    ]);
    let e = submit_policy_engine_request(doc).unwrap_err();
    assert_eq!(e.kind, ValidationErrorKind::MissingField);
}
