use policy_engine::parse_policy_engine_request;
use policy_engine::DocValue;
use policy_engine::PathSegment;
use policy_engine::ValidationErrorKind;

fn pt_text(s: &str) -> DocValue {
    DocValue::Text(s.to_string())
}

fn pt_map(entries: Vec<(&str, DocValue)>) -> DocValue {
    DocValue::Entries(entries.into_iter().map(|(k, v)| (k.to_string(), v)).collect())
}

fn pt_field(name: &str) -> PathSegment {
    PathSegment::Field(name.to_string())
}

fn pt_workflow_doc() -> DocValue {
    pt_map(vec![
        ("on", pt_text("push")),
        (
            "jobs",
            pt_map(vec![(
                "lint",
                pt_map(vec![
                    ("runs-on", pt_text("ubuntu-latest")),
                    (
                        "steps",
                        DocValue::Items(vec![pt_map(vec![(
                            "uses",
                            pt_text("actions/checkout@v4"),
                        )])]),
                    ),
                ]),
            )]),
        ),
    ])
}

fn pt_request_doc() -> Vec<(String, DocValue)> {
    vec![
        ("inputs".to_string(), pt_map(vec![])),
        ("workflow".to_string(), pt_workflow_doc()),
        ("context".to_string(), pt_map(vec![("actor", pt_text("aliceoa"))])),
        ("stack".to_string(), pt_map(vec![])),
    ]
}

#[test]
fn parse_accepts_a_full_request() {
    let req = parse_policy_engine_request(DocValue::Entries(pt_request_doc())).unwrap();
    assert_eq!(req.workflow.jobs.len(), 1);
    assert_eq!(req.workflow.jobs[0].0, "lint");
    let job = &req.workflow.jobs[0].1;
    assert_eq!(job.runs_on, Some(pt_text("ubuntu-latest")));
    assert_eq!(job.steps.len(), 1);
    assert_eq!(job.steps[0].uses, Some("actions/checkout@v4".to_string()));
    assert_eq!(job.steps[0].run, None);
    assert_eq!(req.context.len(), 1);
    assert_eq!(req.inputs.len(), 0);
}

#[test]
fn parse_rejects_missing_inputs() {
    let doc = DocValue::Entries(pt_request_doc().into_iter().filter(|p| p.0 != "inputs").collect());
    let e = parse_policy_engine_request(doc).unwrap_err();
    assert_eq!(e.kind, ValidationErrorKind::MissingField);
    assert_eq!(e.path, vec![pt_field("inputs")]);
}

#[test]
fn parse_rejects_missing_workflow() {
    let doc =
        DocValue::Entries(pt_request_doc().into_iter().filter(|p| p.0 != "workflow").collect());
    let e = parse_policy_engine_request(doc).unwrap_err();
    assert_eq!(e.kind, ValidationErrorKind::MissingField);
    assert_eq!(e.path, vec![pt_field("workflow")]);
}

#[test]
fn parse_rejects_missing_context() {
    let doc =
        DocValue::Entries(pt_request_doc().into_iter().filter(|p| p.0 != "context").collect());
    let e = parse_policy_engine_request(doc).unwrap_err();
    assert_eq!(e.kind, ValidationErrorKind::MissingField);
    assert_eq!(e.path, vec![pt_field("context")]);
}

#[test]
fn parse_rejects_missing_stack() {
    let doc = DocValue::Entries(pt_request_doc().into_iter().filter(|p| p.0 != "stack").collect());
    let e = parse_policy_engine_request(doc).unwrap_err();
    assert_eq!(e.kind, ValidationErrorKind::MissingField);
    assert_eq!(e.path, vec![pt_field("stack")]);
}

#[test]
fn parse_rejects_non_mapping_inputs() {
    let mut entries = pt_request_doc();
    entries[0].1 = pt_text("nope");
    let e = parse_policy_engine_request(DocValue::Entries(entries)).unwrap_err();
    assert_eq!(e.kind, ValidationErrorKind::InvalidField);
    assert_eq!(e.path, vec![pt_field("inputs")]);
}

#[test]
fn parse_rejects_non_mapping_request() {
    let e = parse_policy_engine_request(pt_text("nope")).unwrap_err();
    assert_eq!(e.kind, ValidationErrorKind::InvalidField);
    assert_eq!(e.path, vec![]);
}

#[test]
fn parse_rejects_non_mapping_jobs() {
    let mut entries = pt_request_doc();
    entries[1].1 = pt_map(vec![("on", pt_text("push")), ("jobs", pt_text("nope"))]);
    let e = parse_policy_engine_request(DocValue::Entries(entries)).unwrap_err();
    assert_eq!(e.kind, ValidationErrorKind::InvalidField);
    assert_eq!(e.path, vec![pt_field("workflow"), pt_field("jobs")]);
}

#[test]
fn parse_rejects_workflow_without_trigger() {
    let mut entries = pt_request_doc();
    entries[1].1 = pt_map(vec![("jobs", pt_map(vec![]))]);
    let e = parse_policy_engine_request(DocValue::Entries(entries)).unwrap_err();
    assert_eq!(e.kind, ValidationErrorKind::MissingField);
    assert_eq!(e.path, vec![pt_field("workflow"), pt_field("on")]);
}

#[test]
fn parse_rejects_duplicate_job_ids() {
    let jobs = DocValue::Entries(vec![
        ("lint".to_string(), pt_map(vec![("runs-on", pt_text("a"))])),
        ("lint".to_string(), pt_map(vec![("runs-on", pt_text("b"))])),
    ]);
    let mut entries = pt_request_doc();
    entries[1].1 = pt_map(vec![("on", pt_text("push")), ("jobs", jobs)]);
    let e = parse_policy_engine_request(DocValue::Entries(entries)).unwrap_err();
    assert_eq!(e.kind, ValidationErrorKind::InvalidField);
    assert_eq!(e.path, vec![pt_field("workflow"), pt_field("jobs"), pt_field("lint")]);
}

#[test]
fn parse_rejects_non_text_step_field() {
    let step = pt_map(vec![("uses", DocValue::Integer(3))]);
    let mut entries = pt_request_doc();
    entries[1].1 = pt_map(vec![
        ("on", pt_text("push")),
        (
            "jobs",
            pt_map(vec![(
                "lint",
                pt_map(vec![
                    ("runs-on", pt_text("x")),
                    ("steps", DocValue::Items(vec![step])),
                ]),
            )]),
        ),
    ]);
    let e = parse_policy_engine_request(DocValue::Entries(entries)).unwrap_err();
    assert_eq!(e.kind, ValidationErrorKind::InvalidField);
    assert_eq!(
        e.path,
        vec![
            pt_field("workflow"),
            pt_field("jobs"),
            pt_field("lint"),
            pt_field("steps"),
            PathSegment::Item(0),
            pt_field("uses"),
        ]
    );
}

#[test]
fn parse_reads_with_and_env_mappings() {
    let step = pt_map(vec![
        ("uses", pt_text("actions/checkout@v4")),
        ("with", pt_map(vec![("ref", pt_text("main"))])),
        ("env", pt_map(vec![("CI", pt_text("true"))])),
    ]);
    let mut entries = pt_request_doc();
    entries[1].1 = pt_map(vec![
        ("on", pt_text("push")),
        (
            "jobs",
            pt_map(vec![(
                "lint",
                pt_map(vec![
                    ("runs-on", pt_text("x")),
                    ("steps", DocValue::Items(vec![step])),
                ]),
            )]),
        ),
    ]);
    let req = parse_policy_engine_request(DocValue::Entries(entries)).unwrap();
    let step = &req.workflow.jobs[0].1.steps[0];
    assert_eq!(step.with_inputs, vec![("ref".to_string(), "main".to_string())]);
    assert_eq!(step.env, vec![("CI".to_string(), "true".to_string())]);
}

#[test]
fn parse_takes_first_occurrence_of_a_field() {
    let mut entries = pt_request_doc();
    entries.push(("inputs".to_string(), pt_text("shadowed")));
    let req = parse_policy_engine_request(DocValue::Entries(entries)).unwrap();
    assert_eq!(req.inputs.len(), 0);
}
