//! The request model: parsing a structured document into a
//! [`PolicyEngineRequest`].
//!
//! Parsing is total and side-effect-free.  A required field that is absent
//! is reported as `MissingField` naming the field; a present field with the
//! wrong shape as `InvalidField` with the path of the offender.  Mappings
//! are read first-occurrence-first, and within a step, absent `with`, `env`
//! and `steps` parse as empty.

use vstd::prelude::*;

use crate::doc::{entries_of, find_entry, lookup_entries, take_field, DocValue};
use crate::error::{
    prefix_err, segs_view, ErrView, PathSegment, SegView, ValidationError, ValidationErrorKind,
};
use crate::workflow::{
    job_entries_view, opt_str_view, steps_view, string_pairs_view, JobView, PolicyEngineWorkflow,
    PolicyEngineWorkflowJob, PolicyEngineWorkflowJobStep, StepView, WorkflowView,
};

verus! {

/// One policy-evaluation submission: a workflow definition together with the
/// opaque inputs, context and invocation stack it is to be judged with.
#[derive(Debug)]
pub struct PolicyEngineRequest {
    pub inputs: Vec<(String, DocValue)>,
    pub workflow: PolicyEngineWorkflow,
    pub context: Vec<(String, DocValue)>,
    pub stack: Vec<(String, DocValue)>,
}

/// The mathematical form of a request.
pub ghost struct RequestView {
    pub inputs: Seq<(Seq<char>, DocValue)>,
    pub workflow: WorkflowView,
    pub context: Seq<(Seq<char>, DocValue)>,
    pub stack: Seq<(Seq<char>, DocValue)>,
}

/// The views of the entries of a mapping with opaque values.
pub open spec fn entry_pairs_view(s: Seq<(String, DocValue)>) -> Seq<(Seq<char>, DocValue)> {
    s.map_values(|p: (String, DocValue)| (p.0@, p.1))
}

impl View for PolicyEngineRequest {
    type V = RequestView;

    open spec fn view(&self) -> RequestView {
        RequestView {
            inputs: entry_pairs_view(self.inputs@),
            workflow: self.workflow@,
            context: entry_pairs_view(self.context@),
            stack: entry_pairs_view(self.stack@),
        }
    }
}

/// A shape rejection at the given path.
pub open spec fn invalid_at(path: Seq<SegView>) -> ErrView {
    ErrView { kind: ValidationErrorKind::InvalidField, path }
}

/// A missing required field at the given path.
pub open spec fn missing_at(path: Seq<SegView>) -> ErrView {
    ErrView { kind: ValidationErrorKind::MissingField, path }
}

/// What an optional text field of a mapping parses to: absent is fine, text
/// is taken, anything else is rejected at the field.
pub open spec fn spec_opt_text(es: Seq<(String, DocValue)>, key: Seq<char>) -> Result<
    Option<Seq<char>>,
    ErrView,
> {
    match lookup_entries(es, key) {
        None => Ok(None),
        Some(v) => match v {
            DocValue::Text(s) => Ok(Some(s@)),
            _ => Err(invalid_at(seq![SegView::Field(key)])),
        },
    }
}

/// What a string-to-string mapping parses to, read from entry `k` on: every
/// value must be text, and the first value of another shape is rejected
/// under its key.
pub open spec fn spec_parse_string_map(es: Seq<(String, DocValue)>, k: int) -> Result<
    Seq<(Seq<char>, Seq<char>)>,
    ErrView,
>
    decreases es.len() - k,
{
    if 0 <= k < es.len() {
        match es[k].1 {
            DocValue::Text(s) => match spec_parse_string_map(es, k + 1) {
                Ok(rest) => Ok(seq![(es[k].0@, s@)] + rest),
                Err(e) => Err(e),
            },
            _ => Err(invalid_at(seq![SegView::Field(es[k].0@)])),
        }
    } else {
        Ok(Seq::empty())
    }
}

/// What an optional string-to-string mapping field parses to: absent is the
/// empty mapping, a mapping is read entry by entry, anything else is
/// rejected at the field.
pub open spec fn spec_string_map_field(es: Seq<(String, DocValue)>, key: Seq<char>) -> Result<
    Seq<(Seq<char>, Seq<char>)>,
    ErrView,
> {
    match lookup_entries(es, key) {
        None => Ok(Seq::empty()),
        Some(m) => match m {
            DocValue::Entries(mes) => match spec_parse_string_map(mes@, 0) {
                Ok(s) => Ok(s),
                Err(e) => Err(prefix_err(e, SegView::Field(key))),
            },
            _ => Err(invalid_at(seq![SegView::Field(key)])),
        },
    }
}

/// What one step parses to.  Fields are checked in declared order: `if`,
/// `name`, `uses`, `shell`, `with`, `env`, `run`.  Error paths are relative
/// to the step.
pub open spec fn spec_parse_step(v: DocValue) -> Result<StepView, ErrView> {
    match v {
        DocValue::Entries(es) => match spec_opt_text(es@, "if"@) {
            Err(e) => Err(e),
            Ok(if_condition) => match spec_opt_text(es@, "name"@) {
                Err(e) => Err(e),
                Ok(name) => match spec_opt_text(es@, "uses"@) {
                    Err(e) => Err(e),
                    Ok(uses) => match spec_opt_text(es@, "shell"@) {
                        Err(e) => Err(e),
                        Ok(shell) => match spec_string_map_field(es@, "with"@) {
                            Err(e) => Err(e),
                            Ok(with_inputs) => match spec_string_map_field(es@, "env"@) {
                                Err(e) => Err(e),
                                Ok(env) => match spec_opt_text(es@, "run"@) {
                                    Err(e) => Err(e),
                                    Ok(run) => Ok(
                                        StepView {
                                            if_condition,
                                            name,
                                            uses,
                                            shell,
                                            with_inputs,
                                            env,
                                            run,
                                        },
                                    ),
                                },
                            },
                        },
                    },
                },
            },
        },
        _ => Err(invalid_at(Seq::empty())),
    }
}

/// What a sequence of steps parses to, read from item `k` on.  Error paths
/// are relative to the job: `["steps", k, ...]`.
pub open spec fn spec_parse_steps(items: Seq<DocValue>, k: int) -> Result<Seq<StepView>, ErrView>
    decreases items.len() - k,
{
    if 0 <= k < items.len() {
        match spec_parse_step(items[k]) {
            Err(e) => Err(prefix_err(prefix_err(e, SegView::Item(k)), SegView::Field("steps"@))),
            Ok(st) => match spec_parse_steps(items, k + 1) {
                Err(e) => Err(e),
                Ok(rest) => Ok(seq![st] + rest),
            },
        }
    } else {
        Ok(Seq::empty())
    }
}

/// What one job parses to.  `runs-on` is taken as an opaque value if present
/// (the validator decides whether it is owed and well shaped); an absent
/// `steps` sequence parses as empty.  Error paths are relative to the job.
pub open spec fn spec_parse_job(v: DocValue) -> Result<JobView, ErrView> {
    match v {
        DocValue::Entries(es) => {
            let runs_on = lookup_entries(es@, "runs-on"@);
            match lookup_entries(es@, "steps"@) {
                None => Ok(JobView { runs_on, steps: Seq::empty() }),
                Some(sv) => match sv {
                    DocValue::Items(items) => match spec_parse_steps(items@, 0) {
                        Err(e) => Err(e),
                        Ok(steps) => Ok(JobView { runs_on, steps }),
                    },
                    _ => Err(invalid_at(seq![SegView::Field("steps"@)])),
                },
            }
        },
        _ => Err(invalid_at(Seq::empty())),
    }
}

/// What the jobs mapping parses to, read from entry `i` on.  A job id seen
/// twice is rejected; each job's errors are reported under
/// `["jobs", id, ...]`.
pub open spec fn spec_parse_jobs(es: Seq<(String, DocValue)>, i: int) -> Result<
    Seq<(Seq<char>, JobView)>,
    ErrView,
>
    decreases es.len() - i,
{
    if 0 <= i < es.len() {
        let id = es[i].0;
        if exists|p: int| 0 <= p < i && (#[trigger] es[p]).0@ == id@ {
            Err(invalid_at(seq![SegView::Field("jobs"@), SegView::Field(id@)]))
        } else {
            match spec_parse_job(es[i].1) {
                Err(e) => Err(
                    prefix_err(prefix_err(e, SegView::Field(id@)), SegView::Field("jobs"@)),
                ),
                Ok(job) => match spec_parse_jobs(es, i + 1) {
                    Err(e) => Err(e),
                    Ok(rest) => Ok(seq![(id@, job)] + rest),
                },
            }
        }
    } else {
        Ok(Seq::empty())
    }
}

/// What a workflow document parses to.  `name` is optional text, `on` is a
/// required opaque trigger descriptor, `jobs` is a required mapping.  Error
/// paths are relative to the workflow.
pub open spec fn spec_parse_workflow(v: DocValue) -> Result<WorkflowView, ErrView> {
    match v {
        DocValue::Entries(es) => match spec_opt_text(es@, "name"@) {
            Err(e) => Err(e),
            Ok(name) => match lookup_entries(es@, "on"@) {
                None => Err(missing_at(seq![SegView::Field("on"@)])),
                Some(on) => match lookup_entries(es@, "jobs"@) {
                    None => Err(missing_at(seq![SegView::Field("jobs"@)])),
                    Some(j) => match j {
                        DocValue::Entries(jes) => match spec_parse_jobs(jes@, 0) {
                            Err(e) => Err(e),
                            Ok(jobs) => Ok(WorkflowView { name, on, jobs }),
                        },
                        _ => Err(invalid_at(seq![SegView::Field("jobs"@)])),
                    },
                },
            },
        },
        _ => Err(invalid_at(Seq::empty())),
    }
}

/// The value of a required mapping field, or the error owed for it.
pub open spec fn spec_mapping_field(es: Seq<(String, DocValue)>, key: Seq<char>) -> Result<
    Seq<(Seq<char>, DocValue)>,
    ErrView,
> {
    match lookup_entries(es, key) {
        None => Err(missing_at(seq![SegView::Field(key)])),
        Some(v) => match v {
            DocValue::Entries(m) => Ok(entry_pairs_view(m@)),
            _ => Err(invalid_at(seq![SegView::Field(key)])),
        },
    }
}

/// What a request document parses to.  The four required fields are checked
/// in the order `inputs`, `workflow`, `context`, `stack`; each must be a
/// mapping, and the workflow must parse.
pub open spec fn spec_parse_request(doc: DocValue) -> Result<RequestView, ErrView> {
    match doc {
        DocValue::Entries(es) => match spec_mapping_field(es@, "inputs"@) {
            Err(e) => Err(e),
            Ok(inputs) => match lookup_entries(es@, "workflow"@) {
                None => Err(missing_at(seq![SegView::Field("workflow"@)])),
                Some(w) => match spec_parse_workflow(w) {
                    Err(e) => Err(prefix_err(e, SegView::Field("workflow"@))),
                    Ok(workflow) => match spec_mapping_field(es@, "context"@) {
                        Err(e) => Err(e),
                        Ok(context) => match spec_mapping_field(es@, "stack"@) {
                            Err(e) => Err(e),
                            Ok(stack) => Ok(RequestView { inputs, workflow, context, stack }),
                        },
                    },
                },
            },
        },
        _ => Err(invalid_at(Seq::empty())),
    }
}

/// Builds a missing-field error whose view is `missing_at([key])`.
fn missing_err(key: &str, message: &str) -> (e: ValidationError)
    ensures
        e@ == missing_at(seq![SegView::Field(key@)]),
{
    let e = ValidationError {
        kind: ValidationErrorKind::MissingField,
        message: message.to_owned(),
        path: vec![PathSegment::Field(key.to_owned())],
    };
    proof {
        assert(segs_view(e.path@) =~= seq![SegView::Field(key@)]);
    }
    e
}

/// Builds an invalid-field error whose view is `invalid_at([key])`.
fn invalid_err(key: &str, message: &str) -> (e: ValidationError)
    ensures
        e@ == invalid_at(seq![SegView::Field(key@)]),
{
    let e = ValidationError {
        kind: ValidationErrorKind::InvalidField,
        message: message.to_owned(),
        path: vec![PathSegment::Field(key.to_owned())],
    };
    proof {
        assert(segs_view(e.path@) =~= seq![SegView::Field(key@)]);
    }
    e
}

/// Builds an invalid-shape error at the root of the value under parse.
fn invalid_root_err(message: &str) -> (e: ValidationError)
    ensures
        e@ == invalid_at(Seq::empty()),
{
    let e = ValidationError {
        kind: ValidationErrorKind::InvalidField,
        message: message.to_owned(),
        path: Vec::new(),
    };
    proof {
        assert(segs_view(e.path@) =~= Seq::<SegView>::empty());
    }
    e
}

/// Reads an optional text field of a mapping.
fn opt_text(es: &Vec<(String, DocValue)>, key: &str) -> (r: Result<Option<String>, ValidationError>)
    ensures
        spec_opt_text(es@, key@) matches Ok(o) ==> r matches Ok(ro) && opt_str_view(ro) == o,
        spec_opt_text(es@, key@) matches Err(e) ==> r matches Err(re) && re@ == e,
{
    match find_entry(es, key) {
        None => Ok(None),
        Some(i) => match &es[i].1 {
            DocValue::Text(s) => Ok(Some(s.clone())),
            _ => Err(invalid_err(key, "expected text.")),
        },
    }
}

/// Reads a string-to-string mapping entry by entry.
fn parse_string_map(m: &Vec<(String, DocValue)>) -> (r: Result<
    Vec<(String, String)>,
    ValidationError,
>)
    ensures
        spec_parse_string_map(m@, 0) matches Ok(s) ==> r matches Ok(out) && string_pairs_view(out@)
            == s,
        spec_parse_string_map(m@, 0) matches Err(e) ==> r matches Err(re) && re@ == e,
{
    let mut out: Vec<(String, String)> = Vec::new();
    proof {
        assert(string_pairs_view(out@) =~= Seq::<(Seq<char>, Seq<char>)>::empty());
    }
    let mut k: usize = 0;
    while k < m.len()
        invariant
            k <= m@.len(),
            out@.len() == k,
            match spec_parse_string_map(m@, k as int) {
                Ok(rest) => spec_parse_string_map(m@, 0) == Ok::<Seq<(Seq<char>, Seq<char>)>, ErrView>(string_pairs_view(out@) + rest),
                Err(e) => spec_parse_string_map(m@, 0) == Err::<
                    Seq<(Seq<char>, Seq<char>)>,
                    ErrView,
                >(e),
            },
        decreases m@.len() - k,
    {
        match &m[k].1 {
            DocValue::Text(s) => {
                let ghost old_out = out@;
                out.push((m[k].0.clone(), s.clone()));
                proof {
                    assert(string_pairs_view(out@) =~= string_pairs_view(old_out) + seq![
                        (m@[k as int].0@, s@),
                    ]);
                    match spec_parse_string_map(m@, k as int + 1) {
                        Ok(rest1) => {
                            assert(string_pairs_view(old_out) + (seq![(m@[k as int].0@, s@)]
                                + rest1) =~= string_pairs_view(out@) + rest1);
                        },
                        Err(e1) => {},
                    }
                }
            },
            _ => {
                let e = invalid_err_string(m[k].0.clone(), "expected text.");
                proof {
                    assert(spec_parse_string_map(m@, k as int) == Err::<
                        Seq<(Seq<char>, Seq<char>)>,
                        ErrView,
                    >(e@));
                }
                return Err(e);
            },
        }
        k += 1;
    }
    proof {
        assert(string_pairs_view(out@) + Seq::<(Seq<char>, Seq<char>)>::empty() =~= string_pairs_view(
            out@,
        ));
    }
    Ok(out)
}

/// Builds an invalid-field error under an owned key.
fn invalid_err_string(key: String, message: &str) -> (e: ValidationError)
    ensures
        e@ == invalid_at(seq![SegView::Field(key@)]),
{
    let e = ValidationError {
        kind: ValidationErrorKind::InvalidField,
        message: message.to_owned(),
        path: vec![PathSegment::Field(key)],
    };
    proof {
        assert(segs_view(e.path@) =~= seq![SegView::Field(key@)]);
    }
    e
}

/// Reads an optional string-to-string mapping field; absent means empty.
fn string_map_field(es: &Vec<(String, DocValue)>, key: &str) -> (r: Result<
    Vec<(String, String)>,
    ValidationError,
>)
    ensures
        spec_string_map_field(es@, key@) matches Ok(s) ==> r matches Ok(out)
            && string_pairs_view(out@) == s,
        spec_string_map_field(es@, key@) matches Err(e) ==> r matches Err(re) && re@ == e,
{
    match find_entry(es, key) {
        None => {
            let out: Vec<(String, String)> = Vec::new();
            proof {
                assert(string_pairs_view(out@) =~= Seq::<(Seq<char>, Seq<char>)>::empty());
            }
            Ok(out)
        },
        Some(i) => match &es[i].1 {
            DocValue::Entries(mes) => match parse_string_map(mes) {
                Ok(out) => Ok(out),
                Err(e) => Err(e.prefixed_field(key)),
            },
            _ => Err(invalid_err(key, "expected a mapping of text to text.")),
        },
    }
}

/// Parses one step of a job.
pub fn parse_step(v: DocValue) -> (r: Result<PolicyEngineWorkflowJobStep, ValidationError>)
    ensures
        spec_parse_step(v) matches Ok(sv) ==> r matches Ok(st) && st@ == sv,
        spec_parse_step(v) matches Err(e) ==> r matches Err(re) && re@ == e,
{
    match v {
        DocValue::Entries(es) => {
            let if_condition = match opt_text(&es, "if") {
                Ok(o) => o,
                Err(e) => return Err(e),
            };
            let name = match opt_text(&es, "name") {
                Ok(o) => o,
                Err(e) => return Err(e),
            };
            let uses = match opt_text(&es, "uses") {
                Ok(o) => o,
                Err(e) => return Err(e),
            };
            let shell = match opt_text(&es, "shell") {
                Ok(o) => o,
                Err(e) => return Err(e),
            };
            let with_inputs = match string_map_field(&es, "with") {
                Ok(m) => m,
                Err(e) => return Err(e),
            };
            let env = match string_map_field(&es, "env") {
                Ok(m) => m,
                Err(e) => return Err(e),
            };
            let run = match opt_text(&es, "run") {
                Ok(o) => o,
                Err(e) => return Err(e),
            };
            Ok(PolicyEngineWorkflowJobStep { if_condition, name, uses, shell, with_inputs, env, run })
        },
        _ => Err(invalid_root_err("a step must be a mapping.")),
    }
}

/// Parses the steps of a job, in order.
pub fn parse_steps(items: Vec<DocValue>) -> (r: Result<
    Vec<PolicyEngineWorkflowJobStep>,
    ValidationError,
>)
    ensures
        spec_parse_steps(items@, 0) matches Ok(s) ==> r matches Ok(out) && steps_view(out@) == s,
        spec_parse_steps(items@, 0) matches Err(e) ==> r matches Err(re) && re@ == e,
{
    let ghost iv = items@;
    let mut rest = items;
    let mut out: Vec<PolicyEngineWorkflowJobStep> = Vec::new();
    proof {
        assert(steps_view(out@) =~= Seq::<StepView>::empty());
    }
    let mut k: usize = 0;
    while rest.len() > 0
        invariant
            iv == items@,
            k as int + rest@.len() == iv.len(),
            rest@ == iv.skip(k as int),
            out@.len() == k,
            match spec_parse_steps(iv, k as int) {
                Ok(restv) => spec_parse_steps(iv, 0) == Ok::<Seq<StepView>, ErrView>(steps_view(out@) + restv),
                Err(e) => spec_parse_steps(iv, 0) == Err::<Seq<StepView>, ErrView>(e),
            },
        decreases rest@.len(),
    {
        let ghost old_rest = rest@;
        let item = rest.remove(0);
        proof {
            assert(old_rest[0] == iv[k as int]);
            assert(rest@ =~= iv.skip(k as int + 1));
        }
        match parse_step(item) {
            Err(e) => {
                let e2 = e.prefixed_item(k).prefixed_field("steps");
                proof {
                    assert(spec_parse_steps(iv, k as int) == Err::<Seq<StepView>, ErrView>(e2@));
                }
                return Err(e2);
            },
            Ok(st) => {
                let ghost old_out = out@;
                out.push(st);
                proof {
                    assert(steps_view(out@) =~= steps_view(old_out) + seq![st@]);
                    match spec_parse_steps(iv, k as int + 1) {
                        Ok(rest1) => {
                            assert(steps_view(old_out) + (seq![st@] + rest1) =~= steps_view(out@)
                                + rest1);
                        },
                        Err(e1) => {},
                    }
                }
            },
        }
        k = out.len();
    }
    proof {
        assert(steps_view(out@) + Seq::<StepView>::empty() =~= steps_view(out@));
    }
    Ok(out)
}

/// Parses one job.
pub fn parse_job(v: DocValue) -> (r: Result<PolicyEngineWorkflowJob, ValidationError>)
    ensures
        spec_parse_job(v) matches Ok(jv) ==> r matches Ok(j) && j@ == jv,
        spec_parse_job(v) matches Err(e) ==> r matches Err(re) && re@ == e,
{
    match v {
        DocValue::Entries(mut es) => {
            let ghost es0 = es@;
            let runs_on = take_field(&mut es, "runs-on");
            proof {
                reveal_strlit("runs-on");
                reveal_strlit("steps");
                assert("runs-on"@.len() == 7);
                assert("steps"@.len() == 5);
            }
            let steps_field = take_field(&mut es, "steps");
            proof {
                assert(steps_field == lookup_entries(es0, "steps"@));
            }
            match steps_field {
                None => {
                    let steps: Vec<PolicyEngineWorkflowJobStep> = Vec::new();
                    proof {
                        assert(steps_view(steps@) =~= Seq::<StepView>::empty());
                    }
                    Ok(PolicyEngineWorkflowJob { runs_on, steps })
                },
                Some(sv) => match sv {
                    DocValue::Items(step_items) => match parse_steps(step_items) {
                        Ok(steps) => Ok(PolicyEngineWorkflowJob { runs_on, steps }),
                        Err(e) => Err(e),
                    },
                    _ => Err(invalid_err("steps", "steps must be a sequence.")),
                },
            }
        },
        _ => Err(invalid_root_err("a job must be a mapping.")),
    }
}

/// Parses the jobs mapping, in declared order, refusing a duplicated job id.
pub fn parse_jobs(entries: Vec<(String, DocValue)>) -> (r: Result<
    Vec<(String, PolicyEngineWorkflowJob)>,
    ValidationError,
>)
    ensures
        spec_parse_jobs(entries@, 0) matches Ok(s) ==> r matches Ok(out) && job_entries_view(out@)
            == s,
        spec_parse_jobs(entries@, 0) matches Err(e) ==> r matches Err(re) && re@ == e,
{
    let ghost iv = entries@;
    let mut rest = entries;
    let mut out: Vec<(String, PolicyEngineWorkflowJob)> = Vec::new();
    proof {
        assert(job_entries_view(out@) =~= Seq::<(Seq<char>, JobView)>::empty());
    }
    let mut k: usize = 0;
    while rest.len() > 0
        invariant
            iv == entries@,
            k as int + rest@.len() == iv.len(),
            rest@ == iv.skip(k as int),
            out@.len() == k,
            forall|p: int| 0 <= p < k ==> (#[trigger] out@[p]).0@ == iv[p].0@,
            match spec_parse_jobs(iv, k as int) {
                Ok(restv) => spec_parse_jobs(iv, 0) == Ok::<Seq<(Seq<char>, JobView)>, ErrView>(job_entries_view(out@) + restv),
                Err(e) => spec_parse_jobs(iv, 0) == Err::<Seq<(Seq<char>, JobView)>, ErrView>(e),
            },
        decreases rest@.len(),
    {
        let ghost old_rest = rest@;
        let pair = rest.remove(0);
        proof {
            assert(old_rest[0] == iv[k as int]);
            assert(rest@ =~= iv.skip(k as int + 1));
        }
        let (id, job_doc) = pair;
        let mut p: usize = 0;
        while p < out.len()
            invariant
                iv == entries@,
                p <= out@.len(),
                out@.len() == k,
                (k as int) < iv.len(),
                rest@ == iv.skip(k as int + 1),
                id@ == iv[k as int].0@,
                job_doc == iv[k as int].1,
                forall|q: int| 0 <= q < k ==> (#[trigger] out@[q]).0@ == iv[q].0@,
                forall|q: int| 0 <= q < p ==> (#[trigger] out@[q]).0@ != id@,
                match spec_parse_jobs(iv, k as int) {
                    Ok(restv) => spec_parse_jobs(iv, 0) == Ok::<Seq<(Seq<char>, JobView)>, ErrView>(
                        job_entries_view(out@) + restv,
                    ),
                    Err(e) => spec_parse_jobs(iv, 0) == Err::<Seq<(Seq<char>, JobView)>, ErrView>(
                        e,
                    ),
                },
            decreases out@.len() - p,
        {
            if out[p].0.eq(&id) {
                let e = ValidationError {
                    kind: ValidationErrorKind::InvalidField,
                    message: "duplicate job id.".to_owned(),
                    path: vec![PathSegment::Field("jobs".to_owned()), PathSegment::Field(id)],
                };
                proof {
                    assert((#[trigger] iv[p as int]).0@ == iv[k as int].0@);
                    assert(segs_view(e.path@) =~= seq![
                        SegView::Field("jobs"@),
                        SegView::Field(iv[k as int].0@),
                    ]);
                    assert(spec_parse_jobs(iv, k as int) == Err::<
                        Seq<(Seq<char>, JobView)>,
                        ErrView,
                    >(e@));
                }
                return Err(e);
            }
            p += 1;
        }
        proof {
            assert forall|q: int| 0 <= q < k implies (#[trigger] iv[q]).0@ != iv[k as int].0@ by {
                assert(out@[q].0@ == iv[q].0@);
            }
            assert(!(exists|q: int| 0 <= q < k && (#[trigger] iv[q]).0@ == iv[k as int].0@));
        }
        match parse_job(job_doc) {
            Err(e) => {
                let e2 = e.prefixed_field(id.as_str()).prefixed_field("jobs");
                proof {
                    assert(spec_parse_jobs(iv, k as int) == Err::<
                        Seq<(Seq<char>, JobView)>,
                        ErrView,
                    >(e2@));
                }
                return Err(e2);
            },
            Ok(job) => {
                let ghost old_out = out@;
                out.push((id, job));
                proof {
                    assert(job_entries_view(out@) =~= job_entries_view(old_out) + seq![
                        (iv[k as int].0@, job@),
                    ]);
                    match spec_parse_jobs(iv, k as int + 1) {
                        Ok(rest1) => {
                            assert(job_entries_view(old_out) + (seq![(iv[k as int].0@, job@)]
                                + rest1) =~= job_entries_view(out@) + rest1);
                        },
                        Err(e1) => {},
                    }
                }
            },
        }
        k = out.len();
    }
    proof {
        assert(job_entries_view(out@) + Seq::<(Seq<char>, JobView)>::empty() =~= job_entries_view(
            out@,
        ));
    }
    Ok(out)
}

/// Parses a workflow document.
pub fn parse_workflow(v: DocValue) -> (r: Result<PolicyEngineWorkflow, ValidationError>)
    ensures
        spec_parse_workflow(v) matches Ok(wv) ==> r matches Ok(w) && w@ == wv,
        spec_parse_workflow(v) matches Err(e) ==> r matches Err(re) && re@ == e,
{
    match v {
        DocValue::Entries(mut es) => {
            let ghost es0 = es@;
            let name = match opt_text(&es, "name") {
                Ok(o) => o,
                Err(e) => return Err(e),
            };
            proof {
                reveal_strlit("on");
                reveal_strlit("jobs");
                assert("on"@.len() == 2);
                assert("jobs"@.len() == 4);
            }
            let on = match take_field(&mut es, "on") {
                None => return Err(missing_err("on", "a trigger descriptor is required.")),
                Some(o) => o,
            };
            let jobs_field = take_field(&mut es, "jobs");
            proof {
                assert(jobs_field == lookup_entries(es0, "jobs"@));
            }
            match jobs_field {
                None => Err(missing_err("jobs", "a jobs mapping is required.")),
                Some(j) => match j {
                    DocValue::Entries(jes) => match parse_jobs(jes) {
                        Ok(jobs) => Ok(PolicyEngineWorkflow { name, on, jobs }),
                        Err(e) => Err(e),
                    },
                    _ => Err(invalid_err("jobs", "jobs must be a mapping.")),
                },
            }
        },
        _ => Err(invalid_root_err("a workflow must be a mapping.")),
    }
}

/// Parses a request document into a [`PolicyEngineRequest`].
///
/// The four required fields are checked in the order `inputs`, `workflow`,
/// `context`, `stack`.  Parsing never mutates caller-visible state: the
/// document is consumed and either a request or an error comes back.
pub fn parse_policy_engine_request(doc: DocValue) -> (r: Result<
    PolicyEngineRequest,
    ValidationError,
>)
    ensures
        spec_parse_request(doc) matches Ok(rv) ==> r matches Ok(req) && req@ == rv,
        spec_parse_request(doc) matches Err(e) ==> r matches Err(re) && re@ == e,
{
    match doc {
        DocValue::Entries(mut es) => {
            let ghost es0 = es@;
            proof {
                reveal_strlit("inputs");
                reveal_strlit("workflow");
                reveal_strlit("context");
                reveal_strlit("stack");
                assert("inputs"@.len() == 6);
                assert("workflow"@.len() == 8);
                assert("context"@.len() == 7);
                assert("stack"@.len() == 5);
            }
            let inputs_field = take_field(&mut es, "inputs");
            let workflow_field = take_field(&mut es, "workflow");
            let context_field = take_field(&mut es, "context");
            let stack_field = take_field(&mut es, "stack");
            proof {
                assert(workflow_field == lookup_entries(es0, "workflow"@));
                assert(context_field == lookup_entries(es0, "context"@));
                assert(stack_field == lookup_entries(es0, "stack"@));
            }
            let inputs = match inputs_field {
                None => return Err(missing_err("inputs", "inputs is required.")),
                Some(v) => match v {
                    DocValue::Entries(m) => m,
                    _ => return Err(invalid_err("inputs", "inputs must be a mapping.")),
                },
            };
            let workflow = match workflow_field {
                None => return Err(missing_err("workflow", "workflow is required.")),
                Some(w) => match parse_workflow(w) {
                    Ok(wf) => wf,
                    Err(e) => return Err(e.prefixed_field("workflow")),
                },
            };
            let context = match context_field {
                None => return Err(missing_err("context", "context is required.")),
                Some(v) => match v {
                    DocValue::Entries(m) => m,
                    _ => return Err(invalid_err("context", "context must be a mapping.")),
                },
            };
            let stack = match stack_field {
                None => return Err(missing_err("stack", "stack is required.")),
                Some(v) => match v {
                    DocValue::Entries(m) => m,
                    _ => return Err(invalid_err("stack", "stack must be a mapping.")),
                },
            };
            Ok(PolicyEngineRequest { inputs, workflow, context, stack })
        },
        _ => Err(invalid_root_err("a request must be a mapping.")),
    }
}

/// Law: a request document that lacks one of the required fields `inputs`,
/// `workflow`, `context` or `stack` parses to a `MissingField` error naming
/// the first absent one, in that order.
pub proof fn lemma_missing_required_field(doc: DocValue)
    requires
        doc is Entries,
    ensures
        lookup_entries(entries_of(doc), "inputs"@) is None ==> spec_parse_request(doc) == Err::<
            RequestView,
            ErrView,
        >(missing_at(seq![SegView::Field("inputs"@)])),
        lookup_entries(entries_of(doc), "inputs"@) matches Some(v) && v is Entries
            && lookup_entries(entries_of(doc), "workflow"@) is None ==> spec_parse_request(doc)
            == Err::<RequestView, ErrView>(missing_at(seq![SegView::Field("workflow"@)])),
        spec_mapping_field(entries_of(doc), "inputs"@) is Ok && (lookup_entries(
            entries_of(doc),
            "workflow"@,
        ) matches Some(w) && spec_parse_workflow(w) is Ok) && lookup_entries(
            entries_of(doc),
            "context"@,
        ) is None ==> spec_parse_request(doc) == Err::<RequestView, ErrView>(
            missing_at(seq![SegView::Field("context"@)]),
        ),
        spec_mapping_field(entries_of(doc), "inputs"@) is Ok && (lookup_entries(
            entries_of(doc),
            "workflow"@,
        ) matches Some(w) && spec_parse_workflow(w) is Ok) && spec_mapping_field(
            entries_of(doc),
            "context"@,
        ) is Ok && lookup_entries(entries_of(doc), "stack"@) is None ==> spec_parse_request(doc)
            == Err::<RequestView, ErrView>(missing_at(seq![SegView::Field("stack"@)])),
        spec_parse_request(doc) matches Ok(req) ==> {
            &&& lookup_entries(entries_of(doc), "inputs"@) is Some
            &&& lookup_entries(entries_of(doc), "workflow"@) is Some
            &&& lookup_entries(entries_of(doc), "context"@) is Some
            &&& lookup_entries(entries_of(doc), "stack"@) is Some
        },
{
}

} // verus!
