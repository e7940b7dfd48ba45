//! The workflow data model and its validator.
//!
//! A workflow is a CI-style job graph: a mapping from job id to job, each job
//! an ordered sequence of steps.  The validator decides whether a workflow is
//! admissible for evaluation; it inspects nothing beyond the structural rules
//! stated here and never mutates its input.

use vstd::prelude::*;

use crate::doc::DocValue;
use crate::error::{segs_view, ErrView, PathSegment, SegView, ValidationError, ValidationErrorKind};

verus! {

/// One step of a job.  A step acts either through an action reference
/// (`uses`) or an inline script (`run`); setting both is ambiguous and
/// rejected by validation.  Absent `with`/`env` mappings parse as empty.
#[derive(Debug)]
pub struct PolicyEngineWorkflowJobStep {
    pub if_condition: Option<String>,
    pub name: Option<String>,
    pub uses: Option<String>,
    pub shell: Option<String>,
    pub with_inputs: Vec<(String, String)>,
    pub env: Vec<(String, String)>,
    pub run: Option<String>,
}

/// One job of the graph.  `runs_on` stays an opaque structured value — a
/// single label or a sequence of labels — resolved against a runner pool
/// only by an external collaborator.  An absent `steps` sequence parses as
/// empty.
#[derive(Debug)]
pub struct PolicyEngineWorkflowJob {
    pub runs_on: Option<DocValue>,
    pub steps: Vec<PolicyEngineWorkflowJobStep>,
}

/// The workflow under evaluation.  Jobs keep their declared order, which
/// also fixes the order of result aggregation.
#[derive(Debug)]
pub struct PolicyEngineWorkflow {
    pub name: Option<String>,
    pub on: DocValue,
    pub jobs: Vec<(String, PolicyEngineWorkflowJob)>,
}

/// The mathematical form of a step.
pub ghost struct StepView {
    pub if_condition: Option<Seq<char>>,
    pub name: Option<Seq<char>>,
    pub uses: Option<Seq<char>>,
    pub shell: Option<Seq<char>>,
    pub with_inputs: Seq<(Seq<char>, Seq<char>)>,
    pub env: Seq<(Seq<char>, Seq<char>)>,
    pub run: Option<Seq<char>>,
}

/// The mathematical form of a job.
pub ghost struct JobView {
    pub runs_on: Option<DocValue>,
    pub steps: Seq<StepView>,
}

/// The mathematical form of a workflow.
pub ghost struct WorkflowView {
    pub name: Option<Seq<char>>,
    pub on: DocValue,
    pub jobs: Seq<(Seq<char>, JobView)>,
}

/// The view of an optional string.
pub open spec fn opt_str_view(o: Option<String>) -> Option<Seq<char>> {
    match o {
        Some(s) => Some(s@),
        None => None,
    }
}

/// The views of the entries of a string-to-string mapping.
pub open spec fn string_pairs_view(s: Seq<(String, String)>) -> Seq<(Seq<char>, Seq<char>)> {
    s.map_values(|p: (String, String)| (p.0@, p.1@))
}

/// The views of a sequence of steps.
pub open spec fn steps_view(s: Seq<PolicyEngineWorkflowJobStep>) -> Seq<StepView> {
    s.map_values(|st: PolicyEngineWorkflowJobStep| st@)
}

/// The views of the entries of a job mapping.
pub open spec fn job_entries_view(s: Seq<(String, PolicyEngineWorkflowJob)>) -> Seq<
    (Seq<char>, JobView),
> {
    s.map_values(|p: (String, PolicyEngineWorkflowJob)| (p.0@, p.1@))
}

impl View for PolicyEngineWorkflowJobStep {
    type V = StepView;

    open spec fn view(&self) -> StepView {
        StepView {
            if_condition: opt_str_view(self.if_condition),
            name: opt_str_view(self.name),
            uses: opt_str_view(self.uses),
            shell: opt_str_view(self.shell),
            with_inputs: string_pairs_view(self.with_inputs@),
            env: string_pairs_view(self.env@),
            run: opt_str_view(self.run),
        }
    }
}

impl View for PolicyEngineWorkflowJob {
    type V = JobView;

    open spec fn view(&self) -> JobView {
        JobView {
            runs_on: self.runs_on,
            steps: steps_view(self.steps@),
        }
    }
}

impl View for PolicyEngineWorkflow {
    type V = WorkflowView;

    open spec fn view(&self) -> WorkflowView {
        WorkflowView {
            name: opt_str_view(self.name),
            on: self.on,
            jobs: job_entries_view(self.jobs@),
        }
    }
}

/// Switches of the validator.  `strict_jobs` turns an empty job set into a
/// rejection; `allow_inert_steps` tolerates a step with neither `uses` nor
/// `run`, which is otherwise rejected as not executable.
#[derive(Clone, Copy, Debug, PartialEq, Eq, Structural)]
pub struct ValidationOptions {
    pub strict_jobs: bool,
    pub allow_inert_steps: bool,
}

/// The default validator switches: an empty job set is permitted, an inert
/// step is rejected.
pub open spec fn default_options() -> ValidationOptions {
    ValidationOptions { strict_jobs: false, allow_inert_steps: false }
}

impl Default for ValidationOptions {
    fn default() -> (r: ValidationOptions)
        ensures
            r == default_options(),
    {
        ValidationOptions { strict_jobs: false, allow_inert_steps: false }
    }
}

/// An admissible `runs-on` descriptor: a single text label or a sequence of
/// text labels.
pub open spec fn runs_on_admissible(v: DocValue) -> bool {
    match v {
        DocValue::Text(_) => true,
        DocValue::Items(items) => forall|i: int| 0 <= i < items@.len() ==> items@[i] is Text,
        _ => false,
    }
}

/// A step that names both an action reference and an inline script.
pub open spec fn step_sets_both(s: StepView) -> bool {
    s.uses is Some && s.run is Some
}

/// A step that names neither an action reference nor an inline script.
pub open spec fn step_is_inert(s: StepView) -> bool {
    s.uses is None && s.run is None
}

/// A step the validator accepts.
pub open spec fn step_admissible(s: StepView, allow_inert: bool) -> bool {
    !step_sets_both(s) && (allow_inert || !step_is_inert(s))
}

/// A job the validator accepts: a non-empty id, a present and admissible
/// `runs-on`, and admissible steps throughout.
pub open spec fn job_admissible(id: Seq<char>, j: JobView, allow_inert: bool) -> bool {
    &&& id.len() > 0
    &&& match j.runs_on {
        Some(r) => runs_on_admissible(r),
        None => false,
    }
    &&& forall|i: int| 0 <= i < j.steps.len() ==> step_admissible(#[trigger] j.steps[i], allow_inert)
}

/// No two jobs share an id.
pub open spec fn unique_job_ids(jobs: Seq<(Seq<char>, JobView)>) -> bool {
    forall|i: int, j: int| 0 <= i < j < jobs.len() ==> jobs[i].0 != jobs[j].0
}

/// A workflow the validator accepts under the given switches.
pub open spec fn workflow_admissible(w: WorkflowView, opts: ValidationOptions) -> bool {
    &&& (w.jobs.len() > 0 || !opts.strict_jobs)
    &&& unique_job_ids(w.jobs)
    &&& forall|i: int|
        0 <= i < w.jobs.len() ==> job_admissible(
            (#[trigger] w.jobs[i]).0,
            w.jobs[i].1,
            opts.allow_inert_steps,
        )
}

/// The kind and position of the first violation among the steps of one job,
/// searched from index `k`.
pub open spec fn first_step_error(steps: Seq<StepView>, k: int, allow_inert: bool) -> Option<
    (ValidationErrorKind, int),
>
    decreases steps.len() - k,
{
    if 0 <= k < steps.len() {
        if step_sets_both(steps[k]) {
            Some((ValidationErrorKind::InvalidField, k))
        } else if !allow_inert && step_is_inert(steps[k]) {
            Some((ValidationErrorKind::CustomError, k))
        } else {
            first_step_error(steps, k + 1, allow_inert)
        }
    } else {
        None
    }
}

/// The path prefix of every error inside the job named `job_id`.
pub open spec fn job_path(job_id: Seq<char>) -> Seq<SegView> {
    seq![SegView::Field("jobs"@), SegView::Field(job_id)]
}

/// The violation, if any, that job `i` contributes: a duplicated id, an
/// empty id, a missing or inadmissible `runs-on`, or its first bad step.
pub open spec fn job_error_at(
    jobs: Seq<(Seq<char>, JobView)>,
    i: int,
    allow_inert: bool,
) -> Option<ErrView>
    recommends
        0 <= i < jobs.len(),
{
    let id = jobs[i].0;
    let j = jobs[i].1;
    if exists|p: int| 0 <= p < i && (#[trigger] jobs[p]).0 == id {
        Some(ErrView { kind: ValidationErrorKind::InvalidField, path: job_path(id) })
    } else if id.len() == 0 {
        Some(ErrView { kind: ValidationErrorKind::InvalidField, path: seq![SegView::Field("jobs"@)] })
    } else {
        match j.runs_on {
            None => Some(
                ErrView {
                    kind: ValidationErrorKind::MissingField,
                    path: job_path(id) + seq![SegView::Field("runs-on"@)],
                },
            ),
            Some(r) => if !runs_on_admissible(r) {
                Some(
                    ErrView {
                        kind: ValidationErrorKind::InvalidField,
                        path: job_path(id) + seq![SegView::Field("runs-on"@)],
                    },
                )
            } else {
                match first_step_error(j.steps, 0, allow_inert) {
                    Some((kind, k)) => Some(
                        ErrView {
                            kind,
                            path: job_path(id) + seq![
                                SegView::Field("steps"@),
                                SegView::Item(k),
                            ],
                        },
                    ),
                    None => None,
                }
            },
        }
    }
}

/// The first violation among the jobs, searched from index `i`.
pub open spec fn first_job_error(
    jobs: Seq<(Seq<char>, JobView)>,
    i: int,
    allow_inert: bool,
) -> Option<ErrView>
    decreases jobs.len() - i,
{
    if 0 <= i < jobs.len() {
        match job_error_at(jobs, i, allow_inert) {
            Some(e) => Some(e),
            None => first_job_error(jobs, i + 1, allow_inert),
        }
    } else {
        None
    }
}

/// The error the validator reports for `w`, if any: the strict empty-job-set
/// rejection, else the first violation in declared job order.
pub open spec fn workflow_error(w: WorkflowView, opts: ValidationOptions) -> Option<ErrView> {
    if opts.strict_jobs && w.jobs.len() == 0 {
        Some(ErrView { kind: ValidationErrorKind::CustomError, path: seq![SegView::Field("jobs"@)] })
    } else {
        first_job_error(w.jobs, 0, opts.allow_inert_steps)
    }
}

proof fn lemma_first_step_error_none(steps: Seq<StepView>, k: int, allow_inert: bool)
    requires
        0 <= k <= steps.len(),
    ensures
        (first_step_error(steps, k, allow_inert) is None) <==> (forall|p: int|
            k <= p < steps.len() ==> step_admissible(#[trigger] steps[p], allow_inert)),
    decreases steps.len() - k,
{
    if k < steps.len() {
        lemma_first_step_error_none(steps, k + 1, allow_inert);
    }
}

proof fn lemma_job_error_none(jobs: Seq<(Seq<char>, JobView)>, i: int, allow_inert: bool)
    requires
        0 <= i < jobs.len(),
    ensures
        (job_error_at(jobs, i, allow_inert) is None) <==> {
            &&& (forall|p: int| 0 <= p < i ==> (#[trigger] jobs[p]).0 != jobs[i].0)
            &&& job_admissible(jobs[i].0, jobs[i].1, allow_inert)
        },
{
    lemma_first_step_error_none(jobs[i].1.steps, 0, allow_inert);
}

proof fn lemma_first_job_error_none(jobs: Seq<(Seq<char>, JobView)>, i: int, allow_inert: bool)
    requires
        0 <= i <= jobs.len(),
    ensures
        (first_job_error(jobs, i, allow_inert) is None) <==> (forall|p: int|
            i <= p < jobs.len() ==> #[trigger] job_error_at(jobs, p, allow_inert) is None),
    decreases jobs.len() - i,
{
    if i < jobs.len() {
        lemma_first_job_error_none(jobs, i + 1, allow_inert);
    }
}

/// Skipping a violation-free prefix does not change the first violation.
proof fn lemma_first_job_error_skip(jobs: Seq<(Seq<char>, JobView)>, i: int, allow_inert: bool)
    requires
        0 <= i <= jobs.len(),
        forall|p: int| 0 <= p < i ==> #[trigger] job_error_at(jobs, p, allow_inert) is None,
    ensures
        first_job_error(jobs, 0, allow_inert) == first_job_error(jobs, i, allow_inert),
    decreases i,
{
    if i > 0 {
        lemma_first_job_error_skip(jobs, i - 1, allow_inert);
    }
}

proof fn lemma_first_step_error_skip(steps: Seq<StepView>, k: int, allow_inert: bool)
    requires
        0 <= k <= steps.len(),
        forall|p: int| 0 <= p < k ==> step_admissible(#[trigger] steps[p], allow_inert),
    ensures
        first_step_error(steps, 0, allow_inert) == first_step_error(steps, k, allow_inert),
    decreases k,
{
    if k > 0 {
        lemma_first_step_error_skip(steps, k - 1, allow_inert);
    }
}

/// The path `["jobs"]`.
fn path_jobs() -> (p: Vec<PathSegment>)
    ensures
        segs_view(p@) == seq![SegView::Field("jobs"@)],
{
    let p = vec![PathSegment::Field("jobs".to_owned())];
    proof {
        assert(segs_view(p@) =~= seq![SegView::Field("jobs"@)]);
    }
    p
}

/// The path `["jobs", id]`.
fn path_job(id: &String) -> (p: Vec<PathSegment>)
    ensures
        segs_view(p@) == job_path(id@),
{
    let p = vec![PathSegment::Field("jobs".to_owned()), PathSegment::Field(id.clone())];
    proof {
        assert(segs_view(p@) =~= job_path(id@));
    }
    p
}

/// The path `["jobs", id, field]`.
fn path_job_field(id: &String, field: &str) -> (p: Vec<PathSegment>)
    ensures
        segs_view(p@) == job_path(id@) + seq![SegView::Field(field@)],
{
    let p = vec![
        PathSegment::Field("jobs".to_owned()),
        PathSegment::Field(id.clone()),
        PathSegment::Field(field.to_owned()),
    ];
    proof {
        assert(segs_view(p@) =~= job_path(id@) + seq![SegView::Field(field@)]);
    }
    p
}

/// The path `["jobs", id, "steps", k]`.
fn path_job_step(id: &String, k: usize) -> (p: Vec<PathSegment>)
    ensures
        segs_view(p@) == job_path(id@) + seq![SegView::Field("steps"@), SegView::Item(k as int)],
{
    let p = vec![
        PathSegment::Field("jobs".to_owned()),
        PathSegment::Field(id.clone()),
        PathSegment::Field("steps".to_owned()),
        PathSegment::Item(k),
    ];
    proof {
        assert(segs_view(p@) =~= job_path(id@) + seq![
            SegView::Field("steps"@),
            SegView::Item(k as int),
        ]);
    }
    p
}

/// Decides whether a `runs-on` descriptor is a label or a sequence of labels.
fn runs_on_ok(v: &DocValue) -> (b: bool)
    ensures
        b == runs_on_admissible(*v),
{
    match v {
        DocValue::Text(_) => true,
        DocValue::Items(items) => {
            let mut t: usize = 0;
            while t < items.len()
                invariant
                    *v == DocValue::Items(*items),
                    t <= items@.len(),
                    forall|q: int| 0 <= q < t ==> items@[q] is Text,
                decreases items@.len() - t,
            {
                match &items[t] {
                    DocValue::Text(_) => {},
                    _ => {
                        assert(!(items@[t as int] is Text));
                        return false;
                    },
                }
                t += 1;
            }
            true
        },
        _ => false,
    }
}

/// The validator reports no error exactly on the admissible workflows.
pub proof fn lemma_workflow_error_none(w: WorkflowView, opts: ValidationOptions)
    ensures
        (workflow_error(w, opts) is None) <==> workflow_admissible(w, opts),
{
    lemma_first_job_error_none(w.jobs, 0, opts.allow_inert_steps);
    assert forall|p: int| 0 <= p < w.jobs.len() implies ((#[trigger] job_error_at(
        w.jobs,
        p,
        opts.allow_inert_steps,
    ) is None) <==> ((forall|q: int| 0 <= q < p ==> (#[trigger] w.jobs[q]).0 != w.jobs[p].0)
        && job_admissible(w.jobs[p].0, w.jobs[p].1, opts.allow_inert_steps))) by {
        lemma_job_error_none(w.jobs, p, opts.allow_inert_steps);
    }
    if workflow_admissible(w, opts) {
        assert forall|p: int| 0 <= p < w.jobs.len() implies #[trigger] job_error_at(
            w.jobs,
            p,
            opts.allow_inert_steps,
        ) is None by {
            assert(forall|q: int| 0 <= q < p ==> (#[trigger] w.jobs[q]).0 != w.jobs[p].0);
        }
        assert(workflow_error(w, opts) is None);
    } else if workflow_error(w, opts) is None {
        assert(unique_job_ids(w.jobs)) by {
            assert forall|i: int, j: int| 0 <= i < j < w.jobs.len() implies w.jobs[i].0
                != w.jobs[j].0 by {
                assert(job_error_at(w.jobs, j, opts.allow_inert_steps) is None);
            }
        }
        assert forall|i: int| 0 <= i < w.jobs.len() implies job_admissible(
            (#[trigger] w.jobs[i]).0,
            w.jobs[i].1,
            opts.allow_inert_steps,
        ) by {
            assert(job_error_at(w.jobs, i, opts.allow_inert_steps) is None);
        }
        assert(workflow_admissible(w, opts));
    }
}

/// Law: a workflow in which some job-step names both `uses` and `run` is
/// never admissible, under any validator switches.
pub proof fn lemma_step_with_both_rejected(
    w: WorkflowView,
    opts: ValidationOptions,
    i: int,
    k: int,
)
    requires
        0 <= i < w.jobs.len(),
        0 <= k < w.jobs[i].1.steps.len(),
        step_sets_both(w.jobs[i].1.steps[k]),
    ensures
        !workflow_admissible(w, opts),
{
    if workflow_admissible(w, opts) {
        assert(job_admissible(w.jobs[i].0, w.jobs[i].1, opts.allow_inert_steps));
        assert(step_admissible(w.jobs[i].1.steps[k], opts.allow_inert_steps));
    }
}

proof fn lemma_step_error_kind_invalid(steps: Seq<StepView>, k: int, allow_inert: bool)
    requires
        0 <= k <= steps.len(),
        forall|q: int| 0 <= q < steps.len() ==> !step_is_inert(#[trigger] steps[q]) || allow_inert,
    ensures
        first_step_error(steps, k, allow_inert) matches Some(e) ==> e.0
            == ValidationErrorKind::InvalidField,
    decreases steps.len() - k,
{
    if k < steps.len() {
        lemma_step_error_kind_invalid(steps, k + 1, allow_inert);
    }
}

proof fn lemma_job_error_kind_invalid(jobs: Seq<(Seq<char>, JobView)>, i: int, allow_inert: bool)
    requires
        0 <= i <= jobs.len(),
        unique_job_ids(jobs),
        forall|p: int| 0 <= p < jobs.len() ==> (#[trigger] jobs[p]).0.len() > 0,
        forall|p: int|
            0 <= p < jobs.len() ==> match (#[trigger] jobs[p]).1.runs_on {
                Some(r) => runs_on_admissible(r),
                None => false,
            },
        forall|p: int, q: int|
            0 <= p < jobs.len() && 0 <= q < jobs[p].1.steps.len() ==> !step_is_inert(
                #[trigger] jobs[p].1.steps[q],
            ) || allow_inert,
    ensures
        first_job_error(jobs, i, allow_inert) matches Some(e) ==> e.kind
            == ValidationErrorKind::InvalidField,
    decreases jobs.len() - i,
{
    if i < jobs.len() {
        lemma_step_error_kind_invalid(jobs[i].1.steps, 0, allow_inert);
        lemma_job_error_kind_invalid(jobs, i + 1, allow_inert);
    }
}

/// Law: where some job-step names both `uses` and `run`, and the workflow is
/// otherwise free of violations, validation reports `InvalidField`.
pub proof fn lemma_step_with_both_error_kind(w: WorkflowView, opts: ValidationOptions, i: int, k: int)
    requires
        unique_job_ids(w.jobs),
        forall|p: int| 0 <= p < w.jobs.len() ==> (#[trigger] w.jobs[p]).0.len() > 0,
        forall|p: int|
            0 <= p < w.jobs.len() ==> match (#[trigger] w.jobs[p]).1.runs_on {
                Some(r) => runs_on_admissible(r),
                None => false,
            },
        forall|p: int, q: int|
            0 <= p < w.jobs.len() && 0 <= q < w.jobs[p].1.steps.len() ==> !step_is_inert(
                #[trigger] w.jobs[p].1.steps[q],
            ) || opts.allow_inert_steps,
        0 <= i < w.jobs.len(),
        0 <= k < w.jobs[i].1.steps.len(),
        step_sets_both(w.jobs[i].1.steps[k]),
    ensures
        workflow_error(w, opts) matches Some(e) && e.kind == ValidationErrorKind::InvalidField,
{
    lemma_step_with_both_rejected(w, opts, i, k);
    lemma_workflow_error_none(w, opts);
    lemma_job_error_kind_invalid(w.jobs, 0, opts.allow_inert_steps);
}

impl PolicyEngineWorkflow {
    /// Validates this workflow under the default switches.
    pub fn validate(&self) -> (r: Result<(), ValidationError>)
        ensures
            r is Ok <==> workflow_admissible(self@, default_options()),
            r matches Err(e) ==> workflow_error(self@, default_options()) == Some(e@),
    {
        self.validate_with(ValidationOptions { strict_jobs: false, allow_inert_steps: false })
    }

    /// Validates this workflow: accepts exactly the admissible workflows, and
    /// on rejection reports the first violation in declared job and step
    /// order.  Validation never mutates its input.
    pub fn validate_with(&self, opts: ValidationOptions) -> (r: Result<(), ValidationError>)
        ensures
            r is Ok <==> workflow_admissible(self@, opts),
            r matches Err(e) ==> workflow_error(self@, opts) == Some(e@),
    {
        let ghost allow = opts.allow_inert_steps;
        let ghost jv = self@.jobs;
        if opts.strict_jobs && self.jobs.len() == 0 {
            let e = ValidationError {
                kind: ValidationErrorKind::CustomError,
                message: "strict mode refuses an empty job set.".to_owned(),
                path: path_jobs(),
            };
            proof {
                lemma_workflow_error_none(self@, opts);
                assert(workflow_error(self@, opts) == Some(e@));
            }
            return Err(e);
        }
        let mut i: usize = 0;
        while i < self.jobs.len()
            invariant
                i <= jv.len(),
                jv == self@.jobs,
                jv.len() == self.jobs@.len(),
                !(opts.strict_jobs && jv.len() == 0),
                allow == opts.allow_inert_steps,
                forall|p: int| 0 <= p < i ==> #[trigger] job_error_at(jv, p, allow) is None,
            decreases jv.len() - i,
        {
            let job_id: &String = &self.jobs[i].0;
            proof {
                assert(jv[i as int] == (self.jobs@[i as int].0@, self.jobs@[i as int].1@));
                assert(jv[i as int].0 == job_id@);
            }
            let mut p: usize = 0;
            while p < i
                invariant
                    p <= i,
                    i < jv.len(),
                    jv == self@.jobs,
                    jv.len() == self.jobs@.len(),
                    allow == opts.allow_inert_steps,
                    job_id@ == jv[i as int].0,
                    forall|q: int| 0 <= q < i ==> #[trigger] job_error_at(jv, q, allow) is None,
                    forall|q: int| 0 <= q < p ==> (#[trigger] jv[q]).0 != jv[i as int].0,
                decreases i - p,
            {
                if self.jobs[p].0.eq(job_id) {
                    let e = ValidationError {
                        kind: ValidationErrorKind::InvalidField,
                        message: "duplicate job id.".to_owned(),
                        path: path_job(job_id),
                    };
                    proof {
                        assert((#[trigger] jv[p as int]).0 == jv[i as int].0);
                        assert(job_error_at(jv, i as int, allow) == Some(e@));
                        lemma_first_job_error_skip(jv, i as int, allow);
                        lemma_workflow_error_none(self@, opts);
                        assert(workflow_error(self@, opts) == Some(e@));
                    }
                    return Err(e);
                }
                p += 1;
            }
            if job_id.as_str().is_empty() {
                let e = ValidationError {
                    kind: ValidationErrorKind::InvalidField,
                    message: "job id must not be empty.".to_owned(),
                    path: path_jobs(),
                };
                proof {
                    assert(job_error_at(jv, i as int, allow) == Some(e@));
                    lemma_first_job_error_skip(jv, i as int, allow);
                    lemma_workflow_error_none(self@, opts);
                    assert(workflow_error(self@, opts) == Some(e@));
                }
                return Err(e);
            }
            match &self.jobs[i].1.runs_on {
                None => {
                    let e = ValidationError {
                        kind: ValidationErrorKind::MissingField,
                        message: "runs-on is required.".to_owned(),
                        path: path_job_field(job_id, "runs-on"),
                    };
                    proof {
                        assert(jv[i as int].1.runs_on is None);
                        assert(job_error_at(jv, i as int, allow) == Some(e@));
                        lemma_first_job_error_skip(jv, i as int, allow);
                        lemma_workflow_error_none(self@, opts);
                        assert(workflow_error(self@, opts) == Some(e@));
                    }
                    return Err(e);
                },
                Some(r) => {
                    if !runs_on_ok(r) {
                        let e = ValidationError {
                            kind: ValidationErrorKind::InvalidField,
                            message: "runs-on must be a label or a sequence of labels.".to_owned(),
                            path: path_job_field(job_id, "runs-on"),
                        };
                        proof {
                            assert(jv[i as int].1.runs_on == Some(*r));
                            assert(job_error_at(jv, i as int, allow) == Some(e@));
                            lemma_first_job_error_skip(jv, i as int, allow);
                            lemma_workflow_error_none(self@, opts);
                            assert(workflow_error(self@, opts) == Some(e@));
                        }
                        return Err(e);
                    }
                },
            }
            let steps: &Vec<PolicyEngineWorkflowJobStep> = &self.jobs[i].1.steps;
            let ghost sv = jv[i as int].1.steps;
            proof {
                assert(sv == steps_view(steps@));
            }
            let mut k: usize = 0;
            while k < steps.len()
                invariant
                    k <= steps@.len(),
                    jv == self@.jobs,
                    jv.len() == self.jobs@.len(),
                    i < jv.len(),
                    allow == opts.allow_inert_steps,
                    job_id@ == jv[i as int].0,
                    job_id@.len() > 0,
                    sv == jv[i as int].1.steps,
                    sv.len() == steps@.len(),
                    forall|q: int| 0 <= q < steps@.len() ==> sv[q] == (#[trigger] steps@[q])@,
                    forall|q: int| 0 <= q < i ==> #[trigger] job_error_at(jv, q, allow) is None,
                    forall|q: int| 0 <= q < i ==> (#[trigger] jv[q]).0 != jv[i as int].0,
                    match jv[i as int].1.runs_on {
                        Some(r) => runs_on_admissible(r),
                        None => false,
                    },
                    forall|q: int| 0 <= q < k ==> step_admissible(#[trigger] sv[q], allow),
                decreases steps@.len() - k,
            {
                let both = steps[k].uses.is_some() && steps[k].run.is_some();
                let inert = steps[k].uses.is_none() && steps[k].run.is_none();
                if both || (!opts.allow_inert_steps && inert) {
                    let kind = if both {
                        ValidationErrorKind::InvalidField
                    } else {
                        ValidationErrorKind::CustomError
                    };
                    let msg = if both {
                        "a step must not set both uses and run."
                    } else {
                        "a step must set uses or run."
                    };
                    let e = ValidationError {
                        kind,
                        message: msg.to_owned(),
                        path: path_job_step(job_id, k),
                    };
                    proof {
                        assert(sv[k as int] == steps@[k as int]@);
                        assert(both == step_sets_both(sv[k as int]));
                        assert(inert == step_is_inert(sv[k as int]));
                        lemma_first_step_error_skip(sv, k as int, allow);
                        assert(first_step_error(sv, 0, allow) == Some((e.kind, k as int)));
                        assert(job_error_at(jv, i as int, allow) == Some(e@));
                        lemma_first_job_error_skip(jv, i as int, allow);
                        lemma_workflow_error_none(self@, opts);
                        assert(workflow_error(self@, opts) == Some(e@));
                    }
                    return Err(e);
                }
                k += 1;
            }
            proof {
                lemma_first_step_error_none(sv, 0, allow);
                lemma_job_error_none(jv, i as int, allow);
                assert(job_error_at(jv, i as int, allow) is None);
            }
            i += 1;
        }
        proof {
            lemma_first_job_error_skip(jv, jv.len() as int, allow);
            lemma_workflow_error_none(self@, opts);
        }
        Ok(())
    }
}

} // verus!
