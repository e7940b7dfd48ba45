//! The status tracker: the lifecycle state machine of one evaluation.
//!
//! A tracker is created in `Submitted` from a validated workflow, holding
//! one slot per declared job step.  Asynchronous reporters submit
//! [`JobStepStatusUpdate`] values; per step the stored status may never move
//! backward in rank, and the overall status is re-aggregated from the full
//! declared step set on every accepted update while it is not terminal.  No
//! transition leaves a terminal state, and once an evaluation is marked
//! abandoned its aggregation stops while updates are still stored for audit.

use vstd::prelude::*;

use crate::doc::DocValue;
use crate::error::{names_field, PathSegment, ValidationError, ValidationErrorKind};
use crate::status::{spec_is_terminal, status_rank, PolicyEngineStatus, PolicyEngineStatuses};
use crate::validate_id;
use crate::workflow::{
    default_options, unique_job_ids, workflow_admissible, workflow_error, PolicyEngineWorkflow,
    WorkflowView,
};

verus! {

/// One step's progress report: its status, free-form metadata, and the
/// outputs the step produced.
#[derive(Debug, PartialEq)]
pub struct JobStepStatusUpdate {
    pub status: PolicyEngineStatuses,
    pub metadata: Vec<(String, String)>,
    pub outputs: Vec<(String, DocValue)>,
}

/// The mathematical form of a step update.
pub ghost struct UpdateView {
    pub status: PolicyEngineStatuses,
    pub metadata: Seq<(Seq<char>, Seq<char>)>,
    pub outputs: Seq<(Seq<char>, DocValue)>,
}

impl View for JobStepStatusUpdate {
    type V = UpdateView;

    open spec fn view(&self) -> UpdateView {
        UpdateView {
            status: self.status,
            metadata: crate::workflow::string_pairs_view(self.metadata@),
            outputs: crate::parse::entry_pairs_view(self.outputs@),
        }
    }
}

/// The stored state of one job: its id and one slot per declared step,
/// holding the last accepted update for that step.
#[derive(Debug)]
pub struct JobTrack {
    pub job_id: String,
    pub slots: Vec<Option<JobStepStatusUpdate>>,
}

/// The mathematical form of one job's stored state.
pub ghost struct JobTrackView {
    pub job_id: Seq<char>,
    pub slots: Seq<Option<UpdateView>>,
}

/// The view of one slot.
pub open spec fn slot_view(o: Option<JobStepStatusUpdate>) -> Option<UpdateView> {
    match o {
        Some(u) => Some(u@),
        None => None,
    }
}

/// The views of a job's slots.
pub open spec fn slots_view(s: Seq<Option<JobStepStatusUpdate>>) -> Seq<Option<UpdateView>> {
    s.map_values(|o: Option<JobStepStatusUpdate>| slot_view(o))
}

impl View for JobTrack {
    type V = JobTrackView;

    open spec fn view(&self) -> JobTrackView {
        JobTrackView { job_id: self.job_id@, slots: slots_view(self.slots@) }
    }
}

/// The views of the stored jobs.
pub open spec fn tracks_view(s: Seq<JobTrack>) -> Seq<JobTrackView> {
    s.map_values(|j: JobTrack| j@)
}

/// The lifecycle state machine of one evaluation.
///
/// Construct one only through [`StatusTracker::new`], which establishes
/// [`tracker_wf`]; every method preserves it.
#[derive(Debug)]
pub struct StatusTracker {
    pub id: String,
    pub workflow: PolicyEngineWorkflow,
    pub jobs: Vec<JobTrack>,
    pub overall: PolicyEngineStatuses,
    pub abandoned: bool,
}

/// The mathematical form of a tracker.
pub ghost struct TrackerView {
    pub id: Seq<char>,
    pub workflow: WorkflowView,
    pub jobs: Seq<JobTrackView>,
    pub overall: PolicyEngineStatuses,
    pub abandoned: bool,
}

impl View for StatusTracker {
    type V = TrackerView;

    open spec fn view(&self) -> TrackerView {
        TrackerView {
            id: self.id@,
            workflow: self.workflow@,
            jobs: tracks_view(self.jobs@),
            overall: self.overall,
            abandoned: self.abandoned,
        }
    }
}

/// Well-formedness of a tracker: a non-empty id, stored jobs aligned one to
/// one with the declared workflow jobs (same ids, one slot per declared
/// step), unique job ids, and neither the overall status nor any stored
/// update carrying the sentinel `Unknown`.
pub open spec fn tracker_wf(t: TrackerView) -> bool {
    &&& t.id.len() > 0
    &&& t.overall != PolicyEngineStatuses::Unknown
    &&& unique_job_ids(t.workflow.jobs)
    &&& t.jobs.len() == t.workflow.jobs.len()
    &&& forall|i: int|
        0 <= i < t.jobs.len() ==> (#[trigger] t.jobs[i]).job_id == t.workflow.jobs[i].0
    &&& forall|i: int|
        0 <= i < t.jobs.len() ==> (#[trigger] t.jobs[i]).slots.len()
            == t.workflow.jobs[i].1.steps.len()
    &&& forall|i: int, s: int|
        0 <= i < t.jobs.len() && 0 <= s < t.jobs[i].slots.len() ==> ((
        #[trigger] t.jobs[i].slots[s]) matches Some(u) ==> u.status
            != PolicyEngineStatuses::Unknown)
}

/// The position of the job named `id` among the stored jobs, if any.
pub open spec fn job_index(jobs: Seq<JobTrackView>, id: Seq<char>) -> Option<int>
    decreases jobs.len(),
{
    if jobs.len() == 0 {
        None
    } else if jobs[0].job_id == id {
        Some(0)
    } else {
        match job_index(jobs.drop_first(), id) {
            Some(j) => Some(j + 1),
            None => None,
        }
    }
}

proof fn lemma_job_index_first(jobs: Seq<JobTrackView>, id: Seq<char>, i: int)
    requires
        0 <= i < jobs.len(),
        jobs[i].job_id == id,
        forall|p: int| 0 <= p < i ==> (#[trigger] jobs[p]).job_id != id,
    ensures
        job_index(jobs, id) == Some(i),
    decreases i,
{
    if i > 0 {
        lemma_job_index_first(jobs.drop_first(), id, i - 1);
    }
}

proof fn lemma_job_index_absent(jobs: Seq<JobTrackView>, id: Seq<char>)
    requires
        forall|p: int| 0 <= p < jobs.len() ==> (#[trigger] jobs[p]).job_id != id,
    ensures
        job_index(jobs, id) is None,
    decreases jobs.len(),
{
    if jobs.len() > 0 {
        lemma_job_index_absent(jobs.drop_first(), id);
    }
}

/// Some declared step has reported a structural validation failure.
pub open spec fn some_step_invalid(jobs: Seq<JobTrackView>) -> bool {
    exists|a: int, b: int|
        0 <= a < jobs.len() && 0 <= b < jobs[a].slots.len() && ((#[trigger] jobs[a].slots[b])
            matches Some(u) && u.status == PolicyEngineStatuses::InputValidationError)
}

/// Every declared step has reported and stands at `Complete`.
pub open spec fn all_steps_complete(jobs: Seq<JobTrackView>) -> bool {
    forall|a: int, b: int|
        0 <= a < jobs.len() && 0 <= b < jobs[a].slots.len() ==> ((#[trigger] jobs[a].slots[b])
            matches Some(u) && u.status == PolicyEngineStatuses::Complete)
}

/// The aggregation rule: any step at `InputValidationError` dominates; else
/// the evaluation is `Complete` exactly when the full declared step set has
/// reported `Complete`; otherwise it is still `InProgress`.
pub open spec fn aggregate(jobs: Seq<JobTrackView>) -> PolicyEngineStatuses {
    if some_step_invalid(jobs) {
        PolicyEngineStatuses::InputValidationError
    } else if all_steps_complete(jobs) {
        PolicyEngineStatuses::Complete
    } else {
        PolicyEngineStatuses::InProgress
    }
}

/// Law: aggregation only yields `InProgress`, `Complete` or
/// `InputValidationError` — never the initial `Submitted` and never the
/// sentinel — so no accepted update moves the overall status back to the
/// initial state, and `Unknown` stays unreachable.
pub proof fn lemma_aggregate_moves_forward(jobs: Seq<JobTrackView>)
    ensures
        aggregate(jobs) != PolicyEngineStatuses::Submitted,
        aggregate(jobs) != PolicyEngineStatuses::Unknown,
{
}

/// A step-invalid report among the slots strictly before position `(i, s)`
/// in declared order.
pub open spec fn invalid_before(jobs: Seq<JobTrackView>, i: int, s: int) -> bool {
    exists|a: int, b: int|
        0 <= a < jobs.len() && 0 <= b < jobs[a].slots.len() && (a < i || (a == i && b < s)) && ((
        #[trigger] jobs[a].slots[b]) matches Some(u) && u.status
            == PolicyEngineStatuses::InputValidationError)
}

/// All slots strictly before position `(i, s)` in declared order hold
/// `Complete`.
pub open spec fn complete_before(jobs: Seq<JobTrackView>, i: int, s: int) -> bool {
    forall|a: int, b: int|
        0 <= a < jobs.len() && 0 <= b < jobs[a].slots.len() && (a < i || (a == i && b < s)) ==> ((
        #[trigger] jobs[a].slots[b]) matches Some(u) && u.status
            == PolicyEngineStatuses::Complete)
}

/// Recomputes the overall status from the stored slots.
fn aggregate_status(jobs: &Vec<JobTrack>) -> (r: PolicyEngineStatuses)
    ensures
        r == aggregate(tracks_view(jobs@)),
{
    let ghost jv = tracks_view(jobs@);
    let mut any_invalid = false;
    let mut all_complete = true;
    let mut i: usize = 0;
    while i < jobs.len()
        invariant
            jv == tracks_view(jobs@),
            i <= jobs@.len(),
            jv.len() == jobs@.len(),
            any_invalid == invalid_before(jv, i as int, 0),
            all_complete == complete_before(jv, i as int, 0),
        decreases jobs@.len() - i,
    {
        let slots = &jobs[i].slots;
        let mut s: usize = 0;
        proof {
            assert(jv[i as int] == jobs@[i as int]@);
        }
        while s < slots.len()
            invariant
                jv == tracks_view(jobs@),
                i < jobs@.len(),
                jv.len() == jobs@.len(),
                slots@ == jobs@[i as int].slots@,
                jv[i as int].slots == slots_view(slots@),
                s <= slots@.len(),
                any_invalid == invalid_before(jv, i as int, s as int),
                all_complete == complete_before(jv, i as int, s as int),
            decreases slots@.len() - s,
        {
            proof {
                assert(jv[i as int].slots[s as int] == slot_view(slots@[s as int]));
            }
            match &slots[s] {
                Some(u) => {
                    if u.status == PolicyEngineStatuses::InputValidationError {
                        any_invalid = true;
                    }
                    if !(u.status == PolicyEngineStatuses::Complete) {
                        all_complete = false;
                    }
                },
                None => {
                    all_complete = false;
                },
            }
            proof {
                if any_invalid {
                    if !invalid_before(jv, i as int, s as int) {
                        assert((jv[i as int].slots[s as int] matches Some(u) && u.status
                            == PolicyEngineStatuses::InputValidationError));
                    }
                    assert(invalid_before(jv, i as int, s as int + 1));
                } else {
                    assert forall|a: int, b: int|
                        0 <= a < jv.len() && 0 <= b < jv[a].slots.len() && (a < i as int || (a == i
                            && b < s as int + 1)) implies !((#[trigger] jv[a].slots[b]) matches Some(
                        u,
                    ) && u.status == PolicyEngineStatuses::InputValidationError) by {
                        if a < i as int || (a == i && b < s as int) {
                            assert(!invalid_before(jv, i as int, s as int));
                        }
                    }
                }
                if all_complete {
                    assert forall|a: int, b: int|
                        0 <= a < jv.len() && 0 <= b < jv[a].slots.len() && (a < i as int || (a == i
                            && b < s as int + 1)) implies ((#[trigger] jv[a].slots[b]) matches Some(
                        u,
                    ) && u.status == PolicyEngineStatuses::Complete) by {}
                } else {
                    assert(!complete_before(jv, i as int, s as int + 1));
                }
            }
            s += 1;
        }
        proof {
            assert(invalid_before(jv, i as int, slots@.len() as int) == invalid_before(
                jv,
                i as int + 1,
                0,
            )) by {
                if invalid_before(jv, i as int, slots@.len() as int) {
                    assert(invalid_before(jv, i as int + 1, 0));
                }
                if invalid_before(jv, i as int + 1, 0) {
                    assert(invalid_before(jv, i as int, slots@.len() as int));
                }
            }
            assert(complete_before(jv, i as int, slots@.len() as int) == complete_before(
                jv,
                i as int + 1,
                0,
            )) by {
                if complete_before(jv, i as int, slots@.len() as int) {
                    assert forall|a: int, b: int|
                        0 <= a < jv.len() && 0 <= b < jv[a].slots.len() && (a < i as int + 1 || (a
                            == i as int + 1 && b < 0)) implies ((#[trigger] jv[a].slots[b]) matches Some(
                        u,
                    ) && u.status == PolicyEngineStatuses::Complete) by {}
                }
            }
        }
        i += 1;
    }
    proof {
        assert(some_step_invalid(jv) == invalid_before(jv, jv.len() as int, 0)) by {
            if some_step_invalid(jv) {
                assert(invalid_before(jv, jv.len() as int, 0));
            }
            if invalid_before(jv, jv.len() as int, 0) {
                assert(some_step_invalid(jv));
            }
        }
        assert(all_steps_complete(jv) == complete_before(jv, jv.len() as int, 0)) by {
            if complete_before(jv, jv.len() as int, 0) {
                assert forall|a: int, b: int|
                    0 <= a < jv.len() && 0 <= b < jv[a].slots.len() implies ((
                #[trigger] jv[a].slots[b]) matches Some(u) && u.status
                    == PolicyEngineStatuses::Complete) by {}
            }
        }
    }
    if any_invalid {
        PolicyEngineStatuses::InputValidationError
    } else if all_complete {
        PolicyEngineStatuses::Complete
    } else {
        PolicyEngineStatuses::InProgress
    }
}

/// A fresh run of empty slots, one per declared step.
fn empty_slots(n: usize) -> (r: Vec<Option<JobStepStatusUpdate>>)
    ensures
        r@.len() == n,
        forall|q: int| 0 <= q < n ==> (#[trigger] r@[q]) is None,
{
    let mut slots: Vec<Option<JobStepStatusUpdate>> = Vec::new();
    while slots.len() < n
        invariant
            slots@.len() <= n,
            forall|q: int| 0 <= q < slots@.len() ==> (#[trigger] slots@[q]) is None,
        decreases n - slots@.len(),
    {
        slots.push(None);
    }
    slots
}

/// Finds the stored job named `id`.
fn find_job(jobs: &Vec<JobTrack>, id: &str) -> (r: Option<usize>)
    ensures
        match r {
            Some(i) => i < jobs@.len() && job_index(tracks_view(jobs@), id@) == Some(i as int),
            None => job_index(tracks_view(jobs@), id@) is None,
        },
{
    let k: String = id.to_owned();
    let mut i: usize = 0;
    while i < jobs.len()
        invariant
            i <= jobs@.len(),
            k@ == id@,
            forall|p: int| 0 <= p < i ==> (#[trigger] tracks_view(jobs@)[p]).job_id != id@,
        decreases jobs@.len() - i,
    {
        if jobs[i].job_id.eq(&k) {
            proof {
                assert(tracks_view(jobs@)[i as int].job_id == id@);
                lemma_job_index_first(tracks_view(jobs@), id@, i as int);
            }
            return Some(i);
        }
        proof {
            assert(tracks_view(jobs@)[i as int] == jobs@[i as int]@);
        }
        i += 1;
    }
    proof {
        lemma_job_index_absent(tracks_view(jobs@), id@);
    }
    None
}

/// The named job exists and declares a step at the given position.
pub open spec fn target_exists(jobs: Seq<JobTrackView>, id: Seq<char>, s: int) -> bool {
    job_index(jobs, id) matches Some(j) && 0 <= s < jobs[j].slots.len()
}

/// The update would move the stored status of the step backward in rank.
pub open spec fn update_regresses(
    jobs: Seq<JobTrackView>,
    id: Seq<char>,
    s: int,
    st: PolicyEngineStatuses,
) -> bool {
    job_index(jobs, id) matches Some(j) && 0 <= s < jobs[j].slots.len() && (jobs[j].slots[s]
        matches Some(u0) && status_rank(st) < status_rank(u0.status))
}

/// The job with the slot at `s` replaced by the update `u`.
pub open spec fn with_slot(j: JobTrackView, s: int, u: UpdateView) -> JobTrackView {
    JobTrackView { job_id: j.job_id, slots: j.slots.update(s, Some(u)) }
}

/// Law: two accepted updates aimed at different steps leave the same stored
/// state in either arrival order, so the step state a terminal record is
/// assembled from does not depend on how concurrent reporters were
/// interleaved.
pub proof fn lemma_slot_updates_commute(
    jobs: Seq<JobTrackView>,
    j1: int,
    s1: int,
    u1: UpdateView,
    j2: int,
    s2: int,
    u2: UpdateView,
)
    requires
        0 <= j1 < jobs.len(),
        0 <= s1 < jobs[j1].slots.len(),
        0 <= j2 < jobs.len(),
        0 <= s2 < jobs[j2].slots.len(),
        j1 != j2 || s1 != s2,
    ensures
        jobs.update(j1, with_slot(jobs[j1], s1, u1)).update(
            j2,
            with_slot(jobs.update(j1, with_slot(jobs[j1], s1, u1))[j2], s2, u2),
        ) == jobs.update(j2, with_slot(jobs[j2], s2, u2)).update(
            j1,
            with_slot(jobs.update(j2, with_slot(jobs[j2], s2, u2))[j1], s1, u1),
        ),
{
    let a = jobs.update(j1, with_slot(jobs[j1], s1, u1)).update(
        j2,
        with_slot(jobs.update(j1, with_slot(jobs[j1], s1, u1))[j2], s2, u2),
    );
    let b = jobs.update(j2, with_slot(jobs[j2], s2, u2)).update(
        j1,
        with_slot(jobs.update(j2, with_slot(jobs[j2], s2, u2))[j1], s1, u1),
    );
    if j1 != j2 {
        assert(a =~= b);
    } else {
        assert(a[j1].slots =~= b[j1].slots);
        assert(a[j1] == b[j1]);
        assert(a =~= b);
    }
}

impl StatusTracker {
    /// Creates a tracker in `Submitted` for the given evaluation id and
    /// workflow.
    ///
    /// Succeeds on exactly the non-empty ids paired with admissible
    /// workflows: a request whose workflow fails validation is never
    /// admitted, so it never reaches `Submitted`.
    pub fn new(id: String, workflow: PolicyEngineWorkflow) -> (r: Result<
        StatusTracker,
        ValidationError,
    >)
        ensures
            r is Ok <==> (id@.len() > 0 && workflow_admissible(workflow@, default_options())),
            r matches Ok(t) ==> {
                &&& tracker_wf(t@)
                &&& t@.id == id@
                &&& t@.workflow == workflow@
                &&& t@.overall == PolicyEngineStatuses::Submitted
                &&& !t@.abandoned
                &&& forall|i: int, s: int|
                    0 <= i < t@.jobs.len() && 0 <= s < t@.jobs[i].slots.len() ==> (
                    #[trigger] t@.jobs[i].slots[s]) is None
            },
            r matches Err(e) ==> if id@.len() == 0 {
                e.kind == ValidationErrorKind::MissingField && names_field(e, "id"@)
            } else {
                workflow_error(workflow@, default_options()) == Some(e@)
            },
    {
        if let Err(e) = validate_id(id.as_str()) {
            return Err(e);
        }
        if let Err(e) = workflow.validate() {
            return Err(e);
        }
        let mut jobs: Vec<JobTrack> = Vec::new();
        let mut i: usize = 0;
        while i < workflow.jobs.len()
            invariant
                i <= workflow.jobs@.len(),
                jobs@.len() == i,
                forall|p: int|
                    0 <= p < i ==> (#[trigger] tracks_view(jobs@)[p]).job_id
                        == workflow@.jobs[p].0,
                forall|p: int|
                    0 <= p < i ==> (#[trigger] tracks_view(jobs@)[p]).slots.len()
                        == workflow@.jobs[p].1.steps.len(),
                forall|p: int, s: int|
                    0 <= p < i && 0 <= s < tracks_view(jobs@)[p].slots.len() ==> (
                    #[trigger] tracks_view(jobs@)[p].slots[s]) is None,
            decreases workflow.jobs@.len() - i,
        {
            let slots = empty_slots(workflow.jobs[i].1.steps.len());
            let jt = JobTrack { job_id: workflow.jobs[i].0.clone(), slots };
            let ghost old_jobs = jobs@;
            jobs.push(jt);
            proof {
                assert(tracks_view(jobs@) =~= tracks_view(old_jobs) + seq![jt@]);
                assert(workflow@.jobs[i as int] == (workflow.jobs@[i as int].0@, workflow.jobs@[i as int].1@));
                assert(jt@.slots =~= slots_view(jt.slots@));
            }
            i += 1;
        }
        Ok(
            StatusTracker {
                id,
                workflow,
                jobs,
                overall: PolicyEngineStatuses::Submitted,
                abandoned: false,
            },
        )
    }

    /// Accepts one step's progress report.
    ///
    /// Rejected with `CustomError`, leaving the tracker unchanged, exactly
    /// when the update carries the sentinel status, names no declared step,
    /// or would move the stored status of its step backward in rank.  An
    /// accepted update replaces the step's slot; the overall status is then
    /// re-aggregated from the full declared step set, unless it is already
    /// terminal or the evaluation is abandoned, in which case the update is
    /// kept for audit and the overall status stands.
    pub fn submit_update(
        &mut self,
        job_id: &str,
        step_index: usize,
        update: JobStepStatusUpdate,
    ) -> (r: Result<(), ValidationError>)
        requires
            tracker_wf(old(self)@),
        ensures
            tracker_wf(final(self)@),
            r is Err <==> (update.status == PolicyEngineStatuses::Unknown || !target_exists(
                old(self)@.jobs,
                job_id@,
                step_index as int,
            ) || update_regresses(old(self)@.jobs, job_id@, step_index as int, update.status)),
            r matches Err(e) ==> *final(self) == *old(self) && e.kind
                == ValidationErrorKind::CustomError,
            r is Ok ==> {
                &&& final(self)@.id == old(self)@.id
                &&& final(self)@.workflow == old(self)@.workflow
                &&& final(self)@.abandoned == old(self)@.abandoned
                &&& (job_index(old(self)@.jobs, job_id@) matches Some(j) && final(self)@.jobs
                    == old(self)@.jobs.update(
                    j,
                    with_slot(old(self)@.jobs[j], step_index as int, update@),
                ))
                &&& final(self)@.overall == (if spec_is_terminal(old(self)@.overall)
                    || old(self)@.abandoned {
                    old(self)@.overall
                } else {
                    aggregate(final(self)@.jobs)
                })
            },
    {
        if update.status == PolicyEngineStatuses::Unknown {
            return Err(
                ValidationError {
                    kind: ValidationErrorKind::CustomError,
                    message: "Unknown status is not allowed.".to_owned(),
                    path: vec![PathSegment::Field("status".to_owned())],
                },
            );
        }
        let ji = match find_job(&self.jobs, job_id) {
            Some(j) => j,
            None => {
                return Err(
                    ValidationError {
                        kind: ValidationErrorKind::CustomError,
                        message: "no such job.".to_owned(),
                        path: vec![PathSegment::Field(job_id.to_owned())],
                    },
                );
            },
        };
        if step_index >= self.jobs[ji].slots.len() {
            return Err(
                ValidationError {
                    kind: ValidationErrorKind::CustomError,
                    message: "no such step.".to_owned(),
                    path: vec![
                        PathSegment::Field(job_id.to_owned()),
                        PathSegment::Item(step_index),
                    ],
                },
            );
        }
        let new_rank = update.status.rank();
        match &self.jobs[ji].slots[step_index] {
            Some(u0) => {
                if new_rank < u0.status.rank() {
                    return Err(
                        ValidationError {
                            kind: ValidationErrorKind::CustomError,
                            message: "a step status must not move backward.".to_owned(),
                            path: vec![
                                PathSegment::Field(job_id.to_owned()),
                                PathSegment::Item(step_index),
                            ],
                        },
                    );
                }
            },
            None => {},
        }
        let ghost before = self@;
        let job = &mut self.jobs[ji];
        job.slots[step_index] = Some(update);
        proof {
            assert(slots_view(job.slots@) =~= before.jobs[ji as int].slots.update(
                step_index as int,
                Some(update@),
            ));
            assert(tracks_view(self.jobs@) =~= before.jobs.update(
                ji as int,
                with_slot(before.jobs[ji as int], step_index as int, update@),
            ));
        }
        if !self.overall.is_terminal() && !self.abandoned {
            self.overall = aggregate_status(&self.jobs);
        }
        Ok(())
    }

    /// Marks the evaluation abandoned.  Later updates are still stored for
    /// audit, aggregation is skipped from here on, and no completion record
    /// is produced.
    pub fn mark_abandoned(&mut self)
        requires
            tracker_wf(old(self)@),
        ensures
            tracker_wf(final(self)@),
            final(self)@ == (TrackerView { abandoned: true, ..old(self)@ }),
    {
        self.abandoned = true;
    }

    /// The current lifecycle snapshot of this evaluation.
    pub fn status_snapshot(&self) -> (r: PolicyEngineStatus)
        requires
            tracker_wf(self@),
        ensures
            r.id@ == self@.id,
            r.status == self@.overall,
            r.detail@.len() == 0,
    {
        PolicyEngineStatus { id: self.id.clone(), status: self.overall, detail: Vec::new() }
    }
}

} // verus!
