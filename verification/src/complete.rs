//! The result assembler: folding step state into the terminal record.
//!
//! When a tracker first reaches a terminal status the evaluation is folded
//! into a [`PolicyEngineComplete`]: per-step outputs merged in declared
//! job/step order — not arrival order — with the last declared writer
//! winning a key collision, and every step's metadata kept as an annotation
//! tagged with its job and step, so nothing is silently overwritten.

use vstd::prelude::*;

use crate::doc::DocValue;
use crate::error::{PathSegment, ValidationError, ValidationErrorKind};
use crate::parse::entry_pairs_view;
use crate::status::{spec_is_terminal, PolicyEngineStatuses};
use crate::tracker::{tracker_wf, JobTrack, JobTrackView, StatusTracker, TrackerView};
use crate::workflow::string_pairs_view;

verus! {

/// The exit status of a finished evaluation.
#[derive(Clone, Copy, Debug, PartialEq, Eq, Structural)]
pub enum PolicyEngineCompleteExitStatuses {
    Success,
    Failure,
}

/// One step's metadata in the terminal record, tagged with the job and step
/// it came from.
#[derive(Debug, PartialEq)]
pub struct StepAnnotation {
    pub job_id: String,
    pub step_index: usize,
    pub metadata: Vec<(String, String)>,
}

/// The mathematical form of an annotation.
pub ghost struct AnnotationView {
    pub job_id: Seq<char>,
    pub step_index: int,
    pub metadata: Seq<(Seq<char>, Seq<char>)>,
}

impl View for StepAnnotation {
    type V = AnnotationView;

    open spec fn view(&self) -> AnnotationView {
        AnnotationView {
            job_id: self.job_id@,
            step_index: self.step_index as int,
            metadata: string_pairs_view(self.metadata@),
        }
    }
}

/// The views of a run of annotations.
pub open spec fn anns_view(s: Seq<StepAnnotation>) -> Seq<AnnotationView> {
    s.map_values(|a: StepAnnotation| a@)
}

/// The terminal record of one evaluation.
#[derive(Debug, PartialEq)]
pub struct PolicyEngineComplete {
    pub id: String,
    pub exit_status: PolicyEngineCompleteExitStatuses,
    pub outputs: Vec<(String, DocValue)>,
    pub annotations: Vec<StepAnnotation>,
}

/// The outputs reported by one job's steps from slot `s` on, in declared
/// step order.
pub open spec fn job_output_pairs(j: JobTrackView, s: int) -> Seq<(Seq<char>, DocValue)>
    decreases j.slots.len() - s,
{
    if 0 <= s < j.slots.len() {
        (match j.slots[s] {
            Some(u) => u.outputs,
            None => Seq::empty(),
        }) + job_output_pairs(j, s + 1)
    } else {
        Seq::empty()
    }
}

/// The outputs reported across the jobs from job `i` on, in declared order.
pub open spec fn outputs_from(jobs: Seq<JobTrackView>, i: int) -> Seq<(Seq<char>, DocValue)>
    decreases jobs.len() - i,
{
    if 0 <= i < jobs.len() {
        job_output_pairs(jobs[i], 0) + outputs_from(jobs, i + 1)
    } else {
        Seq::empty()
    }
}

/// The annotations contributed by one job's steps from slot `s` on.
pub open spec fn job_annotations(j: JobTrackView, s: int) -> Seq<AnnotationView>
    decreases j.slots.len() - s,
{
    if 0 <= s < j.slots.len() {
        (match j.slots[s] {
            Some(u) => seq![
                (AnnotationView { job_id: j.job_id, step_index: s, metadata: u.metadata }),
            ],
            None => Seq::empty(),
        }) + job_annotations(j, s + 1)
    } else {
        Seq::empty()
    }
}

/// The annotations contributed across the jobs from job `i` on.
pub open spec fn annotations_from(jobs: Seq<JobTrackView>, i: int) -> Seq<AnnotationView>
    decreases jobs.len() - i,
{
    if 0 <= i < jobs.len() {
        job_annotations(jobs[i], 0) + annotations_from(jobs, i + 1)
    } else {
        Seq::empty()
    }
}

/// `acc` with the binding for `key` replaced in place, or appended if the
/// key is new.
pub open spec fn upsert(
    acc: Seq<(Seq<char>, DocValue)>,
    key: Seq<char>,
    v: DocValue,
) -> Seq<(Seq<char>, DocValue)>
    decreases acc.len(),
{
    if acc.len() == 0 {
        seq![(key, v)]
    } else if acc[0].0 == key {
        seq![(key, v)] + acc.drop_first()
    } else {
        seq![acc[0]] + upsert(acc.drop_first(), key, v)
    }
}

/// The merged outputs mapping: `pairs` folded into `acc` left to right, so
/// that of two pairs with one key the later one wins.
pub open spec fn merge_pairs(
    acc: Seq<(Seq<char>, DocValue)>,
    pairs: Seq<(Seq<char>, DocValue)>,
) -> Seq<(Seq<char>, DocValue)>
    decreases pairs.len(),
{
    if pairs.len() == 0 {
        acc
    } else {
        merge_pairs(upsert(acc, pairs[0].0, pairs[0].1), pairs.drop_first())
    }
}

/// The merged outputs of a tracker's stored step state.
pub open spec fn merged_outputs(jobs: Seq<JobTrackView>) -> Seq<(Seq<char>, DocValue)> {
    merge_pairs(Seq::empty(), outputs_from(jobs, 0))
}

proof fn lemma_upsert_at(s: Seq<(Seq<char>, DocValue)>, key: Seq<char>, v: DocValue, i: int)
    requires
        0 <= i < s.len(),
        s[i].0 == key,
        forall|p: int| 0 <= p < i ==> (#[trigger] s[p]).0 != key,
    ensures
        upsert(s, key, v) == s.update(i, (key, v)),
    decreases i,
{
    if i == 0 {
        assert(seq![(key, v)] + s.drop_first() =~= s.update(0, (key, v)));
    } else {
        lemma_upsert_at(s.drop_first(), key, v, i - 1);
        assert(s.drop_first().update(i - 1, (key, v)) =~= s.update(i, (key, v)).drop_first());
        assert(seq![s[0]] + s.update(i, (key, v)).drop_first() =~= s.update(i, (key, v)));
    }
}

proof fn lemma_upsert_absent(s: Seq<(Seq<char>, DocValue)>, key: Seq<char>, v: DocValue)
    requires
        forall|p: int| 0 <= p < s.len() ==> (#[trigger] s[p]).0 != key,
    ensures
        upsert(s, key, v) == s.push((key, v)),
    decreases s.len(),
{
    if s.len() == 0 {
        assert(seq![(key, v)] =~= s.push((key, v)));
    } else {
        lemma_upsert_absent(s.drop_first(), key, v);
        assert(seq![s[0]] + s.drop_first().push((key, v)) =~= s.push((key, v)));
    }
}

/// Replaces the binding for `key` in `out`, or appends it if absent.
fn upsert_vec(out: &mut Vec<(String, DocValue)>, key: String, v: DocValue)
    ensures
        entry_pairs_view(final(out)@) == upsert(entry_pairs_view(old(out)@), key@, v),
{
    let ghost before = entry_pairs_view(out@);
    match crate::doc::find_entry(out, key.as_str()) {
        Some(i) => {
            proof {
                assert forall|p: int| 0 <= p < i implies (#[trigger] before[p]).0 != key@ by {
                    assert(out@[p].0@ != key@);
                }
                lemma_upsert_at(before, key@, v, i as int);
            }
            out[i] = (key, v);
            proof {
                assert(entry_pairs_view(out@) =~= before.update(i as int, (key@, v)));
            }
        },
        None => {
            proof {
                assert forall|p: int| 0 <= p < before.len() implies (#[trigger] before[p]).0
                    != key@ by {
                    assert(out@[p].0@ != key@);
                }
                lemma_upsert_absent(before, key@, v);
            }
            out.push((key, v));
            proof {
                assert(entry_pairs_view(out@) =~= before.push((key@, v)));
            }
        },
    }
}

/// Folds one job's stored state into the running outputs and annotations.
fn collect_job(job: JobTrack, pairs: &mut Vec<(String, DocValue)>, anns: &mut Vec<StepAnnotation>)
    ensures
        entry_pairs_view(final(pairs)@) == entry_pairs_view(old(pairs)@) + job_output_pairs(
            job@,
            0,
        ),
        anns_view(final(anns)@) == anns_view(old(anns)@) + job_annotations(job@, 0),
{
    let ghost jv = job@;
    let job_id = job.job_id;
    let mut slots = job.slots;
    let mut s: usize = 0;
    proof {
        assert(slots.len() == slots@.len());
        assert(entry_pairs_view(pairs@) + job_output_pairs(jv, 0) =~= entry_pairs_view(old(pairs)@)
            + job_output_pairs(jv, 0));
        assert(anns_view(anns@) + job_annotations(jv, 0) =~= anns_view(old(anns)@)
            + job_annotations(jv, 0));
    }
    while slots.len() > 0
        invariant
            jv.slots.len() == s as int + slots@.len(),
            jv.slots.len() <= usize::MAX,
            forall|q: int|
                0 <= q < slots@.len() ==> crate::tracker::slot_view(#[trigger] slots@[q])
                    == jv.slots[s + q],
            job_id@ == jv.job_id,
            entry_pairs_view(pairs@) + job_output_pairs(jv, s as int) == entry_pairs_view(
                old(pairs)@,
            ) + job_output_pairs(jv, 0),
            anns_view(anns@) + job_annotations(jv, s as int) == anns_view(old(anns)@)
                + job_annotations(jv, 0),
        decreases slots@.len(),
    {
        let ghost old_slots = slots@;
        let slot = slots.remove(0);
        proof {
            assert(crate::tracker::slot_view(old_slots[0]) == jv.slots[s as int]);
            assert(slots@ =~= old_slots.drop_first());
            assert forall|q: int|
                0 <= q < slots@.len() implies crate::tracker::slot_view(#[trigger] slots@[q])
                == jv.slots[s + 1 + q] by {
                assert(slots@[q] == old_slots[q + 1]);
                assert(crate::tracker::slot_view(old_slots[q + 1]) == jv.slots[s + (q + 1)]);
            }
        }
        match slot {
            Some(u) => {
                let ghost uv = u@;
                let ghost old_pairs = entry_pairs_view(pairs@);
                let ghost old_anns = anns_view(anns@);
                let mut u = u;
                let metadata = u.metadata;
                pairs.append(&mut u.outputs);
                anns.push(
                    StepAnnotation { job_id: job_id.clone(), step_index: s, metadata },
                );
                proof {
                    assert(entry_pairs_view(pairs@) =~= old_pairs + uv.outputs);
                    assert(anns_view(anns@) =~= old_anns + seq![
                        (AnnotationView {
                            job_id: jv.job_id,
                            step_index: s as int,
                            metadata: uv.metadata,
                        }),
                    ]);
                    assert(old_pairs + (uv.outputs + job_output_pairs(jv, s as int + 1))
                        =~= entry_pairs_view(pairs@) + job_output_pairs(jv, s as int + 1));
                    assert(old_anns + (seq![
                        (AnnotationView {
                            job_id: jv.job_id,
                            step_index: s as int,
                            metadata: uv.metadata,
                        }),
                    ] + job_annotations(jv, s as int + 1)) =~= anns_view(anns@) + job_annotations(
                        jv,
                        s as int + 1,
                    ));
                }
            },
            None => {
                proof {
                    assert(entry_pairs_view(pairs@) + (Seq::<(Seq<char>, DocValue)>::empty()
                        + job_output_pairs(jv, s as int + 1)) =~= entry_pairs_view(pairs@)
                        + job_output_pairs(jv, s as int + 1));
                    assert(anns_view(anns@) + (Seq::<AnnotationView>::empty() + job_annotations(
                        jv,
                        s as int + 1,
                    )) =~= anns_view(anns@) + job_annotations(jv, s as int + 1));
                }
            },
        }
        s += 1;
    }
}

impl StatusTracker {
    /// Folds this evaluation into its terminal record, consuming the
    /// tracker.
    ///
    /// Produces a record exactly when the overall status is terminal and
    /// the evaluation has not been abandoned; otherwise the tracker state is
    /// not yet (or no longer) eligible and a `CustomError` comes back.  The
    /// record's exit status is `Success` exactly on `Complete`; its outputs
    /// are the per-step outputs merged in declared order with the last
    /// declared writer winning; its annotations keep every reporting step's
    /// metadata tagged with job and step.
    pub fn into_completion(self) -> (r: Result<PolicyEngineComplete, ValidationError>)
        requires
            tracker_wf(self@),
        ensures
            r is Ok <==> (spec_is_terminal(self@.overall) && !self@.abandoned),
            r matches Err(e) ==> e.kind == ValidationErrorKind::CustomError,
            r matches Ok(c) ==> {
                &&& c.id@ == self@.id
                &&& c.exit_status == (if self@.overall == PolicyEngineStatuses::Complete {
                    PolicyEngineCompleteExitStatuses::Success
                } else {
                    PolicyEngineCompleteExitStatuses::Failure
                })
                &&& entry_pairs_view(c.outputs@) == merged_outputs(self@.jobs)
                &&& anns_view(c.annotations@) == annotations_from(self@.jobs, 0)
            },
    {
        let ghost tv = self@;
        if self.abandoned || !self.overall.is_terminal() {
            return Err(
                ValidationError {
                    kind: ValidationErrorKind::CustomError,
                    message: "the evaluation has not reached a terminal status.".to_owned(),
                    path: vec![PathSegment::Field("status".to_owned())],
                },
            );
        }
        let exit_status = if self.overall == PolicyEngineStatuses::Complete {
            PolicyEngineCompleteExitStatuses::Success
        } else {
            PolicyEngineCompleteExitStatuses::Failure
        };
        let mut jobs = self.jobs;
        let mut pairs: Vec<(String, DocValue)> = Vec::new();
        let mut anns: Vec<StepAnnotation> = Vec::new();
        let mut i: usize = 0;
        proof {
            assert(jobs.len() == jobs@.len());
            assert(entry_pairs_view(pairs@) =~= Seq::<(Seq<char>, DocValue)>::empty());
        }
        while jobs.len() > 0
            invariant
                tv.jobs.len() == i as int + jobs@.len(),
                tv.jobs.len() <= usize::MAX,
                forall|q: int|
                    0 <= q < jobs@.len() ==> (#[trigger] jobs@[q])@ == tv.jobs[i + q],
                entry_pairs_view(pairs@) + outputs_from(tv.jobs, i as int) == outputs_from(
                    tv.jobs,
                    0,
                ),
                anns_view(anns@) + annotations_from(tv.jobs, i as int) == annotations_from(
                    tv.jobs,
                    0,
                ),
            decreases jobs@.len(),
        {
            let ghost old_jobs = jobs@;
            let job = jobs.remove(0);
            proof {
                assert(old_jobs[0]@ == tv.jobs[i as int]);
                assert(jobs@ =~= old_jobs.drop_first());
                assert forall|q: int| 0 <= q < jobs@.len() implies (#[trigger] jobs@[q])@
                    == tv.jobs[i + 1 + q] by {
                    assert(jobs@[q] == old_jobs[q + 1]);
                    assert(old_jobs[q + 1]@ == tv.jobs[i + (q + 1)]);
                }
            }
            let ghost old_pairs = entry_pairs_view(pairs@);
            let ghost old_anns = anns_view(anns@);
            collect_job(job, &mut pairs, &mut anns);
            proof {
                assert(old_pairs + (job_output_pairs(tv.jobs[i as int], 0) + outputs_from(
                    tv.jobs,
                    i as int + 1,
                )) =~= entry_pairs_view(pairs@) + outputs_from(tv.jobs, i as int + 1));
                assert(old_anns + (job_annotations(tv.jobs[i as int], 0) + annotations_from(
                    tv.jobs,
                    i as int + 1,
                )) =~= anns_view(anns@) + annotations_from(tv.jobs, i as int + 1));
            }
            i += 1;
        }
        proof {
            assert(entry_pairs_view(pairs@) + Seq::<(Seq<char>, DocValue)>::empty()
                =~= entry_pairs_view(pairs@));
            assert(anns_view(anns@) + Seq::<AnnotationView>::empty() =~= anns_view(anns@));
        }
        let mut out: Vec<(String, DocValue)> = Vec::new();
        proof {
            assert(entry_pairs_view(out@) =~= Seq::<(Seq<char>, DocValue)>::empty());
        }
        while pairs.len() > 0
            invariant
                merge_pairs(entry_pairs_view(out@), entry_pairs_view(pairs@)) == merge_pairs(
                    Seq::empty(),
                    outputs_from(tv.jobs, 0),
                ),
            decreases pairs@.len(),
        {
            let ghost old_pairs = entry_pairs_view(pairs@);
            let ghost old_out = entry_pairs_view(out@);
            let pair = pairs.remove(0);
            let (k, v) = pair;
            proof {
                assert(old_pairs[0] == (k@, v));
                assert(entry_pairs_view(pairs@) =~= old_pairs.drop_first());
            }
            upsert_vec(&mut out, k, v);
        }
        proof {
            assert(entry_pairs_view(pairs@) =~= Seq::<(Seq<char>, DocValue)>::empty());
        }
        Ok(PolicyEngineComplete { id: self.id, exit_status, outputs: out, annotations: anns })
    }
}

/// Law: the assembled outputs and annotations are a function of the stored
/// per-step state in declared order alone.  Two evaluations whose trackers
/// hold the same final step state — whatever order the updates arrived in —
/// assemble identical outputs and annotations.
pub proof fn lemma_assembly_deterministic(t1: TrackerView, t2: TrackerView)
    requires
        t1.jobs == t2.jobs,
    ensures
        merged_outputs(t1.jobs) == merged_outputs(t2.jobs),
        annotations_from(t1.jobs, 0) == annotations_from(t2.jobs, 0),
{
}

} // verus!
