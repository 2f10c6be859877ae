//! The job orchestrator: one job's lifecycle as a state machine.
//!
//! A job is created, splits its source text into chunks, has each chunk
//! synthesized into a fragment file, has the fragments concatenated into one
//! artifact, and ends `Complete` — or ends `Failed` from any earlier state.
//! The machine here makes every decision: which external call comes next,
//! which events are emitted, and which files are written or removed.  The
//! caller performs each requested action in the job's private directory and
//! reports its outcome; nothing else about the outside world is assumed.
//!
//! The machine keeps the full history of the events it emitted and of the
//! file effects it requested, so ordering, progress and cleanup guarantees
//! are stated — and proved — over those histories.

use crate::chunker;
use crate::naming;
use crate::progress;
use vstd::prelude::*;

verus! {

/// Lifecycle states, in their one-way order; `Failed` is reachable from any
/// non-terminal state and terminal once entered.
#[derive(Clone, Copy, Debug, PartialEq, Eq, Structural)]
pub enum JobStatus {
    Created,
    Chunking,
    Synthesizing,
    Concatenating,
    Complete,
    Failed,
}

/// Position of a status along the lifecycle; it never decreases.
pub open spec fn status_rank(s: JobStatus) -> int {
    match s {
        JobStatus::Created => 0,
        JobStatus::Chunking => 1,
        JobStatus::Synthesizing => 2,
        JobStatus::Concatenating => 3,
        JobStatus::Complete => 4,
        JobStatus::Failed => 5,
    }
}

/// A status from which the job never moves again.
pub open spec fn is_terminal(s: JobStatus) -> bool {
    s == JobStatus::Complete || s == JobStatus::Failed
}

/// What a progress event reports.
#[derive(Clone, Copy, Debug)]
pub enum ProgressNote {
    /// The chunk numbered `chunk` of `total` (1-based) was synthesized.
    Converting { chunk: usize, total: usize },
    /// The fragments are being combined into the artifact.
    Combining,
    /// The artifact is ready.
    Finished,
}

/// One event emitted by a job, in emission order.
#[derive(Clone, Debug)]
pub enum JobEvent {
    /// A milestone, as a permille fraction in `[0, 1000]`.
    Progress { permille: u32, note: ProgressNote },
    /// The artifact is ready under `artifact`, retrievable at `locator`.
    Complete { artifact: Vec<u8>, locator: Vec<u8> },
    /// The job failed; `message` describes the failure.
    Error { message: Vec<u8> },
}

/// The fallible external call the job waits on next.  All file names are
/// relative to the job's private directory.
#[derive(Clone, Debug)]
pub enum JobAction {
    /// Create the job's private directory.
    CreateDir,
    /// Synthesize the chunk at `index` (0-based): run the synthesis tool
    /// with `args`, which writes the fragment file named `fragment`.
    Synthesize { index: usize, fragment: Vec<u8>, args: Vec<Vec<u8>> },
    /// Write `manifest` to the list file named `list`, run the
    /// concatenation tool with `args` in the job directory, and remove the
    /// list file again whatever the outcome.
    Concatenate { list: Vec<u8>, manifest: Vec<u8>, args: Vec<Vec<u8>> },
}

/// How a requested action ended.
#[derive(Clone, Debug)]
pub enum Outcome {
    Success,
    /// The action failed; `message` is the caller-visible description
    /// (a spawn error, captured standard error, or a read error).
    Failure { message: Vec<u8> },
}

/// One recorded change to the job's private directory.
#[derive(Clone, Copy, Debug, PartialEq, Eq, Structural)]
pub enum FsEffect {
    /// The directory was created.
    DirCreated,
    /// The fragment file of the chunk at `index` was written.
    FragmentWritten { index: usize },
    /// The concatenation list file was written.
    ListWritten,
    /// The artifact file was written.
    ArtifactWritten,
    /// The concatenation list file was removed.
    ListRemoved,
    /// The fragment file of the chunk at `index` was removed.
    FragmentRemoved { index: usize },
    /// The directory was removed with everything in it.
    DirRemoved,
}

/// Whether the job directory exists after the effects `h`.
pub open spec fn fs_dir(h: Seq<FsEffect>) -> bool
    decreases h.len(),
{
    if h.len() == 0 {
        false
    } else {
        match h.last() {
            FsEffect::DirCreated => true,
            FsEffect::DirRemoved => false,
            _ => fs_dir(h.drop_last()),
        }
    }
}

/// The chunk indices whose fragment files exist after the effects `h`.
pub open spec fn fs_frags(h: Seq<FsEffect>) -> Set<int>
    decreases h.len(),
{
    if h.len() == 0 {
        Set::empty()
    } else {
        match h.last() {
            FsEffect::FragmentWritten { index } => fs_frags(h.drop_last()).insert(index as int),
            FsEffect::FragmentRemoved { index } => fs_frags(h.drop_last()).remove(index as int),
            FsEffect::DirRemoved => Set::empty(),
            _ => fs_frags(h.drop_last()),
        }
    }
}

/// Whether the artifact file exists after the effects `h`.
pub open spec fn fs_artifact(h: Seq<FsEffect>) -> bool
    decreases h.len(),
{
    if h.len() == 0 {
        false
    } else {
        match h.last() {
            FsEffect::ArtifactWritten => true,
            FsEffect::DirRemoved => false,
            _ => fs_artifact(h.drop_last()),
        }
    }
}

/// Whether the concatenation list file exists after the effects `h`.
pub open spec fn fs_list(h: Seq<FsEffect>) -> bool
    decreases h.len(),
{
    if h.len() == 0 {
        false
    } else {
        match h.last() {
            FsEffect::ListWritten => true,
            FsEffect::ListRemoved => false,
            FsEffect::DirRemoved => false,
            _ => fs_list(h.drop_last()),
        }
    }
}

/// The integers in `[a, b)`.
pub open spec fn range_set(a: int, b: int) -> Set<int> {
    Set::new(|i: int| a <= i < b)
}

/// The permille values of the progress events in `evs`, in order.
pub open spec fn progress_values(evs: Seq<JobEvent>) -> Seq<nat>
    decreases evs.len(),
{
    if evs.len() == 0 {
        Seq::empty()
    } else {
        let rest = progress_values(evs.drop_last());
        match evs.last() {
            JobEvent::Progress { permille, .. } => rest.push(permille as nat),
            _ => rest,
        }
    }
}

/// How many error events `evs` holds.
pub open spec fn error_count(evs: Seq<JobEvent>) -> nat
    decreases evs.len(),
{
    if evs.len() == 0 {
        0
    } else {
        error_count(evs.drop_last()) + if evs.last() is Error {
            1nat
        } else {
            0nat
        }
    }
}

/// How many completion events `evs` holds.
pub open spec fn complete_count(evs: Seq<JobEvent>) -> nat
    decreases evs.len(),
{
    if evs.len() == 0 {
        0
    } else {
        complete_count(evs.drop_last()) + if evs.last() is Complete {
            1nat
        } else {
            0nat
        }
    }
}

/// `s` never decreases.
pub open spec fn non_decreasing(s: Seq<nat>) -> bool {
    forall|i: int, j: int| 0 <= i <= j < s.len() ==> s[i] <= s[j]
}

/// One job's full state, histories included.
pub struct JobPipeline {
    /// The job's opaque id.
    pub job_id: Vec<u8>,
    /// Name of the final artifact file.
    pub artifact: Vec<u8>,
    /// The chunk texts, in order.
    pub chunks: Vec<Vec<u8>>,
    /// Lifecycle state.
    pub status: JobStatus,
    /// How many chunks have been synthesized.
    pub done: usize,
    /// Every event emitted so far, in emission order.
    pub events: Vec<JobEvent>,
    /// Every file effect requested so far, in order.
    pub effects: Vec<FsEffect>,
}

impl JobPipeline {
    /// Number of chunks.
    pub open spec fn total(self) -> nat {
        self.chunks@.len()
    }

    /// The progress permilles emitted so far.
    pub open spec fn permilles(self) -> Seq<nat> {
        progress_values(self.events@)
    }

    /// Structural part of well-formedness: counters and status agree.
    pub open spec fn wf_shape(self) -> bool {
        &&& self.done <= self.total()
        &&& match self.status {
            JobStatus::Created => self.done == 0 && self.total() == 0 && self.events@.len() == 0,
            JobStatus::Chunking => self.done == 0 && self.total() > 0 && self.events@.len() == 0,
            JobStatus::Synthesizing => self.total() > 0 && self.done < self.total(),
            JobStatus::Concatenating => self.total() > 0 && self.done == self.total(),
            JobStatus::Complete => self.total() > 0 && self.done == self.total(),
            JobStatus::Failed => true,
        }
    }

    /// File part of well-formedness: the directory model follows the state.
    pub open spec fn wf_fs(self) -> bool {
        match self.status {
            JobStatus::Created => self.effects@.len() == 0,
            JobStatus::Chunking => self.effects@.len() == 0,
            JobStatus::Synthesizing => fs_dir(self.effects@) && !fs_artifact(self.effects@)
                && !fs_list(self.effects@) && fs_frags(self.effects@) =~= range_set(
                0,
                self.done as int,
            ),
            JobStatus::Concatenating => fs_dir(self.effects@) && !fs_artifact(self.effects@)
                && !fs_list(self.effects@) && fs_frags(self.effects@) =~= range_set(
                0,
                self.done as int,
            ),
            JobStatus::Complete => fs_dir(self.effects@) && fs_artifact(self.effects@)
                && !fs_list(self.effects@) && fs_frags(self.effects@) =~= Set::<int>::empty(),
            JobStatus::Failed => !fs_dir(self.effects@) && !fs_artifact(self.effects@)
                && !fs_list(self.effects@) && fs_frags(self.effects@) =~= Set::<int>::empty(),
        }
    }

    /// Event part of well-formedness: progress is ordered and bounded, the
    /// top value appears exactly at completion, and failure and completion
    /// each come with exactly one closing event.
    pub open spec fn wf_events(self) -> bool {
        let ps = self.permilles();
        &&& non_decreasing(ps)
        &&& forall|i: int| 0 <= i < ps.len() ==> ps[i] <= 1000
        &&& match self.status {
            JobStatus::Created => ps.len() == 0,
            JobStatus::Chunking => ps.len() == 0,
            JobStatus::Synthesizing => {
                &&& forall|i: int| 0 <= i < ps.len() ==> ps[i] <= 900
                &&& self.done == 0 ==> ps.len() == 0
                &&& self.done > 0 ==> ps.len() > 0 && ps.last()
                    == progress::spec_progress_permille(self.done as nat, self.total())
            },
            JobStatus::Concatenating => ps.len() > 0 && ps.last() == 950 && forall|i: int|
                0 <= i < ps.len() ==> ps[i] <= 950,
            JobStatus::Complete => ps.len() > 0 && ps.last() == 1000 && forall|i: int|
                0 <= i < ps.len() - 1 ==> ps[i] <= 950,
            JobStatus::Failed => forall|i: int| 0 <= i < ps.len() ==> ps[i] <= 950,
        }
        &&& error_count(self.events@) == if self.status is Failed {
            1int
        } else {
            0int
        }
        &&& complete_count(self.events@) == if self.status is Complete {
            1int
        } else {
            0int
        }
    }

    /// Well-formedness: established by `new` and preserved by every step.
    pub open spec fn wf(self) -> bool {
        self.wf_shape() && self.wf_fs() && self.wf_events()
    }

    /// The progress event emitted when the chunk numbered `done` (1-based)
    /// of this job has been synthesized.
    pub open spec fn converting_event(self, done: nat) -> JobEvent {
        JobEvent::Progress {
            permille: progress::spec_progress_permille(done, self.total()) as u32,
            note: ProgressNote::Converting {
                chunk: done as usize,
                total: self.total() as usize,
            },
        }
    }
}

/// The progress event emitted before the concatenation call.
pub open spec fn combining_event() -> JobEvent {
    JobEvent::Progress { permille: 950u32, note: ProgressNote::Combining }
}

/// The progress event emitted once the artifact is ready.
pub open spec fn finished_event() -> JobEvent {
    JobEvent::Progress { permille: 1000u32, note: ProgressNote::Finished }
}

/// How one appended event changes the event summaries.
proof fn lemma_event_push(evs: Seq<JobEvent>, e: JobEvent)
    ensures
        progress_values(evs.push(e)) == (match e {
            JobEvent::Progress { permille, .. } => progress_values(evs).push(permille as nat),
            _ => progress_values(evs),
        }),
        error_count(evs.push(e)) == error_count(evs) + (if e is Error {
            1int
        } else {
            0int
        }),
        complete_count(evs.push(e)) == complete_count(evs) + (if e is Complete {
            1int
        } else {
            0int
        }),
{
    assert(evs.push(e).drop_last() =~= evs);
    assert(evs.push(e).last() == e);
}

/// How one appended effect changes the directory model.
proof fn lemma_fs_push(h: Seq<FsEffect>, e: FsEffect)
    ensures
        fs_dir(h.push(e)) == (match e {
            FsEffect::DirCreated => true,
            FsEffect::DirRemoved => false,
            _ => fs_dir(h),
        }),
        fs_frags(h.push(e)) == (match e {
            FsEffect::FragmentWritten { index } => fs_frags(h).insert(index as int),
            FsEffect::FragmentRemoved { index } => fs_frags(h).remove(index as int),
            FsEffect::DirRemoved => Set::<int>::empty(),
            _ => fs_frags(h),
        }),
        fs_artifact(h.push(e)) == (match e {
            FsEffect::ArtifactWritten => true,
            FsEffect::DirRemoved => false,
            _ => fs_artifact(h),
        }),
        fs_list(h.push(e)) == (match e {
            FsEffect::ListWritten => true,
            FsEffect::ListRemoved => false,
            FsEffect::DirRemoved => false,
            _ => fs_list(h),
        }),
{
    assert(h.push(e).drop_last() =~= h);
    assert(h.push(e).last() == e);
}

/// A non-decreasing sequence stays non-decreasing when a value at least as
/// large as its last is appended.
proof fn lemma_non_decreasing_push(s: Seq<nat>, v: nat)
    requires
        non_decreasing(s),
        s.len() > 0 ==> s.last() <= v,
    ensures
        non_decreasing(s.push(v)),
{
    let t = s.push(v);
    assert forall|i: int, j: int| 0 <= i <= j < t.len() implies t[i] <= t[j] by {
        if j < s.len() {
        } else if i < s.len() {
            assert(t[i] == s[i]);
            assert(s[i] <= s.last());
        }
    }
}

impl JobPipeline {
    /// Create a job.  The artifact is named after the requested output name
    /// if one was given, else after the job id.
    pub fn new(job_id: Vec<u8>, requested: Option<&Vec<u8>>) -> (j: JobPipeline)
        ensures
            j.wf(),
            j.status is Created,
            j.job_id@ == job_id@,
            j.artifact@ == naming::spec_final_name(
                match requested {
                    Option::Some(r) => Option::Some(r@),
                    Option::None => Option::None,
                },
                job_id@,
            ),
            j.chunks@.len() == 0,
            j.done == 0,
            j.events@.len() == 0,
            j.effects@.len() == 0,
    {
        let artifact = naming::final_name(requested, &job_id);
        JobPipeline {
            job_id,
            artifact,
            chunks: Vec::new(),
            status: JobStatus::Created,
            done: 0,
            events: Vec::new(),
            effects: Vec::new(),
        }
    }

    /// Run the chunker over the job's source text.  With no usable content
    /// the job fails at once, with one error event and before any external
    /// call is requested; otherwise it is ready to have its directory made.
    pub fn start(&mut self, text: &[u8])
        requires
            old(self).wf(),
            old(self).status is Created,
        ensures
            final(self).wf(),
            final(self).job_id@ == old(self).job_id@,
            final(self).artifact@ == old(self).artifact@,
            final(self).chunks@.map_values(|c: Vec<u8>| c@) == chunker::segments(text@),
            final(self).done == 0,
            final(self).effects@.len() == 0,
            chunker::segments(text@).len() == 0 ==> (final(self).status is Failed
                && final(self).events@.len() == 1
                && (final(self).events@[0] matches JobEvent::Error { message } && message@
                == naming::ascii_view("No text content found to convert."@))),
            chunker::segments(text@).len() > 0 ==> (final(self).status is Chunking
                && final(self).events@.len() == 0),
    {
        let chunks = chunker::chunk_text(text);
        proof {
            assert(chunks@.map_values(|c: Vec<u8>| c@).len() == chunks@.len());
        }
        self.chunks = chunks;
        if self.chunks.len() == 0 {
            proof {
                reveal_strlit("No text content found to convert.");
            }
            let message = naming::ascii_bytes("No text content found to convert.");
            let ghost evs = self.events@;
            self.events.push(JobEvent::Error { message });
            self.status = JobStatus::Failed;
            proof {
                lemma_event_push(evs, self.events@.last());
            }
        } else {
            self.status = JobStatus::Chunking;
        }
    }

    /// The external call the job waits on, if any.  A terminal job, and one
    /// not yet started, waits on nothing.
    pub fn next_action(&self) -> (a: Option<JobAction>)
        requires
            self.wf(),
        ensures
            match self.status {
                JobStatus::Created => a is None,
                JobStatus::Chunking => a matches Some(JobAction::CreateDir),
                JobStatus::Synthesizing => (a matches Some(
                    JobAction::Synthesize { index, fragment, args },
                ) && index == self.done && fragment@ == naming::spec_fragment_name(
                    (self.done + 1) as nat,
                ) && args@.map_values(|x: Vec<u8>| x@) == naming::spec_synth_args(
                    naming::spec_fragment_name((self.done + 1) as nat),
                    self.chunks@[self.done as int]@,
                )),
                JobStatus::Concatenating => (a matches Some(
                    JobAction::Concatenate { list, manifest, args },
                ) && list@ == naming::spec_list_name() && manifest@ == naming::spec_manifest(
                    self.total(),
                ) && args@.map_values(|x: Vec<u8>| x@) == naming::spec_concat_args(
                    self.artifact@,
                )),
                JobStatus::Complete => a is None,
                JobStatus::Failed => a is None,
            },
    {
        match self.status {
            JobStatus::Chunking => Some(JobAction::CreateDir),
            JobStatus::Synthesizing => {
                let t = self.chunks.len();
                proof {
                    assert(self.done < t);
                }
                let fragment = naming::fragment_name((self.done + 1) as u64);
                let args = naming::synth_args(&fragment, &self.chunks[self.done]);
                Some(JobAction::Synthesize { index: self.done, fragment, args })
            },
            JobStatus::Concatenating => {
                let list = naming::list_name();
                let manifest = naming::manifest_content(self.chunks.len() as u64);
                let args = naming::concat_args(&self.artifact);
                Some(JobAction::Concatenate { list, manifest, args })
            },
            JobStatus::Created => None,
            JobStatus::Complete => None,
            JobStatus::Failed => None,
        }
    }

    /// Consume the outcome of the pending action and move on.
    ///
    /// Any failure is final: the job fails, emits exactly one error event
    /// carrying the reported message, and — once its directory exists —
    /// has the whole directory removed, fragments and all.  No further
    /// synthesis is attempted and no concatenation follows a failed chunk.
    ///
    /// A success advances the lifecycle: the directory is created, or one
    /// more fragment is recorded with its progress event, or the artifact
    /// is recorded, the fragments are removed in index order, and the
    /// completion event and the final progress event go out.
    pub fn step(&mut self, outcome: Outcome)
        requires
            old(self).wf(),
            !is_terminal(old(self).status),
            !(old(self).status is Created),
        ensures
            final(self).wf(),
            status_rank(final(self).status) >= status_rank(old(self).status),
            final(self).job_id@ == old(self).job_id@,
            final(self).artifact@ == old(self).artifact@,
            final(self).chunks@ == old(self).chunks@,
            outcome matches Outcome::Failure { message } ==> (final(self).status is Failed
                && final(self).done == old(self).done
                && final(self).events@ == old(self).events@.push(JobEvent::Error { message: message })
                && (old(self).status is Chunking ==> final(self).effects@ == old(self).effects@)
                && (old(self).status is Synthesizing
                    ==> final(self).effects@ == old(self).effects@.push(FsEffect::DirRemoved))
                && (old(self).status is Concatenating
                    ==> final(self).effects@ == old(self).effects@.push(FsEffect::ListWritten).push(FsEffect::ListRemoved).push(FsEffect::DirRemoved))),
            (outcome is Success && old(self).status is Chunking) ==> (final(self).status is Synthesizing
                && final(self).done == 0
                && final(self).events@ == old(self).events@
                && final(self).effects@ == old(self).effects@.push(FsEffect::DirCreated)),
            (outcome is Success && old(self).status is Synthesizing) ==> (final(self).done == old(self).done + 1
                && final(self).effects@ == old(self).effects@.push(FsEffect::FragmentWritten { index: old(self).done })),
            (outcome is Success && old(self).status is Synthesizing && old(self).done + 1 < old(self).total())
                ==> (final(self).status is Synthesizing
                    && final(self).events@ == old(self).events@.push(old(self).converting_event((old(self).done + 1) as nat))),
            (outcome is Success && old(self).status is Synthesizing && old(self).done + 1 == old(self).total())
                ==> (final(self).status is Concatenating
                    && final(self).events@ == old(self).events@.push(old(self).converting_event((old(self).done + 1) as nat)).push(combining_event())),
            (outcome is Success && old(self).status is Concatenating) ==> (final(self).status is Complete
                && final(self).done == old(self).done
                && final(self).events@.len() == old(self).events@.len() + 2
                && final(self).events@.subrange(0, old(self).events@.len() as int) == old(self).events@
                && (final(self).events@[old(self).events@.len() as int] matches JobEvent::Complete { artifact, locator }
                    && artifact@ == old(self).artifact@
                    && locator@ == naming::spec_download_path(old(self).job_id@, old(self).artifact@))
                && final(self).events@.last() == finished_event()
                && final(self).effects@.len() == old(self).effects@.len() + 3 + old(self).total()
                && final(self).effects@.subrange(0, old(self).effects@.len() as int) == old(self).effects@
                && final(self).effects@[old(self).effects@.len() as int] == FsEffect::ListWritten
                && final(self).effects@[old(self).effects@.len() as int + 1] == FsEffect::ArtifactWritten
                && final(self).effects@[old(self).effects@.len() as int + 2] == FsEffect::ListRemoved
                && (forall|j: int| 0 <= j < old(self).total()
                    ==> #[trigger] final(self).effects@[old(self).effects@.len() as int + 3 + j] == (FsEffect::FragmentRemoved { index: j as usize }))),
    {
        let ghost evs0 = self.events@;
        let ghost eff0 = self.effects@;
        match outcome {
            Outcome::Failure { message } => {
                self.events.push(JobEvent::Error { message });
                proof {
                    lemma_event_push(evs0, self.events@.last());
                }
                match self.status {
                    JobStatus::Chunking => {},
                    JobStatus::Concatenating => {
                        self.effects.push(FsEffect::ListWritten);
                        let ghost eff1 = self.effects@;
                        self.effects.push(FsEffect::ListRemoved);
                        let ghost eff2 = self.effects@;
                        self.effects.push(FsEffect::DirRemoved);
                        proof {
                            lemma_fs_push(eff0, FsEffect::ListWritten);
                            lemma_fs_push(eff1, FsEffect::ListRemoved);
                            lemma_fs_push(eff2, FsEffect::DirRemoved);
                        }
                    },
                    _ => {
                        self.effects.push(FsEffect::DirRemoved);
                        proof {
                            lemma_fs_push(eff0, FsEffect::DirRemoved);
                        }
                    },
                }
                self.status = JobStatus::Failed;
            },
            Outcome::Success => {
                match self.status {
                    JobStatus::Chunking => {
                        self.effects.push(FsEffect::DirCreated);
                        self.status = JobStatus::Synthesizing;
                        proof {
                            lemma_fs_push(eff0, FsEffect::DirCreated);
                            assert(fs_frags(self.effects@) =~= range_set(0, 0));
                        }
                    },
                    JobStatus::Synthesizing => {
                        let total = self.chunks.len();
                        let idx = self.done;
                        self.effects.push(FsEffect::FragmentWritten { index: idx });
                        self.done = idx + 1;
                        proof {
                            lemma_fs_push(eff0, FsEffect::FragmentWritten { index: idx });
                            assert(fs_frags(self.effects@) =~= range_set(0, self.done as int));
                        }
                        let p = progress::progress_permille(self.done, total);
                        proof {
                            progress::lemma_progress_monotone(
                                idx as nat,
                                self.done as nat,
                                total as nat,
                            );
                            if idx > 0 {
                                assert(progress_values(evs0).last()
                                    == progress::spec_progress_permille(
                                    idx as nat,
                                    total as nat,
                                ));
                            }
                            lemma_non_decreasing_push(progress_values(evs0), p as nat);
                        }
                        let note = ProgressNote::Converting { chunk: self.done, total };
                        self.events.push(JobEvent::Progress { permille: p, note });
                        proof {
                            lemma_event_push(evs0, self.events@.last());
                        }
                        if self.done == total {
                            let ghost evs1 = self.events@;
                            proof {
                                lemma_non_decreasing_push(progress_values(evs1), 950nat);
                            }
                            self.events.push(
                                JobEvent::Progress {
                                    permille: 950,
                                    note: ProgressNote::Combining,
                                },
                            );
                            self.status = JobStatus::Concatenating;
                            proof {
                                lemma_event_push(evs1, self.events@.last());
                            }
                        }
                    },
                    JobStatus::Concatenating => {
                        self.effects.push(FsEffect::ListWritten);
                        let ghost effa = self.effects@;
                        self.effects.push(FsEffect::ArtifactWritten);
                        let ghost effb = self.effects@;
                        self.effects.push(FsEffect::ListRemoved);
                        proof {
                            lemma_fs_push(eff0, FsEffect::ListWritten);
                            lemma_fs_push(effa, FsEffect::ArtifactWritten);
                            lemma_fs_push(effb, FsEffect::ListRemoved);
                        }
                        let locator = naming::download_path(&self.job_id, &self.artifact);
                        let artifact = naming::copy_bytes(&self.artifact);
                        self.events.push(JobEvent::Complete { artifact, locator });
                        proof {
                            lemma_event_push(evs0, self.events@.last());
                        }
                        let ghost evs1 = self.events@;
                        proof {
                            lemma_non_decreasing_push(progress_values(evs1), 1000nat);
                        }
                        self.events.push(
                            JobEvent::Progress { permille: 1000, note: ProgressNote::Finished },
                        );
                        proof {
                            lemma_event_push(evs1, self.events@.last());
                        }
                        let total = self.chunks.len();
                        let ghost base = self.effects@;
                        let ghost evs2 = self.events@;
                        let ghost jid0 = self.job_id@;
                        let ghost art0 = self.artifact@;
                        let ghost ch0 = self.chunks@;
                        let ghost d0 = self.done;
                        let mut k: usize = 0;
                        proof {
                            assert(fs_frags(self.effects@) =~= range_set(0, total as int));
                        }
                        while k < total
                            invariant
                                0 <= k <= total,
                                self.chunks@.len() == total,
                                self.job_id@ == jid0,
                                self.artifact@ == art0,
                                self.chunks@ == ch0,
                                self.done == d0,
                                self.status is Concatenating,
                                self.events@ == evs2,
                                self.effects@.len() == base.len() + k,
                                self.effects@.subrange(0, base.len() as int) == base,
                                forall|j: int|
                                    0 <= j < k ==> #[trigger] self.effects@[base.len() + j]
                                        == (FsEffect::FragmentRemoved { index: j as usize }),
                                fs_dir(self.effects@),
                                fs_artifact(self.effects@),
                                !fs_list(self.effects@),
                                fs_frags(self.effects@) =~= range_set(k as int, total as int),
                            decreases total - k,
                        {
                            let ghost effk = self.effects@;
                            self.effects.push(FsEffect::FragmentRemoved { index: k });
                            proof {
                                lemma_fs_push(effk, FsEffect::FragmentRemoved { index: k });
                                assert(fs_frags(self.effects@) =~= range_set(
                                    k + 1,
                                    total as int,
                                ));
                                assert(self.effects@.subrange(0, base.len() as int) =~= base);
                            }
                            k = k + 1;
                        }
                        self.status = JobStatus::Complete;
                        proof {
                            assert(fs_frags(self.effects@) =~= Set::<int>::empty());
                            assert(self.effects@.subrange(0, eff0.len() as int) =~= eff0);
                            let pre = self.effects@.subrange(0, base.len() as int);
                            assert(self.effects@[eff0.len() as int] == pre[eff0.len() as int]);
                            assert(self.effects@[eff0.len() as int + 1] == pre[eff0.len() as int
                                + 1]);
                            assert(self.effects@[eff0.len() as int + 2] == pre[eff0.len() as int
                                + 2]);
                        }
                    },
                    JobStatus::Created => {
                        proof {
                            assert(false);
                        }
                    },
                    JobStatus::Complete => {
                        proof {
                            assert(false);
                        }
                    },
                    JobStatus::Failed => {
                        proof {
                            assert(false);
                        }
                    },
                }
            },
        }
    }
}

/// For any job, the emitted progress fractions never decrease and stay in
/// `[0, 1000]`; the value 1000 is emitted exactly once, as the last
/// progress event, and only when the job completes.
pub proof fn lemma_progress_trace(j: JobPipeline)
    requires
        j.wf(),
    ensures
        non_decreasing(j.permilles()),
        forall|i: int| 0 <= i < j.permilles().len() ==> j.permilles()[i] <= 1000,
        j.status is Complete ==> j.permilles().len() > 0 && j.permilles().last() == 1000,
        j.status is Complete ==> forall|i: int|
            0 <= i < j.permilles().len() - 1 ==> j.permilles()[i] < 1000,
        !(j.status is Complete) ==> forall|i: int|
            0 <= i < j.permilles().len() ==> j.permilles()[i] < 1000,
{
}

/// Once a job is terminal its directory holds nothing it should not: a
/// failed job's directory is gone with every fragment in it, and a complete
/// job's directory holds the artifact and nothing else.
pub proof fn lemma_cleanup(j: JobPipeline)
    requires
        j.wf(),
        is_terminal(j.status),
    ensures
        j.status is Failed ==> !fs_dir(j.effects@) && !fs_artifact(j.effects@) && !fs_list(
            j.effects@,
        ) && fs_frags(j.effects@) =~= Set::<int>::empty(),
        j.status is Complete ==> fs_dir(j.effects@) && fs_artifact(j.effects@) && !fs_list(
            j.effects@,
        ) && fs_frags(j.effects@) =~= Set::<int>::empty(),
{
}

/// Every failure emits exactly one error event and every completion exactly
/// one completion event; neither appears in any other state.
pub proof fn lemma_one_closing_event(j: JobPipeline)
    requires
        j.wf(),
    ensures
        error_count(j.events@) == if j.status is Failed {
            1int
        } else {
            0int
        },
        complete_count(j.events@) == if j.status is Complete {
            1int
        } else {
            0int
        },
{
}

} // verus!
