//! The capability-resolving dependency orchestrator.
//!
//! The orchestrator owns an immutable index of datums and guarantees that
//! whatever a requested datum needs is running before the caller proceeds. It
//! is written as an explicit state machine: a resolution in progress is a
//! [`Run`] holding a stack of work frames, and [`Orchestrator::step`] advances
//! it by one transition. Whenever the machine needs the outside world — a
//! container state query, a container create or restart — it hands the caller
//! an [`Action`]; the caller performs it against the real container runtime
//! and feeds the outcome back as an [`Event`]. Everything the machine decides
//! (which dependency to start, which capability candidate to try next, when to
//! fall back, when to time out) happens in verified code; only the process
//! invocations themselves live outside it.
use vstd::prelude::*;
use crate::capability::{
    candidates_for, find_candidates, lemma_ordered_permutes, order_candidates, ordered_candidates,
};
use crate::datum::{BootDatum, DatumType, key_of, string_eq};
use crate::text::str_eq;

verus! {

/// Observed state of a container, re-derived from the runtime on every query.
#[derive(Clone, Copy, PartialEq, Eq, Structural, Debug)]
pub enum ContainerState {
    Absent,
    Stopped,
    Running,
}

/// How many times a readiness wait polls the container state before failing.
pub const READY_ATTEMPTS: u32 = 30;

/// Milliseconds a driver should sleep between two readiness polls.
pub const POLL_INTERVAL_MS: u64 = 200;

/// Milliseconds of grace a driver should allow after a container first
/// reports running.
pub const GRACE_DELAY_MS: u64 = 500;

/// An invocation of the container runtime that the machine asks its caller to
/// perform.
#[derive(Clone, PartialEq, Eq, Debug)]
pub enum Action {
    /// Query the state of the container with exactly this name.
    Observe { name: String },
    /// Restart the existing, stopped container with this name.
    Start { name: String },
    /// Create a container: `run -d --name <name> [args..] [-e K=V..] <image>`.
    Create { name: String, image: String, args: Vec<String>, env: Vec<(String, String)> },
}

/// The outcome of the previous action, fed back into the machine.
#[derive(Clone, PartialEq, Eq, Debug)]
pub enum Event {
    /// No action was pending; let the machine take its next internal step.
    Tick,
    /// Outcome of an `Observe` action.
    Observed(ContainerState),
    /// A `Start` or `Create` invocation exited successfully.
    ExecOk,
    /// A `Start` or `Create` invocation exited non-zero; the runtime's error
    /// text is attached.
    ExecFailed(String),
    /// No supported container runtime is available to perform the action.
    RuntimeMissing,
}

/// Why a resolution failed.
#[derive(Clone, PartialEq, Eq, Debug)]
pub enum OrchError {
    /// The requested datum key is absent from the index.
    NotFound(String),
    /// Neither supported container engine is invocable.
    RuntimeUnavailable,
    /// A runtime invocation for this container returned non-zero exit; the
    /// runtime's error text is attached.
    ExecutionFailure(String, String),
    /// The container never reported running within the bounded poll window.
    ReadinessTimeout(String),
    /// No candidate and no usable fallback satisfied this capability.
    CapabilityUnresolved(String),
    /// A Docker datum has no image to create its container from.
    MissingImage(String),
    /// Resolving this capability requires resolving it again: the capability
    /// graph is cyclic.
    CycleDetected(String),
}

/// What the machine tells its caller after each transition.
#[derive(PartialEq, Eq, Debug)]
pub enum Step {
    /// Perform this action and feed its outcome back as the next event.
    Do(Action),
    /// Nothing outside is needed; feed `Event::Tick` next.
    Again,
    /// The resolution is over: the names of the services that were started,
    /// or the error that ended it.
    Done(Result<Vec<String>, OrchError>),
}

/// Progress of one container's lifecycle, from first probe to readiness.
#[derive(Clone, PartialEq, Eq, Debug)]
pub enum LifePhase {
    /// Asking whether the dependency is already running.
    Probe,
    /// It was not: asking whether its container exists, and in what state.
    Exists,
    /// A create or restart was issued; waiting for its exit status.
    Starting,
    /// Polling for readiness; the payload counts the polls already answered.
    Waiting(u32),
}

/// Whether a capability frame is picking a candidate, waiting on one, or
/// waiting on its fallback.
#[derive(Clone, PartialEq, Eq, Debug)]
pub enum CapState {
    /// No candidate in flight: the next tick picks one, or falls back.
    Idle,
    /// The frames above belong to the candidate currently being tried.
    Attempt,
    /// The frames above belong to the fallback provider.
    Fallback,
}

/// One unit of pending work on a resolution's stack.
#[derive(Clone, PartialEq, Eq, Debug)]
pub enum Frame {
    /// Walking the explicit dependencies of the datum at index `d`; the next
    /// one to look at is `depends_on[i]`.
    Deps { d: usize, i: usize },
    /// Walking the capability requirements of the datum at index `d`; the
    /// next one to look at is `requires[j]`.
    Reqs { d: usize, j: usize },
    /// Resolving one capability: the candidates to try in order, how many
    /// have been tried (`k`), where the started list stood when resolution
    /// began (`mark`, for discarding a failed candidate's partial starts),
    /// and what the frames above belong to.
    Cap {
        capability: String,
        fallback: Option<String>,
        cands: Vec<usize>,
        k: usize,
        mark: usize,
        state: CapState,
    },
    /// Driving the container of the dependency with key `key`, datum index
    /// `d`, to the running state.
    Life { key: String, d: usize, phase: LifePhase },
}

/// A resolution in progress: a stack of frames and the services started so
/// far. Created by [`Orchestrator::ensure_dependencies`], advanced by
/// [`Orchestrator::step`].
#[derive(Debug)]
pub struct Run {
    pub frames: Vec<Frame>,
    pub started: Vec<String>,
    pub finished: bool,
}

/// The orchestrator: an immutable, construction-time-loaded index of datums.
#[derive(Debug)]
pub struct Orchestrator {
    pub datums: Vec<BootDatum>,
}

/// Well-formedness of a single frame against the index.
pub open spec fn frame_wf(datums: Seq<BootDatum>, f: Frame) -> bool {
    match f {
        Frame::Deps { d, i } => d < datums.len(),
        Frame::Reqs { d, j } => d < datums.len(),
        Frame::Cap { cands, k, .. } => {
            &&& forall|p: int| 0 <= p < cands@.len() ==> cands@[p] < datums.len()
            &&& k <= cands@.len()
        },
        Frame::Life { d, phase, .. } => {
            &&& d < datums.len()
            &&& (phase matches LifePhase::Waiting(a) ==> a < READY_ATTEMPTS)
        },
    }
}

impl Run {
    /// Every frame is well formed, and the rollback marks of capability
    /// frames are monotone along the stack and within the started list.
    pub open spec fn wf(self, o: Orchestrator) -> bool {
        &&& forall|p: int|
            0 <= p < self.frames@.len() ==> frame_wf(o.datums@, #[trigger] self.frames@[p])
        &&& forall|p: int|
            0 <= p < self.frames@.len() ==> (#[trigger] self.frames@[p] matches Frame::Cap {
                mark,
                ..
            } ==> mark <= self.started@.len())
        &&& forall|p: int, q: int|
            0 <= p < q < self.frames@.len() ==> match (
                #[trigger] self.frames@[p],
                #[trigger] self.frames@[q],
            ) {
                (Frame::Cap { mark: mp, .. }, Frame::Cap { mark: mq, .. }) => mp <= mq,
                _ => true,
            }
    }

    /// The machine is waiting for the outcome of an `Observe` action.
    pub open spec fn awaiting_observation(self) -> bool {
        self.frames@.len() > 0 && match self.frames@.last() {
            Frame::Life { phase, .. } => phase != LifePhase::Starting,
            _ => false,
        }
    }

    /// The machine is waiting for the exit status of a `Start` or `Create`.
    pub open spec fn awaiting_exec(self) -> bool {
        self.frames@.len() > 0 && match self.frames@.last() {
            Frame::Life { phase, .. } => phase == LifePhase::Starting,
            _ => false,
        }
    }

    /// Which events the machine accepts in its current state.
    pub open spec fn accepts(self, ev: Event) -> bool {
        &&& !self.finished
        &&& match ev {
            Event::Tick => !self.awaiting_observation() && !self.awaiting_exec(),
            Event::Observed(_) => self.awaiting_observation(),
            Event::ExecOk | Event::ExecFailed(_) => self.awaiting_exec(),
            Event::RuntimeMissing => self.awaiting_observation() || self.awaiting_exec(),
        }
    }
}

/// Index of the topmost capability frame with a candidate attempt in flight —
/// the frame that catches a failure below it — or `-1` when a failure reaches
/// the caller.
pub open spec fn catch_pos(frames: Seq<Frame>) -> int
    decreases frames.len(),
{
    if frames.len() == 0 {
        -1
    } else if frames.last() matches Frame::Cap { state: CapState::Attempt, .. } {
        frames.len() - 1
    } else {
        catch_pos(frames.drop_last())
    }
}

/// How a failure `e` leaves the machine: caught by the innermost candidate
/// attempt — whose partial starts are discarded and whose capability frame
/// goes back to picking candidates — or, with no attempt in flight, ending
/// the run with `Err(e)`. A fallback in flight does not catch: its failure
/// is the capability's failure.
pub open spec fn failure_outcome(old_run: Run, new_run: Run, s: Step, e: OrchError) -> bool {
    let c = catch_pos(old_run.frames@);
    if c >= 0 {
        &&& s == Step::Again
        &&& !new_run.finished
        &&& new_run.frames@.len() == c + 1
        &&& forall|p: int| 0 <= p < c ==> new_run.frames@[p] == old_run.frames@[p]
        &&& match old_run.frames@[c] {
            Frame::Cap { capability, fallback, cands, k, mark, state } => {
                &&& new_run.frames@[c] == (Frame::Cap {
                    capability,
                    fallback,
                    cands,
                    k,
                    mark,
                    state: CapState::Idle,
                })
                &&& new_run.started@ == old_run.started@.subrange(0, mark as int)
            },
            _ => false,
        }
    } else {
        &&& s == Step::Done(Err(e))
        &&& new_run.finished
        &&& new_run.started@ == old_run.started@
    }
}

/// The index of the first datum at or after `p` whose key is `key`, or `-1`.
pub open spec fn key_match_from(datums: Seq<BootDatum>, key: Seq<char>, p: nat) -> int
    decreases datums.len() - p,
{
    if p >= datums.len() {
        -1
    } else if key_of(datums[p as int]) == key {
        p as int
    } else {
        key_match_from(datums, key, p + 1)
    }
}

/// The index of the first `Api` datum at or after `p` named `name`, or `-1`.
pub open spec fn api_match_from(datums: Seq<BootDatum>, name: Seq<char>, p: nat) -> int
    decreases datums.len() - p,
{
    if p >= datums.len() {
        -1
    } else if datums[p as int].name@ == name && datums[p as int].datum_type == Some(
        DatumType::Api,
    ) {
        p as int
    } else {
        api_match_from(datums, name, p + 1)
    }
}

/// A capability frame for capability `c` is on the stack: resolving `c` again
/// would recurse forever.
pub open spec fn stack_has_cap(frames: Seq<Frame>, c: Seq<char>) -> bool {
    exists|p: int|
        0 <= p < frames.len() && (#[trigger] frames[p] matches Frame::Cap { capability, .. }
            && capability@ == c)
}

/// The candidates the resolver will try for `cap`, in order: all providers in
/// index order when there is no preference list, otherwise stably sorted by
/// preference rank.
pub open spec fn candidate_plan(
    datums: Seq<BootDatum>,
    cap: Seq<char>,
    prefer: Option<Vec<String>>,
) -> Seq<usize> {
    match prefer {
        Some(p) => ordered_candidates(datums, candidates_for(datums, cap), p@),
        None => candidates_for(datums, cap),
    }
}

/// The top frame was replaced by `f`; nothing else moved.
pub open spec fn replaced_top(old_run: Run, new_run: Run, f: Frame) -> bool {
    &&& new_run.frames@ == old_run.frames@.drop_last().push(f)
    &&& new_run.started@ == old_run.started@
    &&& !new_run.finished
}

/// The top frame was popped; nothing else moved.
pub open spec fn popped_top(old_run: Run, new_run: Run) -> bool {
    &&& new_run.frames@ == old_run.frames@.drop_last()
    &&& new_run.started@ == old_run.started@
    &&& !new_run.finished
}

/// What a tick does to a `Deps { d, i }` frame on top: past the end of
/// `depends_on` the frame is popped; a missing dependency key is skipped
/// silently; a dependency that is not a `Docker` datum never needs starting
/// and is skipped; a `Docker` dependency opens its container lifecycle with a
/// probe of its current state.
pub open spec fn deps_transition(
    o: Orchestrator,
    old_run: Run,
    new_run: Run,
    s: Step,
    d: usize,
    i: usize,
) -> bool {
    let datum = o.datums@[d as int];
    if i >= datum.depends_on@.len() {
        &&& popped_top(old_run, new_run)
        &&& s == Step::Again
    } else {
        let depkey = datum.depends_on@[i as int];
        let m = key_match_from(o.datums@, depkey@, 0);
        if m >= 0 && o.datums@[m].datum_type == Some(DatumType::Docker) {
            &&& new_run.frames@ == old_run.frames@.drop_last().push(
                Frame::Deps { d, i: (i + 1) as usize },
            ).push(Frame::Life { key: depkey, d: m as usize, phase: LifePhase::Probe })
            &&& new_run.started@ == old_run.started@
            &&& !new_run.finished
            &&& s == Step::Do(Action::Observe { name: o.datums@[m].name })
        } else {
            &&& replaced_top(old_run, new_run, Frame::Deps { d, i: (i + 1) as usize })
            &&& s == Step::Again
        }
    }
}

/// What a tick does to a `Reqs { d, j }` frame on top: past the end of
/// `requires` the frame is popped; a requirement without a capability (or
/// with an empty one) is skipped; a capability already being resolved lower
/// on the stack fails the run as cyclic; otherwise a capability frame is
/// opened with the planned candidate order and a rollback mark.
pub open spec fn reqs_transition(
    o: Orchestrator,
    old_run: Run,
    new_run: Run,
    s: Step,
    d: usize,
    j: usize,
) -> bool {
    let datum = o.datums@[d as int];
    if j >= datum.requires@.len() {
        &&& popped_top(old_run, new_run)
        &&& s == Step::Again
    } else {
        let req = datum.requires@[j as int].1;
        match req.capability {
            Some(c) => {
                if c@.len() == 0 {
                    &&& replaced_top(old_run, new_run, Frame::Reqs { d, j: (j + 1) as usize })
                    &&& s == Step::Again
                } else if stack_has_cap(old_run.frames@, c@) {
                    failure_outcome(old_run, new_run, s, OrchError::CycleDetected(c))
                } else {
                    &&& new_run.frames@.len() == old_run.frames@.len() + 1
                    &&& new_run.frames@.subrange(0, new_run.frames@.len() - 1)
                        == old_run.frames@.drop_last().push(
                        Frame::Reqs { d, j: (j + 1) as usize },
                    )
                    &&& (new_run.frames@.last() matches Frame::Cap {
                        capability,
                        fallback,
                        cands,
                        k,
                        mark,
                        state,
                    } && {
                        &&& capability == c
                        &&& fallback == req.fallback
                        &&& cands@ == candidate_plan(o.datums@, c@, req.prefer)
                        &&& k == 0
                        &&& mark == old_run.started@.len()
                        &&& state == CapState::Idle
                    })
                    &&& new_run.started@ == old_run.started@
                    &&& !new_run.finished
                    &&& s == Step::Again
                }
            },
            None => {
                &&& replaced_top(old_run, new_run, Frame::Reqs { d, j: (j + 1) as usize })
                &&& s == Step::Again
            },
        }
    }
}

/// What a tick does to a capability frame on top. Control only returns to a
/// capability frame with an attempt or fallback in flight when the frames
/// above it finished successfully, so the frame is popped: the capability is
/// satisfied and the remaining candidates are never tried. An idle frame
/// tries the next candidate in order; past the last candidate it turns to the
/// fallback, which must name an existing `Api` datum; failing that, the
/// capability is unresolved.
pub open spec fn cap_transition(
    o: Orchestrator,
    old_run: Run,
    new_run: Run,
    s: Step,
    capability: String,
    fallback: Option<String>,
    cands: Vec<usize>,
    k: usize,
    mark: usize,
    state: CapState,
) -> bool {
    match state {
        CapState::Attempt | CapState::Fallback => {
            &&& popped_top(old_run, new_run)
            &&& s == Step::Again
        },
        CapState::Idle => {
            if k < cands@.len() {
                let dd = cands@[k as int];
                &&& new_run.frames@ == old_run.frames@.drop_last().push(
                    Frame::Cap {
                        capability,
                        fallback,
                        cands,
                        k: (k + 1) as usize,
                        mark,
                        state: CapState::Attempt,
                    },
                ).push(Frame::Reqs { d: dd, j: 0 }).push(Frame::Deps { d: dd, i: 0 })
                &&& new_run.started@ == old_run.started@
                &&& !new_run.finished
                &&& s == Step::Again
            } else {
                match fallback {
                    Some(f) => {
                        let m = api_match_from(o.datums@, f@, 0);
                        if m >= 0 {
                            &&& new_run.frames@ == old_run.frames@.drop_last().push(
                                Frame::Cap {
                                    capability,
                                    fallback: Some(f),
                                    cands,
                                    k,
                                    mark,
                                    state: CapState::Fallback,
                                },
                            ).push(Frame::Reqs { d: m as usize, j: 0 }).push(
                                Frame::Deps { d: m as usize, i: 0 },
                            )
                            &&& new_run.started@ == old_run.started@
                            &&& !new_run.finished
                            &&& s == Step::Again
                        } else {
                            failure_outcome(
                                old_run,
                                new_run,
                                s,
                                OrchError::CapabilityUnresolved(capability),
                            )
                        }
                    },
                    None => failure_outcome(
                        old_run,
                        new_run,
                        s,
                        OrchError::CapabilityUnresolved(capability),
                    ),
                }
            }
        },
    }
}

/// What an observation does to the container lifecycle on top of the stack.
/// This is the per-container state machine: a dependency observed running at
/// the probe is left alone; one whose container exists stopped is restarted;
/// one whose container is absent is created from its image; after a create or
/// restart the machine polls, and gives up after `READY_ATTEMPTS` polls.
pub open spec fn life_observed(
    o: Orchestrator,
    old_run: Run,
    new_run: Run,
    s: Step,
    key: String,
    d: usize,
    phase: LifePhase,
    st: ContainerState,
) -> bool {
    let datum = o.datums@[d as int];
    match phase {
        LifePhase::Probe => {
            if st == ContainerState::Running {
                &&& popped_top(old_run, new_run)
                &&& s == Step::Again
            } else {
                &&& replaced_top(old_run, new_run, Frame::Life { key, d, phase: LifePhase::Exists })
                &&& s == Step::Do(Action::Observe { name: datum.name })
            }
        },
        LifePhase::Exists => match st {
            ContainerState::Running => {
                &&& new_run.frames@ == old_run.frames@.drop_last()
                &&& new_run.started@ == old_run.started@.push(key)
                &&& !new_run.finished
                &&& s == Step::Again
            },
            ContainerState::Stopped => {
                &&& replaced_top(old_run, new_run, Frame::Life { key, d, phase: LifePhase::Starting })
                &&& s == Step::Do(Action::Start { name: datum.name })
            },
            ContainerState::Absent => match datum.image {
                Some(img) => {
                    &&& replaced_top(
                        old_run,
                        new_run,
                        Frame::Life { key, d, phase: LifePhase::Starting },
                    )
                    &&& (s matches Step::Do(Action::Create { name, image, args, env }) && {
                        &&& name == datum.name
                        &&& image == img
                        &&& args@ == datum.docker_args@
                        &&& env@ == datum.env@
                    })
                },
                None => failure_outcome(old_run, new_run, s, OrchError::MissingImage(datum.name)),
            },
        },
        LifePhase::Starting => true,  // an observation is never pending in this phase
        LifePhase::Waiting(a) => {
            if st == ContainerState::Running {
                &&& new_run.frames@ == old_run.frames@.drop_last()
                &&& new_run.started@ == old_run.started@.push(key)
                &&& !new_run.finished
                &&& s == Step::Again
            } else if a + 1 < READY_ATTEMPTS {
                &&& replaced_top(
                    old_run,
                    new_run,
                    Frame::Life { key, d, phase: LifePhase::Waiting((a + 1) as u32) },
                )
                &&& s == Step::Do(Action::Observe { name: datum.name })
            } else {
                failure_outcome(old_run, new_run, s, OrchError::ReadinessTimeout(datum.name))
            }
        },
    }
}

/// Every record of `sub` is one of the records of `sup`.
pub open spec fn drawn_from(sub: Seq<BootDatum>, sup: Seq<BootDatum>) -> bool {
    forall|j: int|
        0 <= j < sub.len() ==> exists|i: int|
            0 <= i < sup.len() && #[trigger] sub[j] == #[trigger] sup[i]
}

impl Orchestrator {
    /// Whether some datum in the index has this key.
    pub open spec fn has_key(self, key: Seq<char>) -> bool {
        exists|j: int| 0 <= j < self.datums@.len() && key_of(self.datums@[j]) == key
    }

    /// Keys are unique across the index.
    pub open spec fn keys_unique(self) -> bool {
        forall|p: int, q: int|
            0 <= p < q < self.datums@.len() ==> key_of(self.datums@[p]) != key_of(
                self.datums@[q],
            )
    }

    /// Builds the orchestrator from loaded datums. A datum whose key repeats
    /// an earlier one replaces it, so the index keeps the last datum of each
    /// key and every key exactly once.
    pub fn new(datums: Vec<BootDatum>) -> (r: Orchestrator)
        ensures
            r.keys_unique(),
            // every element of the index came from the input
            drawn_from(r.datums@, datums@),
            // every input key is in the index
            forall|i: int|
                0 <= i < datums@.len() ==> r.has_key(key_of(#[trigger] datums@[i])),
    {
        let ghost all = datums@;
        let mut rest = datums;
        let mut index: Vec<BootDatum> = Vec::new();
        let ghost mut i: int = 0;
        proof {
            assert(rest@ =~= all.skip(0));
        }
        while rest.len() > 0
            invariant
                0 <= i <= all.len(),
                rest@ == all.skip(i),
                forall|p: int, q: int|
                    0 <= p < q < index@.len() ==> key_of(index@[p]) != key_of(index@[q]),
                drawn_from(index@, all),
                forall|ii: int|
                    0 <= ii < i ==> exists|j: int|
                        0 <= j < index@.len() && key_of(#[trigger] all[ii]) == key_of(index@[j]),
            decreases rest@.len(),
        {
            let ghost rest_prev = rest@;
            let d = rest.remove(0);
            proof {
                assert(rest@ =~= all.skip(i + 1));
                assert(d == all[i]);
            }
            let key = d.make_key();
            let ghost prev = index@;
            match find_by_key(&index, key.as_str()) {
                Some(j) => {
                    index[j] = d;
                    proof {
                        assert forall|jj: int| 0 <= jj < index@.len() implies exists|i2: int|
                            0 <= i2 < all.len() && #[trigger] index@[jj] == #[trigger] all[i2] by {
                            if jj == j {
                                assert(index@[jj] == all[i]);
                            } else {
                                let i2 = choose|i2: int|
                                    0 <= i2 < all.len() && prev[jj] == #[trigger] all[i2];
                                assert(index@[jj] == all[i2]);
                            }
                        }
                        assert(drawn_from(index@, all));
                        assert forall|p: int, q: int|
                            0 <= p < q < index@.len() implies key_of(index@[p]) != key_of(
                            index@[q],
                        ) by {
                            assert(key_of(index@[j as int]) == key_of(prev[j as int]));
                            if p != j {
                                assert(index@[p] == prev[p]);
                            }
                            if q != j {
                                assert(index@[q] == prev[q]);
                            }
                        }
                        assert forall|ii: int| 0 <= ii < i + 1 implies exists|jj: int|
                            0 <= jj < index@.len() && key_of(#[trigger] all[ii]) == key_of(
                                index@[jj],
                            ) by {
                            if ii < i {
                                let jj = choose|jj: int|
                                    0 <= jj < prev.len() && key_of(all[ii]) == key_of(
                                        prev[jj],
                                    );
                                assert(key_of(index@[jj]) == key_of(prev[jj]));
                            } else {
                                assert(key_of(index@[j as int]) == key_of(all[ii]));
                            }
                        }
                    }
                },
                None => {
                    index.push(d);
                    proof {
                        assert forall|jj: int| 0 <= jj < index@.len() implies exists|i2: int|
                            0 <= i2 < all.len() && #[trigger] index@[jj] == #[trigger] all[i2] by {
                            if jj == index@.len() - 1 {
                                assert(index@[jj] == all[i]);
                            } else {
                                let i2 = choose|i2: int|
                                    0 <= i2 < all.len() && prev[jj] == #[trigger] all[i2];
                                assert(index@[jj] == all[i2]);
                            }
                        }
                        assert(drawn_from(index@, all));
                        assert forall|ii: int| 0 <= ii < i + 1 implies exists|jj: int|
                            0 <= jj < index@.len() && key_of(#[trigger] all[ii]) == key_of(
                                index@[jj],
                            ) by {
                            if ii < i {
                                let jj = choose|jj: int|
                                    0 <= jj < prev.len() && key_of(all[ii]) == key_of(
                                        prev[jj],
                                    );
                                assert(key_of(index@[jj]) == key_of(prev[jj]));
                            } else {
                                assert(key_of(index@[index@.len() - 1]) == key_of(all[ii]));
                            }
                        }
                    }
                },
            }
            proof { i = i + 1; }
        }
        proof {
            assert(all.skip(i).len() == all.len() - i);
            assert(i == all.len());
        }
        let r = Orchestrator { datums: index };
        proof {
            assert forall|i2: int| 0 <= i2 < datums@.len() implies r.has_key(
                key_of(#[trigger] datums@[i2]),
            ) by {
                let j0 = choose|j: int|
                    0 <= j < r.datums@.len() && key_of(all[i2]) == key_of(r.datums@[j]);
                assert(0 <= j0 < r.datums@.len() && key_of(r.datums@[j0]) == key_of(
                    datums@[i2],
                ));
            }
        }
        r
    }

    /// Finds the index entry with exactly this key.
    pub fn lookup(&self, key: &str) -> (r: Option<usize>)
        ensures
            match r {
                Some(j) => {
                    &&& key_match_from(self.datums@, key@, 0) == j as int
                    &&& j < self.datums@.len()
                    &&& key_of(self.datums@[j as int]) == key@
                },
                None => key_match_from(self.datums@, key@, 0) == -1 && !self.has_key(key@),
            },
    {
        find_by_key(&self.datums, key)
    }

    /// Picks the container runtime the way the orchestrator always has:
    /// `docker` when it is invocable, else `podman`, else no runtime at all.
    pub fn get_container_runtime(&self, docker_available: bool, podman_available: bool) -> (r:
        Result<String, OrchError>)
        ensures
            docker_available ==> (r matches Ok(s) && s@ == "docker"@),
            !docker_available && podman_available ==> (r matches Ok(s) && s@ == "podman"@),
            !docker_available && !podman_available ==> r == Err::<String, OrchError>(
                OrchError::RuntimeUnavailable,
            ),
    {
        if docker_available {
            Ok("docker".to_owned())
        } else if podman_available {
            Ok("podman".to_owned())
        } else {
            Err(OrchError::RuntimeUnavailable)
        }
    }

    /// Begins resolving the dependencies of the datum with key `datum_key`.
    /// A missing key ends the resolution at once with `NotFound`; otherwise
    /// the run starts with the datum's explicit dependencies, then its
    /// capability requirements, and nothing started yet.
    pub fn ensure_dependencies(&self, datum_key: &str) -> (r: (Run, Step))
        ensures
            r.0.wf(*self),
            r.0.started@ == Seq::<String>::empty(),
            ((r.1 matches Step::Done(_)) <==> r.0.finished),
            key_match_from(self.datums@, datum_key@, 0) == -1 ==> {
                &&& r.0.finished
                &&& (r.1 matches Step::Done(res) && res matches Err(e) && e matches
                    OrchError::NotFound(k) && k@ == datum_key@)
            },
            key_match_from(self.datums@, datum_key@, 0) >= 0 ==> {
                let dd = key_match_from(self.datums@, datum_key@, 0) as usize;
                &&& !r.0.finished
                &&& r.0.frames@ == seq![
                    Frame::Reqs { d: dd, j: 0 },
                    Frame::Deps { d: dd, i: 0 },
                ]
                &&& r.1 == Step::Again
            },
    {
        match self.lookup(datum_key) {
            Some(dd) => {
                let mut frames: Vec<Frame> = Vec::new();
                frames.push(Frame::Reqs { d: dd, j: 0 });
                frames.push(Frame::Deps { d: dd, i: 0 });
                let run = Run { frames, started: Vec::new(), finished: false };
                proof {
                    assert(run.frames@ =~= seq![
                        Frame::Reqs { d: dd, j: 0 },
                        Frame::Deps { d: dd, i: 0 },
                    ]);
                }
                (run, Step::Again)
            },
            None => {
                let run = Run { frames: Vec::new(), started: Vec::new(), finished: true };
                (run, Step::Done(Err(OrchError::NotFound(datum_key.to_owned()))))
            },
        }
    }

    /// Unwinds the stack after a failure. The innermost capability frame with
    /// a candidate attempt in flight catches it: the candidate's partial
    /// starts are rolled back and the frame goes back to picking candidates.
    /// With no such frame, the run ends with the error.
    fn fail(&self, run: &mut Run, e: OrchError) -> (s: Step)
        requires
            old(run).wf(*self),
            !old(run).finished,
        ensures
            final(run).wf(*self),
            failure_outcome(*old(run), *final(run), s, e),
            ((s matches Step::Done(_)) <==> final(run).finished),
    {
        proof {
            assert(run.frames@ =~= run.frames@.subrange(0, run.frames@.len() as int));
        }
        loop
            invariant
                run.wf(*self),
                run.frames@ == old(run).frames@.subrange(0, run.frames@.len() as int),
                run.frames@.len() <= old(run).frames@.len(),
                catch_pos(run.frames@) == catch_pos(old(run).frames@),
                run.started@ == old(run).started@,
                !run.finished,
            decreases run.frames@.len(),
        {
            if run.frames.len() == 0 {
                run.finished = true;
                return Step::Done(Err(e));
            }
            let ghost pre = run.frames@;
            let top = run.frames.pop().unwrap();
            proof {
                assert(run.frames@ =~= old(run).frames@.subrange(0, run.frames@.len() as int));
                assert(pre.last() == top);
            }
            let is_catcher = match &top {
                Frame::Cap { state: CapState::Attempt, .. } => true,
                _ => false,
            };
            if is_catcher {
                match top {
                    Frame::Cap { capability, fallback, cands, k, mark, state } => {
                        proof {
                            assert(catch_pos(pre) == pre.len() - 1);
                            assert(mark <= run.started@.len());
                        }
                        run.started.truncate(mark);
                        run.frames.push(
                            Frame::Cap {
                                capability,
                                fallback,
                                cands,
                                k,
                                mark,
                                state: CapState::Idle,
                            },
                        );
                        proof {
                            let c = catch_pos(old(run).frames@);
                            assert(c == pre.len() - 1);
                            assert(old(run).frames@[c] == pre.last());
                            assert forall|p: int| 0 <= p < c implies run.frames@[p] == old(
                                run,
                            ).frames@[p] by {}
                        }
                        return Step::Again;
                    },
                    _ => {
                        return unreached();
                    },
                }
            }
            proof {
                assert(catch_pos(pre) == catch_pos(pre.drop_last()));
                assert(run.frames@ =~= pre.drop_last());
            }
        }
    }

    /// One internal transition: works on the frame on top of the stack, or
    /// finishes the run when the stack is empty.
    fn tick(&self, run: &mut Run) -> (s: Step)
        requires
            old(run).wf(*self),
            old(run).accepts(Event::Tick),
        ensures
            final(run).wf(*self),
            ((s matches Step::Done(_)) <==> final(run).finished),
            old(run).frames@.len() == 0 ==> {
                &&& final(run).finished
                &&& (s matches Step::Done(res) && res matches Ok(list) && list@ == old(
                    run,
                ).started@)
                &&& final(run).started@ == old(run).started@
            },
            old(run).frames@.len() > 0 ==> (old(run).frames@.last() matches Frame::Deps { d, i }
                ==> deps_transition(*self, *old(run), *final(run), s, d, i)),
            old(run).frames@.len() > 0 ==> (old(run).frames@.last() matches Frame::Reqs { d, j }
                ==> reqs_transition(*self, *old(run), *final(run), s, d, j)),
            old(run).frames@.len() > 0 ==> (old(run).frames@.last() matches Frame::Cap {
                capability,
                fallback,
                cands,
                k,
                mark,
                state,
            } ==> cap_transition(
                *self,
                *old(run),
                *final(run),
                s,
                capability,
                fallback,
                cands,
                k,
                mark,
                state,
            )),
    {
        if run.frames.len() == 0 {
            run.finished = true;
            let list = clone_strings(&run.started);
            return Step::Done(Ok(list));
        }
        let ghost pre = run.frames@;
        let top = run.frames.pop().unwrap();
        proof {
            assert(pre.last() == top);
            assert(run.frames@ =~= pre.drop_last());
        }
        match top {
            Frame::Deps { d, i } => {
                let deps_len = self.datums[d].depends_on.len();
                if i >= deps_len {
                    return Step::Again;
                }
                let dep_key = clone_string(&self.datums[d].depends_on[i]);
                run.frames.push(Frame::Deps { d, i: i + 1 });
                match self.lookup(dep_key.as_str()) {
                    Some(dd) => {
                        let is_docker = match self.datums[dd].datum_type {
                            Some(DatumType::Docker) => true,
                            _ => false,
                        };
                        if is_docker {
                            let name = clone_string(&self.datums[dd].name);
                            run.frames.push(
                                Frame::Life { key: dep_key, d: dd, phase: LifePhase::Probe },
                            );
                            Step::Do(Action::Observe { name })
                        } else {
                            Step::Again
                        }
                    },
                    None => Step::Again,
                }
            },
            Frame::Reqs { d, j } => {
                let reqs_len = self.datums[d].requires.len();
                if j >= reqs_len {
                    return Step::Again;
                }
                run.frames.push(Frame::Reqs { d, j: j + 1 });
                let req = &self.datums[d].requires[j].1;
                match &req.capability {
                    None => Step::Again,
                    Some(c) => {
                        if c.as_str().unicode_len() == 0 {
                            return Step::Again;
                        }
                        let cyclic = cap_on_stack(&run.frames, c);
                        proof {
                            lemma_same_caps(pre, run.frames@, c@);
                        }
                        if cyclic {
                            proof {
                                lemma_same_catchers(pre, run.frames@);
                            }
                            let cname = clone_string(c);
                            let ghost gcap = *c;
                            let ghost mid = *run;
                            let s = self.fail(run, OrchError::CycleDetected(cname));
                            proof {
                                lemma_failure_glue(
                                    *old(run),
                                    mid,
                                    *run,
                                    s,
                                    OrchError::CycleDetected(gcap),
                                );
                            }
                            return s;
                        }
                        let raw = find_candidates(&self.datums, c);
                        proof {
                            crate::capability::lemma_candidates_bounded(
                                self.datums@,
                                c@,
                                self.datums@.len(),
                            );
                        }
                        let cands = match &req.prefer {
                            Some(p) => {
                                let ordered = order_candidates(&self.datums, &raw, p);
                                proof {
                                    lemma_ordered_permutes(self.datums@, raw@, p@);
                                    crate::capability::lemma_elems_of_multiset(
                                        ordered@,
                                        raw@,
                                        self.datums@.len() as int,
                                    );
                                }
                                ordered
                            },
                            None => raw,
                        };
                        let mark = run.started.len();
                        let capability = clone_string(c);
                        let fallback = clone_opt_string(&req.fallback);
                        run.frames.push(
                            Frame::Cap {
                                capability,
                                fallback,
                                cands,
                                k: 0,
                                mark,
                                state: CapState::Idle,
                            },
                        );
                        proof {
                            assert(run.frames@.subrange(0, run.frames@.len() - 1) =~= pre
                                .drop_last().push(Frame::Reqs { d, j: (j + 1) as usize }));
                        }
                        Step::Again
                    },
                }
            },
            Frame::Cap { capability, fallback, cands, k, mark, state } => {
                match state {
                    CapState::Attempt | CapState::Fallback => Step::Again,
                    CapState::Idle => {
                        if k < cands.len() {
                            let dd = cands[k];
                            run.frames.push(
                                Frame::Cap {
                                    capability,
                                    fallback,
                                    cands,
                                    k: k + 1,
                                    mark,
                                    state: CapState::Attempt,
                                },
                            );
                            run.frames.push(Frame::Reqs { d: dd, j: 0 });
                            run.frames.push(Frame::Deps { d: dd, i: 0 });
                            Step::Again
                        } else {
                            let fb_found: Option<usize> = match &fallback {
                                Some(f) => find_api_named(&self.datums, f.as_str()),
                                None => None,
                            };
                            match fb_found {
                                Some(dd) => {
                                    run.frames.push(
                                        Frame::Cap {
                                            capability,
                                            fallback,
                                            cands,
                                            k,
                                            mark,
                                            state: CapState::Fallback,
                                        },
                                    );
                                    run.frames.push(Frame::Reqs { d: dd, j: 0 });
                                    run.frames.push(Frame::Deps { d: dd, i: 0 });
                                    Step::Again
                                },
                                None => {
                                    proof {
                                        lemma_same_catchers(pre, run.frames@);
                                    }
                                    let ghost gcap = capability;
                                    let ghost mid = *run;
                                    let s = self.fail(
                                        run,
                                        OrchError::CapabilityUnresolved(capability),
                                    );
                                    proof {
                                        lemma_failure_glue(
                                            *old(run),
                                            mid,
                                            *run,
                                            s,
                                            OrchError::CapabilityUnresolved(gcap),
                                        );
                                    }
                                    s
                                },
                            }
                        }
                    },
                }
            },
            Frame::Life { .. } => unreached(),
        }
    }

    /// Feeds the outcome of an `Observe` action into the container lifecycle
    /// on top of the stack.
    fn observed(&self, run: &mut Run, st: ContainerState) -> (s: Step)
        requires
            old(run).wf(*self),
            old(run).accepts(Event::Observed(st)),
        ensures
            final(run).wf(*self),
            ((s matches Step::Done(_)) <==> final(run).finished),
            old(run).frames@.last() matches Frame::Life { key, d, phase } ==> life_observed(
                *self,
                *old(run),
                *final(run),
                s,
                key,
                d,
                phase,
                st,
            ),
    {
        let ghost pre = run.frames@;
        let top = run.frames.pop().unwrap();
        proof {
            assert(pre.last() == top);
            assert(run.frames@ =~= pre.drop_last());
        }
        match top {
            Frame::Life { key, d, phase } => {
                match phase {
                    LifePhase::Probe => {
                        if matches!(st, ContainerState::Running) {
                            Step::Again
                        } else {
                            let name = clone_string(&self.datums[d].name);
                            run.frames.push(Frame::Life { key, d, phase: LifePhase::Exists });
                            Step::Do(Action::Observe { name })
                        }
                    },
                    LifePhase::Exists => {
                        match st {
                            ContainerState::Running => {
                                run.started.push(key);
                                Step::Again
                            },
                            ContainerState::Stopped => {
                                let name = clone_string(&self.datums[d].name);
                                run.frames.push(
                                    Frame::Life { key, d, phase: LifePhase::Starting },
                                );
                                Step::Do(Action::Start { name })
                            },
                            ContainerState::Absent => {
                                match &self.datums[d].image {
                                    Some(img) => {
                                        let name = clone_string(&self.datums[d].name);
                                        let image = clone_string(img);
                                        let args = clone_strings(&self.datums[d].docker_args);
                                        let env = clone_pairs(&self.datums[d].env);
                                        run.frames.push(
                                            Frame::Life { key, d, phase: LifePhase::Starting },
                                        );
                                        Step::Do(Action::Create { name, image, args, env })
                                    },
                                    None => {
                                        let name = clone_string(&self.datums[d].name);
                                        let ghost mid = *run;
                                        let s = self.fail(run, OrchError::MissingImage(name));
                                        proof {
                                            lemma_same_catchers(pre, mid.frames@);
                                            lemma_failure_glue(
                                                *old(run),
                                                mid,
                                                *run,
                                                s,
                                                OrchError::MissingImage(
                                                    self.datums@[d as int].name,
                                                ),
                                            );
                                        }
                                        s
                                    },
                                }
                            },
                        }
                    },
                    LifePhase::Starting => unreached(),
                    LifePhase::Waiting(a) => {
                        if matches!(st, ContainerState::Running) {
                            run.started.push(key);
                            Step::Again
                        } else if a + 1 < READY_ATTEMPTS {
                            let name = clone_string(&self.datums[d].name);
                            run.frames.push(
                                Frame::Life { key, d, phase: LifePhase::Waiting(a + 1) },
                            );
                            Step::Do(Action::Observe { name })
                        } else {
                            let name = clone_string(&self.datums[d].name);
                            let ghost mid = *run;
                            let s = self.fail(run, OrchError::ReadinessTimeout(name));
                            proof {
                                lemma_same_catchers(pre, mid.frames@);
                                lemma_failure_glue(
                                    *old(run),
                                    mid,
                                    *run,
                                    s,
                                    OrchError::ReadinessTimeout(self.datums@[d as int].name),
                                );
                            }
                            s
                        }
                    },
                }
            },
            _ => unreached(),
        }
    }

    /// Advances the resolution by one transition. The event must answer what
    /// the machine asked for: `Tick` when nothing was pending, an observation
    /// after an `Observe`, an exit status after a `Start` or `Create`, and
    /// `RuntimeMissing` whenever no container runtime could be found. The
    /// returned step says what to do next; the run is over when it is `Done`.
    ///
    /// The postconditions are the orchestrator's whole policy, transition by
    /// transition. In particular a `Start` or `Create` action is only ever
    /// issued in direct reaction to observing that container stopped or
    /// absent — never for a container that was observed running — and a
    /// readiness wait fails after exactly `READY_ATTEMPTS` polls.
    pub fn step(&self, run: &mut Run, ev: Event) -> (s: Step)
        requires
            old(run).wf(*self),
            old(run).accepts(ev),
        ensures
            final(run).wf(*self),
            ((s matches Step::Done(_)) <==> final(run).finished),
            ev == Event::Tick && old(run).frames@.len() == 0 ==> {
                &&& final(run).finished
                &&& (s matches Step::Done(res) && res matches Ok(list) && list@ == old(
                    run,
                ).started@)
                &&& final(run).started@ == old(run).started@
            },
            ev == Event::Tick && old(run).frames@.len() > 0 ==> (old(run).frames@.last() matches
                Frame::Deps { d, i } ==> deps_transition(*self, *old(run), *final(run), s, d, i)),
            ev == Event::Tick && old(run).frames@.len() > 0 ==> (old(run).frames@.last() matches
                Frame::Reqs { d, j } ==> reqs_transition(*self, *old(run), *final(run), s, d, j)),
            ev == Event::Tick && old(run).frames@.len() > 0 ==> (old(run).frames@.last() matches
                Frame::Cap { capability, fallback, cands, k, mark, state } ==> cap_transition(
                *self,
                *old(run),
                *final(run),
                s,
                capability,
                fallback,
                cands,
                k,
                mark,
                state,
            )),
            forall|st: ContainerState|
                ev == Event::Observed(st) ==> (old(run).frames@.last() matches Frame::Life {
                    key,
                    d,
                    phase,
                } ==> life_observed(*self, *old(run), *final(run), s, key, d, phase, st)),
            ev == Event::ExecOk ==> (old(run).frames@.last() matches Frame::Life { key, d, phase }
                ==> {
                &&& replaced_top(
                    *old(run),
                    *final(run),
                    Frame::Life { key, d, phase: LifePhase::Waiting(0) },
                )
                &&& s == Step::Do(Action::Observe { name: self.datums@[d as int].name })
            }),
            forall|detail: String|
                ev == Event::ExecFailed(detail) ==> (old(run).frames@.last() matches Frame::Life {
                    key,
                    d,
                    phase,
                } ==> failure_outcome(
                    *old(run),
                    *final(run),
                    s,
                    OrchError::ExecutionFailure(self.datums@[d as int].name, detail),
                )),
            ev == Event::RuntimeMissing ==> failure_outcome(
                *old(run),
                *final(run),
                s,
                OrchError::RuntimeUnavailable,
            ),
    {
        match ev {
            Event::Tick => self.tick(run),
            Event::Observed(st) => self.observed(run, st),
            Event::ExecOk => {
                let ghost pre = run.frames@;
                let top = run.frames.pop().unwrap();
                proof {
                    assert(pre.last() == top);
                    assert(run.frames@ =~= pre.drop_last());
                }
                match top {
                    Frame::Life { key, d, phase } => {
                        let name = clone_string(&self.datums[d].name);
                        run.frames.push(Frame::Life { key, d, phase: LifePhase::Waiting(0) });
                        Step::Do(Action::Observe { name })
                    },
                    _ => unreached(),
                }
            },
            Event::ExecFailed(detail) => {
                let ghost pre = run.frames@;
                let top = run.frames.pop().unwrap();
                proof {
                    assert(pre.last() == top);
                    assert(run.frames@ =~= pre.drop_last());
                }
                match top {
                    Frame::Life { key, d, phase } => {
                        let name = clone_string(&self.datums[d].name);
                        let ghost gdetail = detail;
                        let ghost mid = *run;
                        let s = self.fail(run, OrchError::ExecutionFailure(name, detail));
                        proof {
                            lemma_same_catchers(pre, mid.frames@);
                            lemma_failure_glue(
                                *old(run),
                                mid,
                                *run,
                                s,
                                OrchError::ExecutionFailure(self.datums@[d as int].name, gdetail),
                            );
                        }
                        s
                    },
                    _ => unreached(),
                }
            },
            Event::RuntimeMissing => self.fail(run, OrchError::RuntimeUnavailable),
        }
    }
}

/// Popping frames that are not candidate attempts does not change which frame
/// catches a failure; here for a stack whose top was replaced by a frame that
/// is not a catcher either.
proof fn lemma_same_catchers(a: Seq<Frame>, b: Seq<Frame>)
    requires
        a.len() > 0,
        b.len() == a.len() || b.len() == a.len() - 1,
        b.len() == a.len() ==> forall|p: int| 0 <= p < a.len() - 1 ==> a[p] == b[p],
        b.len() == a.len() - 1 ==> forall|p: int| 0 <= p < a.len() - 1 ==> a[p] == b[p],
        !(a.last() matches Frame::Cap { state: CapState::Attempt, .. }),
        b.len() == a.len() ==> !(b.last() matches Frame::Cap { state: CapState::Attempt, .. }),
    ensures
        catch_pos(a) == catch_pos(b),
{
    assert(a.drop_last() =~= b.subrange(0, a.len() - 1));
    if b.len() == a.len() {
        assert(b.drop_last() =~= a.drop_last());
        assert(catch_pos(a) == catch_pos(a.drop_last()));
        assert(catch_pos(b) == catch_pos(b.drop_last()));
    } else {
        assert(b =~= a.drop_last());
        assert(catch_pos(a) == catch_pos(a.drop_last()));
    }
}

/// Replacing the top frame of the stack by another non-capability frame does
/// not change which capabilities are being resolved.
proof fn lemma_same_caps(a: Seq<Frame>, b: Seq<Frame>, c: Seq<char>)
    requires
        a.len() > 0,
        b.len() == a.len(),
        forall|p: int| 0 <= p < a.len() - 1 ==> a[p] == b[p],
        !(a.last() matches Frame::Cap { .. }),
        !(b.last() matches Frame::Cap { .. }),
    ensures
        stack_has_cap(a, c) == stack_has_cap(b, c),
{
    if stack_has_cap(a, c) {
        let p = choose|p: int|
            0 <= p < a.len() && (#[trigger] a[p] matches Frame::Cap { capability, .. }
                && capability@ == c);
        assert(p < a.len() - 1);
        assert(b[p] matches Frame::Cap { capability, .. } && capability@ == c);
    }
    if stack_has_cap(b, c) {
        let p = choose|p: int|
            0 <= p < b.len() && (#[trigger] b[p] matches Frame::Cap { capability, .. }
                && capability@ == c);
        assert(p < b.len() - 1);
        assert(a[p] matches Frame::Cap { capability, .. } && capability@ == c);
    }
}

/// A failure unwound from a stack whose frames below the top are those of the
/// original stack has the same outcome with respect to the original stack.
proof fn lemma_failure_glue(orig: Run, mid: Run, new: Run, s: Step, e: OrchError)
    requires
        orig.frames@.len() > 0,
        !(orig.frames@.last() matches Frame::Cap { state: CapState::Attempt, .. }),
        mid.frames@.len() == orig.frames@.len() || mid.frames@.len() == orig.frames@.len() - 1,
        forall|p: int| 0 <= p < orig.frames@.len() - 1 ==> orig.frames@[p] == mid.frames@[p],
        catch_pos(mid.frames@) == catch_pos(orig.frames@),
        mid.started@ == orig.started@,
        failure_outcome(mid, new, s, e),
    ensures
        failure_outcome(orig, new, s, e),
{
    let c = catch_pos(orig.frames@);
    assert(catch_pos(orig.frames@) == catch_pos(orig.frames@.drop_last()));
    lemma_catch_pos_in_range(orig.frames@.drop_last());
    if c >= 0 {
        assert(c < orig.frames@.len() - 1);
        assert(mid.frames@[c] == orig.frames@[c]);
        assert forall|p: int| 0 <= p < c implies new.frames@[p] == orig.frames@[p] by {
            assert(new.frames@[p] == mid.frames@[p]);
        }
    }
}

/// A container observed running is left alone: whatever lifecycle phase the
/// observation answers (other than an exit status, which is never an
/// observation), the machine never reacts to a running container with a
/// `Start` or `Create` action. With every container already running, a whole
/// resolution therefore performs no create and no restart.
pub proof fn lemma_running_container_is_left_alone(
    o: Orchestrator,
    old_run: Run,
    new_run: Run,
    s: Step,
    key: String,
    d: usize,
    phase: LifePhase,
)
    requires
        phase != LifePhase::Starting,
        life_observed(o, old_run, new_run, s, key, d, phase, ContainerState::Running),
    ensures
        !(s matches Step::Do(Action::Start { .. })),
        !(s matches Step::Do(Action::Create { .. })),
        new_run.frames@ == old_run.frames@.drop_last(),
{
}

/// A restart is issued only in reaction to observing that the container
/// exists and is stopped; a create only in reaction to observing that it is
/// absent (and then from the datum's image). This is the container lifecycle
/// acting as specified: running means no-op, stopped means restart, absent
/// means create.
pub proof fn lemma_start_needs_stopped_create_needs_absent(
    o: Orchestrator,
    old_run: Run,
    new_run: Run,
    s: Step,
    key: String,
    d: usize,
    phase: LifePhase,
    st: ContainerState,
)
    requires
        phase != LifePhase::Starting,
        life_observed(o, old_run, new_run, s, key, d, phase, st),
    ensures
        s matches Step::Do(Action::Start { .. }) ==> phase == LifePhase::Exists && st
            == ContainerState::Stopped,
        s matches Step::Do(Action::Create { .. }) ==> phase == LifePhase::Exists && st
            == ContainerState::Absent && o.datums@[d as int].image is Some,
{
}

/// The readiness wait is bounded exactly: while fewer than `READY_ATTEMPTS`
/// polls have answered without the container running, the machine polls once
/// more; the `READY_ATTEMPTS`-th non-running answer fails the wait with a
/// readiness timeout naming the container — never earlier, never later.
pub proof fn lemma_readiness_wait_bound(
    o: Orchestrator,
    old_run: Run,
    new_run: Run,
    s: Step,
    key: String,
    d: usize,
    a: u32,
    st: ContainerState,
)
    requires
        life_observed(o, old_run, new_run, s, key, d, LifePhase::Waiting(a), st),
        st != ContainerState::Running,
    ensures
        a + 1 < READY_ATTEMPTS ==> s == Step::Do(
            Action::Observe { name: o.datums@[d as int].name },
        ) && (new_run.frames@ == old_run.frames@.drop_last().push(
            Frame::Life { key, d, phase: LifePhase::Waiting((a + 1) as u32) },
        )),
        a + 1 >= READY_ATTEMPTS ==> failure_outcome(
            old_run,
            new_run,
            s,
            OrchError::ReadinessTimeout(o.datums@[d as int].name),
        ),
{
}

/// The catch position is a valid index when it is not `-1`.
proof fn lemma_catch_pos_in_range(frames: Seq<Frame>)
    ensures
        -1 <= catch_pos(frames) < frames.len(),
        catch_pos(frames) >= 0 ==> frames[catch_pos(frames)] matches Frame::Cap {
            state: CapState::Attempt,
            ..
        },
    decreases frames.len(),
{
    if frames.len() > 0 {
        if !(frames.last() matches Frame::Cap { state: CapState::Attempt, .. }) {
            lemma_catch_pos_in_range(frames.drop_last());
        }
    }
}

/// Finds the first datum whose key is exactly `key`.
fn find_by_key(datums: &Vec<BootDatum>, key: &str) -> (r: Option<usize>)
    ensures
        match r {
            Some(j) => {
                &&& key_match_from(datums@, key@, 0) == j as int
                &&& j < datums@.len()
                &&& key_of(datums@[j as int]) == key@
                &&& forall|p: int| 0 <= p < j ==> key_of(#[trigger] datums@[p]) != key@
            },
            None => {
                &&& key_match_from(datums@, key@, 0) == -1
                &&& forall|p: int| 0 <= p < datums@.len() ==> key_of(#[trigger] datums@[p]) != key@
            },
        },
{
    let mut j: usize = 0;
    while j < datums.len()
        invariant
            j <= datums@.len(),
            key_match_from(datums@, key@, 0) == key_match_from(datums@, key@, j as nat),
            forall|p: int| 0 <= p < j ==> key_of(#[trigger] datums@[p]) != key@,
        decreases datums@.len() - j,
    {
        let other_key = datums[j].make_key();
        if str_eq(key, other_key.as_str()) {
            return Some(j);
        }
        j += 1;
    }
    None
}

/// Finds the first `Api` datum with exactly this name — the datum a fallback
/// refers to.
fn find_api_named(datums: &Vec<BootDatum>, name: &str) -> (r: Option<usize>)
    ensures
        match r {
            Some(j) => api_match_from(datums@, name@, 0) == j as int && j < datums@.len(),
            None => api_match_from(datums@, name@, 0) == -1,
        },
{
    let mut j: usize = 0;
    while j < datums.len()
        invariant
            j <= datums@.len(),
            api_match_from(datums@, name@, 0) == api_match_from(datums@, name@, j as nat),
        decreases datums@.len() - j,
    {
        let d = &datums[j];
        let is_api = match d.datum_type {
            Some(DatumType::Api) => true,
            _ => false,
        };
        if is_api && str_eq(d.name.as_str(), name) {
            return Some(j);
        }
        j += 1;
    }
    None
}

/// Whether a capability frame for `c` is already on the stack.
fn cap_on_stack(frames: &Vec<Frame>, c: &String) -> (r: bool)
    ensures
        r == stack_has_cap(frames@, c@),
{
    let mut p: usize = 0;
    while p < frames.len()
        invariant
            p <= frames@.len(),
            forall|q: int|
                0 <= q < p ==> !(#[trigger] frames@[q] matches Frame::Cap { capability, .. }
                    && capability@ == c@),
        decreases frames@.len() - p,
    {
        if let Frame::Cap { capability, .. } = &frames[p] {
            if string_eq(capability, c) {
                return true;
            }
        }
        p += 1;
    }
    false
}

/// An exact copy of a string.
fn clone_string(s: &String) -> (r: String)
    ensures
        r == *s,
{
    s.clone()
}

/// An exact copy of an optional string.
fn clone_opt_string(o: &Option<String>) -> (r: Option<String>)
    ensures
        r == *o,
{
    match o {
        Some(s) => Some(clone_string(s)),
        None => None,
    }
}

/// An exact copy of a list of strings.
fn clone_strings(v: &Vec<String>) -> (r: Vec<String>)
    ensures
        r@ == v@,
{
    let mut out: Vec<String> = Vec::new();
    let mut i: usize = 0;
    while i < v.len()
        invariant
            i <= v@.len(),
            out@ == v@.subrange(0, i as int),
        decreases v@.len() - i,
    {
        out.push(clone_string(&v[i]));
        proof {
            assert(out@ =~= v@.subrange(0, i + 1));
        }
        i += 1;
    }
    proof {
        assert(v@.subrange(0, v@.len() as int) =~= v@);
    }
    out
}

/// An exact copy of a list of string pairs.
fn clone_pairs(v: &Vec<(String, String)>) -> (r: Vec<(String, String)>)
    ensures
        r@ == v@,
{
    let mut out: Vec<(String, String)> = Vec::new();
    let mut i: usize = 0;
    while i < v.len()
        invariant
            i <= v@.len(),
            out@ == v@.subrange(0, i as int),
        decreases v@.len() - i,
    {
        let pair = (clone_string(&v[i].0), clone_string(&v[i].1));
        out.push(pair);
        proof {
            assert(out@ =~= v@.subrange(0, i + 1));
        }
        i += 1;
    }
    proof {
        assert(v@.subrange(0, v@.len() as int) =~= v@);
    }
    out
}

} // verus!
