//! The application lifecycle: startup, readiness, serving and shutdown, as a
//! state machine.
//!
//! An application runs either lifespans or event hooks, not both. Lifespans
//! start in registration order; when one fails, the ones already started are
//! rolled back in reverse before the error is reported. After serving,
//! lifespans shut down in reverse order (event hooks in registration order),
//! and a failing shutdown step is logged and does not stop the others.
//!
//! The caller performs each [`Step`] (the awaits, the socket, the logging) and
//! reports its outcome to [`Lifecycle::advance`], which decides the next step.

use vstd::prelude::*;
use crate::error::{Error, ErrorKind};
use crate::multipart::coded;

verus! {

/// Code of the error for an application that mixes lifespans and event hooks.
pub const LIFECYCLE_CONFLICT: &'static str = "LIFECYCLE_CONFLICT";

/// Message of the error for an application that mixes lifespans and event hooks.
pub const LIFECYCLE_CONFLICT_MESSAGE: &'static str = "Cannot use `.lifespan(...)` together with `.on_startup(...)` or `.on_shutdown(...)`.\nUse either lifespan or event hooks, not both.";

/// Code of the error for a required environment variable that is not set.
pub const MISSING_ENV: &'static str = "MISSING_ENV";

/// How many of each lifecycle participant an application registered.
#[derive(Clone, Copy, Debug, PartialEq, Eq, Structural)]
pub struct LifecycleCounts {
    pub lifespans: usize,
    pub startup_hooks: usize,
    pub shutdown_hooks: usize,
    pub ready_hooks: usize,
}

/// Lifespans and event hooks cannot be combined.
pub open spec fn spec_conflict(c: LifecycleCounts) -> bool {
    c.lifespans > 0 && (c.startup_hooks > 0 || c.shutdown_hooks > 0)
}

/// Where the lifecycle stands: which step's outcome it waits for.
pub enum Phase {
    /// Not started.
    Idle,
    StartingLifespan(usize),
    RunningStartupHook(usize),
    /// Rolling back the lifespan at this position; the error is reported after.
    RollingBack(usize, Error),
    Building,
    RunningReadyHook(usize),
    Serving,
    StoppingLifespan(usize),
    RunningShutdownHook(usize),
    Finished,
}

/// What the caller does next.
pub enum Step {
    /// Start the lifespan at this position.
    StartLifespan(usize),
    /// Run the startup hook at this position.
    RunStartupHook(usize),
    /// Shut down the lifespan at this position after a failed startup.
    RollBackLifespan(usize),
    /// Build the application and bind the listener.
    Build,
    /// Run the ready hook at this position.
    RunReadyHook(usize),
    /// Serve until shutdown is requested.
    Serve,
    /// Shut down the lifespan at this position (failures are logged).
    StopLifespan(usize),
    /// Run the shutdown hook at this position (failures are logged).
    RunShutdownHook(usize),
    /// The run is over, with this result.
    Finish(Result<(), Error>),
}

/// Start the lifespans from position `i` on, then build.
pub open spec fn lifespans_from(c: LifecycleCounts, i: int) -> (Phase, Step) {
    if i < c.lifespans {
        (Phase::StartingLifespan(i as usize), Step::StartLifespan(i as usize))
    } else {
        (Phase::Building, Step::Build)
    }
}

/// Run the startup hooks from position `i` on, then build.
pub open spec fn startup_hooks_from(c: LifecycleCounts, i: int) -> (Phase, Step) {
    if i < c.startup_hooks {
        (Phase::RunningStartupHook(i as usize), Step::RunStartupHook(i as usize))
    } else {
        (Phase::Building, Step::Build)
    }
}

/// Roll back the `i` lifespans started before the failing one, last first,
/// then report `e`.
pub open spec fn rollback_from(i: int, e: Error) -> (Phase, Step) {
    if i > 0 {
        (Phase::RollingBack((i - 1) as usize, e), Step::RollBackLifespan((i - 1) as usize))
    } else {
        (Phase::Finished, Step::Finish(Err(e)))
    }
}

/// Run the ready hooks from position `i` on, then serve.
pub open spec fn ready_from(c: LifecycleCounts, i: int) -> (Phase, Step) {
    if i < c.ready_hooks {
        (Phase::RunningReadyHook(i as usize), Step::RunReadyHook(i as usize))
    } else {
        (Phase::Serving, Step::Serve)
    }
}

/// Shut down the `i` lifespans not yet shut down, last first, then finish.
pub open spec fn stopping_from(i: int) -> (Phase, Step) {
    if i > 0 {
        (Phase::StoppingLifespan((i - 1) as usize), Step::StopLifespan((i - 1) as usize))
    } else {
        (Phase::Finished, Step::Finish(Ok(())))
    }
}

/// Run the shutdown hooks from position `i` on, then finish.
pub open spec fn shutdown_hooks_from(c: LifecycleCounts, i: int) -> (Phase, Step) {
    if i < c.shutdown_hooks {
        (Phase::RunningShutdownHook(i as usize), Step::RunShutdownHook(i as usize))
    } else {
        (Phase::Finished, Step::Finish(Ok(())))
    }
}

/// The first step once the configuration is consistent: start the lifespans,
/// or else run the startup hooks.
pub open spec fn begin(c: LifecycleCounts) -> (Phase, Step) {
    if c.lifespans > 0 {
        lifespans_from(c, 0)
    } else {
        startup_hooks_from(c, 0)
    }
}

/// The next phase and step, given the outcome of the step the phase waits for.
pub open spec fn spec_advance(c: LifecycleCounts, phase: Phase, outcome: Result<(), Error>) -> (Phase, Step) {
    match phase {
        Phase::StartingLifespan(i) => match outcome {
            Ok(()) => lifespans_from(c, i + 1),
            Err(e) => rollback_from(i as int, e),
        },
        Phase::RunningStartupHook(i) => match outcome {
            Ok(()) => startup_hooks_from(c, i + 1),
            Err(e) => (Phase::Finished, Step::Finish(Err(e))),
        },
        Phase::RollingBack(i, e) => rollback_from(i as int, e),
        Phase::Building => match outcome {
            Ok(()) => ready_from(c, 0),
            Err(e) => (Phase::Finished, Step::Finish(Err(e))),
        },
        Phase::RunningReadyHook(i) => match outcome {
            Ok(()) => ready_from(c, i + 1),
            Err(e) => (Phase::Finished, Step::Finish(Err(e))),
        },
        Phase::Serving => if c.lifespans > 0 {
            stopping_from(c.lifespans as int)
        } else {
            shutdown_hooks_from(c, 0)
        },
        Phase::StoppingLifespan(i) => stopping_from(i as int),
        Phase::RunningShutdownHook(i) => shutdown_hooks_from(c, i + 1),
        _ => (Phase::Finished, Step::Finish(Ok(()))),
    }
}

/// The phase's positions stay within the counts.
pub open spec fn phase_ok(c: LifecycleCounts, phase: Phase) -> bool {
    match phase {
        Phase::StartingLifespan(i) => i < c.lifespans,
        Phase::RunningStartupHook(i) => i < c.startup_hooks,
        Phase::RollingBack(i, _) => i < c.lifespans,
        Phase::RunningReadyHook(i) => i < c.ready_hooks,
        Phase::StoppingLifespan(i) => i < c.lifespans,
        Phase::RunningShutdownHook(i) => i < c.shutdown_hooks,
        _ => true,
    }
}

/// The lifecycle of one run of an application.
pub struct Lifecycle {
    counts: LifecycleCounts,
    phase: Phase,
}

/// The error for an application that mixes lifespans and event hooks.
pub fn conflict_error() -> (e: Error)
    ensures
        coded(e, ErrorKind::Internal, LIFECYCLE_CONFLICT_MESSAGE@, LIFECYCLE_CONFLICT@),
{
    Error::internal(LIFECYCLE_CONFLICT_MESSAGE).with_code(LIFECYCLE_CONFLICT)
}

/// Checks that an application uses lifespans or event hooks, not both.
pub fn validate_lifecycle(c: LifecycleCounts) -> (r: Result<(), Error>)
    ensures
        spec_conflict(c) ==> (r matches Err(e) && coded(
            e,
            ErrorKind::Internal,
            LIFECYCLE_CONFLICT_MESSAGE@,
            LIFECYCLE_CONFLICT@,
        )),
        !spec_conflict(c) ==> r is Ok,
{
    if c.lifespans > 0 && (c.startup_hooks > 0 || c.shutdown_hooks > 0) {
        Err(conflict_error())
    } else {
        Ok(())
    }
}

/// The error for a required environment variable that is not set.
pub fn missing_env(key: &str) -> (e: Error)
    ensures
        coded(
            e,
            ErrorKind::Internal,
            "required environment variable `"@ + key@ + "` is not set"@,
            MISSING_ENV@,
        ),
{
    let mut msg = "required environment variable `".to_string();
    crate::text::push_str(&mut msg, key);
    crate::text::push_str(&mut msg, "` is not set");
    Error::internal(msg.as_str()).with_code(MISSING_ENV)
}

/// What a lifespan's startup can read: the process environment, looked up by
/// the caller.
pub struct LifespanContext;

impl LifespanContext {
    /// A context for one startup.
    pub fn new() -> (c: Self) {
        LifespanContext
    }

    /// A required environment variable, given what looking it up gave.
    pub fn env(&self, key: &str, value: Option<String>) -> (r: Result<String, Error>)
        ensures
            match value {
                Some(v) => r matches Ok(s) && s@ == v@,
                None => r matches Err(e) && coded(
                    e,
                    ErrorKind::Internal,
                    "required environment variable `"@ + key@ + "` is not set"@,
                    MISSING_ENV@,
                ),
            },
    {
        match value {
            Some(v) => Ok(v),
            None => Err(missing_env(key)),
        }
    }
}

impl Lifecycle {
    /// The counts.
    pub closed spec fn spec_counts(&self) -> LifecycleCounts {
        self.counts
    }

    /// The phase.
    pub closed spec fn spec_phase(&self) -> Phase {
        self.phase
    }

    /// A lifecycle that has not started.
    pub fn new(counts: LifecycleCounts) -> (l: Self)
        ensures
            l.spec_counts() == counts,
            l.spec_phase() is Idle,
    {
        Lifecycle { counts, phase: Phase::Idle }
    }

    /// The first step: the conflict error when lifespans and event hooks are
    /// mixed, else the first startup step.
    pub fn start(&mut self) -> (step: Step)
        requires
            old(self).spec_phase() is Idle,
        ensures
            final(self).spec_counts() == old(self).spec_counts(),
            phase_ok(final(self).spec_counts(), final(self).spec_phase()),
            spec_conflict(old(self).spec_counts()) ==> final(self).spec_phase() is Finished,
            spec_conflict(old(self).spec_counts()) ==> (step matches Step::Finish(Err(e)) && coded(
                e,
                ErrorKind::Internal,
                LIFECYCLE_CONFLICT_MESSAGE@,
                LIFECYCLE_CONFLICT@,
            )),
            !spec_conflict(old(self).spec_counts()) ==> (final(self).spec_phase(), step) == begin(
                old(self).spec_counts(),
            ),
    {
        match validate_lifecycle(self.counts) {
            Err(e) => {
                self.phase = Phase::Finished;
                Step::Finish(Err(e))
            },
            Ok(()) => {
                if self.counts.lifespans > 0 {
                    self.phase = Phase::StartingLifespan(0);
                    Step::StartLifespan(0)
                } else if self.counts.startup_hooks > 0 {
                    self.phase = Phase::RunningStartupHook(0);
                    Step::RunStartupHook(0)
                } else {
                    self.phase = Phase::Building;
                    Step::Build
                }
            },
        }
    }

    /// Takes the outcome of the step just performed and decides the next one.
    pub fn advance(&mut self, outcome: Result<(), Error>) -> (step: Step)
        requires
            phase_ok(old(self).spec_counts(), old(self).spec_phase()),
            !(old(self).spec_phase() is Idle),
            !(old(self).spec_phase() is Finished),
        ensures
            final(self).spec_counts() == old(self).spec_counts(),
            phase_ok(final(self).spec_counts(), final(self).spec_phase()),
            (final(self).spec_phase(), step) == spec_advance(
                old(self).spec_counts(),
                old(self).spec_phase(),
                outcome,
            ),
    {
        let c = self.counts;
        let mut phase = Phase::Finished;
        std::mem::swap(&mut phase, &mut self.phase);
        let (next, step) = match phase {
            Phase::StartingLifespan(i) => match outcome {
                Ok(()) => Self::lifespans_from(c, i + 1),
                Err(e) => Self::rollback_from(i, e),
            },
            Phase::RunningStartupHook(i) => match outcome {
                Ok(()) => if i + 1 < c.startup_hooks {
                    (Phase::RunningStartupHook(i + 1), Step::RunStartupHook(i + 1))
                } else {
                    (Phase::Building, Step::Build)
                },
                Err(e) => (Phase::Finished, Step::Finish(Err(e))),
            },
            Phase::RollingBack(i, e) => Self::rollback_from(i, e),
            Phase::Building => match outcome {
                Ok(()) => Self::ready_from(c, 0),
                Err(e) => (Phase::Finished, Step::Finish(Err(e))),
            },
            Phase::RunningReadyHook(i) => match outcome {
                Ok(()) => Self::ready_from(c, i + 1),
                Err(e) => (Phase::Finished, Step::Finish(Err(e))),
            },
            Phase::Serving => if c.lifespans > 0 {
                Self::stopping_from(c.lifespans)
            } else if 0 < c.shutdown_hooks {
                (Phase::RunningShutdownHook(0), Step::RunShutdownHook(0))
            } else {
                (Phase::Finished, Step::Finish(Ok(())))
            },
            Phase::StoppingLifespan(i) => Self::stopping_from(i),
            Phase::RunningShutdownHook(i) => if i + 1 < c.shutdown_hooks {
                (Phase::RunningShutdownHook(i + 1), Step::RunShutdownHook(i + 1))
            } else {
                (Phase::Finished, Step::Finish(Ok(())))
            },
            _ => (Phase::Finished, Step::Finish(Ok(()))),
        };
        self.phase = next;
        step
    }

    fn lifespans_from(c: LifecycleCounts, i: usize) -> (r: (Phase, Step))
        ensures
            r == lifespans_from(c, i as int),
            phase_ok(c, r.0),
    {
        if i < c.lifespans {
            (Phase::StartingLifespan(i), Step::StartLifespan(i))
        } else {
            (Phase::Building, Step::Build)
        }
    }

    fn rollback_from(i: usize, e: Error) -> (r: (Phase, Step))
        ensures
            r == rollback_from(i as int, e),
    {
        if i > 0 {
            (Phase::RollingBack(i - 1, e), Step::RollBackLifespan(i - 1))
        } else {
            (Phase::Finished, Step::Finish(Err(e)))
        }
    }

    fn ready_from(c: LifecycleCounts, i: usize) -> (r: (Phase, Step))
        ensures
            r == ready_from(c, i as int),
            phase_ok(c, r.0),
    {
        if i < c.ready_hooks {
            (Phase::RunningReadyHook(i), Step::RunReadyHook(i))
        } else {
            (Phase::Serving, Step::Serve)
        }
    }

    fn stopping_from(i: usize) -> (r: (Phase, Step))
        ensures
            r == stopping_from(i as int),
    {
        if i > 0 {
            (Phase::StoppingLifespan(i - 1), Step::StopLifespan(i - 1))
        } else {
            (Phase::Finished, Step::Finish(Ok(())))
        }
    }
}

/// The steps decided when the outcomes `outcomes` are reported in turn,
/// starting from `phase` (stopping once the run is finished).
pub open spec fn drive(c: LifecycleCounts, phase: Phase, outcomes: Seq<Result<(), Error>>) -> Seq<Step>
    decreases outcomes.len(),
{
    if outcomes.len() == 0 || phase is Finished || phase is Idle {
        Seq::empty()
    } else {
        let (next, step) = spec_advance(c, phase, outcomes[0]);
        seq![step] + drive(c, next, outcomes.drop_first())
    }
}

/// Rolling back `i` lifespans: each of them, last first, whatever their
/// shutdown gives, then the startup error.
proof fn lemma_rollback_steps(c: LifecycleCounts, i: int, e: Error, outcomes: Seq<Result<(), Error>>)
    requires
        0 <= i <= c.lifespans,
        outcomes.len() == i,
    ensures
        seq![rollback_from(i, e).1] + drive(c, rollback_from(i, e).0, outcomes) == Seq::new(
            i as nat,
            |j: int| Step::RollBackLifespan((i - 1 - j) as usize),
        ).push(Step::Finish(Err(e))),
    decreases i,
{
    if i > 0 {
        lemma_rollback_steps(c, i - 1, e, outcomes.drop_first());
        assert(seq![rollback_from(i, e).1] + drive(c, rollback_from(i, e).0, outcomes) =~= Seq::new(
            i as nat,
            |j: int| Step::RollBackLifespan((i - 1 - j) as usize),
        ).push(Step::Finish(Err(e))));
    } else {
        assert(seq![rollback_from(i, e).1] + drive(c, rollback_from(i, e).0, outcomes) =~= Seq::new(
            i as nat,
            |j: int| Step::RollBackLifespan((i - 1 - j) as usize),
        ).push(Step::Finish(Err(e))));
    }
}

/// When the lifespan at position `k` fails to start with `e`, the lifespans
/// started before it are shut down, last first (whatever their shutdown
/// gives), and then the run finishes with `e`.
pub proof fn law_failed_startup_rolls_back_in_reverse(
    c: LifecycleCounts,
    k: usize,
    e: Error,
    outcomes: Seq<Result<(), Error>>,
)
    requires
        k < c.lifespans,
        outcomes.len() == k + 1,
        outcomes[0] == Err::<(), Error>(e),
    ensures
        drive(c, Phase::StartingLifespan(k), outcomes) == Seq::new(
            k as nat,
            |j: int| Step::RollBackLifespan((k - 1 - j) as usize),
        ).push(Step::Finish(Err(e))),
{
    lemma_rollback_steps(c, k as int, e, outcomes.drop_first());
}

/// Shutting down the `i` lifespans not yet shut down: each of them, last
/// first, whatever their shutdown gives, then a successful finish.
proof fn lemma_stopping_steps(c: LifecycleCounts, i: int, outcomes: Seq<Result<(), Error>>)
    requires
        0 <= i <= c.lifespans,
        outcomes.len() == i,
    ensures
        seq![stopping_from(i).1] + drive(c, stopping_from(i).0, outcomes) == Seq::new(
            i as nat,
            |j: int| Step::StopLifespan((i - 1 - j) as usize),
        ).push(Step::Finish(Ok(()))),
    decreases i,
{
    if i > 0 {
        lemma_stopping_steps(c, i - 1, outcomes.drop_first());
    }
    assert(seq![stopping_from(i).1] + drive(c, stopping_from(i).0, outcomes) =~= Seq::new(
        i as nat,
        |j: int| Step::StopLifespan((i - 1 - j) as usize),
    ).push(Step::Finish(Ok(()))));
}

/// After serving, every lifespan is shut down, in reverse order of startup; a
/// failing shutdown does not stop the others; the run then finishes
/// successfully.
pub proof fn law_shutdown_runs_in_reverse(c: LifecycleCounts, outcomes: Seq<Result<(), Error>>)
    requires
        c.lifespans > 0,
        outcomes.len() == c.lifespans + 1,
    ensures
        drive(c, Phase::Serving, outcomes) == Seq::new(
            c.lifespans as nat,
            |j: int| Step::StopLifespan((c.lifespans - 1 - j) as usize),
        ).push(Step::Finish(Ok(()))),
{
    lemma_stopping_steps(c, c.lifespans as int, outcomes.drop_first());
}

/// Starting lifespans from position `i` with every startup succeeding.
proof fn lemma_starting_steps(c: LifecycleCounts, i: int, outcomes: Seq<Result<(), Error>>)
    requires
        1 <= i <= c.lifespans,
        outcomes.len() == c.lifespans - i,
        forall|j: int| 0 <= j < outcomes.len() ==> outcomes[j] is Ok,
    ensures
        seq![lifespans_from(c, i).1] + drive(c, lifespans_from(c, i).0, outcomes) == Seq::new(
            (c.lifespans - i) as nat,
            |j: int| Step::StartLifespan((i + j) as usize),
        ).push(Step::Build),
    decreases c.lifespans - i,
{
    if i < c.lifespans {
        assert(outcomes[0] is Ok);
        lemma_starting_steps(c, i + 1, outcomes.drop_first());
    }
    assert(seq![lifespans_from(c, i).1] + drive(c, lifespans_from(c, i).0, outcomes) =~= Seq::new(
        (c.lifespans - i) as nat,
        |j: int| Step::StartLifespan((i + j) as usize),
    ).push(Step::Build));
}

/// When every lifespan starts successfully, they are started one by one in
/// registration order, and the application is then built.
pub proof fn law_lifespans_start_in_order(c: LifecycleCounts, outcomes: Seq<Result<(), Error>>)
    requires
        c.lifespans > 0,
        outcomes.len() == c.lifespans,
        forall|j: int| 0 <= j < outcomes.len() ==> outcomes[j] is Ok,
    ensures
        drive(c, Phase::StartingLifespan(0), outcomes) == Seq::new(
            (c.lifespans - 1) as nat,
            |j: int| Step::StartLifespan((j + 1) as usize),
        ).push(Step::Build),
{
    assert(outcomes[0] is Ok);
    lemma_starting_steps(c, 1, outcomes.drop_first());
    assert(Seq::new((c.lifespans - 1) as nat, |j: int| Step::StartLifespan((1 + j) as usize)) =~= Seq::new(
        (c.lifespans - 1) as nat,
        |j: int| Step::StartLifespan((j + 1) as usize),
    ));
}

} // verus!
