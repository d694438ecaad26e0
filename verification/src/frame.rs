//! The phases of one frame.
//!
//! A frame freezes the population into a snapshot, indexes the snapshot,
//! hands the shares to the workers, waits for every worker, and only then
//! lets the single writer commit. The host does the work; [`step`] tells it
//! what to do next and refuses what comes out of turn.

use vstd::prelude::*;

verus! {

/// Where a frame stands.
#[derive(Clone, Copy, Debug, PartialEq, Eq)]
pub enum Phase {
    /// Between two frames.
    Idle,
    /// The population is being frozen into a read-only snapshot.
    BuildSnapshot,
    /// The snapshot's positions are being indexed for radius queries.
    BuildSpatialIndex,
    /// The shares are being handed to the workers.
    Dispatch,
    /// `joined` of the frame's `workers` have handed in their forces; the
    /// others are still reading the snapshot.
    Join { workers: usize, joined: usize },
    /// The writer is applying the forces to the population.
    Commit,
}

/// What the host reports back.
#[derive(Clone, Copy, Debug, PartialEq, Eq)]
pub enum Event {
    /// A new frame is due.
    FrameRequested,
    /// The snapshot stands.
    SnapshotTaken,
    /// The spatial index stands.
    IndexBuilt,
    /// `workers` workers are running, each on its share.
    WorkersSpawned { workers: usize },
    /// The worker that the host was told to join handed in its forces.
    WorkerJoined,
    /// The worker that the host was told to join broke off.
    WorkerFailed,
    /// Every agent has been updated.
    Committed,
}

/// What the host is to do next.
#[derive(Clone, Copy, Debug, PartialEq, Eq)]
pub enum Action {
    /// Freeze the population into a snapshot.
    TakeSnapshot,
    /// Index the snapshot's positions.
    BuildIndex,
    /// Cut the population into shares and start one worker on each.
    SpawnWorkers,
    /// Wait for the worker with this number and take its forces.
    JoinWorker { worker: usize },
    /// Apply the forces to the population, in population order.
    CommitForces,
    /// The frame is done.
    Rest,
}

/// Why a frame cannot go on.
#[derive(Clone, Copy, Debug, PartialEq, Eq)]
pub enum Fault {
    /// The event does not belong to the phase.
    OutOfTurn,
    /// The worker with this number broke off: its share is missing, and
    /// the frame must not be committed.
    WorkerLost { worker: usize },
}

impl Phase {
    /// A joining phase still waits for at least one worker.
    pub open spec fn wf(self) -> bool {
        self matches Phase::Join { workers, joined } ==> joined < workers
    }

    /// Whether workers may be reading the snapshot in this phase.
    pub open spec fn workers_may_run(self) -> bool {
        self is Dispatch || self is Join
    }
}

/// What the host is told when a frame enters `phase`.
pub open spec fn entering(phase: Phase) -> Action {
    match phase {
        Phase::Idle => Action::Rest,
        Phase::BuildSnapshot => Action::TakeSnapshot,
        Phase::BuildSpatialIndex => Action::BuildIndex,
        Phase::Dispatch => Action::SpawnWorkers,
        Phase::Join { workers, joined } => Action::JoinWorker { worker: joined },
        Phase::Commit => Action::CommitForces,
    }
}

/// Where a frame stands when `joined` of its `workers` have handed in
/// their forces: it waits for the next while one is missing, and commits
/// when none is.
pub open spec fn waiting(workers: usize, joined: int) -> Phase {
    if joined < workers {
        Phase::Join { workers, joined: joined as usize }
    } else {
        Phase::Commit
    }
}

/// The phase that `event` leads to from `phase`, if the event belongs to
/// the phase.
pub open spec fn successor(phase: Phase, event: Event) -> Option<Phase> {
    match (phase, event) {
        (Phase::Idle, Event::FrameRequested) => Some(Phase::BuildSnapshot),
        (Phase::BuildSnapshot, Event::SnapshotTaken) => Some(Phase::BuildSpatialIndex),
        (Phase::BuildSpatialIndex, Event::IndexBuilt) => Some(Phase::Dispatch),
        (Phase::Dispatch, Event::WorkersSpawned { workers }) => Some(waiting(workers, 0)),
        (Phase::Join { workers, joined }, Event::WorkerJoined) => Some(
            waiting(workers, joined + 1),
        ),
        (Phase::Commit, Event::Committed) => Some(Phase::Idle),
        _ => None,
    }
}

/// Why `event` does not take a frame on from `phase`: the worker that was
/// waited for broke off, or the event does not belong to the phase.
pub open spec fn refusal(phase: Phase, event: Event) -> Fault {
    match (phase, event) {
        (Phase::Join { workers, joined }, Event::WorkerFailed) => Fault::WorkerLost {
            worker: joined,
        },
        _ => Fault::OutOfTurn,
    }
}

/// The phase after `event`, and what the host is told: on to the successor
/// and its action, or a fault, which leaves the phase as it was.
pub open spec fn transition(phase: Phase, event: Event) -> (Phase, Result<Action, Fault>) {
    match successor(phase, event) {
        Some(next) => (next, Ok(entering(next))),
        None => (phase, Err(refusal(phase, event))),
    }
}

/// The phase that a run of events leaves behind. An event out of turn
/// changes nothing.
pub open spec fn run(phase: Phase, events: Seq<Event>) -> Phase
    decreases events.len(),
{
    if events.len() == 0 {
        phase
    } else {
        transition(run(phase, events.drop_last()), events.last()).0
    }
}

/// Whether every event of a run comes in its turn.
pub open spec fn in_turn(phase: Phase, events: Seq<Event>) -> bool
    decreases events.len(),
{
    events.len() > 0 ==> in_turn(phase, events.drop_last()) && transition(
        run(phase, events.drop_last()),
        events.last(),
    ).1 is Ok
}

/// The reports of a frame up to the moment when `joined` of its `workers`
/// have handed in their forces.
pub open spec fn frame_until(workers: usize, joined: nat) -> Seq<Event> {
    seq![
        Event::FrameRequested,
        Event::SnapshotTaken,
        Event::IndexBuilt,
        Event::WorkersSpawned { workers },
    ] + Seq::new(joined, |i: int| Event::WorkerJoined)
}

/// The reports of a whole frame with `workers` workers.
pub open spec fn whole_frame(workers: usize) -> Seq<Event> {
    frame_until(workers, workers as nat).push(Event::Committed)
}

/// Takes a frame one step on: the phase after `event`, and the next action
/// or the fault.
pub fn step(phase: Phase, event: Event) -> (r: (Phase, Result<Action, Fault>))
    ensures
        r == transition(phase, event),
        phase.wf() ==> r.0.wf(),
{
    match (phase, event) {
        (Phase::Idle, Event::FrameRequested) => (Phase::BuildSnapshot, Ok(Action::TakeSnapshot)),
        (Phase::BuildSnapshot, Event::SnapshotTaken) => (
            Phase::BuildSpatialIndex,
            Ok(Action::BuildIndex),
        ),
        (Phase::BuildSpatialIndex, Event::IndexBuilt) => (
            Phase::Dispatch,
            Ok(Action::SpawnWorkers),
        ),
        (Phase::Dispatch, Event::WorkersSpawned { workers }) => {
            if workers == 0 {
                (Phase::Commit, Ok(Action::CommitForces))
            } else {
                (Phase::Join { workers, joined: 0 }, Ok(Action::JoinWorker { worker: 0 }))
            }
        },
        (Phase::Join { workers, joined }, Event::WorkerJoined) => {
            if workers == 0 || joined >= workers - 1 {
                (Phase::Commit, Ok(Action::CommitForces))
            } else {
                (
                    Phase::Join { workers, joined: joined + 1 },
                    Ok(Action::JoinWorker { worker: joined + 1 }),
                )
            }
        },
        (Phase::Join { workers, joined }, Event::WorkerFailed) => (
            phase,
            Err(Fault::WorkerLost { worker: joined }),
        ),
        (Phase::Commit, Event::Committed) => (Phase::Idle, Ok(Action::Rest)),
        _ => (phase, Err(Fault::OutOfTurn)),
    }
}

/// The writer is let in only behind the last worker: a step answers with
/// `CommitForces` only when no worker was started, or when the last worker
/// that was waited for has handed in its forces. The phase is then
/// `Commit`, in which no worker runs.
pub proof fn lemma_commit_follows_last_join(phase: Phase, event: Event)
    requires
        transition(phase, event).1 == Ok::<Action, Fault>(Action::CommitForces),
    ensures
        transition(phase, event).0 == Phase::Commit,
        !transition(phase, event).0.workers_may_run(),
        ({
            ||| phase is Dispatch && event == Event::WorkersSpawned { workers: 0 }
            ||| phase matches Phase::Join { workers, joined } && event is WorkerJoined && joined
                + 1 >= workers
        }),
{
}

/// A lost worker stops the frame: the fault names the worker, the phase
/// stays `Join`, and no later event gets the frame to `Commit` but the
/// join of that worker.
pub proof fn lemma_lost_worker_blocks_commit(workers: usize, joined: usize, event: Event)
    requires
        joined < workers,
    ensures
        transition(Phase::Join { workers, joined }, Event::WorkerFailed) == (
            Phase::Join { workers, joined },
            Err::<Action, Fault>(Fault::WorkerLost { worker: joined }),
        ),
        transition(Phase::Join { workers, joined }, event).0 is Commit ==> event is WorkerJoined,
{
}

/// A fault changes nothing.
pub proof fn lemma_fault_keeps_phase(phase: Phase, event: Event)
    requires
        transition(phase, event).1 is Err,
    ensures
        transition(phase, event).0 == phase,
{
}

/// While workers are handing in, the frame waits in `Join` for the next of
/// them, and every report so far came in its turn.
proof fn lemma_frame_until(workers: usize, joined: nat)
    requires
        joined <= workers,
    ensures
        in_turn(Phase::Idle, frame_until(workers, joined)),
        run(Phase::Idle, frame_until(workers, joined)) == if joined < workers {
            Phase::Join { workers, joined: joined as usize }
        } else {
            Phase::Commit
        },
    decreases joined,
{
    let events = frame_until(workers, joined);
    if joined == 0 {
        reveal_with_fuel(run, 5);
        reveal_with_fuel(in_turn, 5);
        let head = seq![
            Event::FrameRequested,
            Event::SnapshotTaken,
            Event::IndexBuilt,
            Event::WorkersSpawned { workers },
        ];
        assert(events == head);
        assert(head.drop_last() == seq![
            Event::FrameRequested,
            Event::SnapshotTaken,
            Event::IndexBuilt,
        ]);
        assert(head.drop_last().drop_last() == seq![Event::FrameRequested, Event::SnapshotTaken]);
        assert(head.drop_last().drop_last().drop_last() == seq![Event::FrameRequested]);
        assert(head.drop_last().drop_last().drop_last().drop_last() == Seq::<Event>::empty());
    } else {
        lemma_frame_until(workers, (joined - 1) as nat);
        assert(events.drop_last() == frame_until(workers, (joined - 1) as nat));
        assert(events.last() == Event::WorkerJoined);
    }
}

/// A frame runs to its end: the reports of a whole frame, whatever the
/// number of workers, all come in their turn and lead from `Idle` back to
/// `Idle`.
pub proof fn lemma_whole_frame_returns_to_idle(workers: usize)
    ensures
        in_turn(Phase::Idle, whole_frame(workers)),
        run(Phase::Idle, whole_frame(workers)) == Phase::Idle,
{
    lemma_frame_until(workers, workers as nat);
    let events = whole_frame(workers);
    assert(events.drop_last() == frame_until(workers, workers as nat));
    assert(events.last() == Event::Committed);
}

} // verus!
