//! The decode worker's sampling cycle as a state machine.
//!
//! The worker sleeps, samples the grayscale mailbox, decodes what it found,
//! publishes the batch and looks at the stop flag, in that order and for
//! ever. Sleeping, locking and reading the flag are done by whoever runs the
//! worker; which of them comes next is decided here. The runner performs the
//! action it is handed and reports back with the matching event.

use crate::mailbox::{after_take, after_writes, lemma_latest_write_wins, taken};
use crate::qr::QRCode;
use crate::raster::GrayImage;
use vstd::prelude::*;

verus! {

/// Milliseconds between two samples. Longer than a camera's frame interval,
/// so that decoding never runs once per frame.
pub const SAMPLING_INTERVAL_MS: u64 = 51;

/// Where the worker is in its cycle.
#[derive(Clone, Copy, Debug, PartialEq, Eq, Structural)]
pub enum WorkerState {
    /// Between two samples.
    Idle,
    /// About to read the grayscale mailbox.
    Sampling,
    /// A frame is with the engine.
    Decoding,
    /// The worker has left its loop for good.
    Stopped,
}

/// What the runner reports back.
pub enum WorkerEvent {
    /// The sampling interval has passed.
    Elapsed,
    /// The grayscale mailbox was read; `None` where it was empty or could
    /// not be reached.
    Sampled(Option<GrayImage>),
    /// The engine is done with the frame and this is its batch.
    Decoded(Vec<QRCode>),
    /// The stop flag as it was read at the end of an iteration.
    StopFlag(bool),
}

/// What the runner is to do next.
pub enum WorkerAction {
    /// Sleep for so many milliseconds, then report `Elapsed`.
    Sleep(u64),
    /// Take the content of the grayscale mailbox and report `Sampled`.
    Sample,
    /// Run the engine on the frame, holding no lock, and report `Decoded`.
    Decode(GrayImage),
    /// Write the batch to the results mailbox over whatever is there, then
    /// read the stop flag and report `StopFlag`.
    Publish(Vec<QRCode>),
    /// Read the stop flag and report `StopFlag`.
    CheckStop,
    /// Leave the loop.
    Exit,
    /// Nothing: the event was not one this state expects and was ignored.
    Wait,
}

/// The state and first action of a worker that has just been started.
pub open spec fn initial() -> (WorkerState, WorkerAction) {
    (WorkerState::Idle, WorkerAction::Sleep(SAMPLING_INTERVAL_MS))
}

/// The worker's transition function: the state an event leads to, and the
/// action it calls for.
pub open spec fn transition(state: WorkerState, event: WorkerEvent) -> (
    WorkerState,
    WorkerAction,
) {
    match (state, event) {
        (WorkerState::Stopped, _) => (WorkerState::Stopped, WorkerAction::Exit),
        (WorkerState::Idle, WorkerEvent::Elapsed) => (WorkerState::Sampling, WorkerAction::Sample),
        (WorkerState::Idle, WorkerEvent::StopFlag(stop)) => if stop {
            (WorkerState::Stopped, WorkerAction::Exit)
        } else {
            (WorkerState::Idle, WorkerAction::Sleep(SAMPLING_INTERVAL_MS))
        },
        (WorkerState::Sampling, WorkerEvent::Sampled(Some(frame))) => (
            WorkerState::Decoding,
            WorkerAction::Decode(frame),
        ),
        (WorkerState::Sampling, WorkerEvent::Sampled(None)) => (
            WorkerState::Idle,
            WorkerAction::CheckStop,
        ),
        (WorkerState::Decoding, WorkerEvent::Decoded(batch)) => (
            WorkerState::Idle,
            WorkerAction::Publish(batch),
        ),
        (other, _) => (other, WorkerAction::Wait),
    }
}

/// Starts a worker: it is idle, and its first action is to sleep for one
/// sampling interval.
pub fn start() -> (first: (WorkerState, WorkerAction))
    ensures
        first == initial(),
{
    (WorkerState::Idle, WorkerAction::Sleep(SAMPLING_INTERVAL_MS))
}

/// One step of the worker: takes the state it is in and the event the
/// runner reports, and gives the next state and the next action.
pub fn decode_qr(state: WorkerState, event: WorkerEvent) -> (next: (WorkerState, WorkerAction))
    ensures
        next == transition(state, event),
{
    match state {
        WorkerState::Stopped => (WorkerState::Stopped, WorkerAction::Exit),
        WorkerState::Idle => match event {
            WorkerEvent::Elapsed => (WorkerState::Sampling, WorkerAction::Sample),
            WorkerEvent::StopFlag(stop) => if stop {
                (WorkerState::Stopped, WorkerAction::Exit)
            } else {
                (WorkerState::Idle, WorkerAction::Sleep(SAMPLING_INTERVAL_MS))
            },
            _ => (WorkerState::Idle, WorkerAction::Wait),
        },
        WorkerState::Sampling => match event {
            WorkerEvent::Sampled(Some(frame)) => (
                WorkerState::Decoding,
                WorkerAction::Decode(frame),
            ),
            WorkerEvent::Sampled(None) => (WorkerState::Idle, WorkerAction::CheckStop),
            _ => (WorkerState::Sampling, WorkerAction::Wait),
        },
        WorkerState::Decoding => match event {
            WorkerEvent::Decoded(batch) => (WorkerState::Idle, WorkerAction::Publish(batch)),
            _ => (WorkerState::Decoding, WorkerAction::Wait),
        },
    }
}

/// A stopped worker stays stopped: whatever is reported to it, it asks for
/// nothing but to leave the loop. No frame is handed to the engine and no
/// batch is published once the worker has stopped.
pub proof fn lemma_stopped_is_final(event: WorkerEvent)
    ensures
        transition(WorkerState::Stopped, event) == (WorkerState::Stopped, WorkerAction::Exit),
{
}

/// The worker stops in one way only: idle, on reading a stop flag that is
/// set. In particular a decode that has begun is never cut short.
pub proof fn lemma_stops_only_when_idle(state: WorkerState, event: WorkerEvent)
    requires
        state != WorkerState::Stopped,
        transition(state, event).0 == WorkerState::Stopped,
    ensures
        state == WorkerState::Idle,
        event == WorkerEvent::StopFlag(true),
{
}

/// While a frame is with the engine the worker waits for the batch and for
/// nothing else.
pub proof fn lemma_decode_runs_to_completion(event: WorkerEvent)
    requires
        !(event is Decoded),
    ensures
        transition(WorkerState::Decoding, event) == (WorkerState::Decoding, WorkerAction::Wait),
{
}

/// The engine is asked for exactly the frame that a sample brought, and a
/// batch is published only when the engine has answered.
pub proof fn lemma_actions_follow_their_events(state: WorkerState, event: WorkerEvent)
    ensures
        transition(state, event).1 matches WorkerAction::Decode(frame) ==> state
            == WorkerState::Sampling && event == WorkerEvent::Sampled(Some(frame)),
        transition(state, event).1 matches WorkerAction::Publish(batch) ==> state
            == WorkerState::Decoding && event == WorkerEvent::Decoded(batch),
        transition(state, event).1 is Sample ==> state == WorkerState::Idle && event is Elapsed,
{
}

/// However many frames were written to the grayscale mailbox since the last
/// sample, the next sample hands the engine the last of them and no other,
/// and a sample right after it finds nothing to decode.
pub proof fn lemma_only_the_latest_frame_is_decoded(
    held: Option<GrayImage>,
    frames: Seq<GrayImage>,
)
    requires
        frames.len() > 0,
    ensures
        transition(WorkerState::Sampling, WorkerEvent::Sampled(taken(after_writes(held, frames))))
            == (WorkerState::Decoding, WorkerAction::Decode(frames.last())),
        transition(
            WorkerState::Sampling,
            WorkerEvent::Sampled(taken(after_take(after_writes(held, frames)))),
        ) == (WorkerState::Idle, WorkerAction::CheckStop),
{
    lemma_latest_write_wins(held, frames);
}

/// The state a worker is in after `events` were reported to it in order,
/// starting from `state`.
pub open spec fn run(state: WorkerState, events: Seq<WorkerEvent>) -> WorkerState
    decreases events.len(),
{
    if events.len() == 0 {
        state
    } else {
        transition(run(state, events.drop_last()), events.last()).0
    }
}

/// How many frames were handed to the engine in the course of that run.
pub open spec fn decodes(state: WorkerState, events: Seq<WorkerEvent>) -> nat
    decreases events.len(),
{
    if events.len() == 0 {
        0
    } else {
        let before = decodes(state, events.drop_last());
        if transition(run(state, events.drop_last()), events.last()).1 is Decode {
            before + 1
        } else {
            before
        }
    }
}

/// How many batches were handed out for publishing in the course of that
/// run.
pub open spec fn publishes(state: WorkerState, events: Seq<WorkerEvent>) -> nat
    decreases events.len(),
{
    if events.len() == 0 {
        0
    } else {
        let before = publishes(state, events.drop_last());
        if transition(run(state, events.drop_last()), events.last()).1 is Publish {
            before + 1
        } else {
            before
        }
    }
}

/// How many sampling intervals are reported to have passed.
pub open spec fn intervals(events: Seq<WorkerEvent>) -> nat
    decreases events.len(),
{
    if events.len() == 0 {
        0
    } else if events.last() is Elapsed {
        intervals(events.drop_last()) + 1
    } else {
        intervals(events.drop_last())
    }
}

/// The sampling interval limits the rate of decoding: whatever is reported
/// to a worker and in whatever order, it hands the engine at most one frame
/// for each interval that has passed, and publishes at most one batch for
/// each frame handed to the engine.
pub proof fn lemma_one_decode_per_interval(events: Seq<WorkerEvent>)
    ensures
        decodes(WorkerState::Idle, events) <= intervals(events),
        publishes(WorkerState::Idle, events) <= decodes(WorkerState::Idle, events),
{
    lemma_run_accounts(events);
}

/// The bookkeeping behind [`lemma_one_decode_per_interval`]: a worker that is
/// sampling has one interval to its credit that no decode has used up, and
/// one that is decoding has one decode that no batch has answered.
proof fn lemma_run_accounts(events: Seq<WorkerEvent>)
    ensures
        decodes(WorkerState::Idle, events) + (if run(WorkerState::Idle, events)
            == WorkerState::Sampling {
            1nat
        } else {
            0nat
        }) <= intervals(events),
        publishes(WorkerState::Idle, events) + (if run(WorkerState::Idle, events)
            == WorkerState::Decoding {
            1nat
        } else {
            0nat
        }) <= decodes(WorkerState::Idle, events),
    decreases events.len(),
{
    if events.len() > 0 {
        lemma_run_accounts(events.drop_last());
    }
}

/// Stopping is for good: once a run has reached the stopped state, nothing
/// that is reported afterwards leads out of it, and no frame is handed to
/// the engine and no batch is published from then on.
pub proof fn lemma_nothing_happens_after_stop(
    state: WorkerState,
    events: Seq<WorkerEvent>,
    later: Seq<WorkerEvent>,
)
    requires
        run(state, events) == WorkerState::Stopped,
    ensures
        run(state, events + later) == WorkerState::Stopped,
        decodes(state, events + later) == decodes(state, events),
        publishes(state, events + later) == publishes(state, events),
    decreases later.len(),
{
    if later.len() == 0 {
        assert(events + later =~= events);
    } else {
        lemma_nothing_happens_after_stop(state, events, later.drop_last());
        assert((events + later).drop_last() =~= events + later.drop_last());
        assert((events + later).last() == later.last());
    }
}

} // verus!
