use vstd::prelude::*;

verus! {

/// Microseconds in one millisecond.
pub const MICROS_PER_MILLI: u64 = 1000;

/// Where the main loop stands.
#[derive(Copy, Clone, Debug, PartialEq, Eq, Structural)]
pub enum LoopPhase {
    /// Frames are being run.
    Running,
    /// The updater asked to exit; the loop has stopped normally.
    Terminated,
    /// The tree update failed; the loop has stopped and the error goes to the caller.
    Failed,
}

/// What the loop reports to the scheduler during one iteration.
#[derive(Copy, Clone, Debug, PartialEq, Eq, Structural)]
pub enum FrameEvent {
    /// The tree-owned state was reconciled; `ok` is false when that failed.
    TreeUpdated { ok: bool },
    /// The tree was rendered. `exit` is the updater's exit flag, `elapsed_micros`
    /// the time the iteration has taken so far.
    Rendered { exit: bool, elapsed_micros: u64 },
}

/// What the loop does next.
#[derive(Copy, Clone, Debug, PartialEq, Eq, Structural)]
pub enum FrameAction {
    /// Render the tree.
    Render,
    /// Idle for this many microseconds, then start the next iteration.
    Sleep { micros: u64 },
    /// Start the next iteration at once (the frame overran its budget).
    Proceed,
    /// Stop: report the frame statistics and return success.
    Finish,
    /// Stop at once and hand the update error to the caller.
    Abort,
}

/// Target frame length, in microseconds, for a frame rate in frames per second:
/// whole milliseconds, truncated. A rate of zero gives the largest duration.
pub open spec fn frame_micros_for(frame_rate: u32) -> int {
    if frame_rate == 0 {
        u64::MAX as int
    } else {
        (1000int / frame_rate as int) * 1000int
    }
}

/// Decisions of the fixed-timestep main loop.
#[derive(Copy, Clone, Debug, PartialEq, Eq, Structural)]
pub struct FrameScheduler {
    pub frame_micros: u64,
    pub phase: LoopPhase,
    /// Iterations completed without exiting.
    pub frames: u64,
    /// Total time of those iterations, saturating at `u64::MAX`.
    pub render_micros: u64,
}

/// The scheduler after `event`, and the action it asks for.
pub open spec fn step(s: FrameScheduler, event: FrameEvent) -> (FrameScheduler, FrameAction) {
    if s.phase != LoopPhase::Running {
        (s, if s.phase == LoopPhase::Failed { FrameAction::Abort } else { FrameAction::Finish })
    } else {
        match event {
            FrameEvent::TreeUpdated { ok } => if ok {
                (s, FrameAction::Render)
            } else {
                (FrameScheduler { phase: LoopPhase::Failed, ..s }, FrameAction::Abort)
            },
            FrameEvent::Rendered { exit, elapsed_micros } => if exit {
                (FrameScheduler { phase: LoopPhase::Terminated, ..s }, FrameAction::Finish)
            } else {
                let next = FrameScheduler {
                    frames: if s.frames == u64::MAX { s.frames } else { (s.frames + 1) as u64 },
                    render_micros: if s.render_micros + elapsed_micros > u64::MAX {
                        u64::MAX
                    } else {
                        (s.render_micros + elapsed_micros) as u64
                    },
                    ..s
                };
                if elapsed_micros < s.frame_micros {
                    (next, FrameAction::Sleep { micros: (s.frame_micros - elapsed_micros) as u64 })
                } else {
                    (next, FrameAction::Proceed)
                }
            },
        }
    }
}

/// The actions taken for a run of events, in order.
pub open spec fn run(s: FrameScheduler, events: Seq<FrameEvent>) -> Seq<FrameAction>
    decreases events.len(),
{
    if events.len() == 0 {
        Seq::empty()
    } else {
        let (next, action) = step(s, events[0]);
        seq![action] + run(next, events.drop_first())
    }
}

impl FrameScheduler {
    /// A running scheduler for `frame_rate` frames per second.
    pub fn new(frame_rate: u32) -> (r: FrameScheduler)
        ensures
            r.frame_micros == frame_micros_for(frame_rate),
            r.phase == LoopPhase::Running,
            r.frames == 0,
            r.render_micros == 0,
    {
        let frame_micros: u64 = if frame_rate == 0 {
            u64::MAX
        } else {
            (1000 / frame_rate as u64) * MICROS_PER_MILLI
        };
        FrameScheduler { frame_micros, phase: LoopPhase::Running, frames: 0, render_micros: 0 }
    }

    /// Takes in what happened and says what the loop does next.
    pub fn next_action(&mut self, event: FrameEvent) -> (r: FrameAction)
        ensures
            (*final(self), r) == step(*old(self), event),
    {
        if self.phase != LoopPhase::Running {
            if self.phase == LoopPhase::Failed {
                return FrameAction::Abort;
            }
            return FrameAction::Finish;
        }
        match event {
            FrameEvent::TreeUpdated { ok } => {
                if ok {
                    FrameAction::Render
                } else {
                    self.phase = LoopPhase::Failed;
                    FrameAction::Abort
                }
            },
            FrameEvent::Rendered { exit, elapsed_micros } => {
                if exit {
                    self.phase = LoopPhase::Terminated;
                    return FrameAction::Finish;
                }
                if self.frames < u64::MAX {
                    self.frames = self.frames + 1;
                }
                self.render_micros = self.render_micros.saturating_add(elapsed_micros);
                if elapsed_micros < self.frame_micros {
                    FrameAction::Sleep { micros: self.frame_micros - elapsed_micros }
                } else {
                    FrameAction::Proceed
                }
            },
        }
    }
}

/// An iteration that ends before its budget idles for exactly the rest of the
/// frame; one that overruns proceeds at once. Either way it is counted once,
/// and the next iteration renders as usual: nothing is skipped or repeated.
pub proof fn lemma_frame_pacing(s: FrameScheduler, elapsed_micros: u64)
    requires
        s.phase == LoopPhase::Running,
        s.frames < u64::MAX,
    ensures
        ({
            let (next, action) = step(s, FrameEvent::Rendered { exit: false, elapsed_micros });
            &&& next.frames == s.frames + 1
            &&& next.phase == LoopPhase::Running
            &&& elapsed_micros < s.frame_micros ==> action == (FrameAction::Sleep {
                micros: (s.frame_micros - elapsed_micros) as u64,
            })
            &&& elapsed_micros >= s.frame_micros ==> action == FrameAction::Proceed
            &&& step(next, FrameEvent::TreeUpdated { ok: true }) == (next, FrameAction::Render)
        }),
{
}

/// Once the tree update has failed, the loop renders nothing more: every later
/// event, whatever it is, is answered with `Abort`.
pub proof fn lemma_update_failure_is_fatal(s: FrameScheduler, rest: Seq<FrameEvent>)
    requires
        s.phase == LoopPhase::Running,
    ensures
        ({
            let actions = run(s, seq![FrameEvent::TreeUpdated { ok: false }] + rest);
            &&& actions.len() == rest.len() + 1
            &&& forall|i: int| 0 <= i < actions.len() ==> actions[i] == FrameAction::Abort
        }),
{
    let events = seq![FrameEvent::TreeUpdated { ok: false }] + rest;
    assert(events.drop_first() =~= rest);
    let failed = FrameScheduler { phase: LoopPhase::Failed, ..s };
    lemma_failed_stays_aborted(failed, rest);
}

proof fn lemma_failed_stays_aborted(s: FrameScheduler, events: Seq<FrameEvent>)
    requires
        s.phase == LoopPhase::Failed,
    ensures
        run(s, events).len() == events.len(),
        forall|i: int| 0 <= i < events.len() ==> run(s, events)[i] == FrameAction::Abort,
    decreases events.len(),
{
    if events.len() > 0 {
        lemma_failed_stays_aborted(s, events.drop_first());
    }
}

} // verus!
