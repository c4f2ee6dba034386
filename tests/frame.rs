use grt::{FrameAction, FrameEvent, FrameScheduler, LoopPhase};

#[test]
fn frame_length_from_rate() {
    assert_eq!(FrameScheduler::new(50).frame_micros, 20_000);
    assert_eq!(FrameScheduler::new(60).frame_micros, 16_000);
    assert_eq!(FrameScheduler::new(0).frame_micros, u64::MAX);
}

#[test]
fn short_frame_sleeps_for_the_rest() {
    let mut s = FrameScheduler::new(50);
    assert_eq!(s.next_action(FrameEvent::TreeUpdated { ok: true }), FrameAction::Render);
    let a = s.next_action(FrameEvent::Rendered { exit: false, elapsed_micros: 5_000 });
    assert_eq!(a, FrameAction::Sleep { micros: 15_000 });
    assert_eq!(s.frames, 1);
    assert_eq!(s.render_micros, 5_000);
}

#[test]
fn long_frame_proceeds_at_once() {
    let mut s = FrameScheduler::new(50);
    s.next_action(FrameEvent::TreeUpdated { ok: true });
    let a = s.next_action(FrameEvent::Rendered { exit: false, elapsed_micros: 25_000 });
    assert_eq!(a, FrameAction::Proceed);
    assert_eq!(s.frames, 1);
    assert_eq!(s.phase, LoopPhase::Running);
}

#[test]
fn exact_frame_proceeds() {
    let mut s = FrameScheduler::new(50);
    let a = s.next_action(FrameEvent::Rendered { exit: false, elapsed_micros: 20_000 });
    assert_eq!(a, FrameAction::Proceed);
}

#[test]
fn exit_flag_finishes() {
    let mut s = FrameScheduler::new(50);
    s.next_action(FrameEvent::TreeUpdated { ok: true });
    let a = s.next_action(FrameEvent::Rendered { exit: true, elapsed_micros: 1 });
    assert_eq!(a, FrameAction::Finish);
    assert_eq!(s.phase, LoopPhase::Terminated);
    assert_eq!(s.frames, 0);
}

#[test]
fn update_failure_aborts_for_good() {
    let mut s = FrameScheduler::new(50);
    assert_eq!(s.next_action(FrameEvent::TreeUpdated { ok: false }), FrameAction::Abort);
    assert_eq!(s.phase, LoopPhase::Failed);
    assert_eq!(s.next_action(FrameEvent::TreeUpdated { ok: true }), FrameAction::Abort);
    assert_eq!(
        s.next_action(FrameEvent::Rendered { exit: false, elapsed_micros: 0 }),
        FrameAction::Abort
    );
    assert_eq!(s.frames, 0);
}

#[test]
fn render_time_saturates() {
    let mut s = FrameScheduler::new(50);
    s.next_action(FrameEvent::Rendered { exit: false, elapsed_micros: u64::MAX });
    s.next_action(FrameEvent::Rendered { exit: false, elapsed_micros: 10 });
    assert_eq!(s.render_micros, u64::MAX);
    assert_eq!(s.frames, 2);
}
