use shojiwm_backend::redraw::{
    begin_frame, commit_timing_fired, commit_timing_not_scheduled,
    error_chain_has_permission_denied, estimated_vblank_fired, estimated_vblank_not_scheduled,
    finish_frame, frame_finish, new_surface, pause_tty_session, queue_surface_redraw,
    queue_tty_redraws, record_render_duration, render_gate, render_outcome,
    reset_surface_after_tty_pause, reset_surface_after_tty_resume, resume_tty_session,
    schedule_commit_timing_timer, schedule_estimated_vblank_callback, BackendData, ErrorLink,
    FrameSubmission, PresentationMetadata, RenderFollowUp, RenderGate, RenderSurfaceOutcome,
    SurfaceData, TimerRequest, TtyAction, TtyRedrawState, TtySession,
};

fn surface() -> SurfaceData {
    new_surface(7, "DP-1".to_string(), Vec::new(), 16, true)
}

fn session(surfaces: Vec<SurfaceData>) -> TtySession {
    TtySession {
        backends: vec![BackendData { node: 1, surfaces }],
        session_active: true,
        needs_redraw: false,
        force_full_damage: false,
    }
}

#[test]
fn new_surfaces_have_a_redraw_queued() {
    let s = surface();
    assert_eq!(s.redraw_state, TtyRedrawState::Queued);
    assert_eq!(s.crtc, 7);
    assert_eq!(s.output, "DP-1");
    assert!(!s.frame_pending);
    assert!(s.supports_async_flip);
    assert!(!s.tearing_active);
}

#[test]
fn pausing_forgets_what_was_pending() {
    let mut s = surface();
    s.frame_pending = true;
    s.queued_at = Some(4);
    s.next_frame_target = Some(99);
    s.frame_callback_timer_armed = true;
    s.tearing_active = true;
    reset_surface_after_tty_pause(&mut s);
    assert_eq!(s.redraw_state, TtyRedrawState::Idle);
    assert!(!s.frame_pending);
    assert_eq!(s.queued_at, None);
    assert_eq!(s.next_frame_target, None);
    assert!(!s.frame_callback_timer_armed);
    assert!(!s.tearing_active);
    reset_surface_after_tty_resume(&mut s);
    assert_eq!(s.redraw_state, TtyRedrawState::Queued);
}

#[test]
fn asking_for_a_redraw_depends_on_what_is_awaited() {
    let mut s = surface();
    s.redraw_state = TtyRedrawState::Idle;
    queue_surface_redraw(&mut s);
    assert_eq!(s.redraw_state, TtyRedrawState::Queued);
    queue_surface_redraw(&mut s);
    assert_eq!(s.redraw_state, TtyRedrawState::Queued);

    s.redraw_state = TtyRedrawState::WaitingForVBlank { redraw_needed: false };
    queue_surface_redraw(&mut s);
    assert_eq!(s.redraw_state, TtyRedrawState::WaitingForVBlank { redraw_needed: true });

    s.redraw_state = TtyRedrawState::WaitingForEstimatedVBlank { queued: false, generation: 3 };
    queue_surface_redraw(&mut s);
    assert_eq!(
        s.redraw_state,
        TtyRedrawState::WaitingForEstimatedVBlank { queued: true, generation: 3 }
    );

    s.tearing_active = true;
    s.redraw_state = TtyRedrawState::WaitingForEstimatedVBlank { queued: false, generation: 3 };
    queue_surface_redraw(&mut s);
    assert_eq!(s.redraw_state, TtyRedrawState::Queued);
}

#[test]
fn sessions_pass_changes_on_to_all_surfaces() {
    let mut idle = surface();
    idle.redraw_state = TtyRedrawState::Idle;
    let mut all = session(vec![surface(), idle]);
    pause_tty_session(&mut all);
    for s in &all.backends[0].surfaces {
        assert_eq!(s.redraw_state, TtyRedrawState::Idle);
    }
    queue_tty_redraws(&mut all);
    for s in &all.backends[0].surfaces {
        assert_eq!(s.redraw_state, TtyRedrawState::Queued);
    }
    pause_tty_session(&mut all);
    let actions = resume_tty_session(&mut all);
    assert!(actions.contains(&TtyAction::ScheduleRedraw));
    for s in &all.backends[0].surfaces {
        assert_eq!(s.redraw_state, TtyRedrawState::Queued);
    }
}

#[test]
fn only_queued_surfaces_are_rendered() {
    let mut s = surface();
    assert_eq!(render_gate(&mut s, false), RenderGate::Disabled);
    assert_eq!(render_gate(&mut s, true), RenderGate::Render);
    s.redraw_state = TtyRedrawState::WaitingForVBlank { redraw_needed: false };
    s.frame_pending = true;
    assert_eq!(render_gate(&mut s, true), RenderGate::NotQueued);
    assert_eq!(s.skipped_while_pending_count, 1);
    s.skipped_while_pending_count = u32::MAX;
    assert_eq!(render_gate(&mut s, true), RenderGate::NotQueued);
    assert_eq!(s.skipped_while_pending_count, u32::MAX);
}

#[test]
fn frames_aim_at_their_prediction() {
    let mut s = surface();
    s.next_frame_target = Some(105);
    let timing = begin_frame(&mut s, 100);
    assert_eq!(timing.fallback_frame_time, 116);
    assert_eq!(timing.frame_time, 105);
    assert!(!timing.stale_frame_target);
    assert_eq!(s.next_frame_target, None);
    assert_eq!(s.last_frame_callback_at, Some(105));
}

#[test]
fn render_durations_are_recorded() {
    let mut s = surface();
    s.estimated_render_duration = 0;
    record_render_duration(&mut s, 40, 11);
    assert_eq!(s.estimated_render_duration, 40);
    record_render_duration(&mut s, 80, 50);
    assert_eq!(s.estimated_render_duration, 50);
}

#[test]
fn submitted_frames_wait_for_the_display() {
    let mut s = surface();
    s.frame_callback_timer_armed = true;
    s.frame_callback_timer_generation = u64::MAX;
    s.frame_callback_sequence = u32::MAX;
    let next = finish_frame(&mut s, &FrameSubmission::Queued { at: 9, cpu_duration: 3 });
    assert_eq!(next, RenderFollowUp::SendCallbacks { sequence: 0 });
    assert_eq!(render_outcome(next), Ok(RenderSurfaceOutcome::Processed));
    assert_eq!(s.redraw_state, TtyRedrawState::WaitingForVBlank { redraw_needed: false });
    assert!(s.frame_pending);
    assert_eq!(s.queued_at, Some(9));
    assert_eq!(s.frame_callback_timer_generation, 0);
    assert!(!s.frame_callback_timer_armed);
}

#[test]
fn undamaged_frames_wait_for_a_timer_that_fires_once() {
    let mut s = surface();
    let next = finish_frame(&mut s, &FrameSubmission::NoDamage);
    assert_eq!(next, RenderFollowUp::StartEstimatedVBlank);
    assert_eq!(render_outcome(next), Ok(RenderSurfaceOutcome::Processed));
    let timer = schedule_estimated_vblank_callback(&mut s).unwrap();
    assert_eq!(timer, TimerRequest { delay: 16, generation: s.frame_callback_timer_generation });
    assert_eq!(schedule_estimated_vblank_callback(&mut s), None);
    queue_surface_redraw(&mut s);
    let fired = estimated_vblank_fired(&mut s, timer, 100).unwrap();
    assert!(fired.should_redraw);
    assert_eq!(fired.callback_time, 116);
    assert_eq!(s.redraw_state, TtyRedrawState::Queued);
    assert_eq!(estimated_vblank_fired(&mut s, timer, 100), None);
}

#[test]
fn timers_of_an_older_generation_are_dropped() {
    let mut s = surface();
    finish_frame(&mut s, &FrameSubmission::NoDamage);
    let timer = schedule_estimated_vblank_callback(&mut s).unwrap();
    finish_frame(&mut s, &FrameSubmission::Queued { at: 1, cpu_duration: 1 });
    assert_eq!(estimated_vblank_fired(&mut s, timer, 100), None);
    assert_eq!(s.redraw_state, TtyRedrawState::WaitingForVBlank { redraw_needed: false });
    estimated_vblank_not_scheduled(&mut s);
    assert!(!s.frame_callback_timer_armed);
}

#[test]
fn refused_frames_pause_or_fail() {
    let mut s = surface();
    let denied = FrameSubmission::Refused {
        chain: vec![ErrorLink::Other, ErrorLink::PermissionDenied],
    };
    let next = finish_frame(&mut s, &denied);
    assert_eq!(next, RenderFollowUp::WaitForResume);
    assert_eq!(render_outcome(next), Ok(RenderSurfaceOutcome::Skipped));
    assert_eq!(s.redraw_state, TtyRedrawState::Idle);

    let mut s = surface();
    let other = FrameSubmission::Refused { chain: vec![ErrorLink::Other] };
    let next = finish_frame(&mut s, &other);
    assert_eq!(next, RenderFollowUp::Fail);
    assert_eq!(render_outcome(next), Err(()));
    assert_eq!(s.redraw_state, TtyRedrawState::Queued);
    assert!(!error_chain_has_permission_denied(&[]));
}

#[test]
fn commit_deadlines_arm_a_timer_when_nothing_is_queued() {
    let mut s = surface();
    assert_eq!(schedule_commit_timing_timer(&mut s, Some(50), 10), None);
    s.redraw_state = TtyRedrawState::Idle;
    assert_eq!(schedule_commit_timing_timer(&mut s, None, 10), None);
    let timer = schedule_commit_timing_timer(&mut s, Some(50), 10).unwrap();
    assert_eq!(timer, TimerRequest { delay: 40, generation: 1 });
    assert_eq!(schedule_commit_timing_timer(&mut s, Some(50), 10), None);
    assert!(!commit_timing_fired(&mut s, 0));
    assert!(commit_timing_fired(&mut s, 1));
    assert!(!commit_timing_fired(&mut s, 1));
    let late = schedule_commit_timing_timer(&mut s, Some(5), 10).unwrap();
    assert_eq!(late.delay, 0);
    commit_timing_not_scheduled(&mut s);
    assert!(!s.commit_timing_timer_armed);
}

#[test]
fn shown_frames_are_followed_by_the_queued_one() {
    let mut s = surface();
    finish_frame(&mut s, &FrameSubmission::Queued { at: 1, cpu_duration: 1 });
    queue_surface_redraw(&mut s);
    let metadata = PresentationMetadata { sequence: 5, monotonic: Some(200) };
    let finished = frame_finish(&mut s, Some(metadata), 300);
    assert_eq!(finished.presented_at, 200);
    assert_eq!(finished.refresh, 16);
    assert_eq!(finished.sequence, 5);
    assert!(finished.hardware_clock);
    assert!(finished.redraw_needed);
    assert_eq!(s.redraw_state, TtyRedrawState::Queued);
    assert_eq!(s.next_frame_target, Some(216));
}

#[test]
fn idle_outputs_predict_no_frame() {
    let mut s = surface();
    finish_frame(&mut s, &FrameSubmission::Queued { at: 1, cpu_duration: 1 });
    let finished = frame_finish(&mut s, None, 300);
    assert_eq!(finished.presented_at, 300);
    assert_eq!(finished.sequence, 0);
    assert!(!finished.hardware_clock);
    assert!(!finished.redraw_needed);
    assert_eq!(s.redraw_state, TtyRedrawState::Idle);
    assert_eq!(s.next_frame_target, None);
    assert_eq!(s.last_presented_at, Some(300));
}
