//! When each output is redrawn.
//!
//! Every connected output has a surface. A redraw is first queued; rendering it either
//! submits a frame, and the surface waits for the display to show it, or finds nothing
//! to change, and the surface waits for a timer that stands in for the display.

use crate::modes::DrmMode;
use crate::timing::{self, Nanos};
use vstd::prelude::*;

verus! {

#[derive(Clone, Copy, Debug, PartialEq, Eq, Structural)]
pub enum TtyRedrawState {
    Idle,
    Queued,
    /// A frame was submitted; `redraw_needed` asks for another one once it is shown.
    WaitingForVBlank { redraw_needed: bool },
    /// Nothing was submitted; `queued` asks for a frame once the timer of this
    /// generation fires.
    WaitingForEstimatedVBlank { queued: bool, generation: u64 },
}

/// The state of one output.
pub struct SurfaceData {
    pub crtc: u32,
    pub output: String,
    pub available_modes: Vec<DrmMode>,
    pub frame_pending: bool,
    pub queued_at: Option<Nanos>,
    pub queued_cpu_duration: Nanos,
    pub skipped_while_pending_count: u32,
    pub frame_callback_timer_armed: bool,
    pub frame_callback_timer_generation: u64,
    pub commit_timing_timer_armed: bool,
    pub commit_timing_timer_generation: u64,
    pub frame_callback_sequence: u32,
    pub redraw_state: TtyRedrawState,
    pub frame_duration: Nanos,
    pub next_frame_target: Option<Nanos>,
    pub estimated_render_duration: Nanos,
    pub last_presented_at: Option<Nanos>,
    pub last_frame_callback_at: Option<Nanos>,
    /// The display can show a frame at once instead of waiting for the next refresh.
    pub supports_async_flip: bool,
    /// Frames are being shown that way.
    pub tearing_active: bool,
}

/// What the caller of a change has to do.
#[derive(Clone, Copy, Debug, PartialEq, Eq, Structural)]
pub enum TtyAction {
    RequestMaintenance,
    ScheduleRedraw,
    ApplyDisplayConfiguration,
    NotifyOutputsChanged,
}

/// The outputs of one graphics device.
pub struct BackendData {
    pub node: u64,
    pub surfaces: Vec<SurfaceData>,
}

/// The graphics devices of the session.
pub struct TtySession {
    pub backends: Vec<BackendData>,
    pub session_active: bool,
    pub needs_redraw: bool,
    pub force_full_damage: bool,
}

/// A counter that returns to zero after its largest value.
pub open spec fn next_u64(n: u64) -> u64 {
    if n == u64::MAX {
        0
    } else {
        (n + 1) as u64
    }
}

pub open spec fn next_u32(n: u32) -> u32 {
    if n == u32::MAX {
        0
    } else {
        (n + 1) as u32
    }
}

impl SurfaceData {
    /// A surface that waits for the display has a frame pending, and one that waits for
    /// the timer waits for the newest generation of it.
    pub open spec fn wf(self) -> bool {
        &&& self.redraw_state is WaitingForVBlank ==> self.frame_pending
        &&& self.redraw_state is WaitingForEstimatedVBlank
            ==> self.redraw_state->generation == self.frame_callback_timer_generation
    }

    /// A redraw is queued, now or for when the current wait ends.
    pub open spec fn wants_redraw(self) -> bool {
        match self.redraw_state {
            TtyRedrawState::Idle => false,
            TtyRedrawState::Queued => true,
            TtyRedrawState::WaitingForVBlank { redraw_needed } => redraw_needed,
            TtyRedrawState::WaitingForEstimatedVBlank { queued, .. } => queued,
        }
    }

    /// The surface once the session has been taken away: nothing is pending, armed or
    /// predicted.
    pub open spec fn paused(self) -> SurfaceData {
        SurfaceData {
            frame_pending: false,
            queued_at: None,
            queued_cpu_duration: 0,
            skipped_while_pending_count: 0,
            frame_callback_timer_armed: false,
            commit_timing_timer_armed: false,
            next_frame_target: None,
            tearing_active: false,
            redraw_state: TtyRedrawState::Idle,
            ..self
        }
    }

    /// The surface once the session is back: as after a pause, with a redraw queued.
    pub open spec fn resumed(self) -> SurfaceData {
        SurfaceData { redraw_state: TtyRedrawState::Queued, ..self.paused() }
    }

    /// The surface once a redraw has been asked for. While frames tear, a surface does
    /// not wait for the timer: the next frame is queued at once.
    pub open spec fn with_redraw_queued(self) -> SurfaceData {
        let redraw_state = match self.redraw_state {
            TtyRedrawState::Idle => TtyRedrawState::Queued,
            TtyRedrawState::Queued => TtyRedrawState::Queued,
            TtyRedrawState::WaitingForVBlank { .. } => TtyRedrawState::WaitingForVBlank {
                redraw_needed: true,
            },
            TtyRedrawState::WaitingForEstimatedVBlank { generation, .. } => if self.tearing_active {
                TtyRedrawState::Queued
            } else {
                TtyRedrawState::WaitingForEstimatedVBlank { queued: true, generation }
            },
        };
        SurfaceData { redraw_state, ..self }
    }
}

pub fn reset_surface_after_tty_pause(surface: &mut SurfaceData)
    ensures
        *final(surface) == old(surface).paused(),
{
    surface.frame_pending = false;
    surface.queued_at = None;
    surface.queued_cpu_duration = 0;
    surface.skipped_while_pending_count = 0;
    surface.frame_callback_timer_armed = false;
    surface.commit_timing_timer_armed = false;
    surface.next_frame_target = None;
    surface.tearing_active = false;
    surface.redraw_state = TtyRedrawState::Idle;
}

pub fn reset_surface_after_tty_resume(surface: &mut SurfaceData)
    ensures
        *final(surface) == old(surface).resumed(),
{
    reset_surface_after_tty_pause(surface);
    surface.redraw_state = TtyRedrawState::Queued;
}

/// Asks for a redraw of one output.
pub fn queue_surface_redraw(surface: &mut SurfaceData)
    ensures
        *final(surface) == old(surface).with_redraw_queued(),
{
    match surface.redraw_state {
        TtyRedrawState::Idle => {
            surface.redraw_state = TtyRedrawState::Queued;
        },
        TtyRedrawState::Queued => {},
        TtyRedrawState::WaitingForVBlank { .. } => {
            surface.redraw_state = TtyRedrawState::WaitingForVBlank { redraw_needed: true };
        },
        TtyRedrawState::WaitingForEstimatedVBlank { generation, .. } => {
            surface.redraw_state = if surface.tearing_active {
                TtyRedrawState::Queued
            } else {
                TtyRedrawState::WaitingForEstimatedVBlank { queued: true, generation }
            };
        },
    }
}

/// A change that is made to every surface of the session.
#[derive(Clone, Copy, Debug, PartialEq, Eq, Structural)]
pub enum SurfaceChange {
    Pause,
    Resume,
    QueueRedraw,
}

impl SurfaceData {
    pub open spec fn changed(self, change: SurfaceChange) -> SurfaceData {
        match change {
            SurfaceChange::Pause => self.paused(),
            SurfaceChange::Resume => self.resumed(),
            SurfaceChange::QueueRedraw => self.with_redraw_queued(),
        }
    }
}

fn change_surface(surface: &mut SurfaceData, change: SurfaceChange)
    ensures
        *final(surface) == old(surface).changed(change),
{
    match change {
        SurfaceChange::Pause => reset_surface_after_tty_pause(surface),
        SurfaceChange::Resume => reset_surface_after_tty_resume(surface),
        SurfaceChange::QueueRedraw => queue_surface_redraw(surface),
    }
}

/// The same surfaces in the same order, each of them changed.
pub open spec fn surfaces_changed(
    before: Seq<SurfaceData>,
    after: Seq<SurfaceData>,
    change: SurfaceChange,
) -> bool {
    &&& after.len() == before.len()
    &&& forall|i: int|
        0 <= i < after.len() ==> #[trigger] after[i] == before[i].changed(change)
}

/// The same devices in the same order, each surface of each of them changed.
pub open spec fn backends_changed(
    before: Seq<BackendData>,
    after: Seq<BackendData>,
    change: SurfaceChange,
) -> bool {
    &&& after.len() == before.len()
    &&& forall|i: int|
        0 <= i < after.len() ==> (#[trigger] after[i]).node == before[i].node && surfaces_changed(
            before[i].surfaces@,
            after[i].surfaces@,
            change,
        )
}

fn change_surfaces(surfaces: &mut Vec<SurfaceData>, change: SurfaceChange)
    ensures
        surfaces_changed(old(surfaces)@, final(surfaces)@, change),
{
    let mut index: usize = 0;
    while index < surfaces.len()
        invariant
            index <= surfaces@.len(),
            surfaces@.len() == old(surfaces)@.len(),
            forall|i: int|
                0 <= i < index ==> #[trigger] surfaces@[i] == old(surfaces)@[i].changed(change),
            forall|i: int|
                index <= i < surfaces@.len() ==> #[trigger] surfaces@[i] == old(surfaces)@[i],
        decreases surfaces@.len() - index,
    {
        change_surface(&mut surfaces[index], change);
        index += 1;
    }
}

fn change_backends(backends: &mut Vec<BackendData>, change: SurfaceChange)
    ensures
        backends_changed(old(backends)@, final(backends)@, change),
{
    let mut index: usize = 0;
    while index < backends.len()
        invariant
            index <= backends@.len(),
            backends@.len() == old(backends)@.len(),
            forall|i: int|
                0 <= i < index ==> (#[trigger] backends@[i]).node == old(backends)@[i].node
                    && surfaces_changed(
                    old(backends)@[i].surfaces@,
                    backends@[i].surfaces@,
                    change,
                ),
            forall|i: int|
                index <= i < backends@.len() ==> #[trigger] backends@[i] == old(backends)@[i],
        decreases backends@.len() - index,
    {
        change_surfaces(&mut backends[index].surfaces, change);
        index += 1;
    }
}

/// The session has been taken away: nothing is pending on any output.
pub fn pause_tty_session(session: &mut TtySession)
    ensures
        backends_changed(old(session).backends@, final(session).backends@, SurfaceChange::Pause),
        *final(session) == (TtySession { backends: final(session).backends, ..*old(session) }),
{
    change_backends(&mut session.backends, SurfaceChange::Pause);
}

/// The session is back: every output is redrawn in full.
pub fn resume_tty_session(session: &mut TtySession) -> (actions: Vec<TtyAction>)
    ensures
        backends_changed(old(session).backends@, final(session).backends@, SurfaceChange::Resume),
        *final(session) == (TtySession {
            backends: final(session).backends,
            force_full_damage: true,
            ..*old(session)
        }),
        actions@ == seq![TtyAction::RequestMaintenance, TtyAction::ScheduleRedraw],
{
    change_backends(&mut session.backends, SurfaceChange::Resume);
    session.force_full_damage = true;
    let mut actions: Vec<TtyAction> = Vec::new();
    actions.push(TtyAction::RequestMaintenance);
    actions.push(TtyAction::ScheduleRedraw);
    actions
}

/// Asks for a redraw of every output.
pub fn queue_tty_redraws(session: &mut TtySession)
    ensures
        backends_changed(
            old(session).backends@,
            final(session).backends@,
            SurfaceChange::QueueRedraw,
        ),
        *final(session) == (TtySession { backends: final(session).backends, ..*old(session) }),
{
    change_backends(&mut session.backends, SurfaceChange::QueueRedraw);
}

/// The surface of an output that was just connected: nothing has been shown yet and the
/// first redraw is queued.
pub open spec fn connected_surface(
    crtc: u32,
    output: String,
    available_modes: Vec<DrmMode>,
    frame_duration: Nanos,
    supports_async_flip: bool,
) -> SurfaceData {
    SurfaceData {
        crtc,
        output,
        available_modes,
        frame_pending: false,
        queued_at: None,
        queued_cpu_duration: 0,
        skipped_while_pending_count: 0,
        frame_callback_timer_armed: false,
        frame_callback_timer_generation: 0,
        commit_timing_timer_armed: false,
        commit_timing_timer_generation: 0,
        frame_callback_sequence: 0,
        redraw_state: TtyRedrawState::Queued,
        frame_duration,
        next_frame_target: None,
        estimated_render_duration: 4000000,
        last_presented_at: None,
        last_frame_callback_at: None,
        supports_async_flip,
        tearing_active: false,
    }
}

pub fn new_surface(
    crtc: u32,
    output: String,
    available_modes: Vec<DrmMode>,
    frame_duration: Nanos,
    supports_async_flip: bool,
) -> (surface: SurfaceData)
    ensures
        surface == connected_surface(
            crtc,
            output,
            available_modes,
            frame_duration,
            supports_async_flip,
        ),
        surface.wf(),
{
    SurfaceData {
        crtc,
        output,
        available_modes,
        frame_pending: false,
        queued_at: None,
        queued_cpu_duration: 0,
        skipped_while_pending_count: 0,
        frame_callback_timer_armed: false,
        frame_callback_timer_generation: 0,
        commit_timing_timer_armed: false,
        commit_timing_timer_generation: 0,
        frame_callback_sequence: 0,
        redraw_state: TtyRedrawState::Queued,
        frame_duration,
        next_frame_target: None,
        estimated_render_duration: 4 * timing::NANOS_PER_MILLI,
        last_presented_at: None,
        last_frame_callback_at: None,
        supports_async_flip,
        tearing_active: false,
    }
}

/// Whether a surface is rendered now.
#[derive(Clone, Copy, Debug, PartialEq, Eq, Structural)]
pub enum RenderGate {
    /// The configuration switched the output off.
    Disabled,
    /// No redraw is queued.
    NotQueued,
    Render,
}

impl SurfaceData {
    pub open spec fn gate(self, render_enabled: bool) -> RenderGate {
        if !render_enabled {
            RenderGate::Disabled
        } else if self.redraw_state != TtyRedrawState::Queued {
            RenderGate::NotQueued
        } else {
            RenderGate::Render
        }
    }

    /// The surface once a render was asked for: a render that a pending frame holds up is
    /// counted, up to the largest count.
    pub open spec fn gated(self, render_enabled: bool) -> SurfaceData {
        if self.gate(render_enabled) == RenderGate::NotQueued && self.frame_pending
            && self.skipped_while_pending_count < u32::MAX {
            SurfaceData {
                skipped_while_pending_count: (self.skipped_while_pending_count + 1) as u32,
                ..self
            }
        } else {
            self
        }
    }
}

/// Decides whether to render the surface now.
pub fn render_gate(surface: &mut SurfaceData, render_enabled: bool) -> (gate: RenderGate)
    ensures
        gate == old(surface).gate(render_enabled),
        *final(surface) == old(surface).gated(render_enabled),
{
    if !render_enabled {
        return RenderGate::Disabled;
    }
    if surface.redraw_state == TtyRedrawState::Queued {
        return RenderGate::Render;
    }
    if surface.frame_pending {
        surface.skipped_while_pending_count = surface.skipped_while_pending_count.saturating_add(1);
    }
    RenderGate::NotQueued
}

/// The times a frame is rendered for.
#[derive(Clone, Copy, Debug, PartialEq, Eq, Structural)]
pub struct FrameTiming {
    /// One frame from now.
    pub fallback_frame_time: Nanos,
    /// When the frame is expected to be shown.
    pub frame_time: Nanos,
    /// The prediction was too old to be used.
    pub stale_frame_target: bool,
}

/// Takes the predicted time of the next frame out of the surface.
pub fn begin_frame(surface: &mut SurfaceData, now: Nanos) -> (frame: FrameTiming)
    requires
        now + old(surface).frame_duration <= timing::MAX_NANOS,
    ensures
        frame.fallback_frame_time == now + old(surface).frame_duration,
        (frame.frame_time, frame.stale_frame_target) == timing::sanitized_target(
            old(surface).next_frame_target,
            frame.fallback_frame_time,
            old(surface).frame_duration,
        ),
        *final(surface) == (SurfaceData {
            next_frame_target: None,
            last_frame_callback_at: Some(frame.frame_time),
            ..*old(surface)
        }),
{
    let fallback_frame_time: Nanos = now + surface.frame_duration;
    let (frame_time, stale_frame_target): (Nanos, bool) = timing::sanitize_next_frame_target(
        surface.next_frame_target,
        fallback_frame_time,
        surface.frame_duration,
    );
    surface.next_frame_target = None;
    surface.last_frame_callback_at = Some(frame_time);
    FrameTiming { fallback_frame_time, frame_time, stale_frame_target }
}

/// Stores the time the last frame took; `blended` is the blend of the estimate so far
/// and of `render_elapsed`.
pub fn record_render_duration(surface: &mut SurfaceData, render_elapsed: Nanos, blended: Nanos)
    ensures
        *final(surface) == (SurfaceData {
            estimated_render_duration: timing::blended_duration(
                old(surface).estimated_render_duration,
                render_elapsed,
                blended,
            ),
            ..*old(surface)
        }),
{
    surface.estimated_render_duration = timing::blend_render_duration(
        surface.estimated_render_duration,
        render_elapsed,
        blended,
    );
}

/// One link of the chain of causes of an error.
#[derive(Clone, Copy, Debug, PartialEq, Eq, Structural)]
pub enum ErrorLink {
    /// An input or output error that says that permission was denied.
    PermissionDenied,
    /// Any other error.
    Other,
}

/// Whether permission was denied somewhere along the chain of causes.
pub fn error_chain_has_permission_denied(chain: &[ErrorLink]) -> (r: bool)
    ensures
        r == chain@.contains(ErrorLink::PermissionDenied),
{
    let mut index: usize = 0;
    while index < chain.len()
        invariant
            index <= chain@.len(),
            forall|i: int| 0 <= i < index ==> chain@[i] != ErrorLink::PermissionDenied,
        decreases chain@.len() - index,
    {
        if chain[index] == ErrorLink::PermissionDenied {
            assert(chain@[index as int] == ErrorLink::PermissionDenied);
            return true;
        }
        index += 1;
    }
    false
}

/// What became of a render.
#[derive(Clone, Copy, Debug, PartialEq, Eq, Structural)]
pub enum RenderSurfaceOutcome {
    Skipped,
    Processed,
}

/// What the caller does after a frame was rendered.
#[derive(Clone, Copy, Debug, PartialEq, Eq, Structural)]
pub enum RenderFollowUp {
    /// Send frame callbacks with this sequence number to what was presented.
    SendCallbacks { sequence: u32 },
    /// Start the timer that stands in for the display.
    StartEstimatedVBlank,
    /// Access to the device is lost; wait until the session resumes.
    WaitForResume,
    /// Hand the error on.
    Fail,
}

/// What came of submitting a frame that changes something, or that there was nothing to
/// submit.
pub enum FrameSubmission {
    NoDamage,
    Queued { at: Nanos, cpu_duration: Nanos },
    Refused { chain: Vec<ErrorLink> },
}

impl SurfaceData {
    /// A frame was submitted: the surface waits for the display, and any timer that
    /// stands in for it belongs to an older generation.
    pub open spec fn submitted(self, at: Nanos, cpu_duration: Nanos) -> SurfaceData {
        SurfaceData {
            frame_pending: true,
            queued_at: Some(at),
            queued_cpu_duration: cpu_duration,
            skipped_while_pending_count: 0,
            frame_callback_timer_armed: false,
            frame_callback_timer_generation: next_u64(self.frame_callback_timer_generation),
            frame_callback_sequence: next_u32(self.frame_callback_sequence),
            redraw_state: TtyRedrawState::WaitingForVBlank { redraw_needed: false },
            ..self
        }
    }

    /// Nothing changed: the surface waits for a timer of a new generation.
    pub open spec fn undamaged(self) -> SurfaceData {
        let generation = next_u64(self.frame_callback_timer_generation);
        SurfaceData {
            frame_callback_timer_generation: generation,
            redraw_state: TtyRedrawState::WaitingForEstimatedVBlank { queued: false, generation },
            ..self
        }
    }

    pub open spec fn after_submission(self, submission: FrameSubmission) -> SurfaceData {
        match submission {
            FrameSubmission::NoDamage => self.undamaged(),
            FrameSubmission::Queued { at, cpu_duration } => self.submitted(at, cpu_duration),
            FrameSubmission::Refused { chain } => if chain@.contains(ErrorLink::PermissionDenied) {
                self.paused()
            } else {
                self
            },
        }
    }

    pub open spec fn submission_follow_up(self, submission: FrameSubmission) -> RenderFollowUp {
        match submission {
            FrameSubmission::NoDamage => RenderFollowUp::StartEstimatedVBlank,
            FrameSubmission::Queued { .. } => RenderFollowUp::SendCallbacks {
                sequence: next_u32(self.frame_callback_sequence),
            },
            FrameSubmission::Refused { chain } => if chain@.contains(ErrorLink::PermissionDenied) {
                RenderFollowUp::WaitForResume
            } else {
                RenderFollowUp::Fail
            },
        }
    }
}

/// Moves the surface on once its frame was rendered.
pub fn finish_frame(surface: &mut SurfaceData, submission: &FrameSubmission) -> (follow_up:
    RenderFollowUp)
    ensures
        *final(surface) == old(surface).after_submission(*submission),
        follow_up == old(surface).submission_follow_up(*submission),
{
    match submission {
        FrameSubmission::NoDamage => {
            let generation: u64 = surface.frame_callback_timer_generation.wrapping_add(1);
            surface.frame_callback_timer_generation = generation;
            surface.redraw_state = TtyRedrawState::WaitingForEstimatedVBlank {
                queued: false,
                generation,
            };
            RenderFollowUp::StartEstimatedVBlank
        },
        FrameSubmission::Queued { at, cpu_duration } => {
            surface.frame_pending = true;
            surface.queued_at = Some(*at);
            surface.queued_cpu_duration = *cpu_duration;
            surface.skipped_while_pending_count = 0;
            surface.frame_callback_timer_armed = false;
            surface.frame_callback_timer_generation =
                surface.frame_callback_timer_generation.wrapping_add(1);
            surface.frame_callback_sequence = surface.frame_callback_sequence.wrapping_add(1);
            surface.redraw_state = TtyRedrawState::WaitingForVBlank { redraw_needed: false };
            RenderFollowUp::SendCallbacks { sequence: surface.frame_callback_sequence }
        },
        FrameSubmission::Refused { chain } => {
            if error_chain_has_permission_denied(chain.as_slice()) {
                reset_surface_after_tty_pause(surface);
                RenderFollowUp::WaitForResume
            } else {
                RenderFollowUp::Fail
            }
        },
    }
}

/// How a render ends for its caller.
pub open spec fn outcome_of(follow_up: RenderFollowUp) -> Result<RenderSurfaceOutcome, ()> {
    match follow_up {
        RenderFollowUp::SendCallbacks { .. } => Ok(RenderSurfaceOutcome::Processed),
        RenderFollowUp::StartEstimatedVBlank => Ok(RenderSurfaceOutcome::Processed),
        RenderFollowUp::WaitForResume => Ok(RenderSurfaceOutcome::Skipped),
        RenderFollowUp::Fail => Err(()),
    }
}

pub fn render_outcome(follow_up: RenderFollowUp) -> (outcome: Result<RenderSurfaceOutcome, ()>)
    ensures
        outcome == outcome_of(follow_up),
{
    match follow_up {
        RenderFollowUp::SendCallbacks { .. } => Ok(RenderSurfaceOutcome::Processed),
        RenderFollowUp::StartEstimatedVBlank => Ok(RenderSurfaceOutcome::Processed),
        RenderFollowUp::WaitForResume => Ok(RenderSurfaceOutcome::Skipped),
        RenderFollowUp::Fail => Err(()),
    }
}

/// A timer to be started: it fires after `delay` and carries `generation`.
#[derive(Clone, Copy, Debug, PartialEq, Eq, Structural)]
pub struct TimerRequest {
    pub delay: Nanos,
    pub generation: u64,
}

/// Arms the timer that stands in for the display, unless the surface does not wait for it
/// or it is armed already. The timer runs for one frame.
pub fn schedule_estimated_vblank_callback(surface: &mut SurfaceData) -> (timer: Option<
    TimerRequest,
>)
    ensures
        timer == (match old(surface).redraw_state {
            TtyRedrawState::WaitingForEstimatedVBlank { generation, .. } if !old(surface).frame_callback_timer_armed => Some(
                TimerRequest { delay: old(surface).frame_duration, generation },
            ),
            _ => None,
        }),
        *final(surface) == (SurfaceData {
            frame_callback_timer_armed: old(surface).frame_callback_timer_armed || timer is Some,
            ..*old(surface)
        }),
{
    let generation: u64 = match surface.redraw_state {
        TtyRedrawState::WaitingForEstimatedVBlank { generation, .. } => generation,
        _ => {
            return None;
        },
    };
    if surface.frame_callback_timer_armed {
        return None;
    }
    surface.frame_callback_timer_armed = true;
    Some(TimerRequest { delay: surface.frame_duration, generation })
}

/// The timer that stands in for the display could not be started.
pub fn estimated_vblank_not_scheduled(surface: &mut SurfaceData)
    ensures
        *final(surface) == (SurfaceData { frame_callback_timer_armed: false, ..*old(surface) }),
{
    surface.frame_callback_timer_armed = false;
}

/// What follows when the timer that stands in for the display fires.
#[derive(Clone, Copy, Debug, PartialEq, Eq, Structural)]
pub struct EstimatedVBlank {
    pub sequence: u32,
    /// Schedule a redraw; otherwise send frame callbacks for `callback_time`.
    pub should_redraw: bool,
    pub callback_time: Nanos,
}

impl SurfaceData {
    /// The timer of this generation is the one the surface waits for.
    pub open spec fn awaits_timer(self, generation: u64) -> bool {
        &&& self.frame_callback_timer_armed
        &&& self.redraw_state is WaitingForEstimatedVBlank
        &&& self.redraw_state->generation == generation
    }

    pub open spec fn after_estimated_vblank(self, generation: u64) -> SurfaceData {
        if self.awaits_timer(generation) {
            SurfaceData {
                frame_callback_timer_armed: false,
                frame_callback_sequence: next_u32(self.frame_callback_sequence),
                redraw_state: if self.redraw_state->queued {
                    TtyRedrawState::Queued
                } else {
                    TtyRedrawState::Idle
                },
                ..self
            }
        } else {
            self
        }
    }
}

/// The timer that stands in for the display has fired. One that the surface no longer
/// waits for changes nothing.
pub fn estimated_vblank_fired(
    surface: &mut SurfaceData,
    timer: TimerRequest,
    frame_time: Nanos,
) -> (fired: Option<EstimatedVBlank>)
    ensures
        *final(surface) == old(surface).after_estimated_vblank(timer.generation),
        fired == (if old(surface).awaits_timer(timer.generation) {
            Some(
                EstimatedVBlank {
                    sequence: next_u32(old(surface).frame_callback_sequence),
                    should_redraw: old(surface).redraw_state->queued,
                    callback_time: timing::saturating_sum(frame_time, timer.delay),
                },
            )
        } else {
            None
        }),
{
    match surface.redraw_state {
        TtyRedrawState::WaitingForEstimatedVBlank { queued, generation } => {
            if !surface.frame_callback_timer_armed || generation != timer.generation {
                return None;
            }
            surface.frame_callback_timer_armed = false;
            surface.frame_callback_sequence = surface.frame_callback_sequence.wrapping_add(1);
            surface.redraw_state = if queued {
                TtyRedrawState::Queued
            } else {
                TtyRedrawState::Idle
            };
            Some(
                EstimatedVBlank {
                    sequence: surface.frame_callback_sequence,
                    should_redraw: queued,
                    callback_time: timing::saturating_add(frame_time, timer.delay),
                },
            )
        },
        _ => None,
    }
}

impl SurfaceData {
    /// A commit deadline is of use: nothing is queued or in flight and no timer runs yet.
    pub open spec fn accepts_commit_timer(self) -> bool {
        &&& !self.frame_pending
        &&& !(self.redraw_state is Queued)
        &&& !(self.redraw_state is WaitingForVBlank)
        &&& !self.commit_timing_timer_armed
    }
}

/// Arms the timer for the next commit deadline of the output, if there is one and it is
/// of use. A deadline that has passed fires at once.
pub fn schedule_commit_timing_timer(
    surface: &mut SurfaceData,
    next_deadline: Option<Nanos>,
    now: Nanos,
) -> (timer: Option<TimerRequest>)
    ensures
        timer == (match next_deadline {
            Some(deadline) if old(surface).accepts_commit_timer() => Some(
                TimerRequest {
                    delay: timing::span_between(deadline, now),
                    generation: next_u64(old(surface).commit_timing_timer_generation),
                },
            ),
            _ => None,
        }),
        *final(surface) == (match timer {
            Some(timer) => SurfaceData {
                commit_timing_timer_armed: true,
                commit_timing_timer_generation: timer.generation,
                ..*old(surface)
            },
            None => *old(surface),
        }),
{
    let deadline: Nanos = match next_deadline {
        Some(deadline) => deadline,
        None => {
            return None;
        },
    };
    if surface.frame_pending {
        return None;
    }
    match surface.redraw_state {
        TtyRedrawState::Queued => {
            return None;
        },
        TtyRedrawState::WaitingForVBlank { .. } => {
            return None;
        },
        _ => {},
    }
    if surface.commit_timing_timer_armed {
        return None;
    }
    let generation: u64 = surface.commit_timing_timer_generation.wrapping_add(1);
    surface.commit_timing_timer_generation = generation;
    surface.commit_timing_timer_armed = true;
    Some(TimerRequest { delay: timing::elapsed_between(deadline, now), generation })
}

/// The timer for a commit deadline could not be started.
pub fn commit_timing_not_scheduled(surface: &mut SurfaceData)
    ensures
        *final(surface) == (SurfaceData { commit_timing_timer_armed: false, ..*old(surface) }),
{
    surface.commit_timing_timer_armed = false;
}

/// The timer for a commit deadline has fired. The result tells whether to signal the
/// commits that are due: a timer that was replaced or disarmed is dropped.
pub fn commit_timing_fired(surface: &mut SurfaceData, generation: u64) -> (current: bool)
    ensures
        current == (old(surface).commit_timing_timer_armed && old(surface).commit_timing_timer_generation == generation),
        *final(surface) == (SurfaceData {
            commit_timing_timer_armed: old(surface).commit_timing_timer_armed && !current,
            ..*old(surface)
        }),
{
    if !surface.commit_timing_timer_armed || surface.commit_timing_timer_generation != generation {
        return false;
    }
    surface.commit_timing_timer_armed = false;
    true
}

/// What the display says of a frame that it has shown.
#[derive(Clone, Copy, Debug, PartialEq, Eq, Structural)]
pub struct PresentationMetadata {
    pub sequence: u32,
    /// When the frame was shown, if that was read from the monotonic clock.
    pub monotonic: Option<Nanos>,
}

/// What follows once a frame was shown.
#[derive(Clone, Copy, Debug, PartialEq, Eq, Structural)]
pub struct FrameFinished {
    pub presented_at: Nanos,
    pub refresh: Nanos,
    pub sequence: u32,
    /// The time comes from the hardware, and so does the completion.
    pub hardware_clock: bool,
    /// Render this output again at once; otherwise arm the timer for the next commit
    /// deadline.
    pub redraw_needed: bool,
}

/// When a frame was shown: what the display says, or else now.
pub open spec fn presentation_time(metadata: Option<PresentationMetadata>, now: Nanos) -> Nanos {
    match metadata {
        Some(PresentationMetadata { monotonic: Some(at), .. }) => at,
        _ => now,
    }
}

impl SurfaceData {
    pub open spec fn redraw_needed_after_vblank(self) -> bool {
        self.redraw_state is WaitingForVBlank && self.redraw_state->redraw_needed
    }

    /// The frame was shown: nothing is pending any more. The next frame is predicted only
    /// when it is queued already, so that an output that goes idle keeps no prediction.
    pub open spec fn presented(self, at: Nanos) -> SurfaceData {
        let redraw_needed = self.redraw_needed_after_vblank();
        SurfaceData {
            frame_pending: false,
            queued_at: None,
            queued_cpu_duration: 0,
            skipped_while_pending_count: 0,
            last_presented_at: Some(at),
            redraw_state: if redraw_needed {
                TtyRedrawState::Queued
            } else {
                TtyRedrawState::Idle
            },
            next_frame_target: if redraw_needed {
                Some((at + self.frame_duration) as Nanos)
            } else {
                None
            },
            ..self
        }
    }
}

/// The display has shown the submitted frame.
pub fn frame_finish(
    surface: &mut SurfaceData,
    metadata: Option<PresentationMetadata>,
    now: Nanos,
) -> (finished: FrameFinished)
    requires
        presentation_time(metadata, now) + old(surface).frame_duration <= timing::MAX_NANOS,
    ensures
        *final(surface) == old(surface).presented(presentation_time(metadata, now)),
        finished.presented_at == presentation_time(metadata, now),
        finished.refresh == old(surface).frame_duration,
        finished.sequence == (match metadata {
            Some(metadata) => metadata.sequence,
            None => 0u32,
        }),
        finished.hardware_clock == (metadata is Some && metadata->0.monotonic is Some),
        finished.redraw_needed == old(surface).redraw_needed_after_vblank(),
{
    let (sequence, monotonic): (u32, Option<Nanos>) = match metadata {
        Some(metadata) => (metadata.sequence, metadata.monotonic),
        None => (0, None),
    };
    let presented_at: Nanos = match monotonic {
        Some(at) => at,
        None => now,
    };
    surface.next_frame_target = Some(presented_at + surface.frame_duration);
    surface.last_presented_at = Some(presented_at);
    surface.frame_pending = false;
    surface.queued_at = None;
    surface.queued_cpu_duration = 0;
    surface.skipped_while_pending_count = 0;
    let redraw_needed: bool = match surface.redraw_state {
        TtyRedrawState::WaitingForVBlank { redraw_needed } => redraw_needed,
        _ => false,
    };
    surface.redraw_state = if redraw_needed {
        TtyRedrawState::Queued
    } else {
        TtyRedrawState::Idle
    };
    if !redraw_needed {
        surface.next_frame_target = None;
    }
    FrameFinished {
        presented_at,
        refresh: surface.frame_duration,
        sequence,
        hardware_clock: monotonic.is_some(),
        redraw_needed,
    }
}

/// Every step of a surface keeps it well-formed.
pub proof fn law_steps_keep_surfaces_well_formed(
    surface: SurfaceData,
    change: SurfaceChange,
    render_enabled: bool,
    submission: FrameSubmission,
    generation: u64,
    at: Nanos,
)
    requires
        surface.wf(),
    ensures
        surface.changed(change).wf(),
        surface.gated(render_enabled).wf(),
        surface.after_submission(submission).wf(),
        surface.after_estimated_vblank(generation).wf(),
        surface.presented(at).wf(),
{
}

/// What can happen to a surface.
pub enum SurfaceEvent {
    /// The session was paused or resumed, or a redraw was asked for.
    Change(SurfaceChange),
    RenderAsked { enabled: bool },
    /// It was decided whether the next frame tears.
    FramePlanned { tears: bool },
    FrameRendered(FrameSubmission),
    VBlankTimerArmed(bool),
    VBlankTimerFired { generation: u64 },
    CommitTimerArmed(bool),
    FrameShown { at: Nanos },
    ModeSwitched { frame_duration: Nanos },
}

impl SurfaceData {
    pub open spec fn after(self, event: SurfaceEvent) -> SurfaceData {
        match event {
            SurfaceEvent::Change(change) => self.changed(change),
            SurfaceEvent::RenderAsked { enabled } => self.gated(enabled),
            SurfaceEvent::FramePlanned { tears } => SurfaceData { tearing_active: tears, ..self },
            SurfaceEvent::FrameRendered(submission) => self.after_submission(submission),
            SurfaceEvent::VBlankTimerArmed(armed) => SurfaceData {
                frame_callback_timer_armed: armed,
                ..self
            },
            SurfaceEvent::VBlankTimerFired { generation } => self.after_estimated_vblank(
                generation,
            ),
            SurfaceEvent::CommitTimerArmed(armed) => SurfaceData {
                commit_timing_timer_armed: armed,
                ..self
            },
            SurfaceEvent::FrameShown { at } => self.presented(at),
            SurfaceEvent::ModeSwitched { frame_duration } => SurfaceData {
                frame_duration,
                redraw_state: TtyRedrawState::Queued,
                ..self
            },
        }
    }

    pub open spec fn after_all(self, events: Seq<SurfaceEvent>) -> SurfaceData
        decreases events.len(),
    {
        if events.len() == 0 {
            self
        } else {
            self.after_all(events.drop_last()).after(events.last())
        }
    }
}

/// Whatever happens to a surface, and in whatever order, it stays well-formed.
pub proof fn law_reachable_surfaces_are_well_formed(
    surface: SurfaceData,
    events: Seq<SurfaceEvent>,
)
    requires
        surface.wf(),
    ensures
        surface.after_all(events).wf(),
    decreases events.len(),
{
    if events.len() > 0 {
        law_reachable_surfaces_are_well_formed(surface, events.drop_last());
    }
}

/// No event but a render or a pause makes an output forget a redraw that was asked for,
/// except for a frame that is shown while the output does not wait for one.
pub proof fn law_only_rendering_settles_a_redraw(surface: SurfaceData, event: SurfaceEvent)
    requires
        surface.wants_redraw(),
        !(event is FrameRendered),
        event != SurfaceEvent::Change(SurfaceChange::Pause),
    ensures
        surface.after(event).wants_redraw() || (event is FrameShown
            && !(surface.redraw_state is WaitingForVBlank)),
{
}

/// A redraw that was asked for is wanted until it is rendered: asking for it queues it,
/// and neither the display nor the awaited timer loses it.
pub proof fn law_redraws_are_not_lost(surface: SurfaceData, generation: u64, at: Nanos)
    ensures
        surface.with_redraw_queued().wants_redraw(),
        surface.redraw_state is WaitingForVBlank ==> surface.with_redraw_queued().presented(
            at,
        ).redraw_state == TtyRedrawState::Queued,
        surface.awaits_timer(generation) ==> surface.with_redraw_queued().after_estimated_vblank(
            generation,
        ).redraw_state == TtyRedrawState::Queued,
        surface.wants_redraw() ==> surface.after_estimated_vblank(generation).wants_redraw(),
{
}

/// Asking for a redraw twice is the same as asking once, and so are two pauses and two
/// resumes; a resume after a pause is a resume.
pub proof fn law_changes_are_idempotent(surface: SurfaceData, change: SurfaceChange)
    ensures
        surface.changed(change).changed(change) == surface.changed(change),
        surface.paused().resumed() == surface.resumed(),
        surface.resumed().paused() == surface.paused(),
{
}

/// While frames tear, a redraw never waits for the timer.
pub proof fn law_tearing_skips_the_timer(surface: SurfaceData)
    requires
        surface.tearing_active,
        surface.redraw_state is WaitingForEstimatedVBlank,
    ensures
        surface.with_redraw_queued().redraw_state == TtyRedrawState::Queued,
{
}

/// A timer that was started before a frame was submitted, before nothing was found to
/// submit, or before a pause, changes nothing when it fires afterwards.
pub proof fn law_stale_timers_are_dropped(
    surface: SurfaceData,
    generation: u64,
    at: Nanos,
    cpu_duration: Nanos,
)
    requires
        surface.wf(),
        surface.awaits_timer(generation),
    ensures
        surface.submitted(at, cpu_duration).after_estimated_vblank(generation)
            == surface.submitted(at, cpu_duration),
        surface.undamaged().after_estimated_vblank(generation) == surface.undamaged(),
        surface.paused().after_estimated_vblank(generation) == surface.paused(),
        surface.resumed().after_estimated_vblank(generation) == surface.resumed(),
{
}

/// A timer fires at most once.
pub proof fn law_timers_fire_once(surface: SurfaceData, generation: u64)
    ensures
        surface.after_estimated_vblank(generation).after_estimated_vblank(generation)
            == surface.after_estimated_vblank(generation),
{
}

/// An output that goes idle once its frame was shown keeps no prediction of a next frame.
pub proof fn law_idle_outputs_predict_nothing(surface: SurfaceData, at: Nanos)
    ensures
        surface.presented(at).redraw_state == TtyRedrawState::Idle
            ==> surface.presented(at).next_frame_target is None,
{
}

/// A surface that has a redraw queued is rendered, and one that waits is not.
pub proof fn law_only_queued_surfaces_render(surface: SurfaceData, render_enabled: bool)
    ensures
        surface.gate(render_enabled) == RenderGate::Render <==> render_enabled
            && surface.redraw_state == TtyRedrawState::Queued,
        surface.submitted(0, 0).gate(render_enabled) != RenderGate::Render,
        surface.undamaged().gate(render_enabled) != RenderGate::Render,
{
}

/// After a pause nothing is pending, armed or predicted on the output; what it is stays. After a
/// resume the same holds, and a redraw is queued.
pub proof fn law_pauses_and_resumes(paused: &mut SurfaceData, resumed: &mut SurfaceData)
    requires
        call_ensures(reset_surface_after_tty_pause, (paused,), ()),
        call_ensures(reset_surface_after_tty_resume, (resumed,), ()),
    ensures
        final(paused).redraw_state == TtyRedrawState::Idle,
        !final(paused).frame_pending,
        !final(paused).frame_callback_timer_armed,
        !final(paused).commit_timing_timer_armed,
        !final(paused).tearing_active,
        final(paused).next_frame_target is None,
        final(paused).queued_at is None,
        final(paused).output == old(paused).output,
        final(paused).crtc == old(paused).crtc,
        final(paused).frame_duration == old(paused).frame_duration,
        final(paused).available_modes == old(paused).available_modes,
        final(paused).last_presented_at == old(paused).last_presented_at,
        final(paused).frame_callback_sequence == old(paused).frame_callback_sequence,
        final(resumed).redraw_state == TtyRedrawState::Queued,
        !final(resumed).frame_pending,
        !final(resumed).frame_callback_timer_armed,
        !final(resumed).commit_timing_timer_armed,
        !final(resumed).tearing_active,
        final(resumed).next_frame_target is None,
        final(resumed).output == old(resumed).output,
        final(resumed).frame_duration == old(resumed).frame_duration,
{
}

/// Asking for a redraw queues it at once on an idle output, for after the frame in flight on one
/// that waits for the display, and for after the timer on one that waits for that, unless frames
/// tear. Nothing else of the output changes.
pub proof fn law_asking_for_a_redraw(surface: &mut SurfaceData)
    requires
        call_ensures(queue_surface_redraw, (surface,), ()),
    ensures
        old(surface).redraw_state is Idle || old(surface).redraw_state is Queued ==> final(
            surface).redraw_state == TtyRedrawState::Queued,
        old(surface).redraw_state is WaitingForVBlank ==> final(surface).redraw_state == (
        TtyRedrawState::WaitingForVBlank { redraw_needed: true }),
        old(surface).redraw_state is WaitingForEstimatedVBlank && old(surface).tearing_active
            ==> final(surface).redraw_state == TtyRedrawState::Queued,
        old(surface).redraw_state is WaitingForEstimatedVBlank && !old(surface).tearing_active
            ==> final(surface).redraw_state is WaitingForEstimatedVBlank && final(
            surface).redraw_state->queued && final(surface).redraw_state->generation == old(
            surface).redraw_state->generation,
        *final(surface) == (SurfaceData {
            redraw_state: final(surface).redraw_state,
            ..*old(surface)
        }),
{
}

/// A pause, a resume and a request for a redraw reach every output of every device; none is
/// added or lost, and each keeps its name.
pub proof fn law_sessions_change_as_a_whole(
    paused: &mut TtySession,
    resumed: &mut TtySession,
    queued: &mut TtySession,
    actions: Vec<TtyAction>,
    b: int,
    s: int,
)
    requires
        call_ensures(pause_tty_session, (paused,), ()),
        call_ensures(resume_tty_session, (resumed,), actions),
        call_ensures(queue_tty_redraws, (queued,), ()),
    ensures
        final(paused).backends@.len() == old(paused).backends@.len(),
        0 <= b < old(paused).backends@.len() && 0 <= s < old(
            paused).backends@[b].surfaces@.len() ==> final(
            paused).backends@[b].surfaces@[s].redraw_state == TtyRedrawState::Idle && !final(
            paused).backends@[b].surfaces@[s].frame_pending && final(
            paused).backends@[b].surfaces@[s].output == old(
            paused).backends@[b].surfaces@[s].output,
        0 <= b < old(paused).backends@.len() ==> final(paused).backends@[b].surfaces@.len() == old(
            paused).backends@[b].surfaces@.len() && final(paused).backends@[b].node == old(
            paused).backends@[b].node,
        0 <= b < old(resumed).backends@.len() && 0 <= s < old(
            resumed).backends@[b].surfaces@.len() ==> final(
            resumed).backends@[b].surfaces@[s].redraw_state == TtyRedrawState::Queued && final(
            resumed).backends@[b].surfaces@[s].output == old(
            resumed).backends@[b].surfaces@[s].output,
        final(resumed).force_full_damage,
        actions@.contains(TtyAction::ScheduleRedraw),
        actions@.contains(TtyAction::RequestMaintenance),
        0 <= b < old(queued).backends@.len() && 0 <= s < old(
            queued).backends@[b].surfaces@.len() ==> {
            let state = final(queued).backends@[b].surfaces@[s].redraw_state;
            ||| state is Queued
            ||| state is WaitingForVBlank && state->redraw_needed
            ||| state is WaitingForEstimatedVBlank && state->queued
        },
        final(paused).session_active == old(paused).session_active,
        final(queued).force_full_damage == old(queued).force_full_damage,
{
    assert(actions@[0] == TtyAction::RequestMaintenance);
    assert(actions@[1] == TtyAction::ScheduleRedraw);
    if 0 <= b < old(paused).backends@.len() {
        assert(final(paused).backends@[b].node == old(paused).backends@[b].node);
        if 0 <= s < old(paused).backends@[b].surfaces@.len() {
            assert(final(paused).backends@[b].surfaces@[s] == old(
                paused).backends@[b].surfaces@[s].changed(SurfaceChange::Pause));
        }
    }
    if 0 <= b < old(resumed).backends@.len() {
        assert(final(resumed).backends@[b].node == old(resumed).backends@[b].node);
        if 0 <= s < old(resumed).backends@[b].surfaces@.len() {
            assert(final(resumed).backends@[b].surfaces@[s] == old(
                resumed).backends@[b].surfaces@[s].changed(SurfaceChange::Resume));
        }
    }
    if 0 <= b < old(queued).backends@.len() {
        assert(final(queued).backends@[b].node == old(queued).backends@[b].node);
        if 0 <= s < old(queued).backends@[b].surfaces@.len() {
            assert(final(queued).backends@[b].surfaces@[s] == old(
                queued).backends@[b].surfaces@[s].changed(SurfaceChange::QueueRedraw));
        }
    }
}

/// A new output has its first redraw queued, and nothing in flight, armed or predicted.
pub proof fn law_new_outputs_are_redrawn(
    crtc: u32,
    output: String,
    modes: Vec<DrmMode>,
    frame_duration: Nanos,
    supports_async_flip: bool,
    surface: SurfaceData,
)
    requires
        call_ensures(new_surface, (crtc, output, modes, frame_duration, supports_async_flip), surface),
    ensures
        surface.redraw_state == TtyRedrawState::Queued,
        surface.crtc == crtc,
        surface.output == output,
        surface.available_modes == modes,
        surface.frame_duration == frame_duration,
        surface.supports_async_flip == supports_async_flip,
        !surface.frame_pending,
        !surface.tearing_active,
        !surface.frame_callback_timer_armed,
        !surface.commit_timing_timer_armed,
        surface.next_frame_target is None,
        surface.last_presented_at is None,
        surface.last_frame_callback_at is None,
        surface.queued_at is None,
        surface.estimated_render_duration == 4000000,
        surface.queued_cpu_duration == 0,
        surface.skipped_while_pending_count == 0,
        surface.frame_callback_sequence == 0,
{
}

/// An output is rendered exactly if it is switched on and has a redraw queued. One that is held
/// up by a frame in flight counts that; nothing else changes.
pub proof fn law_when_outputs_are_rendered(
    surface: &mut SurfaceData,
    render_enabled: bool,
    gate: RenderGate,
)
    requires
        call_ensures(render_gate, (surface, render_enabled), gate),
    ensures
        gate == RenderGate::Render <==> render_enabled && old(surface).redraw_state is Queued,
        gate == RenderGate::Disabled <==> !render_enabled,
        gate == RenderGate::NotQueued && old(surface).frame_pending && old(
            surface).skipped_while_pending_count < u32::MAX ==> final(
            surface).skipped_while_pending_count == old(surface).skipped_while_pending_count + 1,
        gate != RenderGate::NotQueued || !old(surface).frame_pending ==> final(
            surface).skipped_while_pending_count == old(surface).skipped_while_pending_count,
        *final(surface) == (SurfaceData {
            skipped_while_pending_count: final(surface).skipped_while_pending_count,
            ..*old(surface)
        }),
{
}

/// A frame aims at the predicted time while that is fresh and at one frame from now otherwise;
/// the prediction is used up.
pub proof fn law_times_of_frames(surface: &mut SurfaceData, now: Nanos, frame: FrameTiming)
    requires
        now + old(surface).frame_duration <= timing::MAX_NANOS,
        call_ensures(begin_frame, (surface, now), frame),
    ensures
        frame.fallback_frame_time == now + old(surface).frame_duration,
        old(surface).next_frame_target is None ==> frame.frame_time == frame.fallback_frame_time
            && !frame.stale_frame_target,
        old(surface).next_frame_target is Some && old(surface).next_frame_target->0 >= now
            ==> frame.frame_time == old(surface).next_frame_target->0 && !frame.stale_frame_target,
        old(surface).next_frame_target is Some && old(surface).next_frame_target->0 < now
            ==> frame.frame_time == frame.fallback_frame_time && frame.stale_frame_target,
        final(surface).next_frame_target is None,
        final(surface).last_frame_callback_at == Some(frame.frame_time),
        final(surface).redraw_state == old(surface).redraw_state,
{
}

/// The first measurement of a render is taken as it is, and later ones are blended; nothing else
/// changes.
pub proof fn law_measured_renders(surface: &mut SurfaceData, elapsed: Nanos, blended: Nanos)
    requires
        call_ensures(record_render_duration, (surface, elapsed, blended), ()),
    ensures
        old(surface).estimated_render_duration == 0 ==> final(surface).estimated_render_duration
            == elapsed,
        old(surface).estimated_render_duration > 0 ==> final(surface).estimated_render_duration
            == blended,
        *final(surface) == (SurfaceData {
            estimated_render_duration: final(surface).estimated_render_duration,
            ..*old(surface)
        }),
{
}

/// Permission was denied if any link of the chain of causes says so, at whatever place.
pub proof fn law_denied_permission_is_found(chain: &[ErrorLink], r: bool, i: int)
    requires
        call_ensures(error_chain_has_permission_denied, (chain,), r),
    ensures
        0 <= i < chain@.len() && chain@[i] == ErrorLink::PermissionDenied ==> r,
        (forall|k: int| 0 <= k < chain@.len() ==> #[trigger] chain@[k] == ErrorLink::Other) ==> !r,
{
    if 0 <= i < chain@.len() && chain@[i] == ErrorLink::PermissionDenied {
        assert(chain@.contains(ErrorLink::PermissionDenied));
    }
}

/// After a frame was submitted the output waits for the display, and clients are told with the
/// next sequence number. After nothing was found to submit it waits for a timer. Where access
/// was lost it waits for the session to resume, with nothing pending; any other failure is handed
/// on and changes nothing.
pub proof fn law_rendered_frames(
    surface: &mut SurfaceData,
    submission: &FrameSubmission,
    follow_up: RenderFollowUp,
    i: int,
)
    requires
        call_ensures(finish_frame, (surface, submission), follow_up),
    ensures
        *submission is Queued ==> {
            &&& final(surface).redraw_state == (TtyRedrawState::WaitingForVBlank {
                redraw_needed: false,
            })
            &&& final(surface).frame_pending
            &&& final(surface).queued_at == Some(submission->at)
            &&& final(surface).queued_cpu_duration == submission->cpu_duration
            &&& final(surface).skipped_while_pending_count == 0
            &&& !final(surface).frame_callback_timer_armed
            &&& final(surface).frame_callback_timer_generation != old(
                surface).frame_callback_timer_generation
            &&& final(surface).frame_callback_sequence != old(surface).frame_callback_sequence
            &&& follow_up == (RenderFollowUp::SendCallbacks {
                sequence: final(surface).frame_callback_sequence,
            })
        },
        *submission is NoDamage ==> {
            &&& final(surface).redraw_state is WaitingForEstimatedVBlank
            &&& !final(surface).redraw_state->queued
            &&& final(surface).redraw_state->generation == final(
                surface).frame_callback_timer_generation
            &&& final(surface).frame_callback_timer_generation != old(
                surface).frame_callback_timer_generation
            &&& final(surface).frame_pending == old(surface).frame_pending
            &&& follow_up == RenderFollowUp::StartEstimatedVBlank
        },
        *submission is Refused && 0 <= i < submission->chain@.len() && submission->chain@[i]
            == ErrorLink::PermissionDenied ==> {
            &&& final(surface).redraw_state == TtyRedrawState::Idle
            &&& !final(surface).frame_pending
            &&& follow_up == RenderFollowUp::WaitForResume
        },
        *submission is Refused && (forall|k: int|
            0 <= k < submission->chain@.len() ==> #[trigger] submission->chain@[k]
                == ErrorLink::Other) ==> *final(surface) == *old(surface) && follow_up
            == RenderFollowUp::Fail,
{
    if *submission is Refused && 0 <= i < submission->chain@.len() && submission->chain@[i]
        == ErrorLink::PermissionDenied {
        assert(submission->chain@.contains(ErrorLink::PermissionDenied));
    }
}

/// A render counts as processed when its frame was submitted or found to be the same, as skipped
/// while access is lost, and as failed otherwise.
pub proof fn law_outcomes_of_renders(
    follow_up: RenderFollowUp,
    outcome: Result<RenderSurfaceOutcome, ()>,
)
    requires
        call_ensures(render_outcome, (follow_up,), outcome),
    ensures
        follow_up is SendCallbacks || follow_up is StartEstimatedVBlank ==> outcome is Ok
            && outcome->Ok_0 == RenderSurfaceOutcome::Processed,
        follow_up is WaitForResume ==> outcome is Ok && outcome->Ok_0
            == RenderSurfaceOutcome::Skipped,
        follow_up is Fail <==> outcome is Err,
{
}

/// The timer that stands in for the display is started once, for one frame, and only while the
/// output waits for it.
pub proof fn law_vblank_timers_start_once(surface: &mut SurfaceData, timer: Option<TimerRequest>)
    requires
        call_ensures(schedule_estimated_vblank_callback, (surface,), timer),
    ensures
        timer is Some <==> old(surface).redraw_state is WaitingForEstimatedVBlank && !old(
            surface).frame_callback_timer_armed,
        timer is Some ==> timer->0.delay == old(surface).frame_duration && timer->0.generation
            == old(surface).redraw_state->generation && final(surface).frame_callback_timer_armed,
        timer is None ==> *final(surface) == *old(surface),
        *final(surface) == (SurfaceData {
            frame_callback_timer_armed: final(surface).frame_callback_timer_armed,
            ..*old(surface)
        }),
{
}

/// A timer that could not be started is not armed, and nothing else changes.
pub proof fn law_failed_timers_are_not_armed(vblank: &mut SurfaceData, commit: &mut SurfaceData)
    requires
        call_ensures(estimated_vblank_not_scheduled, (vblank,), ()),
        call_ensures(commit_timing_not_scheduled, (commit,), ()),
    ensures
        !final(vblank).frame_callback_timer_armed,
        final(vblank).commit_timing_timer_armed == old(vblank).commit_timing_timer_armed,
        final(vblank).redraw_state == old(vblank).redraw_state,
        !final(commit).commit_timing_timer_armed,
        final(commit).frame_callback_timer_armed == old(commit).frame_callback_timer_armed,
        final(commit).redraw_state == old(commit).redraw_state,
{
}

/// The awaited timer ends the wait: with a redraw if one was asked for, and with callbacks
/// otherwise. Any other timer is dropped and changes nothing.
pub proof fn law_vblank_timers_end_the_wait(
    surface: &mut SurfaceData,
    timer: TimerRequest,
    frame_time: Nanos,
    fired: Option<EstimatedVBlank>,
)
    requires
        call_ensures(estimated_vblank_fired, (surface, timer, frame_time), fired),
    ensures
        fired is Some <==> old(surface).frame_callback_timer_armed && old(
            surface).redraw_state is WaitingForEstimatedVBlank && old(
            surface).redraw_state->generation == timer.generation,
        fired is None ==> *final(surface) == *old(surface),
        fired is Some ==> {
            &&& fired->0.should_redraw == old(surface).redraw_state->queued
            &&& old(surface).redraw_state->queued ==> final(surface).redraw_state
                == TtyRedrawState::Queued
            &&& !old(surface).redraw_state->queued ==> final(surface).redraw_state
                == TtyRedrawState::Idle
            &&& !final(surface).frame_callback_timer_armed
            &&& fired->0.sequence == final(surface).frame_callback_sequence
            &&& final(surface).frame_callback_sequence != old(surface).frame_callback_sequence
            &&& frame_time + timer.delay <= timing::MAX_NANOS ==> fired->0.callback_time
                == frame_time + timer.delay
        },
{
}

/// A timer for a commit deadline is started exactly if there is a deadline, none runs, and
/// nothing is queued or in flight that would meet it. It ends at the deadline, or at once if that
/// has passed.
pub proof fn law_commit_timers_end_at_the_deadline(
    surface: &mut SurfaceData,
    next_deadline: Option<Nanos>,
    now: Nanos,
    timer: Option<TimerRequest>,
)
    requires
        call_ensures(schedule_commit_timing_timer, (surface, next_deadline, now), timer),
    ensures
        timer is Some <==> next_deadline is Some && !old(surface).frame_pending && !old(
            surface).commit_timing_timer_armed && (old(surface).redraw_state is Idle || old(
            surface).redraw_state is WaitingForEstimatedVBlank),
        timer is Some && next_deadline->0 >= now ==> now + timer->0.delay == next_deadline->0,
        timer is Some && next_deadline->0 < now ==> timer->0.delay == 0,
        timer is Some ==> final(surface).commit_timing_timer_armed && timer->0.generation == final(
            surface).commit_timing_timer_generation && timer->0.generation != old(
            surface).commit_timing_timer_generation,
        timer is None ==> *final(surface) == *old(surface),
        final(surface).redraw_state == old(surface).redraw_state,
{
}

/// Only the newest timer for a commit deadline counts, and only while it is armed; it counts
/// once.
pub proof fn law_commit_timers_count_once(surface: &mut SurfaceData, generation: u64, current: bool)
    requires
        call_ensures(commit_timing_fired, (surface, generation), current),
    ensures
        current <==> old(surface).commit_timing_timer_armed && generation == old(
            surface).commit_timing_timer_generation,
        current ==> !final(surface).commit_timing_timer_armed,
        !current ==> *final(surface) == *old(surface),
        final(surface).redraw_state == old(surface).redraw_state,
{
}

/// A frame that was shown is no longer pending. A redraw that was asked for meanwhile is queued,
/// with the next refresh as its time; otherwise the output goes idle and predicts nothing. The
/// time is the display's own if it tells one.
pub proof fn law_shown_frames(
    surface: &mut SurfaceData,
    metadata: Option<PresentationMetadata>,
    now: Nanos,
    finished: FrameFinished,
)
    requires
        presentation_time(metadata, now) + old(surface).frame_duration <= timing::MAX_NANOS,
        call_ensures(frame_finish, (surface, metadata, now), finished),
    ensures
        metadata is Some && metadata->0.monotonic is Some ==> finished.presented_at
            == metadata->0.monotonic->0 && finished.hardware_clock,
        metadata is None || metadata->0.monotonic is None ==> finished.presented_at == now
            && !finished.hardware_clock,
        metadata is Some ==> finished.sequence == metadata->0.sequence,
        metadata is None ==> finished.sequence == 0,
        finished.refresh == old(surface).frame_duration,
        finished.redraw_needed <==> old(surface).redraw_state is WaitingForVBlank && old(
            surface).redraw_state->redraw_needed,
        finished.redraw_needed ==> final(surface).redraw_state == TtyRedrawState::Queued && final(
            surface).next_frame_target == Some(
            (finished.presented_at + old(surface).frame_duration) as Nanos,
        ),
        !finished.redraw_needed ==> final(surface).redraw_state == TtyRedrawState::Idle && final(
            surface).next_frame_target is None,
        !final(surface).frame_pending,
        final(surface).queued_at is None,
        final(surface).skipped_while_pending_count == 0,
        final(surface).last_presented_at == Some(finished.presented_at),
        final(surface).frame_callback_timer_armed == old(surface).frame_callback_timer_armed,
        final(surface).frame_callback_sequence == old(surface).frame_callback_sequence,
{
}

/// What a pause, a submitted frame, a shown frame and the timer leave alone: what the output is,
/// how long its frames last and take, and all that belongs to something else.
pub proof fn law_what_events_leave_alone(
    paused: &mut SurfaceData,
    rendered: &mut SurfaceData,
    shown: &mut SurfaceData,
    waited: &mut SurfaceData,
    submission: &FrameSubmission,
    follow_up: RenderFollowUp,
    metadata: Option<PresentationMetadata>,
    now: Nanos,
    finished: FrameFinished,
    timer: TimerRequest,
    fired: Option<EstimatedVBlank>,
)
    requires
        call_ensures(reset_surface_after_tty_pause, (paused,), ()),
        call_ensures(finish_frame, (rendered, submission), follow_up),
        call_ensures(frame_finish, (shown, metadata, now), finished),
        call_ensures(estimated_vblank_fired, (waited, timer, now), fired),
    ensures
        *final(paused) == (SurfaceData {
            redraw_state: final(paused).redraw_state,
            frame_pending: false,
            queued_at: None,
            queued_cpu_duration: 0,
            skipped_while_pending_count: 0,
            frame_callback_timer_armed: false,
            commit_timing_timer_armed: false,
            next_frame_target: None,
            tearing_active: false,
            ..*old(paused)
        }),
        *submission is Queued ==> *final(rendered) == (SurfaceData {
            redraw_state: final(rendered).redraw_state,
            frame_pending: final(rendered).frame_pending,
            queued_at: final(rendered).queued_at,
            queued_cpu_duration: final(rendered).queued_cpu_duration,
            skipped_while_pending_count: 0,
            frame_callback_timer_armed: false,
            frame_callback_timer_generation: final(rendered).frame_callback_timer_generation,
            frame_callback_sequence: final(rendered).frame_callback_sequence,
            ..*old(rendered)
        }),
        *submission is NoDamage ==> *final(rendered) == (SurfaceData {
            redraw_state: final(rendered).redraw_state,
            frame_callback_timer_generation: final(rendered).frame_callback_timer_generation,
            ..*old(rendered)
        }),
        *final(shown) == (SurfaceData {
            redraw_state: final(shown).redraw_state,
            frame_pending: false,
            queued_at: None,
            queued_cpu_duration: 0,
            skipped_while_pending_count: 0,
            last_presented_at: final(shown).last_presented_at,
            next_frame_target: final(shown).next_frame_target,
            ..*old(shown)
        }),
        *final(waited) == (SurfaceData {
            redraw_state: final(waited).redraw_state,
            frame_callback_timer_armed: final(waited).frame_callback_timer_armed,
            frame_callback_sequence: final(waited).frame_callback_sequence,
            ..*old(waited)
        }),
        // Counters move on by one.
        *submission is Queued && old(rendered).frame_callback_sequence < u32::MAX ==> final(
            rendered).frame_callback_sequence == old(rendered).frame_callback_sequence + 1,
        !(*submission is Refused) && old(rendered).frame_callback_timer_generation < u64::MAX
            ==> final(rendered).frame_callback_timer_generation == old(
            rendered).frame_callback_timer_generation + 1,
        fired is Some && old(waited).frame_callback_sequence < u32::MAX ==> final(
            waited).frame_callback_sequence == old(waited).frame_callback_sequence + 1,
{
}

} // verus!
