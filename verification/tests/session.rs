use shojiwm_backend::damage::{
    collect_layer_source_damage, collect_window_source_damage, finish_processed_outputs,
    pending_output_names, DamageState, LayerVisibility, OwnedDamageRect, WindowVisibility,
};
use shojiwm_backend::geometry::LogicalRect;
use shojiwm_backend::modes::{DisplayModePreference, DrmMode, WlMode};
use shojiwm_backend::records::OutputRecords;
use shojiwm_backend::redraw::{RenderSurfaceOutcome, TtyAction, TtyRedrawState, TtySession};
use shojiwm_backend::scanout::OutputCaptureMirror;
use shojiwm_backend::session::{
    add_backend, apply_tty_output_mode, connector_connected, connector_disconnected,
    connector_mode, device_added, device_changed, device_removed, find_surface, note_outcome,
    output_name, plan_tty_output_mode, render_if_needed, render_queued_surface_after_frame_finish,
    surfaces_to_render, tty_connected_outputs, tty_output_available_modes,
    update_available_modes, ConnectorId, DrivenConnector, FollowUpRender, ScanEvent, ScanStep,
};

fn empty_session() -> TtySession {
    TtySession {
        backends: Vec::new(),
        session_active: true,
        needs_redraw: false,
        force_full_damage: false,
    }
}

fn mode(width: u16, height: u16, hertz: u32) -> DrmMode {
    DrmMode {
        width,
        height,
        clock: hertz,
        htotal: 1000,
        vtotal: 1,
        vscan: 0,
        vrefresh: hertz,
        interlaced: false,
        double_scan: false,
        preferred: false,
    }
}

fn two_outputs() -> TtySession {
    let mut session = empty_session();
    add_backend(&mut session, 1);
    add_backend(&mut session, 2);
    connector_connected(
        &mut session,
        1,
        10,
        "DP-1".to_string(),
        vec![mode(1920, 1080, 60), mode(1280, 720, 60)],
        16,
        false,
    );
    connector_connected(&mut session, 2, 10, "HDMI-A-1".to_string(), Vec::new(), 16, true);
    session
}

fn connector(interface: &str, interface_id: u32) -> ConnectorId {
    ConnectorId { interface: interface.to_string(), interface_id }
}

fn records_of(names: &[&str]) -> OutputRecords<u8> {
    let mut records = OutputRecords::new();
    let mirror = OutputCaptureMirror {
        width: 1,
        height: 1,
        scale_x_bits: 0,
        scale_y_bits: 0,
        transform: 0,
    };
    for name in names {
        records.mirrors.set(name, mirror);
        records.configs.set(name, 1);
        records.animated.insert(name);
        records.blink_visible.set(name, Vec::new());
        records.blink_pending.set(name, Vec::new());
    }
    records
}

fn no_damage() -> DamageState {
    DamageState {
        window_source: Vec::new(),
        lower_layer_source: Vec::new(),
        upper_layer_source: Vec::new(),
        pending_decoration: Vec::new(),
    }
}

fn damage_of(owner: &str) -> OwnedDamageRect {
    OwnedDamageRect { owner: owner.to_string(), rect: LogicalRect::new(0, 0, 1, 1) }
}

fn owners(entries: &[OwnedDamageRect]) -> Vec<&str> {
    entries.iter().map(|entry| entry.owner.as_str()).collect()
}

#[test]
fn outputs_are_named_by_their_connector() {
    assert_eq!(output_name("DP", 3), "DP-3");
    assert_eq!(output_name("HDMI-A", 12), "HDMI-A-12");
}

#[test]
fn connected_outputs_are_found_by_device_and_controller() {
    let session = two_outputs();
    assert_eq!(find_surface(&session, 1, 10), Some((0, 0)));
    assert_eq!(find_surface(&session, 2, 10), Some((1, 0)));
    assert_eq!(find_surface(&session, 1, 11), None);
    assert_eq!(find_surface(&session, 3, 10), None);
    assert_eq!(tty_connected_outputs(&session), vec!["DP-1", "HDMI-A-1"]);
}

#[test]
fn connecting_a_controller_again_replaces_its_output() {
    let mut session = two_outputs();
    let actions =
        connector_connected(&mut session, 1, 10, "DP-2".to_string(), Vec::new(), 8, false);
    assert_eq!(
        actions,
        vec![
            TtyAction::ApplyDisplayConfiguration,
            TtyAction::NotifyOutputsChanged,
            TtyAction::ScheduleRedraw
        ]
    );
    assert_eq!(tty_connected_outputs(&session), vec!["DP-2", "HDMI-A-1"]);
}

#[test]
fn disconnecting_drops_the_output_and_pending_decorations() {
    let mut session = two_outputs();
    let mut damage = no_damage();
    damage.pending_decoration.push(LogicalRect::new(0, 0, 5, 5));
    let mut records = records_of(&["DP-1", "HDMI-A-1"]);
    let id = connector("DP", 1);
    assert!(connector_disconnected(&mut session, &mut damage, &mut records, 9, 9, &id).is_none());
    assert_eq!(damage.pending_decoration.len(), 1);
    assert!(records.mirrors.contains("DP-1"));
    let removed =
        connector_disconnected(&mut session, &mut damage, &mut records, 1, 10, &id).unwrap();
    assert_eq!(removed.surface.output, "DP-1");
    assert_eq!(removed.name, "DP-1");
    for name in ["DP-1", "HDMI-A-1"] {
        let kept = name == "HDMI-A-1";
        assert_eq!(records.mirrors.contains(name), kept);
        assert_eq!(records.configs.contains(name), kept);
        assert_eq!(records.animated.contains(name), kept);
        assert_eq!(records.blink_visible.contains(name), kept);
        assert_eq!(records.blink_pending.contains(name), kept);
    }
    assert_eq!(
        removed.actions,
        vec![TtyAction::ApplyDisplayConfiguration, TtyAction::NotifyOutputsChanged]
    );
    assert!(damage.pending_decoration.is_empty());
    assert_eq!(tty_connected_outputs(&session), vec!["HDMI-A-1"]);
}

#[test]
fn removing_a_device_removes_its_outputs() {
    let mut session = two_outputs();
    let mut damage = no_damage();
    damage.pending_decoration.push(LogicalRect::new(0, 0, 5, 5));
    let mut records = records_of(&["DP-1", "HDMI-A-1", "DP-3"]);
    let driven = |interface, number, crtc| DrivenConnector {
        id: connector(interface, number),
        crtc,
    };
    let one = [driven("HDMI-A", 1, 10)];
    assert!(device_removed(&mut session, &mut damage, &mut records, 9, &one).is_none());
    assert_eq!(damage.pending_decoration.len(), 1);
    let connectors = [driven("DP", 3, 11), driven("HDMI-A", 1, 10), driven("DP", 1, 10)];
    let removed =
        device_removed(&mut session, &mut damage, &mut records, 2, &connectors).unwrap();
    assert_eq!(removed.len(), 1);
    assert_eq!(removed[0].surface.output, "HDMI-A-1");
    assert_eq!(removed[0].name, "HDMI-A-1");
    assert!(damage.pending_decoration.is_empty());
    assert!(records.mirrors.contains("DP-1") && records.mirrors.contains("DP-3"));
    assert!(!records.mirrors.contains("HDMI-A-1"));
    assert_eq!(tty_connected_outputs(&session), vec!["DP-1"]);
    assert!(device_removed(&mut session, &mut damage, &mut records, 2, &one).is_none());
    damage.pending_decoration.push(LogicalRect::new(0, 0, 5, 5));
    let removed = device_removed(&mut session, &mut damage, &mut records, 1, &[]).unwrap();
    assert!(removed.is_empty());
    assert_eq!(damage.pending_decoration.len(), 1);
    assert!(tty_connected_outputs(&session).is_empty());
}

#[test]
fn a_device_that_comes_again_is_replaced() {
    let mut session = two_outputs();
    add_backend(&mut session, 1);
    assert_eq!(session.backends.len(), 2);
    assert_eq!(tty_connected_outputs(&session), vec!["HDMI-A-1"]);
    assert!(find_surface(&session, 1, 10).is_none());
}

#[test]
fn scans_tell_what_to_do() {
    let events = [
        ScanEvent::Connected { crtc: Some(1) },
        ScanEvent::Connected { crtc: None },
        ScanEvent::Disconnected { crtc: Some(2) },
        ScanEvent::Changed { crtc: Some(3) },
    ];
    assert_eq!(device_added(&events), vec![1]);
    let change = device_changed(&events);
    assert!(change.steps.contains(&ScanStep::Connect { crtc: 1 }));
    assert!(change.steps.contains(&ScanStep::Disconnect { crtc: 2 }));
    assert!(change.steps.contains(&ScanStep::UpdateModes { crtc: 3 }));
}

#[test]
fn modes_are_offered_and_switched_by_name() {
    let mut session = two_outputs();
    let modes = tty_output_available_modes(&session, "DP-1").unwrap();
    assert_eq!(
        modes,
        vec![
            WlMode { width: 1920, height: 1080, refresh: 60000 },
            WlMode { width: 1280, height: 720, refresh: 60000 }
        ]
    );
    assert_eq!(tty_output_available_modes(&session, "DP-9"), None);
    let plan = plan_tty_output_mode(&session, "DP-1", modes[1]).unwrap();
    assert_eq!((plan.backend, plan.surface), (0, 0));
    assert_eq!(plan.mode.width, 1280);
    assert!(plan_tty_output_mode(
        &session,
        "DP-1",
        WlMode { width: 1, height: 1, refresh: 1 }
    )
    .is_none());
    assert!(plan_tty_output_mode(&session, "DP-9", modes[0]).is_none());
    let untimed = DrmMode { htotal: 0, ..mode(1, 1, 1) };
    session.backends[0].surfaces[0].available_modes.push(untimed);
    assert_eq!(plan_tty_output_mode(&session, "DP-1", modes[1]).unwrap().mode.width, 1280);
    session.backends[1].surfaces[0].available_modes = vec![mode(800, 600, 60)];
    assert_eq!(tty_output_available_modes(&session, "HDMI-A-1").unwrap().len(), 1);
    let surface = &mut session.backends[0].surfaces[0];
    surface.redraw_state = TtyRedrawState::Idle;
    apply_tty_output_mode(surface, 7);
    assert_eq!(surface.frame_duration, 7);
    assert_eq!(surface.redraw_state, TtyRedrawState::Queued);
}

#[test]
fn changed_modes_replace_the_offered_ones() {
    let mut session = two_outputs();
    assert!(update_available_modes(&mut session, 2, 10, vec![mode(800, 600, 60)]));
    assert!(!update_available_modes(&mut session, 5, 10, Vec::new()));
    assert_eq!(
        tty_output_available_modes(&session, "HDMI-A-1"),
        Some(vec![WlMode { width: 800, height: 600, refresh: 60000 }])
    );
}

#[test]
fn outputs_that_are_kept_unused_have_no_mode() {
    let modes = [mode(1920, 1080, 60)];
    assert_eq!(connector_mode(false, &modes, &DisplayModePreference::Auto), None);
    assert_eq!(
        connector_mode(true, &modes, &DisplayModePreference::Auto),
        Some(modes[0])
    );
}

#[test]
fn passes_start_only_when_wanted_and_active() {
    let mut session = two_outputs();
    for backend in &mut session.backends {
        for surface in &mut backend.surfaces {
            surface.redraw_state = TtyRedrawState::Idle;
        }
    }
    assert!(!render_if_needed(&mut session));
    session.needs_redraw = true;
    session.session_active = false;
    assert!(!render_if_needed(&mut session));
    assert!(session.needs_redraw);
    session.session_active = true;
    assert!(render_if_needed(&mut session));
    assert!(!session.needs_redraw);
    assert_eq!(session.backends[1].surfaces[0].redraw_state, TtyRedrawState::Queued);
}

#[test]
fn passes_go_through_all_surfaces() {
    let session = two_outputs();
    assert_eq!(surfaces_to_render(&session), vec![(1, 10), (2, 10)]);
    let mut processed = Vec::new();
    note_outcome(&mut processed, &session, 1, 10, RenderSurfaceOutcome::Skipped);
    note_outcome(&mut processed, &session, 2, 10, RenderSurfaceOutcome::Processed);
    assert_eq!(processed, vec!["HDMI-A-1"]);
}

#[test]
fn renders_after_a_frame_are_followed_up() {
    assert_eq!(
        render_queued_surface_after_frame_finish(Ok(RenderSurfaceOutcome::Processed)),
        FollowUpRender::Finish
    );
    assert_eq!(
        render_queued_surface_after_frame_finish(Ok(RenderSurfaceOutcome::Skipped)),
        FollowUpRender::Nothing
    );
    assert_eq!(
        render_queued_surface_after_frame_finish(Err(())),
        FollowUpRender::ScheduleRedraw
    );
}

#[test]
fn damage_is_collected_by_owner() {
    let source = [damage_of("a"), damage_of("7"), damage_of("b"), damage_of("a")];
    let windows = [Some("a".to_string()), None];
    assert_eq!(owners(&collect_window_source_damage(&windows, &source)), vec!["a", "a"]);
    assert_eq!(owners(&collect_layer_source_damage(&[7, 8], &source)), vec!["7"]);
}

#[test]
fn damage_is_kept_while_an_output_still_needs_it() {
    let mut session = two_outputs();
    session.backends[0].surfaces[0].redraw_state = TtyRedrawState::Idle;
    assert_eq!(pending_output_names(&session), vec!["HDMI-A-1"]);
    let mut damage = no_damage();
    damage.window_source = vec![damage_of("here"), damage_of("there")];
    damage.lower_layer_source = vec![damage_of("4"), damage_of("5")];
    damage.pending_decoration.push(LogicalRect::new(0, 0, 1, 1));
    let windows = [
        WindowVisibility { id: Some("here".to_string()), outputs: vec!["DP-1".to_string()] },
        WindowVisibility { id: Some("there".to_string()), outputs: vec!["HDMI-A-1".to_string()] },
    ];
    let layers = [
        LayerVisibility { layer: 4, output: "HDMI-A-1".to_string() },
        LayerVisibility { layer: 5, output: "DP-1".to_string() },
    ];
    assert!(!finish_processed_outputs(&session, &mut damage, &[], &windows, &layers));
    assert_eq!(damage.window_source.len(), 2);
    let processed = ["DP-1".to_string()];
    assert!(finish_processed_outputs(&session, &mut damage, &processed, &windows, &layers));
    assert_eq!(owners(&damage.window_source), vec!["there"]);
    assert_eq!(owners(&damage.lower_layer_source), vec!["4"]);
    assert!(damage.pending_decoration.is_empty());
    session.backends[1].surfaces[0].redraw_state = TtyRedrawState::Idle;
    assert!(finish_processed_outputs(&session, &mut damage, &processed, &windows, &layers));
    assert!(damage.window_source.is_empty());
    assert!(damage.lower_layer_source.is_empty());
}
