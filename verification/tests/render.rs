use shojiwm_backend::capture::{
    capture_live_snapshot_for_close, capture_live_snapshot_for_window, close_capture_device,
    close_capture_output, finish_close_capture, window_scene_elements_for_capture, CapturedContent, CapturedDecoration,
};
use shojiwm_backend::clip::{ContentClip, WindowClipElement};
use shojiwm_backend::cursor::{
    client_draws_cursor, cursor_hotspot, cursor_shape, effective_cursor, show_cursor_image,
    CursorImage, CursorImages, CursorStatus, ImageStep, DEFAULT_CURSOR,
};
use shojiwm_backend::effects::{
    EffectInput, EffectSlot, EffectTraits, SlotArea, SlotPlacement, WindowEffectConfig,
    WindowSourceInclude,
};
use shojiwm_backend::frame::{
    compose_frame, extra_damage, initial_focus_windows, render_surface,
    restore_presented_window_surface_primary_outputs, FrameParts, FrameStates, PresentedWindow,
    TearingWishes,
};
use shojiwm_backend::geometry::{EffectOutsets, LogicalPoint, LogicalRect};
use shojiwm_backend::layers::{
    layer_elements_for_output, layer_surface_is_mapped, layer_surface_origin,
    layer_surface_popup_groups, layer_surfaces_for_output, layer_surfaces_for_popup_pass,
    popup_offset, snapshot_bounds, upper_layer_surfaces, window_popup_groups, LayerEntry,
    PopupGeometry, PopupPlacement, WlrLayer,
};
use shojiwm_backend::pass::{DrawnWindow, WindowChange, WindowPass, WindowStep};
use shojiwm_backend::redraw::{new_surface, BackendData, SurfaceData, TtySession};
use shojiwm_backend::scanout::{
    capture_mirror_drawn, count_presentation_states, fullscreen_scanout_window, plan_frame,
    render_output_capture_mirror, windows_behind_layers, FrameConditions, FrameFlags, MirrorStep,
    OutputCaptureMirror, PresentationCounts, PresentationState, WindowStatus,
};
use shojiwm_backend::scene::{TtyElementKind, TtyRenderElement};
use shojiwm_backend::slots::{
    closing_decoration_elements, closing_full_window_source_elements,
    closing_root_surface_source_elements, closing_snapshot_elements, compose_one_popup_elements,
    composed_popup_scene_elements, composed_window_popup_scene_elements, draws_layer_slot,
    draws_popup_slot, layer_popup_rect, layer_source_effect_elements, layer_surface_logical_rect,
    popup_backdrop, popup_backdrop_is_drawn, slot_cache_key, window_effect_elements,
    ClosingElements, PopupElements, SlotElements,
};
use shojiwm_backend::table::{NameSet, NameTable};
use shojiwm_backend::visual::RectSnapMode;
use shojiwm_backend::windows::{
    begin_window, captured_effects, client_elements, client_path, current_window_elements,
    decoration_elements, effect_source, finish_window, full_snapshot_scene, full_window_source,
    fullscreen_window_elements, reuse_complete_snapshot, should_seed_close_snapshot,
    snapshot_moved, source_decoration, store_complete_snapshot, window_background_path,
    window_body, window_decoration, window_is_drawn, window_popups, window_with_effects,
    ClientContent, ClientPath, DecorationParts, PassTotals, SnapshotSets,
    WindowBackgroundPath, WindowFacts, WindowPictures, WindowVisit,
};
use std::collections::HashMap;

const OUTPUT: LogicalRect = LogicalRect { x: 0, y: 0, width: 1920, height: 1080 };

fn shown<E: Copy>(elements: &[TtyRenderElement<E>]) -> Vec<(TtyElementKind, E)> {
    elements.iter().map(|element| (element.kind, element.element)).collect()
}

fn surface(output: &str) -> SurfaceData {
    new_surface(1, output.to_string(), Vec::new(), 16, true)
}

fn slot(input: EffectInput, framebuffer: bool) -> Option<EffectSlot> {
    Some(EffectSlot {
        effect: EffectTraits {
            input,
            blur: None,
            uses_backdrop: true,
            uses_xray: false,
            uses_layer_source: false,
            uses_popup_source: true,
            is_backdrop: false,
            supports_framebuffer_backdrop: false,
            supports_popup_framebuffer_backdrop: framebuffer,
            always_invalidated: false,
        },
        outsets: EffectOutsets { left: 1, right: 1, top: 1, bottom: 1 },
    })
}

const NO_EFFECTS: WindowEffectConfig =
    WindowEffectConfig { behind: None, behind_root_surface: None, in_front: None, replace: None };

fn drawn(replace: Vec<u8>) -> SlotElements<u8> {
    SlotElements {
        in_front: vec![1],
        replace,
        behind_root_surface: vec![3],
        behind: vec![4],
    }
}

fn fullscreen() -> WindowStatus {
    WindowStatus {
        has_decoration: true,
        render_allowed: true,
        geometry: Some(OUTPUT),
        acked_fullscreen: true,
        identity_geometry: true,
        full_opacity: true,
    }
}

fn names(list: &[&str]) -> Vec<String> {
    list.iter().map(|name| name.to_string()).collect()
}

fn name_set(list: &[&str]) -> NameSet {
    let mut set = NameSet::new();
    for name in list {
        set.insert(name);
    }
    set
}

#[test]
fn effects_need_an_area_on_the_output() {
    let outsets = EffectOutsets { left: 1, right: 2, top: 3, bottom: 4 };
    let rect = LogicalRect::new(10, 10, 20, 20);
    let plan = |rect, count| {
        window_effect_elements("DP-1", OUTPUT, "w", "behind", 7, 2, rect, outsets, count)
    };
    let effect = plan(rect, 1).unwrap();
    assert_eq!(effect.rect, LogicalRect::new(9, 7, 23, 27));
    assert_eq!((effect.id, effect.commit), (7, 2));
    assert_eq!(effect.pipeline_key, "tty:window-effect:DP-1:w:behind");
    assert_eq!(effect.label, "window-effect:behind:DP-1:w");
    assert!(plan(rect, 0).is_none());
    assert!(plan(LogicalRect::new(10, 10, 0, 20), 1).is_none());
    assert!(plan(LogicalRect::new(5000, 10, 20, 20), 1).is_none());
    assert_eq!(slot_cache_key("w", "behind", "DP-1"), "w@behind@DP-1");
}

#[test]
fn overlays_see_only_the_window_that_makes_up_the_frame() {
    assert_eq!(windows_behind_layers(&[1, 2, 3], None), &[1, 2, 3]);
    assert_eq!(windows_behind_layers(&[1, 2, 3], Some(1)), &[2]);
}

#[test]
fn popups_keep_their_effects_while_the_window_rests() {
    let composed =
        || vec![TtyRenderElement { kind: TtyElementKind::Backdrop, element: 1 }];
    assert_eq!(
        shown(&window_popups(true, composed(), vec![2])),
        vec![(TtyElementKind::Backdrop, 1)]
    );
    assert_eq!(
        shown(&window_popups(false, composed(), vec![2, 3])),
        vec![(TtyElementKind::TransformedWindow, 2), (TtyElementKind::TransformedWindow, 3)]
    );
}

#[test]
fn the_first_picture_of_a_window_counts_as_moved() {
    assert!(snapshot_moved(false, false));
    assert!(snapshot_moved(true, true));
    assert!(!snapshot_moved(true, false));
    let mut sets = SnapshotSets {
        transform: NameSet::new(),
        dirty: NameSet::new(),
        changed: NameSet::new(),
    };
    let ready = NameSet::new();
    let mut pass: WindowPass<u8> = WindowPass::new(Vec::new());
    let first = WindowChange { scaled: true, known_before: false, differs: false, area: OUTPUT };
    pass.begin(&mut sets, &ready, None, 0, &DRAWN, "a", first);
    assert!(sets.changed.contains("a"));
    let again = WindowChange { known_before: true, ..first };
    pass.begin(&mut sets, &ready, None, 0, &DRAWN, "b", again);
    assert!(!sets.changed.contains("b"));
}

#[test]
fn decorations_wait_until_they_may_be_drawn() {
    let parts = || DecorationParts {
        effects: captured_effects(vec![(3, 'a', false)], vec![(0, 'b')]),
        framebuffer_effects: Vec::new(),
        backgrounds: vec![(1, 'c', true), (2, 'd', false)],
        icons: vec![(0, 'e')],
        texts: Vec::new(),
    };
    let (ui, backdrop) = window_decoration(false, false, true, parts());
    assert!(ui.is_empty() && backdrop.is_empty());
    let elements = |list: &[TtyRenderElement<char>]| -> String {
        list.iter().map(|element| element.element).collect()
    };
    let (ui, backdrop) = window_decoration(true, false, false, parts());
    assert_eq!((elements(&ui), elements(&backdrop)), ("eda".to_string(), "bc".to_string()));
    let (as_is, _) = window_decoration(true, true, false, parts());
    let (resting, _) = window_decoration(true, false, true, parts());
    assert_eq!(shown(&as_is), shown(&resting));
    assert_ne!(shown(&as_is), shown(&ui));

    let source = source_decoration(
        vec![(3, 'a', false)],
        vec![(0, 'b')],
        vec![(1, 'c')],
        vec![(0, 'e')],
        Vec::new(),
    );
    let (ui, backdrop) = decoration_elements(source, true);
    assert_eq!((elements(&ui), elements(&backdrop)), ("eca".to_string(), "b".to_string()));
}

#[test]
fn layer_surfaces_are_drawn_with_effects_applied_to_them() {
    let input = EffectInput::LayerSource;
    let all = WindowEffectConfig {
        behind: slot(input, false),
        behind_root_surface: slot(input, false),
        in_front: slot(input, false),
        replace: slot(input, false),
    };
    assert_eq!(layer_source_effect_elements(&all, drawn(vec![2]), vec![9]), vec![1, 2, 3, 4]);
    assert_eq!(layer_source_effect_elements(&all, drawn(Vec::new()), vec![9]), vec![1, 9, 3, 4]);
    let others = WindowEffectConfig { behind: slot(EffectInput::Other, false), ..NO_EFFECTS };
    assert_eq!(layer_source_effect_elements(&others, drawn(vec![2]), vec![9]), vec![9]);
    assert!(draws_layer_slot(&all.behind));
    assert!(!draws_layer_slot(&others.behind));
    assert!(!draws_popup_slot(&all.behind));
    assert!(draws_popup_slot(&slot(EffectInput::PopupSource, false)));
}

#[test]
fn popups_have_one_effect_behind_them() {
    let rect = LogicalRect::new(10, 10, 20, 20);
    let from_frame = slot(EffectInput::Other, true);
    let from_popup = slot(EffectInput::PopupSource, true);
    let plan = popup_backdrop(&from_frame, rect).unwrap();
    assert_eq!(plan.rect, LogicalRect::new(9, 9, 22, 22));
    assert!(popup_backdrop_is_drawn(&plan, true));
    assert!(!popup_backdrop_is_drawn(&plan, false));
    assert_eq!(popup_backdrop(&from_popup, rect), None);
    assert_eq!(popup_backdrop(&slot(EffectInput::Other, false), rect), None);
    let config = WindowEffectConfig { behind: from_frame, ..NO_EFFECTS };
    assert_eq!(
        compose_one_popup_elements(&config, rect, drawn(Vec::new()), Some(8), vec![9]),
        vec![9, 8]
    );
    let config = WindowEffectConfig { behind: from_popup, ..NO_EFFECTS };
    assert_eq!(
        compose_one_popup_elements(&config, rect, drawn(Vec::new()), Some(8), vec![9]),
        vec![9, 4]
    );
}

#[test]
fn popups_are_shown_with_their_effects() {
    let popups = || {
        vec![
            PopupElements { raw: vec![1], with_effects: None },
            PopupElements { raw: vec![2], with_effects: Some(vec![3, 4]) },
        ]
    };
    assert_eq!(composed_popup_scene_elements(popups()), vec![1, 3, 4]);
    assert_eq!(composed_window_popup_scene_elements(popups()), vec![1, 3, 4]);
}

#[test]
fn layer_surfaces_are_placed_on_their_output() {
    let corner = LogicalPoint { x: 100, y: 50 };
    let local = LogicalRect::new(1, 2, 3, 4);
    assert_eq!(layer_popup_rect(corner, local), LogicalRect::new(101, 52, 3, 4));
    assert_eq!(
        layer_surface_logical_rect(corner, Some(local)),
        Some(LogicalRect::new(101, 52, 3, 4))
    );
    assert_eq!(layer_surface_logical_rect(corner, None), None);
}

#[test]
fn closing_windows_are_shown_as_they_were() {
    assert_eq!(
        shown(&closing_root_surface_source_elements(Some(1), false)),
        vec![(TtyElementKind::TransformedSnapshot, 1)]
    );
    assert!(closing_root_surface_source_elements(None::<u8>, true).is_empty());
    let decoration = closing_decoration_elements(Some(vec![1]), None, Some(vec![2, 3]), true);
    assert_eq!(
        shown(&decoration),
        vec![
            (TtyElementKind::RelocatedText, 1),
            (TtyElementKind::RelocatedDecoration, 2),
            (TtyElementKind::RelocatedDecoration, 3)
        ]
    );
    let root = closing_root_surface_source_elements(Some(4), true);
    let full = closing_full_window_source_elements(decoration, root);
    assert_eq!(full.len(), 4);
    assert_eq!(full[3].kind, TtyElementKind::Snapshot);
    assert_eq!(
        closing_snapshot_elements(vec![
            ClosingElements { drawn: drawn(vec![2]), full_window: vec![9] },
            ClosingElements { drawn: drawn(Vec::new()), full_window: vec![9] },
        ]),
        vec![1, 2, 3, 4, 1, 9, 3, 4]
    );
}

#[test]
fn one_window_can_make_up_the_frame() {
    let hidden = WindowStatus { render_allowed: false, ..fullscreen() };
    let small =
        WindowStatus { geometry: Some(LogicalRect::new(0, 0, 100, 100)), ..fullscreen() };
    let faded = WindowStatus { full_opacity: false, ..fullscreen() };
    assert_eq!(fullscreen_scanout_window(&[hidden, fullscreen()], 0, OUTPUT), Some(1));
    assert_eq!(fullscreen_scanout_window(&[fullscreen()], 1, OUTPUT), None);
    assert_eq!(fullscreen_scanout_window(&[small, fullscreen()], 0, OUTPUT), None);
    assert_eq!(fullscreen_scanout_window(&[faded], 0, OUTPUT), None);
    assert_eq!(fullscreen_scanout_window(&[], 0, OUTPUT), None);
}

#[test]
fn frames_tear_only_when_nothing_is_in_front() {
    let bare = FrameConditions {
        fullscreen: true,
        upper_layers_visible: false,
        cursor_visible: false,
        tearing_forced: false,
        allow_tearing: None,
        client_prefers_tearing: true,
    };
    let mut s = surface("DP-1");
    let plan = plan_frame(&mut s, bare);
    assert!(plan.should_tear && plan.scanout_candidate && plan.clear_to_black);
    assert!(s.tearing_active);
    assert_eq!(
        plan.flags,
        FrameFlags { primary_scanout: true, overlay_scanout: true, cursor_scanout: false }
    );
    assert!(!plan_frame(&mut s, FrameConditions { cursor_visible: true, ..bare }).should_tear);
    assert!(!s.tearing_active);
    let covered = plan_frame(&mut s, FrameConditions { upper_layers_visible: true, ..bare });
    assert!(!covered.scanout_candidate && !covered.flags.primary_scanout);
    let refused = FrameConditions { allow_tearing: Some(false), ..bare };
    assert!(!plan_frame(&mut s, refused).should_tear);
    assert!(plan_frame(&mut s, FrameConditions { tearing_forced: true, ..refused }).should_tear);
    s.supports_async_flip = false;
    assert!(!plan_frame(&mut s, bare).should_tear);
}

#[test]
fn presented_elements_are_counted() {
    let counts = count_presentation_states(&[
        PresentationState::ZeroCopy,
        PresentationState::Rendering,
        PresentationState::FormatUnsupported,
        PresentationState::ScanoutFailed,
        PresentationState::Skipped,
    ]);
    assert_eq!(
        counts,
        PresentationCounts {
            zero_copy: 1,
            rendered: 3,
            skipped: 1,
            format_unsupported: 1,
            scanout_failed: 1
        }
    );
}

#[test]
fn captures_are_served_from_a_picture_of_the_output() {
    let shape = OutputCaptureMirror {
        width: 10,
        height: 10,
        scale_x_bits: 1.0f64.to_bits(),
        scale_y_bits: 1.0f64.to_bits(),
        transform: 0,
    };
    let turned = OutputCaptureMirror { transform: 1, ..shape };
    let mut mirrors = NameTable::new();
    let draw = |recreate| MirrorStep::Draw { recreate };
    assert_eq!(render_output_capture_mirror(&mut mirrors, "DP-1", true, Some(shape)), draw(true));
    capture_mirror_drawn(&mut mirrors, "DP-1", shape, true);
    assert_eq!(render_output_capture_mirror(&mut mirrors, "DP-1", true, Some(shape)), draw(false));
    assert_eq!(render_output_capture_mirror(&mut mirrors, "DP-1", true, Some(turned)), draw(true));
    assert_eq!(render_output_capture_mirror(&mut mirrors, "DP-1", true, None), MirrorStep::Keep);
    assert!(mirrors.contains("DP-1"));
    capture_mirror_drawn(&mut mirrors, "DP-1", turned, false);
    assert!(!mirrors.contains("DP-1"));
    capture_mirror_drawn(&mut mirrors, "DP-1", turned, true);
    assert_eq!(
        render_output_capture_mirror(&mut mirrors, "DP-1", false, Some(turned)),
        MirrorStep::Drop
    );
    assert!(!mirrors.contains("DP-1"));
}

#[test]
fn windows_are_drawn_when_there_is_something_to_see() {
    let facts = WindowFacts {
        in_layout: true,
        has_decoration: true,
        render_allowed: true,
        closing: false,
        surface_count: 1,
    };
    assert!(window_is_drawn(&facts));
    assert!(!window_is_drawn(&WindowFacts { closing: true, ..facts }));
    assert!(!window_is_drawn(&WindowFacts { surface_count: 0, ..facts }));
    assert!(!window_is_drawn(&WindowFacts { has_decoration: false, ..facts }));
}

const DRAWN: WindowFacts = WindowFacts {
    in_layout: true,
    has_decoration: true,
    render_allowed: true,
    closing: false,
    surface_count: 1,
};

fn plain(id: u32) -> TtyRenderElement<u32> {
    TtyRenderElement { kind: TtyElementKind::Window, element: id }
}

#[test]
fn a_pass_puts_windows_in_order() {
    let mut sets = SnapshotSets {
        transform: NameSet::new(),
        dirty: name_set(&["b"]),
        changed: NameSet::new(),
    };
    let mut ready = name_set(&["b"]);
    let mut pass = WindowPass::new(vec![OUTPUT]);
    let rest =
        WindowChange { scaled: false, known_before: true, differs: false, area: OUTPUT };
    let area = LogicalRect { x: 5, y: 6, width: 7, height: 8 };

    let step = pass.begin(&mut sets, &ready, None, 0, &DRAWN, "a", rest);
    let visit = WindowVisit { use_full_snapshot: false, dirty: false, repaint: false };
    assert_eq!(step, WindowStep::Draw { visit, decoration_ready: false });
    let drawn = DrawnWindow {
        use_full_snapshot: false,
        in_front: Some(vec![plain(1)]),
        popups: vec![plain(2)],
        non_root: vec![plain(3)],
        body: vec![plain(4)],
        replacement: None,
        behind_root_surface: Some(vec![plain(5)]),
        behind: None,
    };
    pass.finish(&mut sets, &mut ready, "a", drawn);

    let hidden = WindowFacts { closing: true, ..DRAWN };
    assert_eq!(pass.begin(&mut sets, &ready, None, 1, &hidden, "c", rest), WindowStep::Skip);

    let scaled = WindowChange { scaled: true, known_before: true, differs: true, area };
    let step = pass.begin(&mut sets, &ready, None, 2, &DRAWN, "b", scaled);
    let visit = WindowVisit { use_full_snapshot: true, dirty: true, repaint: true };
    assert_eq!(step, WindowStep::Draw { visit, decoration_ready: true });
    let drawn = DrawnWindow {
        use_full_snapshot: true,
        in_front: None,
        popups: vec![plain(6)],
        non_root: vec![plain(7)],
        body: vec![plain(8)],
        replacement: Some(vec![plain(9)]),
        behind_root_surface: None,
        behind: Some(vec![plain(10)]),
    };
    pass.finish(&mut sets, &mut ready, "b", drawn);

    let ids: Vec<u32> = pass.elements.iter().map(|element| element.element).collect();
    assert_eq!(ids, vec![1, 2, 4, 5, 6, 7, 9, 10]);
    assert_eq!(pass.damage, vec![OUTPUT, area]);
    assert_eq!(pass.newly_ready, vec!["a".to_string()]);
    assert!(ready.contains("a"));
    assert!(!sets.dirty.contains("b") && sets.changed.contains("b"));
    assert_eq!(
        pass.totals,
        PassTotals { snapshot_windows: 1, damaged_windows: 1, had_snapshot_damage: true }
    );

    let mut next = WindowPass::<u32>::new(Vec::new());
    let step = next.begin(&mut sets, &ready, None, 0, &DRAWN, "b", scaled);
    let visit = WindowVisit { use_full_snapshot: true, dirty: false, repaint: false };
    assert_eq!(step, WindowStep::Draw { visit, decoration_ready: true });
}

#[test]
fn a_sole_window_is_shown_bare() {
    let mut sets = SnapshotSets {
        transform: NameSet::new(),
        dirty: NameSet::new(),
        changed: NameSet::new(),
    };
    let ready = NameSet::new();
    let mut pass = WindowPass::new(Vec::new());
    let rest = WindowChange { scaled: true, known_before: true, differs: true, area: OUTPUT };
    assert_eq!(pass.begin(&mut sets, &ready, Some(1), 0, &DRAWN, "a", rest), WindowStep::Skip);
    assert_eq!(pass.begin(&mut sets, &ready, Some(1), 1, &DRAWN, "b", rest), WindowStep::Bare);
    pass.finish_bare(vec![1], vec![2, 3]);
    assert_eq!(
        shown(&pass.elements),
        vec![
            (TtyElementKind::Window, 1),
            (TtyElementKind::Window, 2),
            (TtyElementKind::Window, 3)
        ]
    );
    assert!(pass.damage.is_empty() && !sets.transform.contains("b"));
}

#[test]
fn scaled_windows_are_repainted_when_they_switch_or_change() {
    let mut sets = SnapshotSets {
        transform: NameSet::new(),
        dirty: name_set(&["w"]),
        changed: NameSet::new(),
    };
    let mut totals =
        PassTotals { snapshot_windows: 0, damaged_windows: 0, had_snapshot_damage: false };
    let visit = begin_window(&mut sets, &mut totals, "w", true, true);
    assert_eq!(visit, WindowVisit { use_full_snapshot: true, dirty: true, repaint: true });
    assert!(sets.transform.contains("w") && sets.changed.contains("w"));
    assert_eq!(
        totals,
        PassTotals { snapshot_windows: 1, damaged_windows: 1, had_snapshot_damage: true }
    );
    let mut ready = NameSet::new();
    assert!(finish_window(&mut sets, &mut ready, "w"));
    assert!(!sets.dirty.contains("w"));
    assert!(!finish_window(&mut sets, &mut ready, "w"));
    assert!(!begin_window(&mut sets, &mut totals, "w", true, false).repaint);
    assert!(begin_window(&mut sets, &mut totals, "w", false, false).repaint);
    assert!(!begin_window(&mut sets, &mut totals, "w", false, false).repaint);
    assert_eq!(totals.snapshot_windows, 2);
}

#[test]
fn pictures_of_windows_are_kept_until_they_change() {
    let mut snapshots = NameTable::new();
    let rect = LogicalRect::new(0, 0, 10, 10);
    let moved = LogicalRect::new(5, 0, 10, 10);
    assert!(!reuse_complete_snapshot(&mut snapshots, "w", 1, rect, false));
    store_complete_snapshot(&mut snapshots, "w", 1, rect);
    assert!(reuse_complete_snapshot(&mut snapshots, "w", 1, moved, false));
    assert_eq!(snapshots.get("w").unwrap().rect, moved);
    assert!(!reuse_complete_snapshot(&mut snapshots, "w", 2, moved, false));
    assert!(snapshots.get("w").is_none());
    store_complete_snapshot(&mut snapshots, "w", 1, rect);
    assert!(!reuse_complete_snapshot(&mut snapshots, "w", 1, rect, true));
}

#[test]
fn pictures_for_closing_windows_follow_the_size() {
    let rect = LogicalRect::new(0, 0, 10, 10);
    let moved = LogicalRect::new(5, 5, 10, 10);
    let grown = LogicalRect::new(0, 0, 11, 10);
    assert!(should_seed_close_snapshot(Some(rect), None));
    assert!(should_seed_close_snapshot(Some(grown), Some(rect)));
    assert!(!should_seed_close_snapshot(Some(moved), Some(rect)));
    assert!(!should_seed_close_snapshot(None, None));
}

#[test]
fn decorations_are_put_in_order() {
    let parts = DecorationParts {
        effects: vec![(5, 'a', true), (1, 'b', false)],
        framebuffer_effects: vec![(2, 'c')],
        backgrounds: vec![(0, 'd', false), (9, 'e', true)],
        icons: vec![(1, 'f')],
        texts: vec![(0, 'g')],
    };
    let (ui, backdrop) = decoration_elements(parts, false);
    assert_eq!(
        shown(&ui),
        vec![
            (TtyElementKind::TransformedDecoration, 'd'),
            (TtyElementKind::TransformedText, 'g'),
            (TtyElementKind::TransformedBackdrop, 'b'),
            (TtyElementKind::TransformedText, 'f')
        ]
    );
    assert_eq!(
        shown(&backdrop),
        vec![
            (TtyElementKind::TransformedDecoration, 'c'),
            (TtyElementKind::TransformedBackdrop, 'a'),
            (TtyElementKind::TransformedDecoration, 'e')
        ]
    );
}

#[test]
fn windows_are_put_together_from_their_parts() {
    assert_eq!(client_path(true, true), ClientPath::Snapshot);
    assert_eq!(client_path(false, true), ClientPath::Clipped);
    assert_eq!(client_path(false, false), ClientPath::Plain);
    assert_eq!(window_background_path(false, true, false), WindowBackgroundPath::Nothing);
    assert_eq!(window_background_path(true, true, false), WindowBackgroundPath::Framebuffer);
    assert_eq!(window_background_path(true, true, true), WindowBackgroundPath::Texture);
    assert_eq!(window_background_path(true, false, false), WindowBackgroundPath::Texture);
    assert_eq!(
        shown(&client_elements(ClientContent::Snapshot(Some(1)), false)),
        vec![(TtyElementKind::TransformedSnapshot, 1)]
    );
    assert!(client_elements(ClientContent::Snapshot(None::<u8>), true).is_empty());
    assert_eq!(
        shown(&client_elements(ClientContent::Clipped(vec![WindowClipElement::Clipped(1)]), true)),
        vec![(TtyElementKind::Clipped, 1)]
    );
    assert_eq!(
        shown(&client_elements(ClientContent::Plain(vec![1]), true)),
        vec![(TtyElementKind::Window, 1)]
    );
    assert_eq!(full_window_source(false, true, vec![1], vec![2], vec![3]), Vec::<u8>::new());
    assert_eq!(full_window_source(true, false, vec![1], vec![2], vec![3]), vec![1]);
    assert_eq!(full_window_source(true, true, vec![1], vec![2], vec![3]), vec![1, 2, 3]);
    assert_eq!(window_body(vec![1], vec![2], vec![3], true), vec![1]);
    assert_eq!(window_body(vec![1], vec![2], vec![3], false), vec![1, 2, 3]);
    assert_eq!(current_window_elements(vec![1], vec![2], vec![3], None, false), vec![1, 3]);
    assert_eq!(current_window_elements(vec![1], vec![2], vec![3], None, true), vec![1, 2, 3]);
    assert_eq!(
        current_window_elements(vec![1], vec![2], vec![3], Some(vec![4]), false),
        vec![1, 2, 4]
    );
    assert_eq!(window_with_effects(vec![1], vec![2], vec![3], vec![4]), vec![1, 2, 3, 4]);
    assert_eq!(
        shown(&fullscreen_window_elements(vec![1], vec![2])),
        vec![(TtyElementKind::Window, 1), (TtyElementKind::Window, 2)]
    );
    let client = client_elements(ClientContent::Plain(vec![1]), true);
    let scene = full_snapshot_scene(client, Vec::new(), Vec::new());
    assert_eq!(scene.len(), 1);
}

#[test]
fn whole_outputs_are_painted_when_asked() {
    let rect = LogicalRect::new(1, 1, 2, 2);
    assert_eq!(extra_damage(vec![rect], false, false, 3, OUTPUT), vec![rect]);
    assert_eq!(extra_damage(vec![rect], true, false, 0, OUTPUT), vec![rect, OUTPUT]);
    assert_eq!(extra_damage(Vec::new(), false, true, 1, OUTPUT), vec![OUTPUT]);
    assert_eq!(extra_damage(Vec::new(), false, true, 0, OUTPUT), Vec::new());
}

#[test]
fn pointers_follow_who_asks_for_them() {
    let mut status = CursorStatus::Surface { alive: false };
    assert_eq!(effective_cursor(&mut status, Some(7)), CursorStatus::Named(7));
    assert_eq!(status, CursorStatus::Named(DEFAULT_CURSOR));
    let mut status = CursorStatus::Surface { alive: true };
    assert_eq!(effective_cursor(&mut status, None), CursorStatus::Surface { alive: true });
    assert_eq!(cursor_shape(status), None);
    assert_eq!(cursor_shape(CursorStatus::Hidden), Some(DEFAULT_CURSOR));
    assert_eq!(cursor_shape(CursorStatus::Named(3)), Some(3));
    assert_eq!(cursor_hotspot(9, 4, 2), (4, 2));
    assert_eq!(cursor_hotspot(u32::MAX, 4, 1), (-1, 4));
}

#[test]
fn pointer_images_are_uploaded_once() {
    let image = |pixel: u8| CursorImage {
        width: 1,
        height: 1,
        xhot: 0,
        yhot: 0,
        delay: 0,
        pixels: vec![pixel; 4],
    };
    let mut images = CursorImages { images: Vec::new(), current: None };
    let step = |index, upload, changed| ImageStep { index, upload, changed };
    assert_eq!(show_cursor_image(&mut images, image(1)), step(0, true, true));
    assert_eq!(show_cursor_image(&mut images, image(1)), step(0, false, false));
    assert_eq!(show_cursor_image(&mut images, image(2)), step(1, true, true));
    assert_eq!(show_cursor_image(&mut images, image(1)), step(0, false, true));
    client_draws_cursor(&mut images);
    assert_eq!(show_cursor_image(&mut images, image(1)), step(0, false, true));
    assert_eq!(images.images.len(), 2);
}

#[test]
fn effects_are_drawn_from_what_they_sample() {
    let pictures = WindowPictures {
        root_surface: &[1],
        full_window: &[2],
        body: &[3],
        current: &[4],
    };
    let root = EffectInput::WindowSource(WindowSourceInclude::RootSurface);
    assert_eq!(
        effect_source(&pictures, SlotPlacement::Replace, EffectInput::Other),
        (SlotArea::Root, &[3][..])
    );
    assert_eq!(
        effect_source(&pictures, SlotPlacement::Behind, EffectInput::Other),
        (SlotArea::Root, &[4][..])
    );
    assert_eq!(
        effect_source(&pictures, SlotPlacement::BehindRootSurface, EffectInput::Other),
        (SlotArea::Root, &[2][..])
    );
    assert_eq!(
        effect_source(&pictures, SlotPlacement::InFront, root),
        (SlotArea::Client, &[1][..])
    );
}

fn parts() -> FrameParts<u8> {
    FrameParts {
        error_texts: vec![1],
        error_backgrounds: vec![2],
        fps_overlay: vec![3],
        cursor: vec![4],
        blink: vec![5],
        lock_surface: vec![6],
        damage: vec![7],
        upper_layers: vec![8],
        closing_windows: vec![9],
        windows: vec![10],
        lower_layers: vec![11],
    }
}

#[test]
fn frames_run_from_messages_to_the_background() {
    let frame = compose_frame(parts(), false);
    assert_eq!(frame.overlay, vec![1, 2, 3, 4]);
    assert_eq!(frame.content, vec![5, 6, 7, 8, 9, 10, 11]);
    assert!(frame.upper_layers_visible && frame.cursor_visible && !frame.fullscreen);
    let alone = compose_frame(parts(), true);
    assert_eq!(alone.content, vec![5, 6, 8, 9, 10]);
    let bare = FrameParts {
        blink: Vec::new(),
        lock_surface: Vec::new(),
        upper_layers: Vec::new(),
        closing_windows: Vec::new(),
        ..parts()
    };
    assert_eq!(compose_frame(bare, true).content, vec![10]);
}

#[test]
fn mirrored_content_is_shown_as_a_picture() {
    let wishes = TearingWishes { forced: true, allow_tearing: None, client_prefers_tearing: false };
    let mut s = surface("DP-1");
    let rendered = render_surface(&mut s, compose_frame(parts(), false), wishes, Some(99));
    assert_eq!(rendered.elements, vec![1, 2, 3, 4, 99]);
    assert!(!rendered.plan.should_tear && !s.tearing_active);
    let bare = FrameParts { cursor: Vec::new(), upper_layers: Vec::new(), ..parts() };
    let rendered = render_surface(&mut s, compose_frame(bare, true), wishes, None);
    assert_eq!(rendered.elements, vec![1, 2, 3, 5, 6, 9, 10]);
    assert!(rendered.plan.should_tear && s.tearing_active);
}

#[test]
fn shown_windows_keep_receiving_frames() {
    let window = |id: Option<&str>, surfaces: &[u64], replaced| PresentedWindow {
        id: id.map(|id| id.to_string()),
        surfaces: surfaces.to_vec(),
        replaced,
    };
    let windows = [
        window(Some("moving"), &[], false),
        window(Some("resting"), &[1], false),
        window(Some("replaced"), &[], true),
        window(None, &[9], true),
        window(None, &[9, 2], false),
        window(None, &[3], false),
    ];
    let transform = name_set(&["moving", "resting"]);
    let changed = name_set(&["moving", "replaced"]);
    let shown = HashMap::from([
        (1, PresentationState::Skipped),
        (2, PresentationState::Rendering),
    ]);
    let mirrored = HashMap::from([
        (1, PresentationState::Rendering),
        (3, PresentationState::Rendering),
    ]);
    let direct = FrameStates { shown: shown.clone(), mirrored: None };
    assert_eq!(
        restore_presented_window_surface_primary_outputs(&windows, &direct, &transform, &changed),
        vec![0, 2, 4]
    );
    let captured = FrameStates { shown, mirrored: Some(mirrored) };
    assert_eq!(captured.element_state(1), Some(PresentationState::Skipped));
    assert!(captured.element_was_presented(3));
    assert_eq!(
        restore_presented_window_surface_primary_outputs(&windows, &captured, &transform, &changed),
        vec![0, 2, 4, 5]
    );
    assert_eq!(
        initial_focus_windows(names(&["a", "b", "c"]), &name_set(&["c", "a"])),
        names(&["a", "c"])
    );
}

fn layer(surface: u8, layer: WlrLayer, mapped: bool) -> LayerEntry<u8> {
    LayerEntry { surface, layer, mapped }
}

#[test]
fn layers_surround_the_windows() {
    let layers = || {
        vec![
            layer(1, WlrLayer::Background, true),
            layer(2, WlrLayer::Overlay, true),
            layer(3, WlrLayer::Bottom, true),
            layer(4, WlrLayer::Top, true),
            layer(5, WlrLayer::Top, false),
            layer(6, WlrLayer::Top, true),
        ]
    };
    assert_eq!(layer_surfaces_for_output(layers()), (vec![6, 4, 2], vec![3, 1]));
    assert_eq!(layer_surfaces_for_popup_pass(layers(), false), vec![2, 6, 4, 3, 1]);
    assert_eq!(layer_surfaces_for_popup_pass(layers(), true), vec![2]);
    assert_eq!(upper_layer_surfaces(layers(), false), vec![2, 6, 4]);
    assert_eq!(upper_layer_surfaces(layers(), true), vec![2]);
    assert_eq!(
        layer_elements_for_output(vec![vec![1], vec![2, 3]], vec![vec![4]]),
        (vec![1, 2, 3], vec![4])
    );
    assert!(layer_surface_is_mapped(Some(true)));
    assert!(!layer_surface_is_mapped(Some(false)));
    assert!(!layer_surface_is_mapped(None));
}

#[test]
fn popups_are_placed_by_their_geometry() {
    let popups = [PopupGeometry {
        offset: LogicalPoint { x: 5, y: 6 },
        geometry: LogicalRect::new(2, 3, 40, 50),
    }];
    let origin = layer_surface_origin(
        Some(LogicalPoint { x: 10, y: 20 }),
        LogicalPoint { x: 1, y: 2 },
    );
    assert_eq!(origin.map(|at| (at.x, at.y)), Some((9, 18)));
    assert!(layer_surface_origin(None, LogicalPoint { x: 0, y: 0 }).is_none());
    let far = layer_surface_origin(
        Some(LogicalPoint { x: i32::MIN, y: 0 }),
        LogicalPoint { x: 1, y: -3 },
    );
    assert_eq!(far.map(|at| (at.x, at.y)), Some((i32::MIN, 3)));
    assert_eq!(
        layer_surface_popup_groups(origin, &popups),
        vec![PopupPlacement {
            rect: LogicalRect::new(14, 24, 40, 50),
            buffer_origin: LogicalPoint { x: 12, y: 21 },
        }]
    );
    assert!(layer_surface_popup_groups(None, &popups).is_empty());
    let edge = Some(LogicalPoint { x: i32::MIN, y: 0 });
    let beyond = [PopupGeometry {
        offset: LogicalPoint { x: 1, y: 2 },
        geometry: LogicalRect::new(9, 0, 40, 50),
    }];
    assert_eq!(
        layer_surface_popup_groups(edge, &beyond),
        vec![PopupPlacement {
            rect: LogicalRect::new(i32::MIN + 1, 2, 40, 50),
            buffer_origin: LogicalPoint { x: i32::MIN, y: 2 },
        }]
    );
    let output = LogicalPoint { x: 100, y: 0 };
    let location = LogicalPoint { x: 9, y: 18 };
    assert_eq!(
        window_popup_groups(true, output, location, &popups)[0].rect,
        LogicalRect::new(114, 24, 40, 50)
    );
    assert!(window_popup_groups(false, output, location, &popups).is_empty());
    let offset = popup_offset(location, popups[0].offset, LogicalPoint { x: 2, y: 3 });
    assert_eq!((offset.x, offset.y), (12, 21));
    let clamped = popup_offset(
        LogicalPoint { x: i32::MAX, y: 1 },
        LogicalPoint { x: 7, y: 1 },
        LogicalPoint { x: 5, y: 1 },
    );
    assert_eq!((clamped.x, clamped.y), (i32::MAX - 5, 1));
}

#[test]
fn pictures_cover_the_whole_window() {
    let root = LogicalRect::new(100, 100, 50, 50);
    let bbox = LogicalRect::new(-20, 0, 100, 40);
    let at = LogicalPoint { x: 100, y: 110 };
    let clip = |clips_surface| {
        Some(ContentClip { rect: root, clips_surface, snap_mode: RectSnapMode::OriginAndSize })
    };
    assert_eq!(snapshot_bounds(at, bbox, root, clip(true)), root);
    assert_eq!(snapshot_bounds(at, bbox, root, clip(false)), LogicalRect::new(80, 100, 100, 50));
    assert_eq!(snapshot_bounds(at, bbox, root, None), LogicalRect::new(80, 100, 100, 50));
}

#[test]
fn captured_windows_show_their_decoration_first() {
    let decoration = || CapturedDecoration {
        backgrounds: Some(vec![(1, 'a')]),
        icons: None,
        texts: Some(vec![(0, 'b')]),
        content: CapturedContent::Clipped(vec![
            WindowClipElement::Raw('c'),
            WindowClipElement::Clipped('d'),
        ]),
    };
    assert_eq!(
        shown(&window_scene_elements_for_capture(true, Some(decoration()), vec!['p'], true)),
        vec![
            (TtyElementKind::RelocatedText, 'b'),
            (TtyElementKind::RelocatedDecoration, 'a'),
            (TtyElementKind::Clipped, 'd'),
            (TtyElementKind::Window, 'c'),
            (TtyElementKind::Window, 'p')
        ]
    );
    assert!(window_scene_elements_for_capture(false, Some(decoration()), vec!['p'], true).is_empty());
    assert_eq!(
        shown(&window_scene_elements_for_capture(true, None, vec!['p'], false)),
        vec![(TtyElementKind::TransformedWindow, 'p')]
    );
}

#[test]
fn live_pictures_follow_what_could_be_taken() {
    let mut live: NameTable<LogicalRect> = NameTable::new();
    let rect = LogicalRect::new(0, 0, 10, 10);
    capture_live_snapshot_for_window(&mut live, Some(("w", rect)), 1, true);
    assert_eq!(live.get("w"), Some(rect));
    capture_live_snapshot_for_window(&mut live, Some(("w", rect)), 0, false);
    assert_eq!(live.get("w"), Some(rect));
    capture_live_snapshot_for_window(&mut live, None, 1, false);
    assert_eq!(live.get("w"), Some(rect));
    capture_live_snapshot_for_window(&mut live, Some(("w", rect)), 1, false);
    assert_eq!(live.get("w"), None);
}

#[test]
fn closing_windows_are_captured_where_they_are() {
    let session = TtySession {
        backends: vec![
            BackendData { node: 1, surfaces: vec![surface("DP-1")] },
            BackendData { node: 2, surfaces: vec![surface("DP-2")] },
        ],
        session_active: true,
        needs_redraw: false,
        force_full_damage: false,
    };
    let outputs = names(&["DP-1", "DP-2"]);
    let preferred = Some("DP-2".to_string());
    let gone = Some("DP-9".to_string());
    assert_eq!(
        close_capture_output(&preferred, &outputs, &names(&["DP-1"])),
        Some("DP-2".to_string())
    );
    assert_eq!(
        close_capture_output(&gone, &outputs, &names(&["DP-2"])),
        Some("DP-2".to_string())
    );
    assert_eq!(close_capture_output(&None, &outputs, &[]), Some("DP-1".to_string()));
    assert_eq!(close_capture_output(&gone, &[], &[]), None);
    assert_eq!(close_capture_device(&session, "DP-2"), Some(1));
    assert_eq!(close_capture_device(&session, "DP-9"), Some(0));
    let plan =
        capture_live_snapshot_for_close(&session, true, true, &preferred, &outputs, &[]).unwrap();
    assert_eq!((plan.device, plan.output.as_str()), (1, "DP-2"));
    let plan = Some(plan);
    let mut live: NameTable<LogicalRect> = NameTable::new();
    let rect = LogicalRect::new(0, 0, 10, 10);
    assert_eq!(finish_close_capture(&mut live, &plan, "w", rect, 1, Ok(false)), Ok(false));
    assert_eq!(finish_close_capture(&mut live, &plan, "w", rect, 1, Ok(true)), Ok(true));
    assert_eq!(finish_close_capture(&mut live, &plan, "w", rect, 0, Ok(false)), Ok(true));
    assert_eq!(finish_close_capture(&mut live, &None, "w", rect, 1, Ok(false)), Ok(false));
    assert!(live.contains("w"));
    assert_eq!(finish_close_capture(&mut live, &plan, "w", rect, 1, Err(())), Err(()));
    assert!(!live.contains("w"));
    assert!(capture_live_snapshot_for_close(&session, false, true, &None, &outputs, &[]).is_none());
    assert!(capture_live_snapshot_for_close(&session, true, false, &None, &outputs, &[]).is_none());
    assert!(capture_live_snapshot_for_close(&session, true, true, &None, &[], &[]).is_none());
}
