use shojiwm_backend::clip::{
    clipped_surface_elements, live_client_elements, non_root_surface_elements,
    non_root_surface_elements_for_window, root_surface_source_elements_for_window,
    snapshot_client_elements, split_clipped, ContentClip, SurfaceElementInfo, WindowClipElement,
    WindowSurfaceKind,
};
use shojiwm_backend::effects::{
    closing_slot_source, slot_source, source_needs, ClosingSource, EffectInput, EffectSlot,
    EffectTraits, SlotArea, SlotPlacement, SlotSource, SourceNeeds, WindowEffectConfig,
    WindowSourceInclude,
};
use shojiwm_backend::geometry::{EffectOutsets, LogicalPoint, LogicalRect};
use shojiwm_backend::order::{elements_in_order, sort_by_order};
use shojiwm_backend::scene::{
    append_ordered, backdrop_kind, clipped_kind, decoration_kind, snapshot_kind, text_kind,
    transform_backdrop_elements, transform_clipped_elements, transform_decoration_elements,
    transform_snapshot_elements, transform_text_elements, transform_window_elements,
    tty_render_element_name, window_kind, ProfiledTtyRenderElement, TtyElementKind,
    TtyRenderElement,
};
use shojiwm_backend::visual::{
    is_identity_visual_geometry, rect_from_edges, relative_edges, relative_point, Edges,
    IgnoredOpaqueRegionElement, RectSnapMode,
};

fn shown<E: Copy>(elements: &[TtyRenderElement<E>]) -> Vec<(TtyElementKind, E)> {
    elements.iter().map(|element| (element.kind, element.element)).collect()
}

fn clipping(clips_surface: bool) -> Option<ContentClip> {
    Some(ContentClip {
        rect: LogicalRect::new(0, 0, 100, 50),
        clips_surface,
        snap_mode: RectSnapMode::SharedEdges,
    })
}

fn surface(is_root: bool, width: i32, height: i32) -> SurfaceElementInfo {
    SurfaceElementInfo { is_root, width, height }
}

fn clipped_flags(elements: &[WindowClipElement<u8>]) -> Vec<bool> {
    elements.iter().map(|element| matches!(element, WindowClipElement::Clipped(_))).collect()
}

fn slot(input: EffectInput) -> Option<EffectSlot> {
    Some(EffectSlot {
        effect: EffectTraits {
            input,
            blur: None,
            uses_backdrop: false,
            uses_xray: false,
            uses_layer_source: false,
            uses_popup_source: false,
            is_backdrop: false,
            supports_framebuffer_backdrop: false,
            supports_popup_framebuffer_backdrop: false,
            always_invalidated: false,
        },
        outsets: EffectOutsets { left: 0, right: 0, top: 0, bottom: 0 },
    })
}

const NO_EFFECTS: WindowEffectConfig =
    WindowEffectConfig { behind: None, behind_root_surface: None, in_front: None, replace: None };

/// A window needs a picture of its own when it is scaled noticeably.
fn requires_full_window_snapshot(scale_x: f64, scale_y: f64) -> bool {
    (scale_x - 1.0).abs() >= 1e-3 || (scale_y - 1.0).abs() >= 1e-3
}

#[test]
fn opacity_only_visual_state_has_identity_geometry() {
    assert!(is_identity_visual_geometry(
        LogicalPoint { x: 0, y: 0 },
        requires_full_window_snapshot(1.0, 1.0)
    ));
}

#[test]
fn translated_visual_state_does_not_have_identity_geometry() {
    assert!(!is_identity_visual_geometry(
        LogicalPoint { x: 1, y: 0 },
        requires_full_window_snapshot(1.0, 1.0)
    ));
}

#[test]
fn scaled_windows_do_not_have_identity_geometry() {
    assert!(!is_identity_visual_geometry(
        LogicalPoint { x: 0, y: 0 },
        requires_full_window_snapshot(0.95, 1.0)
    ));
    assert!(!is_identity_visual_geometry(LogicalPoint { x: 0, y: -1 }, false));
}

#[test]
fn edges_do_not_depend_on_where_the_window_is() {
    let here = relative_edges(LogicalRect::new(12, 24, 30, 40), LogicalPoint { x: 10, y: 20 });
    assert_eq!(here, Edges { left: 2, top: 4, right: 32, bottom: 44 });
    let there = relative_edges(LogicalRect::new(112, 224, 30, 40), LogicalPoint { x: 110, y: 220 });
    assert_eq!(here, there);
    assert_eq!(rect_from_edges(here), LogicalRect::new(2, 4, 30, 40));
}

#[test]
fn edges_that_cross_give_an_empty_rectangle() {
    assert_eq!(
        rect_from_edges(Edges { left: 5, top: 5, right: 3, bottom: 9 }),
        LogicalRect::new(5, 5, 0, 4)
    );
    let moved = relative_point(LogicalPoint { x: 3, y: 4 }, LogicalPoint { x: 1, y: 10 });
    assert_eq!((moved.x, moved.y), (2, -6));
}

#[test]
fn wrapped_elements_claim_no_opaque_region() {
    let wrapped = IgnoredOpaqueRegionElement::from_element(7);
    assert_eq!(*wrapped.element(), 7);
    assert!(wrapped.opaque_regions().is_empty());
}

#[test]
fn wayland_windows_clip_their_root_surface() {
    let infos = [surface(false, 100, 50), surface(true, 90, 40)];
    let kind = WindowSurfaceKind::Wayland;
    let geometry = Some(LogicalRect::new(0, 0, 100, 50));
    let marked = clipped_surface_elements(vec![1u8, 2], &infos, kind, clipping(true), false, geometry);
    assert_eq!(clipped_flags(&marked), vec![false, true]);
    let bypassed =
        clipped_surface_elements(vec![1u8, 2], &infos, kind, clipping(true), true, geometry);
    assert_eq!(clipped_flags(&bypassed), vec![false, false]);
    let unclipped =
        clipped_surface_elements(vec![1u8, 2], &infos, kind, clipping(false), false, geometry);
    assert_eq!(clipped_flags(&unclipped), vec![false, false]);
    let undecorated = clipped_surface_elements(vec![1u8, 2], &infos, kind, None, false, geometry);
    assert_eq!(clipped_flags(&undecorated), vec![false, false]);
}

#[test]
fn x11_windows_clip_the_surfaces_nearest_in_size() {
    let infos = [surface(false, 10, 10), surface(false, 99, 50), surface(false, 100, 51)];
    let geometry = Some(LogicalRect::new(0, 0, 100, 50));
    let kind = WindowSurfaceKind::X11;
    let marked =
        clipped_surface_elements(vec![1u8, 2, 3], &infos, kind, clipping(true), false, geometry);
    assert_eq!(clipped_flags(&marked), vec![false, true, true]);
    let unknown =
        clipped_surface_elements(vec![1u8, 2, 3], &infos, kind, clipping(true), false, None);
    assert_eq!(clipped_flags(&unknown), vec![false, false, false]);
}

#[test]
fn clipped_and_raw_surfaces_are_told_apart() {
    let (clipped, raw) = split_clipped(vec![
        WindowClipElement::Raw(1),
        WindowClipElement::Clipped(2),
        WindowClipElement::Raw(3),
    ]);
    assert_eq!(clipped, vec![2]);
    assert_eq!(raw, vec![1, 3]);
}

#[test]
fn root_surfaces_and_the_others_are_separated() {
    let list = || {
        vec![
            WindowClipElement::Raw(1),
            WindowClipElement::Clipped(2),
            WindowClipElement::Clipped(3),
        ]
    };
    let unclipped = || vec![WindowClipElement::Raw(1), WindowClipElement::Raw(2)];
    assert_eq!(
        shown(&root_surface_source_elements_for_window(Some(list()), vec![9], true)),
        vec![(TtyElementKind::Clipped, 2)]
    );
    assert_eq!(
        shown(&root_surface_source_elements_for_window(Some(unclipped()), vec![9], false)),
        vec![(TtyElementKind::TransformedWindow, 1)]
    );
    assert_eq!(
        shown(&root_surface_source_elements_for_window(None, vec![9], true)),
        vec![(TtyElementKind::Window, 9)]
    );
    assert_eq!(
        shown(&root_surface_source_elements_for_window(Some(Vec::new()), vec![9], true)),
        vec![(TtyElementKind::Window, 9)]
    );
    assert_eq!(
        shown(&non_root_surface_elements_for_window(Some(list()), Vec::new(), true)),
        vec![(TtyElementKind::Window, 1)]
    );
    assert_eq!(
        shown(&non_root_surface_elements_for_window(Some(unclipped()), Vec::new(), true)),
        vec![(TtyElementKind::Window, 2)]
    );
    assert_eq!(
        shown(&non_root_surface_elements_for_window(None, vec![7, 8], false)),
        vec![(TtyElementKind::TransformedWindow, 8)]
    );
}

#[test]
fn pictures_of_windows_hold_the_clipped_surface() {
    let list = || vec![WindowClipElement::Clipped(1), WindowClipElement::Clipped(2)];
    assert_eq!(
        shown(&snapshot_client_elements(Some(list()), vec![9], false)),
        vec![(TtyElementKind::Clipped, 1)]
    );
    assert_eq!(
        shown(&snapshot_client_elements(Some(list()), vec![9], true)),
        vec![(TtyElementKind::Clipped, 1), (TtyElementKind::Clipped, 2)]
    );
    assert_eq!(
        shown(&snapshot_client_elements(Some(vec![WindowClipElement::Raw(4)]), vec![9], true)),
        vec![(TtyElementKind::Window, 4)]
    );
    assert_eq!(
        shown(&snapshot_client_elements(None, vec![9], true)),
        vec![(TtyElementKind::Window, 9)]
    );
    assert_eq!(
        shown(&live_client_elements(
            vec![WindowClipElement::Clipped(1), WindowClipElement::Raw(2)],
            false
        )),
        vec![(TtyElementKind::TransformedClipped, 1), (TtyElementKind::TransformedWindow, 2)]
    );
}

#[test]
fn surfaces_other_than_the_root_are_found() {
    let infos = [surface(false, 1, 1), surface(true, 1, 1), surface(false, 1, 1)];
    assert_eq!(
        non_root_surface_elements(vec![1, 2, 3], &infos, WindowSurfaceKind::Wayland),
        vec![1, 3]
    );
    assert_eq!(
        non_root_surface_elements(vec![1, 2, 3], &infos, WindowSurfaceKind::X11),
        vec![1, 2, 3]
    );
}

#[test]
fn sorting_keeps_items_of_the_same_number_in_order() {
    let items = vec![(2, 'a'), (0, 'b'), (2, 'c'), (1, 'd'), (0, 'e')];
    assert_eq!(
        sort_by_order(items.clone()),
        vec![(0, 'b'), (0, 'e'), (1, 'd'), (2, 'a'), (2, 'c')]
    );
    assert_eq!(elements_in_order(items), vec!['b', 'e', 'd', 'a', 'c']);
    assert_eq!(elements_in_order(Vec::<(usize, char)>::new()), Vec::<char>::new());
}

#[test]
fn elements_have_a_name_and_a_label() {
    assert_eq!(tty_render_element_name(TtyElementKind::RelocatedText), "RelocatedText");
    assert_eq!(tty_render_element_name(TtyElementKind::Generic), "Generic");
    let inner = 5;
    let profiled = ProfiledTtyRenderElement::new(TtyElementKind::TransformedBackdrop, &inner);
    assert_eq!(*profiled.inner, 5);
    assert_eq!(profiled.draw_label, "tty-element-backdrop-draw");
    let profiled = ProfiledTtyRenderElement::new(TtyElementKind::Cursor, &inner);
    assert_eq!(profiled.draw_label, "tty-element-cursor-draw");
}

#[test]
fn moved_windows_transform_their_elements() {
    assert_eq!(window_kind(true), TtyElementKind::Window);
    assert_eq!(clipped_kind(false), TtyElementKind::TransformedClipped);
    assert_eq!(snapshot_kind(true), TtyElementKind::Snapshot);
    assert_eq!(text_kind(true), TtyElementKind::RelocatedText);
    assert_eq!(decoration_kind(false), TtyElementKind::TransformedDecoration);
    assert_eq!(backdrop_kind(true), TtyElementKind::RelocatedBackdrop);
    assert_eq!(
        shown(&transform_window_elements(vec![1, 2], false)),
        vec![(TtyElementKind::TransformedWindow, 1), (TtyElementKind::TransformedWindow, 2)]
    );
    assert_eq!(
        shown(&transform_clipped_elements(vec![1], true)),
        vec![(TtyElementKind::Clipped, 1)]
    );
    assert_eq!(
        shown(&transform_snapshot_elements(vec![1], false)),
        vec![(TtyElementKind::TransformedSnapshot, 1)]
    );
    assert_eq!(
        shown(&transform_text_elements(vec![1], false)),
        vec![(TtyElementKind::TransformedText, 1)]
    );
    assert_eq!(
        shown(&transform_decoration_elements(vec![1], true)),
        vec![(TtyElementKind::RelocatedDecoration, 1)]
    );
    assert_eq!(
        shown(&transform_backdrop_elements(vec![1], false)),
        vec![(TtyElementKind::TransformedBackdrop, 1)]
    );
    let mut ordered = Vec::new();
    append_ordered(&mut ordered, vec![(4, 'x'), (2, 'y')], TtyElementKind::RelocatedText);
    assert_eq!(ordered.len(), 2);
    assert_eq!((ordered[0].0, ordered[0].1.element), (4, 'x'));
    assert_eq!(ordered[1].1.kind, TtyElementKind::RelocatedText);
}

#[test]
fn effects_sample_the_part_of_the_window_they_name() {
    let full = EffectInput::WindowSource(WindowSourceInclude::Full);
    let root = EffectInput::WindowSource(WindowSourceInclude::RootSurface);
    assert_eq!(
        slot_source(SlotPlacement::Behind, root),
        (SlotArea::Client, SlotSource::RootSurface)
    );
    assert_eq!(
        slot_source(SlotPlacement::Replace, full),
        (SlotArea::Root, SlotSource::FullWindow)
    );
    assert_eq!(
        slot_source(SlotPlacement::Replace, EffectInput::Other),
        (SlotArea::Root, SlotSource::Body)
    );
    assert_eq!(
        slot_source(SlotPlacement::InFront, EffectInput::Other),
        (SlotArea::Root, SlotSource::Current)
    );
    assert_eq!(
        closing_slot_source(SlotPlacement::InFront, EffectInput::Other, true),
        (SlotArea::Root, ClosingSource::Replacement)
    );
    assert_eq!(
        closing_slot_source(SlotPlacement::Replace, EffectInput::Other, true),
        (SlotArea::Root, ClosingSource::FullWindow)
    );
    assert_eq!(
        closing_slot_source(SlotPlacement::Behind, root, true),
        (SlotArea::Client, ClosingSource::RootSurface)
    );
}

#[test]
fn sampled_pictures_are_asked_for() {
    let full = EffectInput::WindowSource(WindowSourceInclude::Full);
    let root = EffectInput::WindowSource(WindowSourceInclude::RootSurface);
    let needs = |root_surface, full_window| SourceNeeds { root_surface, full_window };
    assert_eq!(source_needs(None), needs(false, false));
    assert_eq!(source_needs(Some(NO_EFFECTS)), needs(false, false));
    assert_eq!(
        source_needs(Some(WindowEffectConfig { in_front: slot(full), ..NO_EFFECTS })),
        needs(true, true)
    );
    assert_eq!(
        source_needs(Some(WindowEffectConfig { replace: slot(root), ..NO_EFFECTS })),
        needs(true, false)
    );
    assert_eq!(
        source_needs(Some(WindowEffectConfig {
            behind_root_surface: slot(EffectInput::Other),
            ..NO_EFFECTS
        })),
        needs(true, true)
    );
}
