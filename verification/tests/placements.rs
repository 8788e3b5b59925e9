use shojiwm_backend::cache::ElementState;
use shojiwm_backend::effects::{
    slot_rect, EffectInput, EffectSlot, EffectTraits, SlotArea, SlotPlacement,
};
use shojiwm_backend::geometry::{EffectOutsets, LogicalRect};
use shojiwm_backend::placements::{
    placement_text, plan_slot, plan_surface_slots, popup_framebuffer_key, window_slot_elements,
    window_slot_key, EffectSource, SlotDrawing, SlotOwner, SlotRequest, SlotRequests, SlotScene,
};
use shojiwm_backend::table::NameTable;

const OUTPUT: LogicalRect = LogicalRect { x: 0, y: 0, width: 1920, height: 1080 };

fn slot(input: EffectInput) -> Option<EffectSlot> {
    let effect = EffectTraits {
        input,
        blur: None,
        uses_backdrop: false,
        uses_xray: false,
        uses_layer_source: false,
        uses_popup_source: false,
        is_backdrop: false,
        supports_framebuffer_backdrop: false,
        supports_popup_framebuffer_backdrop: false,
        always_invalidated: false,
    };
    Some(EffectSlot { effect, outsets: EffectOutsets { left: 1, right: 1, top: 1, bottom: 1 } })
}

fn request(slot: Option<EffectSlot>, scene_signature: u64, fresh_id: u64) -> SlotRequest<'static> {
    SlotRequest {
        slot,
        effect_text: "tint",
        source: EffectSource {
            rect: LogicalRect::new(10, 10, 20, 20),
            element_count: 1,
            scene_signature,
        },
        fresh_id,
    }
}

fn scene(owner: SlotOwner) -> SlotScene<'static> {
    SlotScene { output: "DP-1", output_geo: OUTPUT, scale_bits: (1, 1), owner, id: "x" }
}

#[test]
fn effects_cover_the_window_or_its_client() {
    let client = LogicalRect::new(1, 2, 3, 4);
    assert_eq!(slot_rect(SlotArea::Root, OUTPUT, client), OUTPUT);
    assert_eq!(slot_rect(SlotArea::Client, OUTPUT, client), client);
}

#[test]
fn slots_have_names() {
    assert_eq!(placement_text(SlotOwner::Window, SlotPlacement::Behind), "behind");
    assert_eq!(placement_text(SlotOwner::ClosingWindow, SlotPlacement::Replace), "closing-replace");
    assert_eq!(
        placement_text(SlotOwner::Layer, SlotPlacement::BehindRootSurface),
        "layer-behind-root-surface"
    );
    assert_eq!(placement_text(SlotOwner::Popup, SlotPlacement::InFront), "popup-in-front");
    assert_eq!(window_slot_key("replace", "DP-1"), "replace@DP-1");
    assert_eq!(popup_framebuffer_key("p", "DP-1"), "p@popup-behind-framebuffer@DP-1");
}

#[test]
fn effects_are_painted_again_when_their_picture_changes() {
    let mut states: NameTable<ElementState> = NameTable::new();
    let scene = scene(SlotOwner::Window);
    let mut plan = |signature, fresh_id| {
        let request = request(slot(EffectInput::Other), signature, fresh_id);
        let effect = plan_slot(&scene, &mut states, SlotPlacement::Behind, &request).unwrap();
        (effect.id, effect.commit)
    };
    let (id, commit) = plan(5, 70);
    assert_eq!(id, 70);
    assert_eq!(plan(5, 71), (70, commit));
    assert_eq!(plan(6, 72), (70, commit + 1));
    assert!(states.contains("behind@DP-1"));

    let request = request(slot(EffectInput::Other), 5, 80);
    let effect = plan_slot(&scene, &mut states, SlotPlacement::Replace, &request).unwrap();
    assert_eq!(effect.rect, LogicalRect::new(9, 9, 22, 22));
    assert_eq!(effect.pipeline_key, "tty:window-effect:DP-1:x:replace");
    assert_eq!(effect.label, "window-effect:replace:DP-1:x");
}

#[test]
fn closing_windows_keep_no_states() {
    let mut states: NameTable<ElementState> = NameTable::new();
    let scene = scene(SlotOwner::ClosingWindow);
    let request = request(slot(EffectInput::Other), 5, 80);
    let effect = plan_slot(&scene, &mut states, SlotPlacement::InFront, &request).unwrap();
    assert_eq!((effect.id, effect.commit), (80, 0));
    assert!(!states.contains("x@closing-in-front@DP-1"));
}

#[test]
fn surfaces_have_only_effects_that_are_applied_to_them() {
    let mut states: NameTable<ElementState> = NameTable::new();
    let requests = SlotRequests {
        in_front: request(slot(EffectInput::LayerSource), 5, 81),
        replace: request(slot(EffectInput::PopupSource), 5, 82),
        behind_root_surface: request(None, 5, 83),
        behind: request(slot(EffectInput::Other), 5, 84),
    };
    let plans = plan_surface_slots(&scene(SlotOwner::Layer), &mut states, &requests);
    assert_eq!(plans.in_front.map(|effect| effect.id), Some(81));
    assert!(plans.replace.is_none());
    assert!(plans.behind_root_surface.is_none());
    assert!(plans.behind.is_none());
    assert!(states.contains("x@layer-in-front@DP-1"));
    assert!(!states.contains("x@layer-replace@DP-1"));
    let plans = plan_surface_slots(&scene(SlotOwner::Popup), &mut states, &requests);
    assert!(plans.in_front.is_none());
    assert_eq!(plans.replace.map(|effect| effect.id), Some(82));

    let mut empty = request(slot(EffectInput::LayerSource), 5, 85);
    empty.source.element_count = 0;
    let effect =
        plan_slot(&scene(SlotOwner::Layer), &mut states, SlotPlacement::Behind, &empty);
    assert!(effect.is_none());
    assert!(states.contains("x@layer-behind@DP-1"));
}

#[test]
fn failed_effects_of_windows_count_as_none() {
    let some = slot(EffectInput::Other);
    assert_eq!(window_slot_elements(&None, true, SlotDrawing::Drawn(1)), None);
    assert_eq!(window_slot_elements(&some, false, SlotDrawing::Drawn(1)), Some(Vec::new()));
    assert_eq!(window_slot_elements(&some, true, SlotDrawing::Drawn(1)), Some(vec![1]));
    assert_eq!(window_slot_elements::<u8>(&some, true, SlotDrawing::NoSource), Some(Vec::new()));
    assert_eq!(window_slot_elements::<u8>(&some, true, SlotDrawing::Failed), None);
}
