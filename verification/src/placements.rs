//! The effects in the slots of windows, layer surfaces and popups: which are drawn, where, and
//! under which names their states are kept.

use crate::cache::{self, ElementState};
use crate::effects::{EffectInput, EffectSlot, SlotPlacement};
use crate::geometry::LogicalRect;
use crate::signature::{self, EffectScene};
use crate::slots::{self, WindowEffect};
use crate::table::{self, NameTable};
use vstd::prelude::*;
use vstd::string::*;

verus! {

/// What the effects belong to.
#[derive(Clone, Copy, Debug, PartialEq, Eq, Structural)]
pub enum SlotOwner {
    Window,
    /// A window that is shown while it closes. Its effects are new elements in every frame.
    ClosingWindow,
    Layer,
    Popup,
}

/// The name of a slot.
pub open spec fn placement_name(owner: SlotOwner, placement: SlotPlacement) -> Seq<char> {
    match owner {
        SlotOwner::Window => match placement {
            SlotPlacement::InFront => "in-front"@,
            SlotPlacement::Replace => "replace"@,
            SlotPlacement::BehindRootSurface => "behind-root-surface"@,
            SlotPlacement::Behind => "behind"@,
        },
        SlotOwner::ClosingWindow => match placement {
            SlotPlacement::InFront => "closing-in-front"@,
            SlotPlacement::Replace => "closing-replace"@,
            SlotPlacement::BehindRootSurface => "closing-behind-root-surface"@,
            SlotPlacement::Behind => "closing-behind"@,
        },
        SlotOwner::Layer => match placement {
            SlotPlacement::InFront => "layer-in-front"@,
            SlotPlacement::Replace => "layer-replace"@,
            SlotPlacement::BehindRootSurface => "layer-behind-root-surface"@,
            SlotPlacement::Behind => "layer-behind"@,
        },
        SlotOwner::Popup => match placement {
            SlotPlacement::InFront => "popup-in-front"@,
            SlotPlacement::Replace => "popup-replace"@,
            SlotPlacement::BehindRootSurface => "popup-behind-root-surface"@,
            SlotPlacement::Behind => "popup-behind"@,
        },
    }
}

pub fn placement_text(owner: SlotOwner, placement: SlotPlacement) -> (text: &'static str)
    ensures
        text@ == placement_name(owner, placement),
{
    match owner {
        SlotOwner::Window => match placement {
            SlotPlacement::InFront => "in-front",
            SlotPlacement::Replace => "replace",
            SlotPlacement::BehindRootSurface => "behind-root-surface",
            SlotPlacement::Behind => "behind",
        },
        SlotOwner::ClosingWindow => match placement {
            SlotPlacement::InFront => "closing-in-front",
            SlotPlacement::Replace => "closing-replace",
            SlotPlacement::BehindRootSurface => "closing-behind-root-surface",
            SlotPlacement::Behind => "closing-behind",
        },
        SlotOwner::Layer => match placement {
            SlotPlacement::InFront => "layer-in-front",
            SlotPlacement::Replace => "layer-replace",
            SlotPlacement::BehindRootSurface => "layer-behind-root-surface",
            SlotPlacement::Behind => "layer-behind",
        },
        SlotOwner::Popup => match placement {
            SlotPlacement::InFront => "popup-in-front",
            SlotPlacement::Replace => "popup-replace",
            SlotPlacement::BehindRootSurface => "popup-behind-root-surface",
            SlotPlacement::Behind => "popup-behind",
        },
    }
}

/// The name of the state of an effect of a window on an output; the states are kept with the
/// window.
pub fn window_slot_key(placement: &str, output: &str) -> (key: String)
    ensures
        key@ == placement@ + "@"@ + output@,
{
    let mut key: String = placement.to_owned();
    key.append("@");
    key.append(output);
    key
}

/// The name of the state of an effect behind a popup that is drawn from the frame itself.
pub fn popup_framebuffer_key(popup_id: &str, output: &str) -> (key: String)
    ensures
        key@ == popup_id@ + "@"@ + "popup-behind-framebuffer"@ + "@"@ + output@,
{
    slots::slot_cache_key(popup_id, "popup-behind-framebuffer", output)
}

/// What an effect is drawn from.
#[derive(Clone, Copy, Debug, PartialEq, Eq, Structural)]
pub struct EffectSource {
    /// The area that the effect covers, before its outsets.
    pub rect: LogicalRect,
    pub element_count: usize,
    /// Tells two scenes apart that the effect is drawn from.
    pub scene_signature: u64,
}

/// A slot and what is known of it in one frame.
#[derive(Clone, Copy)]
pub struct SlotRequest<'a> {
    pub slot: Option<EffectSlot>,
    /// A description of the effect that tells any two effects apart.
    pub effect_text: &'a str,
    pub source: EffectSource,
    /// The number of the element if there is none yet.
    pub fresh_id: u64,
}

/// A window, layer surface or popup on an output.
#[derive(Clone, Copy)]
pub struct SlotScene<'a> {
    pub output: &'a str,
    pub output_geo: LogicalRect,
    /// The bits of the horizontal and of the vertical scale.
    pub scale_bits: (u64, u64),
    pub owner: SlotOwner,
    pub id: &'a str,
}

/// Effects of a layer surface or a popup take part if they are applied to it. A window has
/// effects of all kinds.
pub open spec fn takes_part(owner: SlotOwner, slot: Option<EffectSlot>) -> bool {
    match owner {
        SlotOwner::Window => slot is Some,
        SlotOwner::ClosingWindow => slot is Some,
        SlotOwner::Layer => slots::applies_to(slot, EffectInput::LayerSource),
        SlotOwner::Popup => slots::applies_to(slot, EffectInput::PopupSource),
    }
}

impl<'a> SlotScene<'a> {
    /// The name of the state of the effect in a slot.
    pub open spec fn state_key(self, placement: SlotPlacement) -> Seq<char> {
        let name = placement_name(self.owner, placement);
        if self.owner == SlotOwner::Window {
            name + "@"@ + self.output@
        } else {
            self.id@ + "@"@ + name + "@"@ + self.output@
        }
    }

    /// What the picture of the effect depends on: where it is drawn, the rectangle and the
    /// outsets, the effect itself, the scale of the output and the scene it is drawn from.
    pub open spec fn signature(self, placement: SlotPlacement, request: SlotRequest) -> u64 {
        signature::signature_of(
            signature::text_chunks(placement_name(self.owner, placement))
                + signature::rect_chunks(request.source.rect) + signature::outset_chunks(
                request.slot->0.outsets,
            ) + signature::text_chunks(request.effect_text@) + seq![
                signature::word_chunk(self.scale_bits.0),
                signature::word_chunk(self.scale_bits.1),
                signature::word_chunk(request.source.scene_signature),
            ],
        )
    }

    /// The element of the effect.
    pub open spec fn state(
        self,
        states: Map<Seq<char>, ElementState>,
        placement: SlotPlacement,
        request: SlotRequest,
    ) -> ElementState {
        if self.owner == SlotOwner::ClosingWindow {
            ElementState { signature: 0, id: request.fresh_id, commit: 0 }
        } else {
            cache::touched_state(
                table::lookup(states, self.state_key(placement)),
                self.signature(placement, request),
                request.fresh_id,
            )
        }
    }

    /// The states that are kept and what is drawn for a slot. An effect that takes part has a
    /// state even where nothing is drawn.
    pub open spec fn plan(
        self,
        states: Map<Seq<char>, ElementState>,
        placement: SlotPlacement,
        request: SlotRequest,
    ) -> (Map<Seq<char>, ElementState>, Option<PlannedEffect>) {
        if !takes_part(self.owner, request.slot) {
            (states, None)
        } else {
            let state = self.state(states, placement, request);
            let name = placement_name(self.owner, placement);
            (
                if self.owner == SlotOwner::ClosingWindow {
                    states
                } else {
                    states.insert(self.state_key(placement), state)
                },
                match slots::effect_area(
                    request.source.rect,
                    request.slot->0.outsets,
                    self.output_geo,
                ) {
                    Some(rect) if request.source.element_count > 0 => Some(
                        PlannedEffect {
                            rect,
                            id: state.id,
                            commit: state.commit,
                            pipeline_key: "tty:window-effect:"@ + self.output@ + ":"@ + self.id@
                                + ":"@ + name,
                            label: "window-effect:"@ + name + ":"@ + self.output@ + ":"@
                                + self.id@,
                        },
                    ),
                    _ => None,
                },
            )
        }
    }
}

/// A `WindowEffect` as a mathematical value.
#[verifier::ext_equal]
pub struct PlannedEffect {
    pub rect: LogicalRect,
    pub id: u64,
    pub commit: usize,
    pub pipeline_key: Seq<char>,
    pub label: Seq<char>,
}

pub open spec fn plan_view(effect: Option<WindowEffect>) -> Option<PlannedEffect> {
    match effect {
        Some(effect) => Some(
            PlannedEffect {
                rect: effect.rect,
                id: effect.id,
                commit: effect.commit,
                pipeline_key: effect.pipeline_key@,
                label: effect.label@,
            },
        ),
        None => None,
    }
}

fn slot_taking_part(owner: SlotOwner, slot: &Option<EffectSlot>) -> (r: Option<EffectSlot>)
    ensures
        r is Some <==> takes_part(owner, *slot),
        r is Some ==> r == *slot,
{
    let wanted: bool = match owner {
        SlotOwner::Window => true,
        SlotOwner::ClosingWindow => true,
        SlotOwner::Layer => slots::draws_layer_slot(slot),
        SlotOwner::Popup => slots::draws_popup_slot(slot),
    };
    if wanted {
        *slot
    } else {
        None
    }
}

/// Decides what is drawn for a slot and keeps the state of its effect.
pub fn plan_slot(
    scene: &SlotScene,
    states: &mut NameTable<ElementState>,
    placement: SlotPlacement,
    request: &SlotRequest,
) -> (effect: Option<WindowEffect>)
    ensures
        (final(states)@, plan_view(effect)) == scene.plan(old(states)@, placement, *request),
{
    let slot: EffectSlot = match slot_taking_part(scene.owner, &request.slot) {
        Some(slot) => slot,
        None => return None,
    };
    let name: &'static str = placement_text(scene.owner, placement);
    let (id, commit): (u64, usize) = match scene.owner {
        SlotOwner::ClosingWindow => (request.fresh_id, 0),
        SlotOwner::Window => {
            let key: String = window_slot_key(name, scene.output);
            let signature: u64 = signature_for(scene, name, &slot, request);
            cache::window_effect_element_state(states, key.as_str(), signature, request.fresh_id)
        },
        _ => {
            let key: String = slots::slot_cache_key(scene.id, name, scene.output);
            let signature: u64 = signature_for(scene, name, &slot, request);
            cache::layer_effect_element_state(states, key.as_str(), signature, request.fresh_id)
        },
    };
    slots::window_effect_elements(
        scene.output,
        scene.output_geo,
        scene.id,
        name,
        id,
        commit,
        request.source.rect,
        slot.outsets,
        request.source.element_count,
    )
}

fn signature_for(
    scene: &SlotScene,
    name: &str,
    slot: &EffectSlot,
    request: &SlotRequest,
) -> (signature: u64)
    requires
        request.slot == Some(*slot),
    ensures
        forall|placement: SlotPlacement|
            name@ == placement_name(scene.owner, placement) ==> signature
                == #[trigger] scene.signature(placement, *request),
{
    signature::window_effect_signature(
        &EffectScene {
            placement: name,
            rect: request.source.rect,
            outsets: slot.outsets,
            effect: request.effect_text,
            scale_bits: scene.scale_bits,
            scene_signature: request.source.scene_signature,
        },
    )
}

/// The slots of a layer surface or a popup.
pub struct SlotRequests<'a> {
    pub in_front: SlotRequest<'a>,
    pub replace: SlotRequest<'a>,
    pub behind_root_surface: SlotRequest<'a>,
    pub behind: SlotRequest<'a>,
}

/// What is drawn for them.
pub struct SlotPlans {
    pub in_front: Option<WindowEffect>,
    pub replace: Option<WindowEffect>,
    pub behind_root_surface: Option<WindowEffect>,
    pub behind: Option<WindowEffect>,
}

/// Decides what is drawn for all slots of a layer surface or a popup, one after the other.
pub fn plan_surface_slots(
    scene: &SlotScene,
    states: &mut NameTable<ElementState>,
    requests: &SlotRequests,
) -> (plans: SlotPlans)
    ensures
        ({
            let (first, in_front) = scene.plan(
                old(states)@,
                SlotPlacement::InFront,
                requests.in_front,
            );
            let (second, replace) = scene.plan(first, SlotPlacement::Replace, requests.replace);
            let (third, behind_root_surface) = scene.plan(
                second,
                SlotPlacement::BehindRootSurface,
                requests.behind_root_surface,
            );
            let (last, behind) = scene.plan(third, SlotPlacement::Behind, requests.behind);
            &&& final(states)@ == last
            &&& plan_view(plans.in_front) == in_front
            &&& plan_view(plans.replace) == replace
            &&& plan_view(plans.behind_root_surface) == behind_root_surface
            &&& plan_view(plans.behind) == behind
        }),
{
    let in_front: Option<WindowEffect> = plan_slot(
        scene,
        states,
        SlotPlacement::InFront,
        &requests.in_front,
    );
    let replace: Option<WindowEffect> = plan_slot(
        scene,
        states,
        SlotPlacement::Replace,
        &requests.replace,
    );
    let behind_root_surface: Option<WindowEffect> = plan_slot(
        scene,
        states,
        SlotPlacement::BehindRootSurface,
        &requests.behind_root_surface,
    );
    let behind: Option<WindowEffect> = plan_slot(
        scene,
        states,
        SlotPlacement::Behind,
        &requests.behind,
    );
    SlotPlans { in_front, replace, behind_root_surface, behind }
}

/// What came of drawing an effect.
pub enum SlotDrawing<E> {
    Drawn(E),
    /// There was no picture to apply the effect to.
    NoSource,
    Failed,
}

pub open spec fn slot_result<E>(
    slot: Option<EffectSlot>,
    planned: bool,
    drawing: SlotDrawing<E>,
) -> Option<Seq<E>> {
    if slot is None {
        None
    } else if !planned {
        Some(Seq::empty())
    } else {
        match drawing {
            SlotDrawing::Drawn(element) => Some(seq![element]),
            SlotDrawing::NoSource => Some(Seq::empty()),
            SlotDrawing::Failed => None,
        }
    }
}

/// What the effect in a slot of a window shows; `planned` tells that there was something to
/// draw. An effect that covers nothing still counts as one: what it replaces is not shown.
/// Only where drawing has failed it is as if there were none.
pub fn window_slot_elements<E>(
    slot: &Option<EffectSlot>,
    planned: bool,
    drawing: SlotDrawing<E>,
) -> (elements: Option<Vec<E>>)
    ensures
        crate::windows::view_list(elements) == slot_result(*slot, planned, drawing),
{
    if slot.is_none() {
        return None;
    }
    let mut elements: Vec<E> = Vec::new();
    if planned {
        match drawing {
            SlotDrawing::Drawn(element) => {
                elements.push(element);
                assert(elements@ =~= seq![element]);
            },
            SlotDrawing::NoSource => {},
            SlotDrawing::Failed => return None,
        }
    }
    Some(elements)
}

/// An effect whose picture has not changed keeps its number and its commit counter, so that it
/// is not painted again.
pub proof fn law_unchanged_effect_is_not_repainted(
    scene: SlotScene,
    states: Map<Seq<char>, ElementState>,
    placement: SlotPlacement,
    request: SlotRequest,
    next: SlotRequest,
)
    requires
        scene.owner != SlotOwner::ClosingWindow,
        next == (SlotRequest { fresh_id: next.fresh_id, ..request }),
    ensures
        ({
            let (kept, planned) = scene.plan(states, placement, request);
            scene.plan(kept, placement, next) == (kept, planned)
        }),
{
    let (kept, planned) = scene.plan(states, placement, request);
    if takes_part(scene.owner, request.slot) {
        let key = scene.state_key(placement);
        assert(scene.signature(placement, next) == scene.signature(placement, request));
        assert(scene.state(kept, placement, next) == kept[key]);
        assert(kept.insert(key, kept[key]) =~= kept);
    }
}

/// Each slot of a window, layer surface or popup has a state of its own.
pub proof fn law_slots_have_states_of_their_own(scene: SlotScene, a: SlotPlacement, b: SlotPlacement)
    requires
        a != b,
    ensures
        scene.state_key(a) != scene.state_key(b),
{
    reveal_strlit("in-front");
    reveal_strlit("replace");
    reveal_strlit("behind-root-surface");
    reveal_strlit("behind");
    reveal_strlit("closing-in-front");
    reveal_strlit("closing-replace");
    reveal_strlit("closing-behind-root-surface");
    reveal_strlit("closing-behind");
    reveal_strlit("layer-in-front");
    reveal_strlit("layer-replace");
    reveal_strlit("layer-behind-root-surface");
    reveal_strlit("layer-behind");
    reveal_strlit("popup-in-front");
    reveal_strlit("popup-replace");
    reveal_strlit("popup-behind-root-surface");
    reveal_strlit("popup-behind");
    assert(placement_name(scene.owner, a).len() != placement_name(scene.owner, b).len());
    assert(scene.state_key(a).len() != scene.state_key(b).len());
}

/// What is planned for a slot: nothing without an effect, or for a layer surface or popup whose
/// effect is not applied to it. Otherwise the effect is an element that keeps its number, and
/// that is drawn at the area of the surface with the outsets if there is anything to draw from.
/// A closing window keeps no state. States under other names stay.
pub proof fn law_planned_slots(
    scene: &SlotScene,
    states: &mut NameTable<ElementState>,
    placement: SlotPlacement,
    request: &SlotRequest,
    effect: Option<WindowEffect>,
    other: Seq<char>,
)
    requires
        call_ensures(plan_slot, (scene, states, placement, request), effect),
    ensures
        ({
            let takes = request.slot is Some && (scene.owner == SlotOwner::Layer
                ==> request.slot->0.effect.input == EffectInput::LayerSource) && (scene.owner
                == SlotOwner::Popup ==> request.slot->0.effect.input == EffectInput::PopupSource);
            let key = scene.state_key(placement);
            let before = old(states)@;
            let after = final(states)@;
            &&& !takes ==> effect is None && after == before
            &&& scene.owner == SlotOwner::ClosingWindow ==> after == before
            &&& scene.owner == SlotOwner::ClosingWindow && effect is Some ==> effect->0.id
                == request.fresh_id && effect->0.commit == 0
            &&& takes && scene.owner != SlotOwner::ClosingWindow ==> {
                &&& after.contains_key(key)
                &&& after[key].signature == scene.signature(placement, *request)
                &&& before.contains_key(key) ==> after[key].id == before[key].id
                &&& !before.contains_key(key) ==> after[key].id == request.fresh_id
                &&& before.contains_key(key) && before[key].signature == scene.signature(
                    placement,
                    *request,
                ) ==> after[key].commit == before[key].commit
                &&& before.contains_key(key) && before[key].signature != scene.signature(
                    placement,
                    *request,
                ) ==> after[key].commit != before[key].commit
                &&& effect is Some ==> effect->0.id == after[key].id && effect->0.commit
                    == after[key].commit
            }
            &&& takes ==> (effect is Some <==> request.source.element_count > 0
                && slots::effect_area(
                request.source.rect,
                request.slot->0.outsets,
                scene.output_geo,
            ) is Some)
            &&& effect is Some ==> Some(effect->0.rect) == slots::effect_area(
                request.source.rect,
                request.slot->0.outsets,
                scene.output_geo,
            )
            &&& other != key ==> after.contains_key(other) == before.contains_key(other)
                && after[other] == before[other]
        }),
{
}

/// What the picture of the effect in a slot depends on tells pictures apart: the slot, the
/// rectangle, the outsets, the effect, the scale of the output and the scene it is drawn from.
pub proof fn law_slot_signatures_tell_pictures_apart(
    a: SlotScene,
    a_placement: SlotPlacement,
    a_request: SlotRequest,
    b: SlotScene,
    b_placement: SlotPlacement,
    b_request: SlotRequest,
)
    ensures
        exists|x: Seq<Seq<u8>>, y: Seq<Seq<u8>>|
            a.signature(a_placement, a_request) == #[trigger] signature::signature_of(x)
                && b.signature(b_placement, b_request) == #[trigger] signature::signature_of(y) && (
            x == y ==> {
                &&& placement_name(a.owner, a_placement) == placement_name(b.owner, b_placement)
                &&& a_request.source.rect == b_request.source.rect
                &&& a_request.slot->0.outsets == b_request.slot->0.outsets
                &&& a_request.effect_text@ == b_request.effect_text@
                &&& a.scale_bits == b.scale_bits
                &&& a_request.source.scene_signature == b_request.source.scene_signature
            }),
{
    let x = signature::text_chunks(placement_name(a.owner, a_placement)) + signature::rect_chunks(
        a_request.source.rect,
    ) + signature::outset_chunks(a_request.slot->0.outsets) + signature::text_chunks(
        a_request.effect_text@,
    ) + seq![
        signature::word_chunk(a.scale_bits.0),
        signature::word_chunk(a.scale_bits.1),
        signature::word_chunk(a_request.source.scene_signature),
    ];
    let y = signature::text_chunks(placement_name(b.owner, b_placement)) + signature::rect_chunks(
        b_request.source.rect,
    ) + signature::outset_chunks(b_request.slot->0.outsets) + signature::text_chunks(
        b_request.effect_text@,
    ) + seq![
        signature::word_chunk(b.scale_bits.0),
        signature::word_chunk(b.scale_bits.1),
        signature::word_chunk(b_request.source.scene_signature),
    ];
    assert(a.signature(a_placement, a_request) == signature::signature_of(x));
    assert(b.signature(b_placement, b_request) == signature::signature_of(y));
    if x == y {
        let p = a_request.slot->0.outsets;
        let q = b_request.slot->0.outsets;
        signature::lemma_same_text(
            x,
            y,
            0,
            placement_name(a.owner, a_placement),
            placement_name(b.owner, b_placement),
        );
        assert(x.subrange(2, 6) =~= signature::rect_chunks(a_request.source.rect));
        assert(y.subrange(2, 6) =~= signature::rect_chunks(b_request.source.rect));
        signature::lemma_same_rect(x, y, 2, a_request.source.rect, b_request.source.rect);
        signature::lemma_same_int(x, y, 6, p.left, q.left);
        signature::lemma_same_int(x, y, 7, p.right, q.right);
        signature::lemma_same_int(x, y, 8, p.top, q.top);
        signature::lemma_same_int(x, y, 9, p.bottom, q.bottom);
        signature::lemma_same_text(x, y, 10, a_request.effect_text@, b_request.effect_text@);
        signature::lemma_same_word(x, y, 12, a.scale_bits.0, b.scale_bits.0);
        signature::lemma_same_word(x, y, 13, a.scale_bits.1, b.scale_bits.1);
        signature::lemma_same_word(
            x,
            y,
            14,
            a_request.source.scene_signature,
            b_request.source.scene_signature,
        );
    }
}

/// The slots of a surface are planned each for itself: what is drawn for one does not depend on
/// the others.
pub proof fn law_slots_are_planned_each_for_itself(
    scene: &SlotScene,
    states: &mut NameTable<ElementState>,
    requests: &SlotRequests,
    plans: SlotPlans,
)
    requires
        call_ensures(plan_surface_slots, (scene, states, requests), plans),
    ensures
        plan_view(plans.in_front) == scene.plan(
            old(states)@,
            SlotPlacement::InFront,
            requests.in_front,
        ).1,
        plan_view(plans.replace) == scene.plan(
            old(states)@,
            SlotPlacement::Replace,
            requests.replace,
        ).1,
        plan_view(plans.behind_root_surface) == scene.plan(
            old(states)@,
            SlotPlacement::BehindRootSurface,
            requests.behind_root_surface,
        ).1,
        plan_view(plans.behind) == scene.plan(
            old(states)@,
            SlotPlacement::Behind,
            requests.behind,
        ).1,
        requests.in_front.slot is None ==> plans.in_front is None,
        requests.replace.slot is None ==> plans.replace is None,
        requests.behind_root_surface.slot is None ==> plans.behind_root_surface is None,
        requests.behind.slot is None ==> plans.behind is None,
{
    law_slots_have_states_of_their_own(*scene, SlotPlacement::InFront, SlotPlacement::Replace);
    law_slots_have_states_of_their_own(
        *scene,
        SlotPlacement::InFront,
        SlotPlacement::BehindRootSurface,
    );
    law_slots_have_states_of_their_own(*scene, SlotPlacement::InFront, SlotPlacement::Behind);
    law_slots_have_states_of_their_own(
        *scene,
        SlotPlacement::Replace,
        SlotPlacement::BehindRootSurface,
    );
    law_slots_have_states_of_their_own(*scene, SlotPlacement::Replace, SlotPlacement::Behind);
    law_slots_have_states_of_their_own(
        *scene,
        SlotPlacement::BehindRootSurface,
        SlotPlacement::Behind,
    );
}

/// What a slot of a window shows: an effect that was drawn, or nothing in the place of what it
/// replaces where there was nothing to draw. Where drawing failed it is as if there were no
/// effect.
pub proof fn law_what_slots_show<E>(
    slot: &Option<EffectSlot>,
    planned: bool,
    drawing: SlotDrawing<E>,
    elements: Option<Vec<E>>,
)
    requires
        call_ensures(window_slot_elements::<E>, (slot, planned, drawing), elements),
    ensures
        slot is None ==> elements is None,
        slot is Some && !planned ==> elements is Some && elements->0@.len() == 0,
        slot is Some && planned && drawing is Failed ==> elements is None,
        slot is Some && planned && drawing is NoSource ==> elements is Some && elements->0@.len()
            == 0,
        slot is Some && planned ==> (drawing matches SlotDrawing::Drawn(element) ==> elements
            is Some && elements->0@ == seq![element]),
{
}

/// Every slot of every kind of owner has a name of its own.
pub proof fn law_slot_names_are_told_apart(
    a_owner: SlotOwner,
    a: SlotPlacement,
    b_owner: SlotOwner,
    b: SlotPlacement,
    a_name: &'static str,
    b_name: &'static str,
)
    requires
        call_ensures(placement_text, (a_owner, a), a_name),
        call_ensures(placement_text, (b_owner, b), b_name),
    ensures
        a_name@ == b_name@ <==> a_owner == b_owner && a == b,
{
    reveal_strlit("in-front");
    reveal_strlit("replace");
    reveal_strlit("behind-root-surface");
    reveal_strlit("behind");
    reveal_strlit("closing-in-front");
    reveal_strlit("closing-replace");
    reveal_strlit("closing-behind-root-surface");
    reveal_strlit("closing-behind");
    reveal_strlit("layer-in-front");
    reveal_strlit("layer-replace");
    reveal_strlit("layer-behind-root-surface");
    reveal_strlit("layer-behind");
    reveal_strlit("popup-in-front");
    reveal_strlit("popup-replace");
    reveal_strlit("popup-behind-root-surface");
    reveal_strlit("popup-behind");
    if a_name@ == b_name@ {
        assert(a_name@[0] == b_name@[0] && a_name@.len() == b_name@.len());
    }
}

/// States of effects of a window are told apart by slot and output, and those behind popups by
/// popup and output.
pub proof fn law_slot_state_keys_are_told_apart(
    a: &str,
    b: &str,
    output: &str,
    other_output: &str,
    window: String,
    window_other: String,
    window_on_other: String,
    popup: String,
    popup_other: String,
    popup_on_other: String,
)
    requires
        call_ensures(window_slot_key, (a, output), window),
        call_ensures(window_slot_key, (b, output), window_other),
        call_ensures(window_slot_key, (a, other_output), window_on_other),
        call_ensures(popup_framebuffer_key, (a, output), popup),
        call_ensures(popup_framebuffer_key, (b, output), popup_other),
        call_ensures(popup_framebuffer_key, (a, other_output), popup_on_other),
    ensures
        window@ == window_other@ <==> a@ == b@,
        window@ == window_on_other@ <==> output@ == other_output@,
        popup@ == popup_other@ <==> a@ == b@,
        popup@ == popup_on_other@ <==> output@ == other_output@,
{
    let tail = "@"@ + output@;
    assert(window@ =~= a@ + tail);
    assert(window_other@ =~= b@ + tail);
    crate::text::law_same_endings(tail, a@, b@);
    crate::text::law_same_beginnings(a@ + "@"@, output@, other_output@);
    let middle = "@"@ + "popup-behind-framebuffer"@ + "@"@;
    assert(popup@ =~= a@ + (middle + output@));
    assert(popup_other@ =~= b@ + (middle + output@));
    crate::text::law_same_endings(middle + output@, a@, b@);
    assert(popup@ =~= a@ + middle + output@);
    assert(popup_on_other@ =~= a@ + middle + other_output@);
    crate::text::law_same_beginnings(a@ + middle, output@, other_output@);
}

/// A window keeps the states of its effects with itself, so that they are told apart by slot and
/// output; those of layer surfaces and popups are kept together and are told apart by the surface
/// too.
pub proof fn law_states_are_told_apart_by_owner(a: SlotScene, b: SlotScene, placement: SlotPlacement)
    requires
        a.owner == b.owner,
    ensures
        a.owner == SlotOwner::Window && a.output@ == b.output@ ==> a.state_key(placement)
            == b.state_key(placement),
        a.id@ == b.id@ ==> (a.state_key(placement) == b.state_key(placement) <==> a.output@
            == b.output@),
        a.owner != SlotOwner::Window && a.output@ == b.output@ ==> (a.state_key(placement)
            == b.state_key(placement) <==> a.id@ == b.id@),
{
    let name = placement_name(a.owner, placement);
    if a.owner == SlotOwner::Window {
        crate::text::law_same_beginnings(name + "@"@, a.output@, b.output@);
    } else {
        let middle = "@"@ + name + "@"@;
        assert(a.state_key(placement) =~= a.id@ + middle + a.output@);
        assert(b.state_key(placement) =~= b.id@ + middle + b.output@);
        if a.id@ == b.id@ {
            crate::text::law_same_beginnings(a.id@ + middle, a.output@, b.output@);
        }
        if a.output@ == b.output@ {
            let tail = middle + a.output@;
            assert(a.state_key(placement) =~= a.id@ + tail);
            assert(b.state_key(placement) =~= b.id@ + tail);
            crate::text::law_same_endings(tail, a.id@, b.id@);
        }
    }
}

} // verus!
