//! Effects that are drawn with a window, a layer surface or a popup.

use crate::geometry::{EffectOutsets, LogicalRect};
use vstd::prelude::*;

verus! {

/// Which part of a window an effect samples.
#[derive(Clone, Copy, Debug, PartialEq, Eq, Structural)]
pub enum WindowSourceInclude {
    /// The root surface and the decoration.
    Full,
    RootSurface,
}

/// What an effect is applied to.
#[derive(Clone, Copy, Debug, PartialEq, Eq, Structural)]
pub enum EffectInput {
    WindowSource(WindowSourceInclude),
    LayerSource,
    PopupSource,
    /// What lies behind, an image, or anything else that is not the surface itself.
    Other,
}

#[derive(Clone, Copy, Debug, PartialEq, Eq, Structural)]
pub struct BlurStage {
    pub radius: i32,
    pub passes: i32,
}

/// What the placement of an effect depends on.
#[derive(Clone, Copy, Debug, PartialEq, Eq, Structural)]
pub struct EffectTraits {
    pub input: EffectInput,
    pub blur: Option<BlurStage>,
    pub uses_backdrop: bool,
    pub uses_xray: bool,
    pub uses_layer_source: bool,
    pub uses_popup_source: bool,
    pub is_backdrop: bool,
    pub supports_framebuffer_backdrop: bool,
    pub supports_popup_framebuffer_backdrop: bool,
    /// The effect is computed anew for every frame.
    pub always_invalidated: bool,
}

#[derive(Clone, Copy, Debug, PartialEq, Eq, Structural)]
pub struct EffectSlot {
    pub effect: EffectTraits,
    pub outsets: EffectOutsets,
}

/// The effects that the configuration gives to a window, a layer surface or a popup.
#[derive(Clone, Copy, Debug, PartialEq, Eq, Structural)]
pub struct WindowEffectConfig {
    pub behind: Option<EffectSlot>,
    pub behind_root_surface: Option<EffectSlot>,
    pub in_front: Option<EffectSlot>,
    pub replace: Option<EffectSlot>,
}

/// Where an effect is drawn relative to what it belongs to.
#[derive(Clone, Copy, Debug, PartialEq, Eq, Structural)]
pub enum SlotPlacement {
    Behind,
    BehindRootSurface,
    InFront,
    Replace,
}

/// What an effect of a window is drawn from.
#[derive(Clone, Copy, Debug, PartialEq, Eq, Structural)]
pub enum SlotSource {
    /// The root surface with the decoration.
    FullWindow,
    RootSurface,
    /// What the window shows without its popups.
    Body,
    /// All that the window shows, with effects that replace it.
    Current,
}

/// The rectangle that an effect of a window covers, before its outsets.
#[derive(Clone, Copy, Debug, PartialEq, Eq, Structural)]
pub enum SlotArea {
    /// The window with its decoration.
    Root,
    /// The client's part.
    Client,
}

impl WindowEffectConfig {
    pub open spec fn slot(self, placement: SlotPlacement) -> Option<EffectSlot> {
        match placement {
            SlotPlacement::Behind => self.behind,
            SlotPlacement::BehindRootSurface => self.behind_root_surface,
            SlotPlacement::InFront => self.in_front,
            SlotPlacement::Replace => self.replace,
        }
    }
}

pub open spec fn source_of(placement: SlotPlacement, input: EffectInput) -> (SlotArea, SlotSource) {
    match input {
        EffectInput::WindowSource(WindowSourceInclude::Full) => (
            SlotArea::Root,
            SlotSource::FullWindow,
        ),
        EffectInput::WindowSource(WindowSourceInclude::RootSurface) => (
            SlotArea::Client,
            SlotSource::RootSurface,
        ),
        _ => (
            SlotArea::Root,
            match placement {
                SlotPlacement::Replace => SlotSource::Body,
                SlotPlacement::BehindRootSurface => SlotSource::FullWindow,
                SlotPlacement::Behind => SlotSource::Current,
                SlotPlacement::InFront => SlotSource::Current,
            },
        ),
    }
}

/// What an effect of a window covers and what it is drawn from.
pub fn slot_source(placement: SlotPlacement, input: EffectInput) -> (r: (SlotArea, SlotSource))
    ensures
        r == source_of(placement, input),
{
    match input {
        EffectInput::WindowSource(WindowSourceInclude::Full) => (
            SlotArea::Root,
            SlotSource::FullWindow,
        ),
        EffectInput::WindowSource(WindowSourceInclude::RootSurface) => (
            SlotArea::Client,
            SlotSource::RootSurface,
        ),
        _ => (
            SlotArea::Root,
            match placement {
                SlotPlacement::Replace => SlotSource::Body,
                SlotPlacement::BehindRootSurface => SlotSource::FullWindow,
                SlotPlacement::Behind => SlotSource::Current,
                SlotPlacement::InFront => SlotSource::Current,
            },
        ),
    }
}

/// The rectangle that an effect covers, before its outsets.
pub fn slot_rect(area: SlotArea, root: LogicalRect, client: LogicalRect) -> (rect: LogicalRect)
    ensures
        rect == (match area {
            SlotArea::Root => root,
            SlotArea::Client => client,
        }),
{
    match area {
        SlotArea::Root => root,
        SlotArea::Client => client,
    }
}

/// The pictures of a window that its effects are drawn from.
#[derive(Clone, Copy, Debug, PartialEq, Eq, Structural)]
pub struct SourceNeeds {
    pub root_surface: bool,
    pub full_window: bool,
}

pub open spec fn samples(slot: Option<EffectSlot>, part: WindowSourceInclude) -> bool {
    slot is Some && slot->0.effect.input == EffectInput::WindowSource(part)
}

/// The full picture is needed when an effect samples it, and when an effect behind the
/// root surface samples anything but the root surface. The root surface is needed for the
/// full picture and when an effect samples it.
pub open spec fn needed_sources(effects: Option<WindowEffectConfig>) -> SourceNeeds {
    match effects {
        None => SourceNeeds { root_surface: false, full_window: false },
        Some(effects) => {
            let full_window = samples(effects.behind, WindowSourceInclude::Full) || samples(
                effects.behind_root_surface,
                WindowSourceInclude::Full,
            ) || samples(effects.in_front, WindowSourceInclude::Full) || samples(
                effects.replace,
                WindowSourceInclude::Full,
            ) || (effects.behind_root_surface is Some && !samples(
                effects.behind_root_surface,
                WindowSourceInclude::RootSurface,
            ));
            let root_surface = full_window || samples(
                effects.behind,
                WindowSourceInclude::RootSurface,
            ) || samples(effects.behind_root_surface, WindowSourceInclude::RootSurface) || samples(
                effects.in_front,
                WindowSourceInclude::RootSurface,
            ) || samples(effects.replace, WindowSourceInclude::RootSurface);
            SourceNeeds { root_surface, full_window }
        },
    }
}

fn slot_samples(slot: Option<EffectSlot>, part: WindowSourceInclude) -> (r: bool)
    ensures
        r == samples(slot, part),
{
    match slot {
        Some(slot) => match slot.effect.input {
            EffectInput::WindowSource(sampled) => sampled == part,
            _ => false,
        },
        None => false,
    }
}

fn any_slot_samples(effects: &WindowEffectConfig, part: WindowSourceInclude) -> (r: bool)
    ensures
        r == (samples(effects.behind, part) || samples(effects.behind_root_surface, part)
            || samples(effects.in_front, part) || samples(effects.replace, part)),
{
    slot_samples(effects.behind, part) || slot_samples(effects.behind_root_surface, part)
        || slot_samples(effects.in_front, part) || slot_samples(effects.replace, part)
}

pub fn source_needs(effects: Option<WindowEffectConfig>) -> (needs: SourceNeeds)
    ensures
        needs == needed_sources(effects),
{
    match effects {
        None => SourceNeeds { root_surface: false, full_window: false },
        Some(effects) => {
            let full_window: bool = any_slot_samples(&effects, WindowSourceInclude::Full) || (
            effects.behind_root_surface.is_some() && !slot_samples(
                effects.behind_root_surface,
                WindowSourceInclude::RootSurface,
            ));
            let root_surface: bool = full_window || any_slot_samples(
                &effects,
                WindowSourceInclude::RootSurface,
            );
            SourceNeeds { root_surface, full_window }
        },
    }
}

/// Every picture that an effect of a window is drawn from has been asked for.
pub proof fn law_sampled_sources_are_needed(effects: WindowEffectConfig, placement: SlotPlacement)
    requires
        effects.slot(placement) is Some,
    ensures
        ({
            let needs = needed_sources(Some(effects));
            let source = source_of(placement, effects.slot(placement)->0.effect.input).1;
            &&& source == SlotSource::FullWindow ==> needs.full_window
            &&& source == SlotSource::RootSurface ==> needs.root_surface
            &&& needs.full_window ==> needs.root_surface
        }),
{
}

/// What an effect of a closing window is drawn from.
#[derive(Clone, Copy, Debug, PartialEq, Eq, Structural)]
pub enum ClosingSource {
    /// The frozen client area with the decoration.
    FullWindow,
    /// The frozen client area.
    RootSurface,
    /// What replaces the window.
    Replacement,
}

/// As for a window that is open, but an effect in front of or behind the window that
/// samples nothing of it is drawn from what replaces the window, if anything does.
pub open spec fn closing_source_of(
    placement: SlotPlacement,
    input: EffectInput,
    replaced: bool,
) -> (SlotArea, ClosingSource) {
    match input {
        EffectInput::WindowSource(WindowSourceInclude::Full) => (
            SlotArea::Root,
            ClosingSource::FullWindow,
        ),
        EffectInput::WindowSource(WindowSourceInclude::RootSurface) => (
            SlotArea::Client,
            ClosingSource::RootSurface,
        ),
        _ => (
            SlotArea::Root,
            if replaced && (placement == SlotPlacement::InFront || placement
                == SlotPlacement::Behind) {
                ClosingSource::Replacement
            } else {
                ClosingSource::FullWindow
            },
        ),
    }
}

pub fn closing_slot_source(placement: SlotPlacement, input: EffectInput, replaced: bool) -> (r: (
    SlotArea,
    ClosingSource,
))
    ensures
        r == closing_source_of(placement, input, replaced),
{
    match input {
        EffectInput::WindowSource(WindowSourceInclude::Full) => (
            SlotArea::Root,
            ClosingSource::FullWindow,
        ),
        EffectInput::WindowSource(WindowSourceInclude::RootSurface) => (
            SlotArea::Client,
            ClosingSource::RootSurface,
        ),
        _ => (
            SlotArea::Root,
            if replaced && (placement == SlotPlacement::InFront || placement
                == SlotPlacement::Behind) {
                ClosingSource::Replacement
            } else {
                ClosingSource::FullWindow
            },
        ),
    }
}

/// What an effect of a window is drawn from: what it asks for; and where it asks for nothing of
/// the window, the window without what is to be replaced, behind its root surface the whole
/// window, and else what the window shows by then. Only an effect on the root surface keeps to
/// the client's part.
pub proof fn law_sources_of_effects(
    placement: SlotPlacement,
    input: EffectInput,
    r: (SlotArea, SlotSource),
)
    requires
        call_ensures(slot_source, (placement, input), r),
    ensures
        input == EffectInput::WindowSource(WindowSourceInclude::Full) ==> r.1
            == SlotSource::FullWindow,
        input == EffectInput::WindowSource(WindowSourceInclude::RootSurface) ==> r.1
            == SlotSource::RootSurface,
        !(input is WindowSource) && placement == SlotPlacement::Replace ==> r.1 == SlotSource::Body,
        !(input is WindowSource) && placement == SlotPlacement::BehindRootSurface ==> r.1
            == SlotSource::FullWindow,
        !(input is WindowSource) && (placement == SlotPlacement::Behind || placement
            == SlotPlacement::InFront) ==> r.1 == SlotSource::Current,
        r.0 == SlotArea::Client <==> input == EffectInput::WindowSource(
            WindowSourceInclude::RootSurface,
        ),
{
}

/// An effect covers the window or the client's part, as its area says.
pub proof fn law_rects_of_effects(
    area: SlotArea,
    root: LogicalRect,
    client: LogicalRect,
    rect: LogicalRect,
)
    requires
        call_ensures(slot_rect, (area, root, client), rect),
    ensures
        area == SlotArea::Root ==> rect == root,
        area == SlotArea::Client ==> rect == client,
{
}

/// A picture of a window is taken exactly if one of its effects is drawn from it, or if it is
/// part of a picture that is.
pub proof fn law_needed_sources(
    effects: Option<WindowEffectConfig>,
    needs: SourceNeeds,
    placement: SlotPlacement,
)
    requires
        call_ensures(source_needs, (effects,), needs),
    ensures
        effects is None ==> !needs.root_surface && !needs.full_window,
        needs.full_window ==> needs.root_surface,
        effects is Some && effects->0.slot(placement) is Some && effects->0.slot(
            placement,
        )->0.effect.input == EffectInput::WindowSource(WindowSourceInclude::Full)
            ==> needs.full_window,
        effects is Some && effects->0.slot(placement) is Some && effects->0.slot(
            placement,
        )->0.effect.input == EffectInput::WindowSource(WindowSourceInclude::RootSurface)
            ==> needs.root_surface,
        effects is Some && effects->0.behind_root_surface is Some && !(
        effects->0.behind_root_surface->0.effect.input is WindowSource) ==> needs.full_window,
        // Nothing is taken in vain.
        needs.full_window ==> effects is Some && exists|p: SlotPlacement|
            (#[trigger] effects->0.slot(p)) is Some && (effects->0.slot(p)->0.effect.input
                == EffectInput::WindowSource(WindowSourceInclude::Full) || p
                == SlotPlacement::BehindRootSurface),
        needs.root_surface && !needs.full_window ==> effects is Some && exists|p: SlotPlacement|
            (#[trigger] effects->0.slot(p)) is Some && effects->0.slot(p)->0.effect.input
                == EffectInput::WindowSource(WindowSourceInclude::RootSurface),
{
    if effects is Some {
        let e = effects->0;
        assert(e.slot(SlotPlacement::Behind) == e.behind);
        assert(e.slot(SlotPlacement::BehindRootSurface) == e.behind_root_surface);
        assert(e.slot(SlotPlacement::InFront) == e.in_front);
        assert(e.slot(SlotPlacement::Replace) == e.replace);
    }
}

/// What an effect of a closing window is drawn from: what it asks for; and where it asks for
/// nothing of the window, what replaces the window if it is in front of or behind all of it, and
/// else the window itself.
pub proof fn law_sources_of_closing_effects(
    placement: SlotPlacement,
    input: EffectInput,
    replaced: bool,
    r: (SlotArea, ClosingSource),
)
    requires
        call_ensures(closing_slot_source, (placement, input, replaced), r),
    ensures
        input == EffectInput::WindowSource(WindowSourceInclude::Full) ==> r.1
            == ClosingSource::FullWindow,
        input == EffectInput::WindowSource(WindowSourceInclude::RootSurface) ==> r.1
            == ClosingSource::RootSurface,
        r.1 == ClosingSource::Replacement <==> replaced && !(input is WindowSource) && (placement
            == SlotPlacement::InFront || placement == SlotPlacement::Behind),
        r.1 == ClosingSource::RootSurface ==> input == EffectInput::WindowSource(
            WindowSourceInclude::RootSurface,
        ),
        r.0 == SlotArea::Client <==> input == EffectInput::WindowSource(
            WindowSourceInclude::RootSurface,
        ),
{
}

} // verus!
