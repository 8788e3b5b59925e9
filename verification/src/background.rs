//! Effects that show what is behind a layer surface, step by step: whether the picture drawn
//! last is used again, and what is recorded when it is drawn anew.

use crate::backdrop::{self, BackdropArea, SceneBehind, SceneView, SourceDamage};
use crate::behind;
use crate::cache::{self, BackdropElement, LayerBackdrop, LayerPicture};
use crate::damage::{self, OwnedDamageRect};
use crate::effects::{EffectSlot, EffectTraits, WindowEffectConfig};
use crate::geometry::{self, LogicalPoint, LogicalRect};
use crate::signature::{self, LayerPlace, WindowPlace};
use crate::table::{self, NameTable};
use crate::text;
use vstd::prelude::*;
use vstd::string::*;

verus! {

/// The effect behind a layer surface that its own configuration asks for: the one in the
/// slot behind it, if that shows what is behind.
pub open spec fn own_background(effects: Option<WindowEffectConfig>) -> Option<EffectSlot> {
    if effects is Some && effects->0.behind is Some && effects->0.behind->0.effect.is_backdrop {
        effects->0.behind
    } else {
        None
    }
}

pub fn custom_background(effects: &Option<WindowEffectConfig>) -> (slot: Option<EffectSlot>)
    ensures
        slot == own_background(*effects),
{
    match effects {
        Some(effects) => match effects.behind {
            Some(slot) => if slot.effect.is_backdrop {
                Some(slot)
            } else {
                None
            },
            None => None,
        },
        None => None,
    }
}

/// A layer surface's own effect goes before the one that is configured for all.
pub open spec fn selected_effect(
    custom: Option<EffectSlot>,
    configured: Option<EffectTraits>,
) -> Option<EffectTraits> {
    match custom {
        Some(slot) => Some(slot.effect),
        None => configured,
    }
}

/// A layer surface's own effect covers the surface with the outsets of the effect. Another
/// one covers the region that the client asked for.
pub open spec fn background_rects(
    custom: Option<EffectSlot>,
    layer_rect: Option<LogicalRect>,
    protocol_rects: Seq<LogicalRect>,
) -> Seq<LogicalRect> {
    match custom {
        Some(slot) => match layer_rect {
            Some(rect) => seq![geometry::expanded_rect(rect, slot.outsets)],
            None => Seq::empty(),
        },
        None => protocol_rects,
    }
}

/// The effect behind a layer surface and the areas that it concerns.
pub struct LayerBackground {
    pub effect: EffectTraits,
    pub rects: Vec<LogicalRect>,
    pub area: BackdropArea,
}

pub fn plan_layer_background(
    custom: Option<EffectSlot>,
    configured: Option<EffectTraits>,
    layer_rect: Option<LogicalRect>,
    protocol_rects: Vec<LogicalRect>,
    output_geo: LogicalRect,
) -> (plan: Option<LayerBackground>)
    requires
        selected_effect(custom, configured) is Some ==> geometry::extents_fit(
            background_rects(custom, layer_rect, protocol_rects@),
        ),
        forall|bounds: LogicalRect|
            selected_effect(custom, configured) is Some && #[trigger] geometry::is_bounding_box(
                background_rects(custom, layer_rect, protocol_rects@),
                bounds,
            ) ==> backdrop::padding_fits(
                bounds,
                backdrop::blur_reach(selected_effect(custom, configured)->0.blur),
            ),
    ensures
        plan is Some <==> selected_effect(custom, configured) is Some && background_rects(
            custom,
            layer_rect,
            protocol_rects@,
        ).len() > 0,
        plan is Some ==> {
            &&& Some(plan->0.effect) == selected_effect(custom, configured)
            &&& plan->0.rects@ == background_rects(custom, layer_rect, protocol_rects@)
            &&& geometry::is_bounding_box(plan->0.rects@, plan->0.area.effect_rect)
            &&& plan->0.area == backdrop::area_of(
                plan->0.area.effect_rect,
                plan->0.effect,
                output_geo,
            )
        },
{
    let effect: EffectTraits = match custom {
        Some(slot) => slot.effect,
        None => match configured {
            Some(effect) => effect,
            None => return None,
        },
    };
    let rects: Vec<LogicalRect> = match custom {
        Some(slot) => {
            let mut rects: Vec<LogicalRect> = Vec::new();
            match layer_rect {
                Some(rect) => {
                    rects.push(geometry::expand_logical_rect(rect, slot.outsets));
                },
                None => {},
            }
            rects
        },
        None => protocol_rects,
    };
    assert(rects@ =~= background_rects(custom, layer_rect, protocol_rects@));
    match geometry::bounding_box_for_rects(rects.as_slice()) {
        Some(effect_rect) => {
            let area: BackdropArea = backdrop::backdrop_area(effect_rect, &effect, output_geo);
            Some(LayerBackground { effect, rects, area })
        },
        None => None,
    }
}

/// How the effect behind a layer surface above the windows is drawn.
#[derive(Clone, Copy, Debug, PartialEq, Eq, Structural)]
pub enum BackgroundPath {
    /// From the frame itself, at the time it is drawn.
    Framebuffer,
    /// From a captured picture.
    Texture,
}

/// Only the effect that is configured for all can be drawn from the frame, if it is one
/// that can.
pub fn layer_background_path(
    custom: Option<EffectSlot>,
    configured: Option<EffectTraits>,
) -> (path: BackgroundPath)
    ensures
        path == (if custom is None && configured is Some
            && configured->0.supports_framebuffer_backdrop {
            BackgroundPath::Framebuffer
        } else {
            BackgroundPath::Texture
        }),
{
    match (custom, configured) {
        (None, Some(effect)) => if effect.supports_framebuffer_backdrop {
            BackgroundPath::Framebuffer
        } else {
            BackgroundPath::Texture
        },
        _ => BackgroundPath::Texture,
    }
}

pub open spec fn sized(name: Seq<char>, rect: LogicalRect) -> Seq<char> {
    name + text::decimal(rect.width as int) + "x"@ + text::decimal(rect.height as int)
}

fn append_size(key: &mut String, rect: LogicalRect)
    ensures
        final(key)@ == sized(old(key)@, rect),
{
    text::append_i32(key, rect.width);
    key.append("x");
    text::append_i32(key, rect.height);
}

pub open spec fn upper_layer_name(
    output: Seq<char>,
    protocol_id: u32,
    effect_rect: LogicalRect,
) -> Seq<char> {
    sized(
        "__layer_background_effect_"@ + output + "_"@ + text::decimal(protocol_id as int)
            + "_top_"@,
        effect_rect,
    )
}

pub fn upper_layer_stable_key(output: &str, protocol_id: u32, effect_rect: LogicalRect) -> (key:
    String)
    ensures
        key@ == upper_layer_name(output@, protocol_id, effect_rect),
{
    let mut key: String = "__layer_background_effect_".to_owned();
    key.append(output);
    key.append("_");
    text::append_u32(&mut key, protocol_id);
    key.append("_top_");
    append_size(&mut key, effect_rect);
    key
}

pub open spec fn lower_layer_name(
    output: Seq<char>,
    layer_id: Seq<char>,
    index: usize,
    effect_rect: LogicalRect,
) -> Seq<char> {
    sized(
        "__layer_background_effect_"@ + output + "_"@ + layer_id + "_"@ + text::decimal(
            index as int,
        ) + "_"@,
        effect_rect,
    )
}

pub fn lower_layer_stable_key(
    output: &str,
    layer_id: &str,
    index: usize,
    effect_rect: LogicalRect,
) -> (key: String)
    ensures
        key@ == lower_layer_name(output@, layer_id@, index, effect_rect),
{
    let mut key: String = "__layer_background_effect_".to_owned();
    key.append(output);
    key.append("_");
    key.append(layer_id);
    key.append("_");
    text::append_usize(&mut key, index);
    key.append("_");
    append_size(&mut key, effect_rect);
    key
}

/// The name of the intermediate pictures behind a layer surface below the windows.
pub fn lower_layer_pipeline_key(stable_key: &str) -> (key: String)
    ensures
        key@ == "tty:layer-lower:"@ + stable_key@,
{
    let mut key: String = "tty:layer-lower:".to_owned();
    key.append(stable_key);
    key
}

/// The name of the intermediate pictures behind a layer surface above the windows.
pub fn upper_layer_pipeline_key(output: &str, layer_id: &str, effect_rect: LogicalRect) -> (key:
    String)
    ensures
        key@ == sized("tty:layer-top:"@ + output@ + ":"@ + layer_id@ + ":"@, effect_rect),
{
    let mut key: String = "tty:layer-top:".to_owned();
    key.append(output);
    key.append(":");
    key.append(layer_id);
    key.append(":");
    append_size(&mut key, effect_rect);
    key
}

/// The name of the state of an effect that is drawn from the frame behind a layer surface.
pub fn layer_framebuffer_key(
    output: &str,
    layer_id: &str,
) -> (key: String)
    ensures
        key@ == "tty:layer-top-framebuffer:"@ + output@ + ":"@ + layer_id@,
{
    let mut key: String = "tty:layer-top-framebuffer:".to_owned();
    key.append(output);
    key.append(":");
    key.append(layer_id);
    key
}

/// What came of taking a picture.
#[derive(Clone, Copy, Debug, PartialEq, Eq, Structural)]
pub enum Captured {
    Taken,
    /// There was nothing to take a picture of.
    Missing,
    /// The renderer could not take it.
    Failed,
}

/// The picture of a layer surface itself. An effect that does not show the surface has all
/// that it needs of it.
pub open spec fn needed_source(effect: EffectTraits, layer_source: Captured) -> Captured {
    if effect.uses_layer_source {
        layer_source
    } else {
        Captured::Taken
    }
}

fn source_for(effect: &EffectTraits, layer_source: Captured) -> (source: Captured)
    ensures
        source == needed_source(*effect, layer_source),
{
    if effect.uses_layer_source {
        layer_source
    } else {
        Captured::Taken
    }
}

/// How to go on with the effect behind a layer surface.
pub enum LayerStep {
    /// The effect cannot be drawn in this frame.
    Nothing,
    /// A picture that the effect needs could not be taken.
    Failed,
    /// Show the picture drawn last.
    Reuse(Vec<BackdropElement>),
    /// Draw the picture and record it under this signature.
    Redraw(u64),
}

/// `step` shows the picture drawn last exactly when it can be used again.
pub open spec fn is_layer_step(
    step: LayerStep,
    pictures: Map<Seq<char>, LayerPicture>,
    key: Seq<char>,
    signature: u64,
    always_invalidated: bool,
    damaged: bool,
    rects: Seq<LogicalRect>,
    fresh_ids: Seq<u64>,
    output_loc: LogicalPoint,
) -> bool {
    if cache::layer_reusable(pictures, key, signature, always_invalidated, damaged) {
        step matches LayerStep::Reuse(elements) && elements@ == cache::elements_for(
            pictures[key].parts,
            rects,
            fresh_ids,
            output_loc,
        )
    } else {
        step == LayerStep::Redraw(signature)
    }
}

/// A layer surface above the windows, among everything else on its output.
#[derive(Clone, Copy)]
pub struct LayerScene<'a> {
    pub output: &'a str,
    pub output_geo: LogicalRect,
    /// Where the output is in the layout, as its layer surfaces are placed by it.
    pub output_loc: LogicalPoint,
    /// The layer surfaces above the windows, from front to back.
    pub upper_layers: &'a [LayerPlace],
    /// The place of the layer surface among them.
    pub index: usize,
    pub windows: &'a [WindowPlace],
    pub lower_layers: &'a [LayerPlace],
    /// Grows with every change of what the layer surfaces below all windows show.
    pub lower_generation: u64,
}

impl<'a> LayerScene<'a> {
    /// What can be seen through the layer surface: those below it, all windows, and the
    /// layer surfaces below these.
    pub open spec fn behind(self) -> SceneView {
        SceneView {
            lower_generation: self.lower_generation,
            windows: self.windows@,
            lower_layers: self.lower_layers@,
            upper_layers: behind::rest_after(self.upper_layers@, self.index),
            output_loc: self.output_loc,
        }
    }

    /// The name of the picture behind the layer surface of this number.
    pub open spec fn key(self, protocol_id: u32, background: LayerBackground) -> Seq<char> {
        upper_layer_name(self.output@, protocol_id, background.area.effect_rect)
    }

    /// What the picture depends on.
    pub open spec fn signature(
        self,
        protocol_id: u32,
        background: LayerBackground,
        effect_text: Seq<char>,
    ) -> u64 {
        signature::signature_of(
            backdrop::upper_layer_chunks(
                self.key(protocol_id, background),
                background.effect,
                effect_text,
                background.area,
                self.behind(),
            ),
        )
    }

    /// What the effect concerns is in the range of machine integers, and there is a number
    /// for every part.
    pub open spec fn fits(self, background: Option<LayerBackground>, fresh_ids: Seq<u64>) -> bool {
        background matches Some(background) ==> {
            &&& self.behind().fits_for(background.effect, background.area.effect_rect)
            &&& fresh_ids.len() == background.rects@.len()
            &&& cache::rects_fit_from(background.rects@, self.output_geo.corner())
        }
    }

    fn scene_behind(&self) -> (scene: SceneBehind<'a>)
        ensures
            scene@ == self.behind(),
    {
        SceneBehind {
            lower_generation: self.lower_generation,
            windows: self.windows,
            lower_layers: self.lower_layers,
            upper_layers: behind::below(self.upper_layers, self.index),
            output_loc: self.output_loc,
        }
    }

    /// The damage of what an effect behind the layer surface shows, in the order it was
    /// reported.
    pub fn damage_behind(
        &self,
        effect: &EffectTraits,
        source: &SourceDamage,
    ) -> (entries: Vec<OwnedDamageRect>)
        ensures
            entries@ == backdrop::relevant_damage(
                *effect,
                behind::window_ids(self.behind().windows),
                behind::layer_ids(self.behind().lower_layers),
                behind::layer_ids(self.behind().upper_layers),
                *source,
            ),
    {
        let windows: Vec<Option<String>> = behind::collect_window_ids(self.windows);
        let lower: Vec<u32> = behind::collect_layer_ids(self.lower_layers);
        let upper: Vec<u32> = behind::collect_layer_ids(
            behind::below(self.upper_layers, self.index),
        );
        backdrop::relevant_source_damage(
            effect,
            windows.as_slice(),
            lower.as_slice(),
            upper.as_slice(),
            source,
        )
    }
}

/// The damage of what an effect behind the layer surface at `index` below the windows shows,
/// in the order it was reported: that of the layer surfaces after it.
pub fn lower_layer_damage(
    lower_layers: &[LayerPlace],
    index: usize,
    source_damage: &[OwnedDamageRect],
) -> (entries: Vec<OwnedDamageRect>)
    ensures
        entries@ == damage::layer_damage(
            behind::layer_ids(behind::rest_after(lower_layers@, index)),
            source_damage@,
        ),
{
    let ids: Vec<u32> = behind::collect_layer_ids(behind::below(lower_layers, index));
    damage::collect_layer_source_damage(ids.as_slice(), source_damage)
}

/// Decides on the effect behind a layer surface above the windows. Without an input
/// picture, or without the picture of the surface itself where the effect needs it, nothing
/// is drawn. An effect that shows the surface itself is always drawn anew.
pub fn upper_layer_background_step(
    scene: &LayerScene,
    cache: &NameTable<LayerBackdrop>,
    protocol_id: u32,
    background: &LayerBackground,
    effect_text: &str,
    has_input: bool,
    layer_source: Captured,
    damaged: bool,
    fresh_ids: &[u64],
) -> (step: LayerStep)
    requires
        scene.behind().fits_for(background.effect, background.area.effect_rect),
        fresh_ids@.len() == background.rects@.len(),
        cache::rects_fit_from(background.rects@, scene.output_geo.corner()),
    ensures
        !has_input ==> step is Nothing,
        has_input ==> match needed_source(background.effect, layer_source) {
            Captured::Missing => step is Nothing,
            Captured::Failed => step is Failed,
            Captured::Taken => is_layer_step(
                step,
                cache::pictures(cache@),
                scene.key(protocol_id, *background),
                scene.signature(protocol_id, *background, effect_text@),
                background.effect.always_invalidated,
                background.effect.uses_layer_source || damaged,
                background.rects@,
                fresh_ids@,
                scene.output_geo.corner(),
            ),
        },
{
    if !has_input {
        return LayerStep::Nothing;
    }
    match source_for(&background.effect, layer_source) {
        Captured::Missing => return LayerStep::Nothing,
        Captured::Failed => return LayerStep::Failed,
        Captured::Taken => {},
    }
    let behind: SceneBehind = scene.scene_behind();
    let stable_key: String = upper_layer_stable_key(
        scene.output,
        protocol_id,
        background.area.effect_rect,
    );
    let signature: u64 = backdrop::upper_layer_signature(
        stable_key.as_str(),
        &background.effect,
        effect_text,
        &background.area,
        &behind,
    );
    match cache::reuse_layer_backdrop(
        cache,
        stable_key.as_str(),
        signature,
        background.effect.always_invalidated,
        background.effect.uses_layer_source || damaged,
        background.rects.as_slice(),
        fresh_ids,
        scene.output_geo.location(),
    ) {
        Some(elements) => LayerStep::Reuse(elements),
        None => LayerStep::Redraw(signature),
    }
}

/// What is known of the effect behind a layer surface in one frame, and what drawing it comes
/// to.
#[derive(Clone, Copy)]
pub struct LayerReply<'a> {
    /// Something that the effect shows has changed.
    pub damaged: bool,
    /// The picture of the layer surface itself.
    pub layer_source: Captured,
    /// The effect can be applied.
    pub drawn: bool,
    /// The elements that show the picture can be built.
    pub shown: bool,
    /// Numbers for elements that are not known yet: one for the picture, and one for each of
    /// its parts.
    pub fresh_id: u64,
    pub fresh_ids: &'a [u64],
}

/// Why the layer surfaces cannot be shown.
#[derive(Clone, Copy, Debug, PartialEq, Eq, Structural)]
pub enum LayerError {
    /// "missing backdrop snapshot"
    MissingSnapshot,
    /// A picture could not be taken. The renderer tells why.
    Capture,
    /// The effect could not be applied, or its picture not be shown. The renderer tells why.
    Drawing,
}

/// The elements that show a picture, if they can be built.
pub open spec fn shown_if<T>(shown: bool, elements: Seq<T>) -> Result<Seq<T>, LayerError> {
    if shown {
        Ok(elements)
    } else {
        Err(LayerError::Drawing)
    }
}

pub open spec fn result_view<T>(r: Result<Vec<T>, LayerError>) -> Result<Seq<T>, LayerError> {
    match r {
        Ok(list) => Ok(list@),
        Err(error) => Err(error),
    }
}

fn shown_or_error(shown: bool, elements: Vec<BackdropElement>) -> (r: Result<
    Vec<BackdropElement>,
    LayerError,
>)
    ensures
        result_view(r) == shown_if(shown, elements@),
{
    if shown {
        Ok(elements)
    } else {
        Err(LayerError::Drawing)
    }
}

/// The picture drawn last is shown: the pictures that are kept, and the elements.
pub open spec fn reused(
    pictures: Map<Seq<char>, LayerPicture>,
    key: Seq<char>,
    background: LayerBackground,
    reply: LayerReply,
    output_loc: LogicalPoint,
) -> (Map<Seq<char>, LayerPicture>, Result<Seq<BackdropElement>, LayerError>) {
    (
        pictures,
        shown_if(
            reply.shown,
            cache::elements_for(
                pictures[key].parts,
                background.rects@,
                reply.fresh_ids@,
                output_loc,
            ),
        ),
    )
}

/// The picture is drawn and shown: the pictures that are kept, and the elements. A picture
/// that was drawn is kept even if it cannot be shown.
pub open spec fn redrawn(
    pictures: Map<Seq<char>, LayerPicture>,
    key: Seq<char>,
    signature: u64,
    background: LayerBackground,
    reply: LayerReply,
    output_loc: LogicalPoint,
) -> (Map<Seq<char>, LayerPicture>, Result<Seq<BackdropElement>, LayerError>) {
    if !reply.drawn {
        (pictures, Err(LayerError::Drawing))
    } else {
        let picture = cache::redrawn_picture(
            table::lookup(pictures, key),
            signature,
            reply.fresh_id,
            background.rects@,
            reply.fresh_ids@,
        );
        (
            pictures.insert(key, picture),
            shown_if(
                reply.shown,
                cache::elements_for(
                    picture.parts,
                    background.rects@,
                    reply.fresh_ids@,
                    output_loc,
                ),
            ),
        )
    }
}

/// What comes of the effect behind a layer surface above the windows: the pictures that are
/// kept, and the elements that show the effect.
pub open spec fn upper_background(
    scene: LayerScene,
    pictures: Map<Seq<char>, LayerPicture>,
    protocol_id: u32,
    background: Option<LayerBackground>,
    effect_text: Seq<char>,
    has_input: bool,
    reply: LayerReply,
) -> (Map<Seq<char>, LayerPicture>, Result<Seq<BackdropElement>, LayerError>) {
    match background {
        Some(background) => {
            let effect = background.effect;
            let key = scene.key(protocol_id, background);
            let signature = scene.signature(protocol_id, background, effect_text);
            if !has_input {
                (pictures, Ok(Seq::empty()))
            } else {
                match needed_source(effect, reply.layer_source) {
                    Captured::Missing => (pictures, Ok(Seq::empty())),
                    Captured::Failed => (pictures, Err(LayerError::Capture)),
                    Captured::Taken => if reply.drawn && cache::layer_reusable(
                        pictures,
                        key,
                        signature,
                        effect.always_invalidated,
                        effect.uses_layer_source || reply.damaged,
                    ) {
                        reused(pictures, key, background, reply, scene.output_geo.corner())
                    } else {
                        redrawn(
                            pictures,
                            key,
                            signature,
                            background,
                            reply,
                            scene.output_geo.corner(),
                        )
                    },
                }
            }
        },
        None => (pictures, Ok(Seq::empty())),
    }
}

/// The elements of the effect behind a layer surface above the windows, one for each
/// rectangle. `background` is what `plan_layer_background` gives, and `has_input` tells that
/// there is a picture to apply the effect to. The effect is applied in any case; what comes
/// of it is shown and kept only where the picture drawn last cannot be used again.
pub fn configured_background_effect_elements_for_layer(
    scene: &LayerScene,
    cache: &mut NameTable<LayerBackdrop>,
    protocol_id: u32,
    background: &Option<LayerBackground>,
    effect_text: &str,
    has_input: bool,
    reply: &LayerReply,
) -> (r: Result<Vec<BackdropElement>, LayerError>)
    requires
        scene.fits(*background, reply.fresh_ids@),
    ensures
        (cache::pictures(final(cache)@), result_view(r)) == upper_background(
            *scene,
            cache::pictures(old(cache)@),
            protocol_id,
            *background,
            effect_text@,
            has_input,
            *reply,
        ),
{
    let background: &LayerBackground = match background {
        Some(background) => background,
        None => return Ok(Vec::new()),
    };
    let step: LayerStep = upper_layer_background_step(
        scene,
        cache,
        protocol_id,
        background,
        effect_text,
        has_input,
        reply.layer_source,
        reply.damaged,
        reply.fresh_ids,
    );
    match step {
        LayerStep::Nothing => Ok(Vec::new()),
        LayerStep::Failed => Err(LayerError::Capture),
        LayerStep::Reuse(elements) => {
            if !reply.drawn {
                return Err(LayerError::Drawing);
            }
            shown_or_error(reply.shown, elements)
        },
        LayerStep::Redraw(signature) => {
            if !reply.drawn {
                return Err(LayerError::Drawing);
            }
            let key: String = upper_layer_stable_key(
                scene.output,
                protocol_id,
                background.area.effect_rect,
            );
            let elements: Vec<BackdropElement> = cache::store_layer_backdrop(
                cache,
                key.as_str(),
                signature,
                reply.fresh_id,
                background.rects.as_slice(),
                reply.fresh_ids,
                scene.output_geo.location(),
            );
            shown_or_error(reply.shown, elements)
        },
    }
}

/// The output whose layer surfaces below the windows are shown.
#[derive(Clone, Copy)]
pub struct LowerScene<'a> {
    pub output: &'a str,
    /// The corner of the output.
    pub output_loc: LogicalPoint,
    /// Grows with every change of what these layer surfaces show.
    pub generation: u64,
}

impl<'a> LowerScene<'a> {
    /// The name of the picture behind the layer surface at `index`.
    pub open spec fn key(
        self,
        layer_id: Seq<char>,
        index: usize,
        background: LayerBackground,
    ) -> Seq<char> {
        lower_layer_name(self.output@, layer_id, index, background.area.effect_rect)
    }

    /// What the picture depends on.
    pub open spec fn signature(
        self,
        layer_id: Seq<char>,
        index: usize,
        background: LayerBackground,
        effect_text: Seq<char>,
    ) -> u64 {
        signature::signature_of(
            backdrop::lower_layer_chunks(
                self.key(layer_id, index, background),
                self.generation,
                effect_text,
                background.area,
            ),
        )
    }

    /// What the effect concerns is in the range of machine integers, and there is a number
    /// for every part.
    pub open spec fn fits(self, background: Option<LayerBackground>, fresh_ids: Seq<u64>) -> bool {
        background matches Some(background) ==> {
            &&& fresh_ids.len() == background.rects@.len()
            &&& cache::rects_fit_from(background.rects@, self.output_loc)
        }
    }
}

/// Decides on the effect behind the layer surface at `index` below the windows.
pub fn lower_layer_background_step(
    scene: &LowerScene,
    cache: &NameTable<LayerBackdrop>,
    layer_id: &str,
    index: usize,
    background: &LayerBackground,
    effect_text: &str,
    damaged: bool,
    fresh_ids: &[u64],
) -> (step: LayerStep)
    requires
        fresh_ids@.len() == background.rects@.len(),
        cache::rects_fit_from(background.rects@, scene.output_loc),
    ensures
        is_layer_step(
            step,
            cache::pictures(cache@),
            scene.key(layer_id@, index, *background),
            scene.signature(layer_id@, index, *background, effect_text@),
            background.effect.always_invalidated,
            damaged,
            background.rects@,
            fresh_ids@,
            scene.output_loc,
        ),
{
    let stable_key: String = lower_layer_stable_key(
        scene.output,
        layer_id,
        index,
        background.area.effect_rect,
    );
    let signature: u64 = backdrop::lower_layer_signature(
        stable_key.as_str(),
        scene.generation,
        effect_text,
        &background.area,
    );
    match cache::reuse_layer_backdrop(
        cache,
        stable_key.as_str(),
        signature,
        background.effect.always_invalidated,
        damaged,
        background.rects.as_slice(),
        fresh_ids,
        scene.output_loc,
    ) {
        Some(elements) => LayerStep::Reuse(elements),
        None => LayerStep::Redraw(signature),
    }
}

/// What came of capturing the scene behind a layer surface below the windows.
#[derive(Clone, Copy, Debug, PartialEq, Eq, Structural)]
pub enum LowerCapture {
    /// Nothing is drawn behind this layer surface in this frame.
    Skip,
    /// There is no picture of the scene: "missing backdrop snapshot".
    MissingSnapshot,
    /// A picture could not be taken.
    Failed,
    /// The picture can be drawn.
    Ready,
}

/// Where nothing is behind the surface there is nothing to draw, and without the picture
/// of the surface itself where the effect needs it there is not either. A scene without a
/// picture, or whose picture the effect does not use at all, is an error, and so is a picture
/// that could not be taken.
pub open spec fn capture_outcome(
    effect: EffectTraits,
    scene_is_empty: bool,
    snapshot: Captured,
    layer_source: Captured,
) -> LowerCapture {
    if scene_is_empty {
        LowerCapture::Skip
    } else {
        match snapshot {
            Captured::Failed => LowerCapture::Failed,
            Captured::Missing => LowerCapture::MissingSnapshot,
            Captured::Taken => match needed_source(effect, layer_source) {
                Captured::Failed => LowerCapture::Failed,
                Captured::Missing => LowerCapture::Skip,
                Captured::Taken => if !effect.uses_backdrop && !effect.uses_xray {
                    LowerCapture::MissingSnapshot
                } else {
                    LowerCapture::Ready
                },
            },
        }
    }
}

pub fn lower_layer_capture(
    effect: &EffectTraits,
    scene_is_empty: bool,
    snapshot: Captured,
    layer_source: Captured,
) -> (outcome: LowerCapture)
    ensures
        outcome == capture_outcome(*effect, scene_is_empty, snapshot, layer_source),
{
    if scene_is_empty {
        return LowerCapture::Skip;
    }
    match snapshot {
        Captured::Failed => return LowerCapture::Failed,
        Captured::Missing => return LowerCapture::MissingSnapshot,
        Captured::Taken => {},
    }
    match source_for(effect, layer_source) {
        Captured::Failed => return LowerCapture::Failed,
        Captured::Missing => return LowerCapture::Skip,
        Captured::Taken => {},
    }
    if !effect.uses_backdrop && !effect.uses_xray {
        return LowerCapture::MissingSnapshot;
    }
    LowerCapture::Ready
}

/// What comes of the effect behind the layer surface at `index` below the windows: the
/// pictures that are kept, and the elements that show the effect.
pub open spec fn lower_background(
    scene: LowerScene,
    pictures: Map<Seq<char>, LayerPicture>,
    layer_id: Seq<char>,
    index: usize,
    background: Option<LayerBackground>,
    effect_text: Seq<char>,
    scene_is_empty: bool,
    snapshot: Captured,
    reply: LayerReply,
) -> (Map<Seq<char>, LayerPicture>, Result<Seq<BackdropElement>, LayerError>) {
    match background {
        Some(background) => {
            let effect = background.effect;
            let key = scene.key(layer_id, index, background);
            let signature = scene.signature(layer_id, index, background, effect_text);
            if cache::layer_reusable(
                pictures,
                key,
                signature,
                effect.always_invalidated,
                reply.damaged,
            ) {
                reused(pictures, key, background, reply, scene.output_loc)
            } else {
                match capture_outcome(effect, scene_is_empty, snapshot, reply.layer_source) {
                    LowerCapture::Skip => (pictures, Ok(Seq::empty())),
                    LowerCapture::MissingSnapshot => (pictures, Err(LayerError::MissingSnapshot)),
                    LowerCapture::Failed => (pictures, Err(LayerError::Capture)),
                    LowerCapture::Ready => redrawn(
                        pictures,
                        key,
                        signature,
                        background,
                        reply,
                        scene.output_loc,
                    ),
                }
            }
        },
        None => (pictures, Ok(Seq::empty())),
    }
}

/// The elements of the effect behind the layer surface at `index` below the windows, one for
/// each rectangle. `background` is what `plan_layer_background` gives. The scene is that of
/// the layer surfaces after `index`, and `snapshot` tells what came of taking a picture of it.
pub fn lower_layer_background_elements(
    scene: &LowerScene,
    cache: &mut NameTable<LayerBackdrop>,
    layer_id: &str,
    index: usize,
    background: &Option<LayerBackground>,
    effect_text: &str,
    scene_is_empty: bool,
    snapshot: Captured,
    reply: &LayerReply,
) -> (r: Result<Vec<BackdropElement>, LayerError>)
    requires
        scene.fits(*background, reply.fresh_ids@),
    ensures
        (cache::pictures(final(cache)@), result_view(r)) == lower_background(
            *scene,
            cache::pictures(old(cache)@),
            layer_id@,
            index,
            *background,
            effect_text@,
            scene_is_empty,
            snapshot,
            *reply,
        ),
{
    let background: &LayerBackground = match background {
        Some(background) => background,
        None => return Ok(Vec::new()),
    };
    let step: LayerStep = lower_layer_background_step(
        scene,
        cache,
        layer_id,
        index,
        background,
        effect_text,
        reply.damaged,
        reply.fresh_ids,
    );
    let signature: u64 = match step {
        LayerStep::Nothing => return Ok(Vec::new()),
        LayerStep::Failed => return Err(LayerError::Capture),
        LayerStep::Reuse(elements) => return shown_or_error(reply.shown, elements),
        LayerStep::Redraw(signature) => signature,
    };
    match lower_layer_capture(&background.effect, scene_is_empty, snapshot, reply.layer_source) {
        LowerCapture::Skip => Ok(Vec::new()),
        LowerCapture::MissingSnapshot => Err(LayerError::MissingSnapshot),
        LowerCapture::Failed => Err(LayerError::Capture),
        LowerCapture::Ready => {
            if !reply.drawn {
                return Err(LayerError::Drawing);
            }
            let key: String = lower_layer_stable_key(
                scene.output,
                layer_id,
                index,
                background.area.effect_rect,
            );
            let elements: Vec<BackdropElement> = cache::store_layer_backdrop(
                cache,
                key.as_str(),
                signature,
                reply.fresh_id,
                background.rects.as_slice(),
                reply.fresh_ids,
                scene.output_loc,
            );
            shown_or_error(reply.shown, elements)
        },
    }
}

/// The picture behind a layer surface above the windows that one frame has drawn is shown
/// again by the next, with the same elements, if nothing has changed in between.
pub proof fn law_drawn_upper_background_is_shown_again(
    scene: LayerScene,
    pictures: Map<Seq<char>, LayerPicture>,
    protocol_id: u32,
    background: LayerBackground,
    effect_text: Seq<char>,
    reply: LayerReply,
    next: LayerReply,
)
    requires
        !background.effect.always_invalidated,
        !background.effect.uses_layer_source,
        reply.drawn,
        reply.shown,
        reply.damaged || !pictures.contains_key(scene.key(protocol_id, background)),
        next.drawn,
        next.shown,
        !next.damaged,
    ensures
        ({
            let (kept, shown) = upper_background(
                scene,
                pictures,
                protocol_id,
                Some(background),
                effect_text,
                true,
                reply,
            );
            &&& shown is Ok
            &&& upper_background(
                scene,
                kept,
                protocol_id,
                Some(background),
                effect_text,
                true,
                next,
            ) == (kept, shown)
        }),
{
    cache::law_redrawn_picture_is_reused(
        pictures,
        scene.key(protocol_id, background),
        scene.signature(protocol_id, background, effect_text),
        reply.fresh_id,
        background.rects@,
        reply.fresh_ids@,
        next.fresh_ids@,
        scene.output_geo.corner(),
    );
}

/// The picture behind a layer surface below the windows that one frame has drawn is shown
/// again by the next, with the same elements, if nothing has changed in between; no picture
/// is taken for it then.
pub proof fn law_drawn_lower_background_is_shown_again(
    scene: LowerScene,
    pictures: Map<Seq<char>, LayerPicture>,
    layer_id: Seq<char>,
    index: usize,
    background: LayerBackground,
    effect_text: Seq<char>,
    reply: LayerReply,
    next: LayerReply,
    scene_is_empty: bool,
    snapshot: Captured,
)
    requires
        !background.effect.always_invalidated,
        capture_outcome(background.effect, false, Captured::Taken, reply.layer_source)
            == LowerCapture::Ready,
        reply.drawn,
        reply.shown,
        reply.damaged || !pictures.contains_key(scene.key(layer_id, index, background)),
        next.shown,
        !next.damaged,
    ensures
        ({
            let (kept, shown) = lower_background(
                scene,
                pictures,
                layer_id,
                index,
                Some(background),
                effect_text,
                false,
                Captured::Taken,
                reply,
            );
            &&& shown is Ok
            &&& lower_background(
                scene,
                kept,
                layer_id,
                index,
                Some(background),
                effect_text,
                scene_is_empty,
                snapshot,
                next,
            ) == (kept, shown)
        }),
{
    cache::law_redrawn_picture_is_reused(
        pictures,
        scene.key(layer_id, index, background),
        scene.signature(layer_id, index, background, effect_text),
        reply.fresh_id,
        background.rects@,
        reply.fresh_ids@,
        next.fresh_ids@,
        scene.output_loc,
    );
}

/// The effect behind a layer surface is the surface's own if that shows what is behind it, and
/// only then.
pub proof fn law_own_backgrounds(effects: &Option<WindowEffectConfig>, slot: Option<EffectSlot>)
    requires
        call_ensures(custom_background, (effects,), slot),
    ensures
        slot is Some ==> effects is Some && effects->0.behind == slot && slot->0.effect.is_backdrop,
        slot is None ==> effects is None || effects->0.behind is None
            || !effects->0.behind->0.effect.is_backdrop,
{
}

/// A layer surface's own effect goes before the configured one and covers the surface with its
/// outsets; the configured one covers what the client asked for. Without a surface, an effect or
/// a region there is nothing, and otherwise the area reaches over all of it.
pub proof fn law_layer_backgrounds_are_planned(
    custom: Option<EffectSlot>,
    configured: Option<EffectTraits>,
    layer_rect: Option<LogicalRect>,
    protocol_rects: Vec<LogicalRect>,
    output_geo: LogicalRect,
    plan: Option<LayerBackground>,
    i: int,
)
    requires
        call_ensures(
            plan_layer_background,
            (custom, configured, layer_rect, protocol_rects, output_geo),
            plan,
        ),
    ensures
        custom is None && configured is None ==> plan is None,
        custom is Some ==> (plan is Some <==> layer_rect is Some),
        custom is None && configured is Some ==> (plan is Some <==> protocol_rects@.len() > 0),
        plan is Some && custom is Some ==> plan->0.effect == custom->0.effect
            && plan->0.rects@.len() == 1,
        plan is Some && custom is Some && geometry::fits_i32(
            layer_rect->0.x - custom->0.outsets.left,
        ) && geometry::fits_i32(layer_rect->0.y - custom->0.outsets.top) && geometry::fits_i32(
            layer_rect->0.width + custom->0.outsets.left,
        ) && geometry::fits_i32(
            layer_rect->0.width + custom->0.outsets.left + custom->0.outsets.right,
        ) && geometry::fits_i32(layer_rect->0.height + custom->0.outsets.top) && geometry::fits_i32(
            layer_rect->0.height + custom->0.outsets.top + custom->0.outsets.bottom,
        ) ==> {
            &&& plan->0.rects@[0].x == layer_rect->0.x - custom->0.outsets.left
            &&& plan->0.rects@[0].y == layer_rect->0.y - custom->0.outsets.top
            &&& plan->0.rects@[0].right() == layer_rect->0.right() + custom->0.outsets.right
            &&& plan->0.rects@[0].bottom() == layer_rect->0.bottom() + custom->0.outsets.bottom
        },
        plan is Some && custom is None ==> Some(plan->0.effect) == configured && plan->0.rects@
            == protocol_rects@,
        plan is Some && 0 <= i < plan->0.rects@.len() ==> plan->0.rects@[i].within(
            plan->0.area.effect_rect,
        ),
        plan is Some ==> plan->0.area.padding as int == backdrop::blur_reach(
            plan->0.effect.blur,
        ) as i32,
{
}

/// Only the configured effect is drawn from the frame, and only if it can be.
pub proof fn law_framebuffer_backgrounds(
    custom: Option<EffectSlot>,
    configured: Option<EffectTraits>,
    path: BackgroundPath,
)
    requires
        call_ensures(layer_background_path, (custom, configured), path),
    ensures
        custom is Some ==> path == BackgroundPath::Texture,
        configured is None ==> path == BackgroundPath::Texture,
        configured is Some && !configured->0.supports_framebuffer_backdrop ==> path
            == BackgroundPath::Texture,
        custom is None && configured is Some && configured->0.supports_framebuffer_backdrop
            ==> path == BackgroundPath::Framebuffer,
{
}

/// The damage behind a layer surface is that of what is further back: of the layer surfaces
/// after it, not of itself or of those in front of it.
pub proof fn law_damage_behind_lower_layers(
    lower_layers: &[LayerPlace],
    index: usize,
    source: &[OwnedDamageRect],
    entries: Vec<OwnedDamageRect>,
    entry: OwnedDamageRect,
)
    requires
        call_ensures(lower_layer_damage, (lower_layers, index, source), entries),
    ensures
        entries@.contains(entry) <==> source@.contains(entry) && exists|k: int|
            index < k < lower_layers@.len() && text::decimal(
                (#[trigger] lower_layers@[k]).protocol_id as int,
            ) == entry.owner@,
{
    let rest = behind::rest_after(lower_layers@, index);
    let ids = behind::layer_ids(rest);
    damage::lemma_layer_damage_is_of_its_owners(ids, source@, entry);
    if damage::is_layer_owner(ids, entry.owner@) {
        let i = choose|i: int|
            0 <= i < ids.len() && text::decimal((#[trigger] ids[i]) as int) == entry.owner@;
        assert(rest[i] == lower_layers@[index + 1 + i]);
        assert(text::decimal(lower_layers@[index + 1 + i].protocol_id as int) == entry.owner@);
    }
    if exists|k: int|
        index < k < lower_layers@.len() && text::decimal(
            (#[trigger] lower_layers@[k]).protocol_id as int,
        ) == entry.owner@ {
        let k = choose|k: int|
            index < k < lower_layers@.len() && text::decimal(
                (#[trigger] lower_layers@[k]).protocol_id as int,
            ) == entry.owner@;
        assert(rest[k - index - 1] == lower_layers@[k]);
        assert(text::decimal(ids[k - index - 1] as int) == entry.owner@);
    }
}

/// The damage behind a layer surface above the windows is that of what the effect shows of what
/// is further back: windows, layer surfaces below them, and of those above them the ones after
/// this.
pub proof fn law_damage_behind_upper_layers(
    scene: &LayerScene,
    effect: &EffectTraits,
    source: &SourceDamage,
    entries: Vec<OwnedDamageRect>,
    entry: OwnedDamageRect,
    k: int,
)
    requires
        call_ensures(LayerScene::damage_behind, (scene, effect, source), entries),
    ensures
        !effect.uses_backdrop && !effect.uses_xray ==> entries@.len() == 0,
        effect.uses_backdrop && source.upper_layers@.contains(entry) && scene.index < k
            < scene.upper_layers@.len() && text::decimal(scene.upper_layers@[k].protocol_id as int)
            == entry.owner@ ==> entries@.contains(entry),
        (effect.uses_backdrop || effect.uses_xray) && source.lower_layers@.contains(entry) && 0 <= k
            < scene.lower_layers@.len() && text::decimal(scene.lower_layers@[k].protocol_id as int)
            == entry.owner@ ==> entries@.contains(entry),
{
    let view = scene.behind();
    let uppers = behind::layer_ids(view.upper_layers);
    let lowers = behind::layer_ids(view.lower_layers);
    let windows = behind::window_ids(view.windows);
    damage::lemma_layer_damage_is_of_its_owners(uppers, source.upper_layers@, entry);
    damage::lemma_layer_damage_is_of_its_owners(lowers, source.lower_layers@, entry);
    let from_windows = if effect.uses_backdrop {
        damage::window_damage(windows, source.windows@)
    } else {
        Seq::empty()
    };
    let from_lower = if effect.uses_backdrop || effect.uses_xray {
        damage::layer_damage(lowers, source.lower_layers@)
    } else {
        Seq::empty()
    };
    let from_upper = if effect.uses_backdrop {
        damage::layer_damage(uppers, source.upper_layers@)
    } else {
        Seq::empty()
    };
    assert(entries@ == from_windows + from_lower + from_upper);
    if scene.index < k < scene.upper_layers@.len() {
        let at = k - scene.index - 1;
        assert(view.upper_layers[at] == scene.upper_layers@[k]);
        assert(uppers[at] == scene.upper_layers@[k].protocol_id);
    }
    if 0 <= k < scene.lower_layers@.len() {
        assert(lowers[k] == scene.lower_layers@[k].protocol_id);
    }
    if from_lower.contains(entry) {
        let i = choose|i: int| 0 <= i < from_lower.len() && from_lower[i] == entry;
        assert(entries@[from_windows.len() + i] == entry);
    }
    if from_upper.contains(entry) {
        let i = choose|i: int| 0 <= i < from_upper.len() && from_upper[i] == entry;
        assert(entries@[from_windows.len() + from_lower.len() + i] == entry);
    }
}

/// When the effect behind a layer surface below the windows can be drawn, and why not: with
/// nothing behind it there is nothing to draw, a picture that could not be taken is a failure,
/// and a scene without a picture that the effect uses is an error.
pub proof fn law_lower_captures(
    effect: &EffectTraits,
    scene_is_empty: bool,
    snapshot: Captured,
    layer_source: Captured,
    outcome: LowerCapture,
)
    requires
        call_ensures(lower_layer_capture, (effect, scene_is_empty, snapshot, layer_source), outcome),
    ensures
        scene_is_empty ==> outcome == LowerCapture::Skip,
        !scene_is_empty && snapshot == Captured::Failed ==> outcome == LowerCapture::Failed,
        !scene_is_empty && snapshot == Captured::Missing ==> outcome
            == LowerCapture::MissingSnapshot,
        !scene_is_empty && snapshot == Captured::Taken && effect.uses_layer_source ==> {
            &&& layer_source == Captured::Failed ==> outcome == LowerCapture::Failed
            &&& layer_source == Captured::Missing ==> outcome == LowerCapture::Skip
        },
        outcome == LowerCapture::Ready <==> !scene_is_empty && snapshot == Captured::Taken && (
        effect.uses_layer_source ==> layer_source == Captured::Taken) && (effect.uses_backdrop
            || effect.uses_xray),
{
}

/// What comes of the effect behind a layer surface above the windows: nothing without an input
/// or the surface's own picture where that is shown, an error where a picture or the drawing
/// fails, and otherwise an element for each rectangle. The picture drawn last is left as it is
/// exactly if it can be used again; else it is recorded anew. Other pictures are not touched.
pub proof fn law_upper_backgrounds(
    scene: &LayerScene,
    cache: &mut NameTable<LayerBackdrop>,
    protocol_id: u32,
    background: &Option<LayerBackground>,
    effect_text: &str,
    has_input: bool,
    reply: &LayerReply,
    r: Result<Vec<BackdropElement>, LayerError>,
    other: Seq<char>,
    i: int,
)
    requires
        scene.fits(*background, reply.fresh_ids@),
        call_ensures(
            configured_background_effect_elements_for_layer,
            (scene, cache, protocol_id, background, effect_text, has_input, reply),
            r,
        ),
    ensures
        background is None || !has_input ==> r is Ok && r->Ok_0@.len() == 0 && cache::pictures(
            final(cache)@,
        ) == cache::pictures(old(cache)@),
        background is Some && has_input ==> {
            let effect = background->0.effect;
            let key = scene.key(protocol_id, background->0);
            let before = cache::pictures(old(cache)@);
            let after = cache::pictures(final(cache)@);
            let blocked = effect.uses_layer_source && reply.layer_source != Captured::Taken;
            &&& effect.uses_layer_source && reply.layer_source == Captured::Missing ==> r is Ok
                && r->Ok_0@.len() == 0 && after == before
            &&& effect.uses_layer_source && reply.layer_source == Captured::Failed ==> r is Err
                && r->Err_0 == LayerError::Capture && after == before
            &&& !blocked && !reply.drawn ==> r is Err && r->Err_0 == LayerError::Drawing && after
                == before
            &&& !blocked && reply.drawn && !reply.shown ==> r is Err && r->Err_0
                == LayerError::Drawing
            &&& !blocked && reply.drawn && reply.shown ==> r is Ok && r->Ok_0@.len()
                == background->0.rects@.len()
            &&& !blocked && reply.drawn && reply.shown && 0 <= i < background->0.rects@.len() ==> {
                &&& r->Ok_0@[i].rect == background->0.rects@[i]
                &&& r->Ok_0@[i].local_rect.x == background->0.rects@[i].x - scene.output_geo.x
                &&& r->Ok_0@[i].local_rect.y == background->0.rects@[i].y - scene.output_geo.y
            }
            // Drawn anew for damage, for an effect that asks for it, and for the surface itself.
            &&& !blocked && reply.drawn && (reply.damaged || effect.always_invalidated
                || effect.uses_layer_source || !before.contains_key(key)) ==> after.contains_key(
                key,
            ) && (before.contains_key(key) ==> after[key].state.commit
                != before[key].state.commit && after[key].state.id == before[key].state.id)
            &&& !blocked && reply.drawn ==> after.contains_key(key) && after[key].state.signature
                == scene.signature(protocol_id, background->0, effect_text@)
            &&& !blocked && reply.drawn && !reply.damaged && !effect.always_invalidated
                && !effect.uses_layer_source && before.contains_key(key)
                && before[key].state.signature == scene.signature(
                protocol_id,
                background->0,
                effect_text@,
            ) ==> after == before
            &&& other != key ==> after.contains_key(other) == before.contains_key(other)
                && after[other] == before[other]
        },
{
}

/// What comes of the effect behind a layer surface below the windows. The picture drawn last is
/// shown without any other exactly if it can be used again.
pub proof fn law_lower_backgrounds(
    scene: &LowerScene,
    cache: &mut NameTable<LayerBackdrop>,
    layer_id: &str,
    index: usize,
    background: &Option<LayerBackground>,
    effect_text: &str,
    scene_is_empty: bool,
    snapshot: Captured,
    reply: &LayerReply,
    r: Result<Vec<BackdropElement>, LayerError>,
    other: Seq<char>,
    i: int,
)
    requires
        scene.fits(*background, reply.fresh_ids@),
        call_ensures(
            lower_layer_background_elements,
            (
                scene,
                cache,
                layer_id,
                index,
                background,
                effect_text,
                scene_is_empty,
                snapshot,
                reply,
            ),
            r,
        ),
    ensures
        background is None ==> r is Ok && r->Ok_0@.len() == 0 && cache::pictures(final(cache)@)
            == cache::pictures(old(cache)@),
        background is Some ==> {
            let effect = background->0.effect;
            let key = scene.key(layer_id@, index, background->0);
            let wanted = scene.signature(layer_id@, index, background->0, effect_text@);
            let before = cache::pictures(old(cache)@);
            let after = cache::pictures(final(cache)@);
            let known = before.contains_key(key) && before[key].state.signature == wanted
                && !reply.damaged && !effect.always_invalidated;
            let ready = !scene_is_empty && snapshot == Captured::Taken && (
            effect.uses_layer_source ==> reply.layer_source == Captured::Taken) && (
            effect.uses_backdrop || effect.uses_xray);
            &&& known ==> after == before && (r is Ok <==> reply.shown)
            &&& !known && scene_is_empty ==> after == before && r is Ok && r->Ok_0@.len() == 0
            &&& !known && !scene_is_empty && snapshot == Captured::Missing ==> after == before
                && r is Err && r->Err_0 == LayerError::MissingSnapshot
            &&& !known && !scene_is_empty && snapshot == Captured::Failed ==> after == before
                && r is Err && r->Err_0 == LayerError::Capture
            &&& !known && ready && !reply.drawn ==> after == before && r is Err && r->Err_0
                == LayerError::Drawing
            &&& !known && ready && reply.drawn ==> after.contains_key(key)
                && after[key].state.signature == wanted && (before.contains_key(key)
                ==> after[key].state.commit != before[key].state.commit) && (r is Ok
                <==> reply.shown)
            &&& (known || ready && reply.drawn) && reply.shown ==> r is Ok && r->Ok_0@.len()
                == background->0.rects@.len()
            &&& (known || ready && reply.drawn) && reply.shown && 0 <= i
                < background->0.rects@.len() ==> {
                &&& r->Ok_0@[i].rect == background->0.rects@[i]
                &&& r->Ok_0@[i].local_rect.x == background->0.rects@[i].x - scene.output_loc.x
                &&& r->Ok_0@[i].local_rect.y == background->0.rects@[i].y - scene.output_loc.y
            }
            &&& other != key ==> after.contains_key(other) == before.contains_key(other)
                && after[other] == before[other]
        },
{
}

/// How the effect behind a layer surface above the windows goes on: with nothing, a failure, the
/// picture drawn last or a new one.
pub proof fn law_upper_background_steps(
    scene: &LayerScene,
    cache: &NameTable<LayerBackdrop>,
    protocol_id: u32,
    background: &LayerBackground,
    effect_text: &str,
    has_input: bool,
    layer_source: Captured,
    damaged: bool,
    fresh_ids: &[u64],
    step: LayerStep,
)
    requires
        call_ensures(
            upper_layer_background_step,
            (
                scene,
                cache,
                protocol_id,
                background,
                effect_text,
                has_input,
                layer_source,
                damaged,
                fresh_ids,
            ),
            step,
        ),
    ensures
        step is Nothing <==> !has_input || background.effect.uses_layer_source && layer_source
            == Captured::Missing,
        step is Failed <==> has_input && background.effect.uses_layer_source && layer_source
            == Captured::Failed,
        step is Reuse ==> !damaged && !background.effect.always_invalidated
            && !background.effect.uses_layer_source && cache@.contains_key(
            scene.key(protocol_id, *background),
        ) && cache@[scene.key(protocol_id, *background)].state.signature == scene.signature(
            protocol_id,
            *background,
            effect_text@,
        ),
        step is Redraw ==> step->Redraw_0 == scene.signature(
            protocol_id,
            *background,
            effect_text@,
        ),
        step is Redraw && !damaged && !background.effect.always_invalidated
            && !background.effect.uses_layer_source && cache@.contains_key(
            scene.key(protocol_id, *background),
        ) ==> cache@[scene.key(protocol_id, *background)].state.signature != scene.signature(
            protocol_id,
            *background,
            effect_text@,
        ),
{
    let kept = cache::pictures(cache@);
    let key = scene.key(protocol_id, *background);
    assert(kept.contains_key(key) == cache@.contains_key(key));
}

/// How the effect behind a layer surface below the windows goes on: with the picture drawn last
/// exactly if it can be used again.
pub proof fn law_lower_background_steps(
    scene: &LowerScene,
    cache: &NameTable<LayerBackdrop>,
    layer_id: &str,
    index: usize,
    background: &LayerBackground,
    effect_text: &str,
    damaged: bool,
    fresh_ids: &[u64],
    step: LayerStep,
)
    requires
        call_ensures(
            lower_layer_background_step,
            (scene, cache, layer_id, index, background, effect_text, damaged, fresh_ids),
            step,
        ),
    ensures
        step is Reuse <==> !damaged && !background.effect.always_invalidated && cache@.contains_key(
            scene.key(layer_id@, index, *background),
        ) && cache@[scene.key(layer_id@, index, *background)].state.signature == scene.signature(
            layer_id@,
            index,
            *background,
            effect_text@,
        ),
        !(step is Reuse) ==> step is Redraw && step->Redraw_0 == scene.signature(
            layer_id@,
            index,
            *background,
            effect_text@,
        ),
{
    let kept = cache::pictures(cache@);
    let key = scene.key(layer_id@, index, *background);
    assert(kept.contains_key(key) == cache@.contains_key(key));
}

proof fn lemma_sizes_are_told_apart(name: Seq<char>, other: Seq<char>, a: LogicalRect, b: LogicalRect)
    requires
        sized(name, a) == sized(other, b),
        name == other,
    ensures
        a.width == b.width,
        a.height == b.height,
{
    reveal_strlit("x");
    let x = seq!['x'];
    assert("x"@ =~= x);
    let p = text::decimal(a.width as int) + x + text::decimal(a.height as int);
    let q = text::decimal(b.width as int) + x + text::decimal(b.height as int);
    assert(sized(name, a) =~= name + p);
    assert(sized(other, b) =~= name + q);
    text::law_same_beginnings(name, p, q);
    text::law_numbers_end(
        a.width as int,
        b.width as int,
        'x',
        text::decimal(a.height as int),
        text::decimal(b.height as int),
    );
    text::law_decimal_is_injective(a.height as int, b.height as int);
}

/// The pictures behind two layer surfaces above the windows of one output have one name only if
/// it is the same surface at the same size.
pub proof fn law_upper_layer_keys_are_told_apart(
    output: &str,
    a_id: u32,
    b_id: u32,
    a: LogicalRect,
    b: LogicalRect,
    a_key: String,
    b_key: String,
)
    requires
        call_ensures(upper_layer_stable_key, (output, a_id, a), a_key),
        call_ensures(upper_layer_stable_key, (output, b_id, b), b_key),
    ensures
        a_key@ == b_key@ <==> a_id == b_id && a.width == b.width && a.height == b.height,
{
    if a_key@ == b_key@ {
        reveal_strlit("_top_");
        let head = "__layer_background_effect_"@ + output@ + "_"@;
        let rest = seq!['t', 'o', 'p', '_'];
        let p = rest + text::decimal(a.width as int) + "x"@ + text::decimal(a.height as int);
        let q = rest + text::decimal(b.width as int) + "x"@ + text::decimal(b.height as int);
        let dash = seq!['_'];
        assert("_top_"@ =~= dash + rest);
        let x = text::decimal(a_id as int) + dash + p;
        let y = text::decimal(b_id as int) + dash + q;
        assert(a_key@ =~= head + x);
        assert(b_key@ =~= head + y);
        text::law_same_beginnings(head, x, y);
        text::law_numbers_end(a_id as int, b_id as int, '_', p, q);
        let name = head + text::decimal(a_id as int) + "_top_"@;
        lemma_sizes_are_told_apart(name, name, a, b);
    }
}

/// The pictures behind two layer surfaces below the windows have one name only if they stand at
/// the same place and have the same size, where output and surface are the same.
pub proof fn law_lower_layer_keys_are_told_apart(
    output: &str,
    layer_id: &str,
    a_index: usize,
    b_index: usize,
    a: LogicalRect,
    b: LogicalRect,
    a_key: String,
    b_key: String,
)
    requires
        call_ensures(lower_layer_stable_key, (output, layer_id, a_index, a), a_key),
        call_ensures(lower_layer_stable_key, (output, layer_id, b_index, b), b_key),
    ensures
        a_key@ == b_key@ <==> a_index == b_index && a.width == b.width && a.height == b.height,
{
    if a_key@ == b_key@ {
        reveal_strlit("_");
        let head = "__layer_background_effect_"@ + output@ + "_"@ + layer_id@ + "_"@;
        let dash = seq!['_'];
        assert("_"@ =~= dash);
        let p = text::decimal(a.width as int) + "x"@ + text::decimal(a.height as int);
        let q = text::decimal(b.width as int) + "x"@ + text::decimal(b.height as int);
        let x = text::decimal(a_index as int) + dash + p;
        let y = text::decimal(b_index as int) + dash + q;
        assert(a_key@ =~= head + x);
        assert(b_key@ =~= head + y);
        text::law_same_beginnings(head, x, y);
        text::law_numbers_end(a_index as int, b_index as int, '_', p, q);
        let name = head + text::decimal(a_index as int) + "_"@;
        lemma_sizes_are_told_apart(name, name, a, b);
    }
}

/// Intermediate pictures and states of effects are told apart by what they belong to.
pub proof fn law_pipeline_keys_are_told_apart(
    a: &str,
    b: &str,
    output: &str,
    rect: LogicalRect,
    a_lower: String,
    b_lower: String,
    a_upper: String,
    b_upper: String,
    a_frame: String,
    b_frame: String,
)
    requires
        call_ensures(lower_layer_pipeline_key, (a,), a_lower),
        call_ensures(lower_layer_pipeline_key, (b,), b_lower),
        call_ensures(upper_layer_pipeline_key, (output, a, rect), a_upper),
        call_ensures(upper_layer_pipeline_key, (output, b, rect), b_upper),
        call_ensures(layer_framebuffer_key, (output, a), a_frame),
        call_ensures(layer_framebuffer_key, (output, b), b_frame),
    ensures
        a_lower@ == b_lower@ <==> a@ == b@,
        a_upper@ == b_upper@ <==> a@ == b@,
        a_frame@ == b_frame@ <==> a@ == b@,
{
    text::law_same_beginnings("tty:layer-lower:"@, a@, b@);
    let head = "tty:layer-top:"@ + output@ + ":"@;
    let tail = ":"@ + text::decimal(rect.width as int) + "x"@ + text::decimal(rect.height as int);
    assert(a_upper@ =~= head + (a@ + tail));
    assert(b_upper@ =~= head + (b@ + tail));
    text::law_same_beginnings(head, a@ + tail, b@ + tail);
    text::law_same_endings(tail, a@, b@);
    text::law_same_beginnings("tty:layer-top-framebuffer:"@ + output@ + ":"@, a@, b@);
}

/// Backgrounds of layer surfaces above the windows that are drawn under one signature are drawn
/// from data that tells apart what they are, where they are, and all that lies behind them: the
/// windows, the layer surfaces below these, and those above them that come after.
pub proof fn law_upper_scenes_are_told_apart(
    a: LayerScene,
    a_id: u32,
    a_background: LayerBackground,
    a_text: Seq<char>,
    b: LayerScene,
    b_id: u32,
    b_background: LayerBackground,
    b_text: Seq<char>,
)
    ensures
        exists|x: Seq<Seq<u8>>, y: Seq<Seq<u8>>|
            a.signature(a_id, a_background, a_text) == #[trigger] signature::signature_of(x)
                && b.signature(b_id, b_background, b_text) == #[trigger] signature::signature_of(y)
                && (x == y ==> {
                &&& a_text == b_text
                &&& a_background.area.effect_rect == b_background.area.effect_rect
                &&& a_background.area.capture == b_background.area.capture
                &&& a.output@ == b.output@ ==> a_id == b_id
                &&& a_background.effect.uses_backdrop || a_background.effect.uses_xray
                    ==> a.lower_generation == b.lower_generation
                &&& a_background.effect.uses_backdrop && b_background.effect.uses_backdrop
                    && a.index < a.upper_layers@.len() && b.index < b.upper_layers@.len() ==> {
                    &&& backdrop::windows_are_among(
                        a.windows@,
                        a_background.area.effect_rect,
                        b.windows@,
                    )
                    &&& backdrop::layers_are_among(
                        a.lower_layers@ + a.upper_layers@.skip(a.index + 1),
                        a.output_loc,
                        a_background.area.effect_rect,
                        b.lower_layers@ + b.upper_layers@.skip(b.index + 1),
                        b.output_loc,
                    )
                }
            }),
{
    let x = backdrop::upper_layer_chunks(
        a.key(a_id, a_background),
        a_background.effect,
        a_text,
        a_background.area,
        a.behind(),
    );
    let y = backdrop::upper_layer_chunks(
        b.key(b_id, b_background),
        b_background.effect,
        b_text,
        b_background.area,
        b.behind(),
    );
    if x == y {
        backdrop::law_upper_layer_chunks_tell_effects_apart(
            a.key(a_id, a_background),
            a_background.effect,
            a_text,
            a_background.area,
            a.behind(),
            b.key(b_id, b_background),
            b_background.effect,
            b_text,
            b_background.area,
            b.behind(),
        );
        if a.output@ == b.output@ {
            lemma_upper_layer_names(
                a.output@,
                a_id,
                b_id,
                a_background.area.effect_rect,
                b_background.area.effect_rect,
            );
        }
        if a.index < a.upper_layers@.len() && b.index < b.upper_layers@.len() {
            assert(a.upper_layers@.skip(a.index + 1) =~= behind::rest_after(
                a.upper_layers@,
                a.index,
            ));
            assert(b.upper_layers@.skip(b.index + 1) =~= behind::rest_after(
                b.upper_layers@,
                b.index,
            ));
        }
    }
    assert(a.signature(a_id, a_background, a_text) == signature::signature_of(x));
    assert(b.signature(b_id, b_background, b_text) == signature::signature_of(y));
}

proof fn lemma_upper_layer_names(
    output: Seq<char>,
    a_id: u32,
    b_id: u32,
    a: LogicalRect,
    b: LogicalRect,
)
    requires
        upper_layer_name(output, a_id, a) == upper_layer_name(output, b_id, b),
    ensures
        a_id == b_id,
        a.width == b.width,
        a.height == b.height,
{
    reveal_strlit("_top_");
    let head = "__layer_background_effect_"@ + output + "_"@;
    let rest = seq!['t', 'o', 'p', '_'];
    let p = rest + text::decimal(a.width as int) + "x"@ + text::decimal(a.height as int);
    let q = rest + text::decimal(b.width as int) + "x"@ + text::decimal(b.height as int);
    let dash = seq!['_'];
    assert("_top_"@ =~= dash + rest);
    let x = text::decimal(a_id as int) + dash + p;
    let y = text::decimal(b_id as int) + dash + q;
    assert(upper_layer_name(output, a_id, a) =~= head + x);
    assert(upper_layer_name(output, b_id, b) =~= head + y);
    text::law_same_beginnings(head, x, y);
    text::law_numbers_end(a_id as int, b_id as int, '_', p, q);
    let name = head + text::decimal(a_id as int) + "_top_"@;
    lemma_sizes_are_told_apart(name, name, a, b);
}

/// Backgrounds of layer surfaces below the windows that are drawn under one signature are drawn
/// from data that tells apart what they are, where they are, and how often what lies behind them
/// has changed.
pub proof fn law_lower_scenes_are_told_apart(
    a: LowerScene,
    a_id: Seq<char>,
    a_index: usize,
    a_background: LayerBackground,
    a_text: Seq<char>,
    b: LowerScene,
    b_id: Seq<char>,
    b_index: usize,
    b_background: LayerBackground,
    b_text: Seq<char>,
)
    ensures
        exists|x: Seq<Seq<u8>>, y: Seq<Seq<u8>>|
            a.signature(a_id, a_index, a_background, a_text) == #[trigger] signature::signature_of(
                x,
            ) && b.signature(b_id, b_index, b_background, b_text)
                == #[trigger] signature::signature_of(y) && (x == y ==> {
                &&& a_text == b_text
                &&& a_background.area.effect_rect == b_background.area.effect_rect
                &&& a_background.area.capture == b_background.area.capture
                &&& a.generation == b.generation
            }),
{
    let x = backdrop::lower_layer_chunks(
        a.key(a_id, a_index, a_background),
        a.generation,
        a_text,
        a_background.area,
    );
    let y = backdrop::lower_layer_chunks(
        b.key(b_id, b_index, b_background),
        b.generation,
        b_text,
        b_background.area,
    );
    if x == y {
        let p = a_background.area;
        let q = b_background.area;
        signature::lemma_same_word(x, y, 2, a.generation, b.generation);
        signature::lemma_same_text(x, y, 3, a_text, b_text);
        assert(x.subrange(5, 9) =~= signature::rect_chunks(p.effect_rect));
        assert(y.subrange(5, 9) =~= signature::rect_chunks(q.effect_rect));
        signature::lemma_same_rect(x, y, 5, p.effect_rect, q.effect_rect);
        assert(x.subrange(9, 13) =~= signature::rect_chunks(p.capture));
        assert(y.subrange(9, 13) =~= signature::rect_chunks(q.capture));
        signature::lemma_same_rect(x, y, 9, p.capture, q.capture);
    }
    assert(a.signature(a_id, a_index, a_background, a_text) == signature::signature_of(x));
    assert(b.signature(b_id, b_index, b_background, b_text) == signature::signature_of(y));
}

/// Of an effect behind a layer surface above the windows the picture drawn last is shown as it is
/// exactly where it can be used again, and what was drawn anew is recorded and shown like that
/// from then on.
pub proof fn law_upper_pictures_are_shown_as_recorded(
    scene: &LayerScene,
    cache: &mut NameTable<LayerBackdrop>,
    recorded: &mut NameTable<LayerBackdrop>,
    before: &NameTable<LayerBackdrop>,
    protocol_id: u32,
    background: &Option<LayerBackground>,
    effect_text: &str,
    reply: &LayerReply,
    key: &str,
    signature: u64,
    rects: &[LogicalRect],
    output_loc: LogicalPoint,
    r: Result<Vec<BackdropElement>, LayerError>,
    step: LayerStep,
    reuse: Option<Vec<BackdropElement>>,
    drawn: Vec<BackdropElement>,
)
    requires
        background is Some,
        scene.fits(*background, reply.fresh_ids@),
        key@ == scene.key(protocol_id, background->0),
        signature == scene.signature(protocol_id, background->0, effect_text@),
        rects@ == background->0.rects@,
        output_loc.x == scene.output_geo.x,
        output_loc.y == scene.output_geo.y,
        background->0.effect.uses_layer_source ==> reply.layer_source == Captured::Taken,
        call_ensures(
            configured_background_effect_elements_for_layer,
            (scene, cache, protocol_id, background, effect_text, true, reply),
            r,
        ),
        call_ensures(
            upper_layer_background_step,
            (
                scene,
                before,
                protocol_id,
                &background->0,
                effect_text,
                true,
                reply.layer_source,
                reply.damaged,
                reply.fresh_ids,
            ),
            step,
        ),
        call_ensures(
            cache::reuse_layer_backdrop,
            (
                before,
                key,
                signature,
                background->0.effect.always_invalidated,
                background->0.effect.uses_layer_source || reply.damaged,
                rects,
                reply.fresh_ids,
                output_loc,
            ),
            reuse,
        ),
        call_ensures(
            cache::store_layer_backdrop,
            (recorded, key, signature, reply.fresh_id, rects, reply.fresh_ids, output_loc),
            drawn,
        ),
    ensures
        step is Reuse <==> reuse is Some,
        step is Reuse ==> step->Reuse_0@ == reuse->0@,
        reply.drawn && reply.shown && cache::pictures(old(cache)@) == cache::pictures(before@)
            && reuse is Some ==> r is Ok && r->Ok_0@ == reuse->0@,
        reply.drawn && reply.shown && cache::pictures(old(cache)@) == cache::pictures(before@)
            && cache::pictures(old(cache)@) == cache::pictures(old(recorded)@) && reuse is None
            ==> r is Ok && r->Ok_0@ == drawn@ && cache::pictures(final(cache)@) == cache::pictures(
            final(recorded)@,
        ),
{
    assert(output_loc == scene.output_geo.corner());
}

/// Of an effect behind a layer surface below the windows the picture drawn last is shown as it is
/// exactly where it can be used again, and what was drawn anew is recorded and shown like that
/// from then on.
pub proof fn law_lower_pictures_are_shown_as_recorded(
    scene: &LowerScene,
    cache: &mut NameTable<LayerBackdrop>,
    recorded: &mut NameTable<LayerBackdrop>,
    before: &NameTable<LayerBackdrop>,
    layer_id: &str,
    index: usize,
    background: &Option<LayerBackground>,
    effect_text: &str,
    reply: &LayerReply,
    key: &str,
    signature: u64,
    rects: &[LogicalRect],
    r: Result<Vec<BackdropElement>, LayerError>,
    step: LayerStep,
    reuse: Option<Vec<BackdropElement>>,
    drawn: Vec<BackdropElement>,
)
    requires
        background is Some,
        scene.fits(*background, reply.fresh_ids@),
        key@ == scene.key(layer_id@, index, background->0),
        signature == scene.signature(layer_id@, index, background->0, effect_text@),
        rects@ == background->0.rects@,
        background->0.effect.uses_layer_source ==> reply.layer_source == Captured::Taken,
        background->0.effect.uses_backdrop || background->0.effect.uses_xray,
        call_ensures(
            lower_layer_background_elements,
            (
                scene,
                cache,
                layer_id,
                index,
                background,
                effect_text,
                false,
                Captured::Taken,
                reply,
            ),
            r,
        ),
        call_ensures(
            lower_layer_background_step,
            (
                scene,
                before,
                layer_id,
                index,
                &background->0,
                effect_text,
                reply.damaged,
                reply.fresh_ids,
            ),
            step,
        ),
        call_ensures(
            cache::reuse_layer_backdrop,
            (
                before,
                key,
                signature,
                background->0.effect.always_invalidated,
                reply.damaged,
                rects,
                reply.fresh_ids,
                scene.output_loc,
            ),
            reuse,
        ),
        call_ensures(
            cache::store_layer_backdrop,
            (recorded, key, signature, reply.fresh_id, rects, reply.fresh_ids, scene.output_loc),
            drawn,
        ),
    ensures
        step is Reuse <==> reuse is Some,
        step is Reuse ==> step->Reuse_0@ == reuse->0@,
        reply.shown && cache::pictures(old(cache)@) == cache::pictures(before@) && reuse is Some
            ==> r is Ok && r->Ok_0@ == reuse->0@,
        reply.drawn && reply.shown && cache::pictures(old(cache)@) == cache::pictures(before@)
            && cache::pictures(old(cache)@) == cache::pictures(old(recorded)@) && reuse is None
            ==> r is Ok && r->Ok_0@ == drawn@ && cache::pictures(final(cache)@) == cache::pictures(
            final(recorded)@,
        ),
{
}

} // verus!
