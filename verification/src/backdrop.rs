//! What is drawn behind translucent surfaces: the areas that are captured, and the caches
//! that tell when a captured picture can be used again.

use crate::damage::{self, OwnedDamageRect};
use crate::effects::{BlurStage, EffectTraits};
use crate::geometry::{self, LogicalPoint, LogicalRect};
use crate::signature::{self, LayerPlace, SceneHasher, WindowPlace};
use vstd::prelude::*;

verus! {

/// How far a blur reaches beyond the area that it is applied to.
pub open spec fn blur_reach(blur: Option<BlurStage>) -> int {
    match blur {
        None => 0,
        Some(blur) => geometry::spec_max(blur.radius as int, 1) * geometry::spec_max(
            blur.passes as int,
            1,
        ) * 24 + 32,
    }
}

proof fn lemma_reach(radius: int, passes: int)
    requires
        radius >= 1,
        passes >= 1,
    ensures
        1 <= radius * passes,
{
    assert(1 <= radius * passes) by (nonlinear_arith)
        requires
            radius >= 1,
            passes >= 1,
    ;
}

pub fn blur_padding(blur: Option<BlurStage>) -> (padding: i32)
    requires
        geometry::fits_i32(blur_reach(blur)),
    ensures
        padding == blur_reach(blur),
        blur is Some ==> padding >= 32,
{
    match blur {
        None => 0,
        Some(blur) => {
            let radius: i32 = geometry::max_i32(blur.radius, 1);
            let passes: i32 = geometry::max_i32(blur.passes, 1);
            proof {
                lemma_reach(radius as int, passes as int);
            }
            geometry::max_i32(radius * passes * 24 + 32, 32)
        },
    }
}

/// The areas that matter for an effect.
#[derive(Clone, Copy, Debug, PartialEq, Eq, Structural)]
pub struct BackdropArea {
    /// What the effect covers.
    pub effect_rect: LogicalRect,
    pub padding: i32,
    /// What the effect depends on: `effect_rect` with the padding on every side.
    pub capture: LogicalRect,
    /// The part of `capture` that is on the output, or all of it if no part is.
    pub visible: LogicalRect,
}

pub open spec fn padded(rect: LogicalRect, padding: int) -> LogicalRect {
    geometry::rect_of(
        rect.x - padding,
        rect.y - padding,
        rect.width + padding * 2,
        rect.height + padding * 2,
    )
}

pub open spec fn padding_fits(rect: LogicalRect, padding: int) -> bool {
    &&& geometry::fits_i32(padding)
    &&& geometry::fits_i32(rect.x - padding)
    &&& geometry::fits_i32(rect.y - padding)
    &&& geometry::fits_i32(padding * 2)
    &&& geometry::fits_i32(rect.width + padding * 2)
    &&& geometry::fits_i32(rect.height + padding * 2)
}

pub open spec fn area_of(
    effect_rect: LogicalRect,
    effect: EffectTraits,
    output_geo: LogicalRect,
) -> BackdropArea {
    let padding = blur_reach(effect.blur);
    let capture = padded(effect_rect, padding);
    BackdropArea {
        effect_rect,
        padding: padding as i32,
        capture,
        visible: geometry::clipped_capture(capture, output_geo),
    }
}

pub fn backdrop_area(
    effect_rect: LogicalRect,
    effect: &EffectTraits,
    output_geo: LogicalRect,
) -> (area: BackdropArea)
    requires
        padding_fits(effect_rect, blur_reach(effect.blur)),
    ensures
        area == area_of(effect_rect, *effect, output_geo),
{
    let padding: i32 = blur_padding(effect.blur);
    let capture: LogicalRect = LogicalRect::new(
        effect_rect.x - padding,
        effect_rect.y - padding,
        effect_rect.width + padding * 2,
        effect_rect.height + padding * 2,
    );
    BackdropArea {
        effect_rect,
        padding,
        capture,
        visible: geometry::clip_capture_to_output(capture, output_geo),
    }
}

/// The captured area contains what the effect covers, and it reaches as far beyond it on
/// each side as the blur does.
pub proof fn law_capture_covers_the_effect(
    effect_rect: LogicalRect,
    effect: EffectTraits,
    output_geo: LogicalRect,
    px: int,
    py: int,
)
    requires
        padding_fits(effect_rect, blur_reach(effect.blur)),
        effect_rect.x - blur_reach(effect.blur) <= px < effect_rect.right() + blur_reach(
            effect.blur,
        ),
        effect_rect.y - blur_reach(effect.blur) <= py < effect_rect.bottom() + blur_reach(
            effect.blur,
        ),
    ensures
        area_of(effect_rect, effect, output_geo).capture.covers(px, py),
{
}

/// What can be seen through an effect.
pub struct SceneBehind<'a> {
    /// Grows with every change of what the layer surfaces below all windows show.
    pub lower_generation: u64,
    pub windows: &'a [WindowPlace],
    pub lower_layers: &'a [LayerPlace],
    /// Layer surfaces above all windows, but below the effect.
    pub upper_layers: &'a [LayerPlace],
    pub output_loc: LogicalPoint,
}

/// What can be seen through an effect, as lists.
pub struct SceneView {
    pub lower_generation: u64,
    pub windows: Seq<WindowPlace>,
    pub lower_layers: Seq<LayerPlace>,
    pub upper_layers: Seq<LayerPlace>,
    pub output_loc: LogicalPoint,
}

impl<'a> View for SceneBehind<'a> {
    type V = SceneView;

    open spec fn view(&self) -> SceneView {
        SceneView {
            lower_generation: self.lower_generation,
            windows: self.windows@,
            lower_layers: self.lower_layers@,
            upper_layers: self.upper_layers@,
            output_loc: self.output_loc,
        }
    }
}

impl SceneView {
    /// Whatever the effect shows can be compared with the area that it covers.
    pub open spec fn fits_for(self, effect: EffectTraits, effect_rect: LogicalRect) -> bool {
        &&& effect.uses_backdrop || effect.uses_xray ==> effect_rect.fits()
            && signature::layers_fit(self.lower_layers, self.output_loc)
        &&& effect.uses_backdrop ==> signature::windows_fit(self.windows)
            && signature::layers_fit(self.upper_layers, self.output_loc)
    }
}

pub open spec fn generation_chunks(effect: EffectTraits, scene: SceneView) -> Seq<Seq<u8>> {
    if effect.uses_backdrop || effect.uses_xray {
        seq![signature::word_chunk(scene.lower_generation)]
    } else {
        Seq::empty()
    }
}

pub open spec fn seen_window_chunks(
    effect: EffectTraits,
    scene: SceneView,
    effect_rect: LogicalRect,
) -> Seq<Seq<u8>> {
    if effect.uses_backdrop {
        signature::window_chunks(scene.windows, effect_rect)
    } else {
        Seq::empty()
    }
}

pub open spec fn seen_lower_chunks(
    effect: EffectTraits,
    scene: SceneView,
    effect_rect: LogicalRect,
) -> Seq<Seq<u8>> {
    if effect.uses_backdrop || effect.uses_xray {
        signature::layer_chunks(scene.lower_layers, scene.output_loc, effect_rect)
    } else {
        Seq::empty()
    }
}

pub open spec fn seen_upper_chunks(
    effect: EffectTraits,
    scene: SceneView,
    effect_rect: LogicalRect,
) -> Seq<Seq<u8>> {
    if effect.uses_backdrop {
        signature::layer_chunks(scene.upper_layers, scene.output_loc, effect_rect)
    } else {
        Seq::empty()
    }
}

fn hash_generation(hasher: &mut SceneHasher, effect: &EffectTraits, scene: &SceneBehind)
    ensures
        final(hasher)@ == old(hasher)@ + generation_chunks(*effect, scene@),
{
    if effect.uses_backdrop || effect.uses_xray {
        hasher.word(scene.lower_generation);
    }
}

fn hash_windows_and_lower_layers(
    hasher: &mut SceneHasher,
    effect: &EffectTraits,
    scene: &SceneBehind,
    effect_rect: LogicalRect,
)
    requires
        scene@.fits_for(*effect, effect_rect),
    ensures
        final(hasher)@ == old(hasher)@ + seen_window_chunks(*effect, scene@, effect_rect)
            + seen_lower_chunks(*effect, scene@, effect_rect),
{
    if effect.uses_backdrop {
        signature::hash_window_scene_contributors(hasher, scene.windows, effect_rect);
    }
    if effect.uses_backdrop || effect.uses_xray {
        signature::hash_layer_scene_contributors(
            hasher,
            scene.lower_layers,
            scene.output_loc,
            effect_rect,
        );
    }
}

/// An effect that a decoration draws.
pub struct ShaderItem<'a> {
    /// The place of the element in the decoration.
    pub order: usize,
    pub stable_key: &'a str,
    /// Where the element is drawn.
    pub rect: LogicalRect,
    pub clip_radius: i32,
    pub texture_backed: bool,
    pub effect: EffectTraits,
    /// A description of the effect that tells any two effects apart.
    pub effect_text: &'a str,
}

impl<'a> ShaderItem<'a> {
    /// The effect is drawn from a captured picture rather than from the frame itself.
    pub open spec fn is_captured(self, prefer_framebuffer: bool) -> bool {
        self.texture_backed && (!prefer_framebuffer || !self.effect.supports_framebuffer_backdrop)
    }
}

/// What the picture of an effect of a decoration depends on. The origin is that of the
/// captured area in pixels.
pub open spec fn shader_chunks(
    item: ShaderItem,
    area: BackdropArea,
    scene: SceneView,
    output_geo: LogicalRect,
    origin: LogicalPoint,
) -> Seq<Seq<u8>> {
    signature::text_chunks(item.stable_key@) + signature::rect_chunks(area.effect_rect)
        + signature::rect_chunks(output_geo) + seq![
        signature::int_chunk(area.padding),
        signature::int_chunk(item.clip_radius),
    ] + generation_chunks(item.effect, scene) + signature::text_chunks(item.effect_text@)
        + signature::rect_chunks(area.visible) + seq![
        signature::int_chunk(origin.x),
        signature::int_chunk(origin.y),
    ] + seen_window_chunks(item.effect, scene, area.effect_rect) + seen_lower_chunks(
        item.effect,
        scene,
        area.effect_rect,
    )
}

pub fn shader_signature(
    item: &ShaderItem,
    area: &BackdropArea,
    scene: &SceneBehind,
    output_geo: LogicalRect,
    origin: LogicalPoint,
) -> (signature: u64)
    requires
        scene@.fits_for(item.effect, area.effect_rect),
    ensures
        signature == signature::signature_of(shader_chunks(*item, *area, scene@, output_geo, origin)),
{
    let mut hasher: SceneHasher = SceneHasher::new();
    hasher.text(item.stable_key);
    hasher.rect(area.effect_rect);
    hasher.rect(output_geo);
    hasher.number(area.padding);
    hasher.number(item.clip_radius);
    hash_generation(&mut hasher, &item.effect, scene);
    hasher.text(item.effect_text);
    hasher.rect(area.visible);
    hasher.number(origin.x);
    hasher.number(origin.y);
    hash_windows_and_lower_layers(&mut hasher, &item.effect, scene, area.effect_rect);
    assert(hasher@ =~= shader_chunks(*item, *area, scene@, output_geo, origin));
    hasher.finish()
}

/// What the picture of a background effect that a client asked for depends on.
pub open spec fn protocol_chunks(
    stable_key: Seq<char>,
    effect: EffectTraits,
    effect_text: Seq<char>,
    area: BackdropArea,
    scene: SceneView,
    output_geo: LogicalRect,
) -> Seq<Seq<u8>> {
    signature::text_chunks(stable_key) + signature::rect_chunks(area.effect_rect)
        + signature::rect_chunks(output_geo) + seq![signature::int_chunk(area.padding)]
        + generation_chunks(effect, scene) + signature::text_chunks(effect_text)
        + signature::rect_chunks(area.capture) + seen_window_chunks(effect, scene, area.effect_rect)
        + seen_lower_chunks(effect, scene, area.effect_rect)
}

pub fn protocol_signature(
    stable_key: &str,
    effect: &EffectTraits,
    effect_text: &str,
    area: &BackdropArea,
    scene: &SceneBehind,
    output_geo: LogicalRect,
) -> (signature: u64)
    requires
        scene@.fits_for(*effect, area.effect_rect),
    ensures
        signature == signature::signature_of(
            protocol_chunks(stable_key@, *effect, effect_text@, *area, scene@, output_geo),
        ),
{
    let mut hasher: SceneHasher = SceneHasher::new();
    hasher.text(stable_key);
    hasher.rect(area.effect_rect);
    hasher.rect(output_geo);
    hasher.number(area.padding);
    hash_generation(&mut hasher, effect, scene);
    hasher.text(effect_text);
    hasher.rect(area.capture);
    hash_windows_and_lower_layers(&mut hasher, effect, scene, area.effect_rect);
    assert(hasher@ =~= protocol_chunks(
        stable_key@,
        *effect,
        effect_text@,
        *area,
        scene@,
        output_geo,
    ));
    hasher.finish()
}

/// What the background of a layer surface above the windows depends on.
pub open spec fn upper_layer_chunks(
    stable_key: Seq<char>,
    effect: EffectTraits,
    effect_text: Seq<char>,
    area: BackdropArea,
    scene: SceneView,
) -> Seq<Seq<u8>> {
    signature::text_chunks(stable_key) + generation_chunks(effect, scene) + seen_window_chunks(
        effect,
        scene,
        area.effect_rect,
    ) + seen_lower_chunks(effect, scene, area.effect_rect) + seen_upper_chunks(
        effect,
        scene,
        area.effect_rect,
    ) + signature::text_chunks(effect_text) + signature::rect_chunks(area.effect_rect)
        + signature::rect_chunks(area.capture)
}

pub fn upper_layer_signature(
    stable_key: &str,
    effect: &EffectTraits,
    effect_text: &str,
    area: &BackdropArea,
    scene: &SceneBehind,
) -> (signature: u64)
    requires
        scene@.fits_for(*effect, area.effect_rect),
    ensures
        signature == signature::signature_of(
            upper_layer_chunks(stable_key@, *effect, effect_text@, *area, scene@),
        ),
{
    let mut hasher: SceneHasher = SceneHasher::new();
    hasher.text(stable_key);
    hash_generation(&mut hasher, effect, scene);
    hash_windows_and_lower_layers(&mut hasher, effect, scene, area.effect_rect);
    if effect.uses_backdrop {
        signature::hash_layer_scene_contributors(
            &mut hasher,
            scene.upper_layers,
            scene.output_loc,
            area.effect_rect,
        );
    }
    hasher.text(effect_text);
    hasher.rect(area.effect_rect);
    hasher.rect(area.capture);
    assert(hasher@ =~= upper_layer_chunks(stable_key@, *effect, effect_text@, *area, scene@));
    hasher.finish()
}

/// What the background of a layer surface below the windows depends on.
pub open spec fn lower_layer_chunks(
    stable_key: Seq<char>,
    lower_generation: u64,
    effect_text: Seq<char>,
    area: BackdropArea,
) -> Seq<Seq<u8>> {
    signature::text_chunks(stable_key) + seq![signature::word_chunk(lower_generation)]
        + signature::text_chunks(effect_text) + signature::rect_chunks(area.effect_rect)
        + signature::rect_chunks(area.capture)
}

pub fn lower_layer_signature(
    stable_key: &str,
    lower_generation: u64,
    effect_text: &str,
    area: &BackdropArea,
) -> (signature: u64)
    ensures
        signature == signature::signature_of(
            lower_layer_chunks(stable_key@, lower_generation, effect_text@, *area),
        ),
{
    let mut hasher: SceneHasher = SceneHasher::new();
    hasher.text(stable_key);
    hasher.word(lower_generation);
    hasher.text(effect_text);
    hasher.rect(area.effect_rect);
    hasher.rect(area.capture);
    assert(hasher@ =~= lower_layer_chunks(stable_key@, lower_generation, effect_text@, *area));
    hasher.finish()
}

/// Damage of what can be seen through effects, by what reported it.
pub struct SourceDamage<'a> {
    pub windows: &'a [OwnedDamageRect],
    pub lower_layers: &'a [OwnedDamageRect],
    pub upper_layers: &'a [OwnedDamageRect],
}

/// The damage that an effect has to look at: of the windows and the layer surfaces above
/// them if it shows what is behind it, and of the layer surfaces below the windows if it
/// shows anything but its own surface.
pub open spec fn relevant_damage(
    effect: EffectTraits,
    window_ids: Seq<Option<String>>,
    lower_ids: Seq<u32>,
    upper_ids: Seq<u32>,
    source: SourceDamage,
) -> Seq<OwnedDamageRect> {
    let windows = if effect.uses_backdrop {
        damage::window_damage(window_ids, source.windows@)
    } else {
        Seq::empty()
    };
    let lower = if effect.uses_backdrop || effect.uses_xray {
        damage::layer_damage(lower_ids, source.lower_layers@)
    } else {
        Seq::empty()
    };
    let upper = if effect.uses_backdrop {
        damage::layer_damage(upper_ids, source.upper_layers@)
    } else {
        Seq::empty()
    };
    windows + lower + upper
}

pub fn relevant_source_damage(
    effect: &EffectTraits,
    window_ids: &[Option<String>],
    lower_ids: &[u32],
    upper_ids: &[u32],
    source: &SourceDamage,
) -> (entries: Vec<OwnedDamageRect>)
    ensures
        entries@ == relevant_damage(*effect, window_ids@, lower_ids@, upper_ids@, *source),
{
    let mut entries: Vec<OwnedDamageRect> = Vec::new();
    if effect.uses_backdrop {
        let mut windows: Vec<OwnedDamageRect> = damage::collect_window_source_damage(
            window_ids,
            source.windows,
        );
        entries.append(&mut windows);
    }
    if effect.uses_backdrop || effect.uses_xray {
        let mut lower: Vec<OwnedDamageRect> = damage::collect_layer_source_damage(
            lower_ids,
            source.lower_layers,
        );
        entries.append(&mut lower);
    }
    if effect.uses_backdrop {
        let mut upper: Vec<OwnedDamageRect> = damage::collect_layer_source_damage(
            upper_ids,
            source.upper_layers,
        );
        entries.append(&mut upper);
    }
    assert(entries@ =~= relevant_damage(*effect, window_ids@, lower_ids@, upper_ids@, *source));
    entries
}

/// What the elements of a captured scene come from: a list that could not be built is left
/// out.
pub open spec fn built<E>(lists: Seq<Option<Vec<E>>>) -> Seq<E>
    decreases lists.len(),
{
    if lists.len() == 0 {
        Seq::empty()
    } else {
        built(lists.drop_last()) + match lists.last() {
            Some(list) => list@,
            None => Seq::empty(),
        }
    }
}

fn append_built<E>(scene: &mut Vec<E>, lists: Vec<Option<Vec<E>>>)
    ensures
        final(scene)@ == old(scene)@ + built(lists@),
{
    let ghost all = lists@;
    let ghost before = scene@;
    assert(all.take(0) =~= Seq::<Option<Vec<E>>>::empty());
    for list in it: lists
        invariant
            it.seq() == all,
            scene@ =~= before + built(all.take(it.index() as int)),
    {
        assert(all.take(it.index() + 1).drop_last() =~= all.take(it.index() as int));
        match list {
            Some(mut list) => {
                scene.append(&mut list);
            },
            None => {},
        }
    }
    assert(all.take(all.len() as int) =~= all);
}

/// The scene that is captured for an effect: layer surfaces above all windows come before
/// the windows, and these before the layer surfaces below them.
pub fn backdrop_scene<E>(
    upper_layers: Vec<Option<Vec<E>>>,
    windows: Vec<Option<Vec<E>>>,
    lower_layers: Vec<Option<Vec<E>>>,
) -> (scene: Vec<E>)
    ensures
        scene@ == built(upper_layers@) + built(windows@) + built(lower_layers@),
{
    let mut scene: Vec<E> = Vec::new();
    append_built(&mut scene, upper_layers);
    append_built(&mut scene, windows);
    append_built(&mut scene, lower_layers);
    scene
}

/// What an effect is applied to first.
#[derive(Clone, Copy, Debug, PartialEq, Eq, Structural)]
pub enum InputPicture {
    Backdrop,
    Xray,
    White,
}

/// A picture of a scene is taken where the effect uses it and there is something in it.
pub fn takes_picture<E>(used: bool, scene: &[E]) -> (r: bool)
    ensures
        r == (used && scene@.len() > 0),
{
    used && scene.len() > 0
}

/// Which pictures could be had.
#[derive(Clone, Copy, Debug, PartialEq, Eq, Structural)]
pub struct PicturesTaken {
    pub backdrop: bool,
    pub xray: bool,
    pub white: bool,
}

/// The picture of what is behind, else that of the layer surfaces alone, else plain white.
/// There is none of a scene that the effect does not use or that nothing is in.
pub open spec fn input_of(
    effect: EffectTraits,
    backdrop_len: nat,
    xray_len: nat,
    taken: PicturesTaken,
) -> Option<InputPicture> {
    if effect.uses_backdrop && backdrop_len > 0 && taken.backdrop {
        Some(InputPicture::Backdrop)
    } else if effect.uses_xray && xray_len > 0 && taken.xray {
        Some(InputPicture::Xray)
    } else if taken.white {
        Some(InputPicture::White)
    } else {
        None
    }
}

/// What an effect is applied to first, if it can be drawn at all.
pub fn effect_input<E>(
    effect: &EffectTraits,
    backdrop_scene: &[E],
    xray_scene: &[E],
    taken: PicturesTaken,
) -> (input: Option<InputPicture>)
    ensures
        input == input_of(*effect, backdrop_scene@.len(), xray_scene@.len(), taken),
{
    if takes_picture(effect.uses_backdrop, backdrop_scene) && taken.backdrop {
        Some(InputPicture::Backdrop)
    } else if takes_picture(effect.uses_xray, xray_scene) && taken.xray {
        Some(InputPicture::Xray)
    } else if taken.white {
        Some(InputPicture::White)
    } else {
        None
    }
}

/// An effect is never applied to the picture of an empty scene.
pub proof fn law_empty_scenes_give_no_picture(
    effect: EffectTraits,
    backdrop_len: nat,
    xray_len: nat,
    taken: PicturesTaken,
)
    ensures
        backdrop_len == 0 ==> input_of(effect, backdrop_len, xray_len, taken) != Some(
            InputPicture::Backdrop,
        ),
        xray_len == 0 ==> input_of(effect, backdrop_len, xray_len, taken) != Some(
            InputPicture::Xray,
        ),
{
}

pub open spec fn windows_seen_by(effect: EffectTraits, scene: SceneView) -> Seq<WindowPlace> {
    if effect.uses_backdrop {
        scene.windows
    } else {
        Seq::empty()
    }
}

pub open spec fn lower_layers_seen_by(effect: EffectTraits, scene: SceneView) -> Seq<LayerPlace> {
    if effect.uses_backdrop || effect.uses_xray {
        scene.lower_layers
    } else {
        Seq::empty()
    }
}

pub open spec fn upper_layers_seen_by(effect: EffectTraits, scene: SceneView) -> Seq<LayerPlace> {
    if effect.uses_backdrop {
        scene.upper_layers
    } else {
        Seq::empty()
    }
}

/// Every one of the windows that lies under the effect is among the others, with the same
/// name and at the same place.
pub open spec fn windows_are_among(
    windows: Seq<WindowPlace>,
    effect_rect: LogicalRect,
    others: Seq<WindowPlace>,
) -> bool {
    forall|i: int|
        0 <= i < windows.len() && (#[trigger] windows[i]).contribution() is Some && !(
        windows[i].contribution()->0).1.disjoint_from(effect_rect) ==> signature::shows_window(
            others,
            (windows[i].contribution()->0).0,
            (windows[i].contribution()->0).1,
        )
}

/// Every one of the layer surfaces that lies under the effect is among the others, at the same
/// place.
pub open spec fn layers_are_among(
    layers: Seq<LayerPlace>,
    output_loc: LogicalPoint,
    effect_rect: LogicalRect,
    others: Seq<LayerPlace>,
    other_loc: LogicalPoint,
) -> bool {
    forall|i: int|
        0 <= i < layers.len() && (#[trigger] layers[i]).geometry is Some && !layers[i].global_rect(
            output_loc,
        ).disjoint_from(effect_rect) ==> signature::shows_layer(
            others,
            other_loc,
            layers[i].protocol_id,
            layers[i].global_rect(output_loc),
        )
}

proof fn lemma_same_things_seen(
    a_windows: Seq<WindowPlace>,
    a_layers: Seq<LayerPlace>,
    a_loc: LogicalPoint,
    a_rect: LogicalRect,
    b_windows: Seq<WindowPlace>,
    b_layers: Seq<LayerPlace>,
    b_loc: LogicalPoint,
    b_rect: LogicalRect,
)
    requires
        signature::window_chunks(a_windows, a_rect) + signature::layer_chunks(
            a_layers,
            a_loc,
            a_rect,
        ) == signature::window_chunks(b_windows, b_rect) + signature::layer_chunks(
            b_layers,
            b_loc,
            b_rect,
        ),
    ensures
        windows_are_among(a_windows, a_rect, b_windows),
        layers_are_among(a_layers, a_loc, a_rect, b_layers, b_loc),
{
    if signature::window_chunks(a_windows, a_rect).len() <= signature::window_chunks(
        b_windows,
        b_rect,
    ).len() {
        signature::lemma_split_contributions(
            a_windows,
            a_layers,
            a_loc,
            a_rect,
            b_windows,
            b_layers,
            b_loc,
            b_rect,
        );
    } else {
        signature::lemma_split_contributions(
            b_windows,
            b_layers,
            b_loc,
            b_rect,
            a_windows,
            a_layers,
            a_loc,
            a_rect,
        );
    }
    assert forall|i: int|
        0 <= i < a_windows.len() && (#[trigger] a_windows[i]).contribution() is Some && !(
        a_windows[i].contribution()->0).1.disjoint_from(a_rect) implies signature::shows_window(
        b_windows,
        (a_windows[i].contribution()->0).0,
        (a_windows[i].contribution()->0).1,
    ) by {
        signature::law_seen_windows_tell_stacks_apart(a_windows, b_windows, a_rect, b_rect, i);
    }
    assert forall|i: int|
        0 <= i < a_layers.len() && (#[trigger] a_layers[i]).geometry is Some
            && !a_layers[i].global_rect(a_loc).disjoint_from(a_rect) implies signature::shows_layer(
        b_layers,
        b_loc,
        a_layers[i].protocol_id,
        a_layers[i].global_rect(a_loc),
    ) by {
        signature::law_seen_layers_tell_sets_apart(
            a_layers,
            b_layers,
            a_loc,
            b_loc,
            a_rect,
            b_rect,
            i,
        );
    }
}

#[verifier::rlimit(30)]
proof fn lemma_shader_layout(
    item: ShaderItem,
    area: BackdropArea,
    scene: SceneView,
    output_geo: LogicalRect,
    origin: LogicalPoint,
)
    ensures
        ({
            let x = shader_chunks(item, area, scene, output_geo, origin);
            let g = generation_chunks(item.effect, scene).len() as int;
            &&& g == 0 || g == 1
            &&& x.len() >= 20 + g
            &&& x[0] == vstd::utf8::encode_utf8(item.stable_key@)
            &&& x.subrange(2, 6) == signature::rect_chunks(area.effect_rect)
            &&& x.subrange(6, 10) == signature::rect_chunks(output_geo)
            &&& x[10] == signature::int_chunk(area.padding)
            &&& x[11] == signature::int_chunk(item.clip_radius)
            &&& g == 1 ==> x[12] == signature::word_chunk(scene.lower_generation)
            &&& x[12 + g] == vstd::utf8::encode_utf8(item.effect_text@)
            &&& x[13 + g] == seq![255u8]
            &&& x.subrange(14 + g, 18 + g) == signature::rect_chunks(area.visible)
            &&& x[18 + g] == signature::int_chunk(origin.x)
            &&& x[19 + g] == signature::int_chunk(origin.y)
            &&& x.skip(20 + g) == signature::window_chunks(
                windows_seen_by(item.effect, scene),
                area.effect_rect,
            ) + signature::layer_chunks(
                lower_layers_seen_by(item.effect, scene),
                scene.output_loc,
                area.effect_rect,
            )
        }),
{
    let x = shader_chunks(item, area, scene, output_geo, origin);
    let g = generation_chunks(item.effect, scene).len() as int;
    assert(x.subrange(2, 6) =~= signature::rect_chunks(area.effect_rect));
    assert(x.subrange(6, 10) =~= signature::rect_chunks(output_geo));
    assert(x.subrange(14 + g, 18 + g) =~= signature::rect_chunks(area.visible));
    assert(x.skip(20 + g) =~= signature::window_chunks(
        windows_seen_by(item.effect, scene),
        area.effect_rect,
    ) + signature::layer_chunks(
        lower_layers_seen_by(item.effect, scene),
        scene.output_loc,
        area.effect_rect,
    ));
}

/// Effects of decorations are told apart by all that their picture depends on: where the
/// effect is, what of it is captured and from where, how it is clipped, what it is, and what
/// lies under it. If the data of two effects agree, so does all of this.
#[verifier::rlimit(30)]
pub proof fn law_shader_chunks_tell_effects_apart(
    a: ShaderItem,
    a_area: BackdropArea,
    a_scene: SceneView,
    a_output: LogicalRect,
    a_origin: LogicalPoint,
    b: ShaderItem,
    b_area: BackdropArea,
    b_scene: SceneView,
    b_output: LogicalRect,
    b_origin: LogicalPoint,
)
    requires
        shader_chunks(a, a_area, a_scene, a_output, a_origin) == shader_chunks(
            b,
            b_area,
            b_scene,
            b_output,
            b_origin,
        ),
    ensures
        a.stable_key@ == b.stable_key@,
        a_area.effect_rect == b_area.effect_rect,
        a_output == b_output,
        a_area.padding == b_area.padding,
        a.clip_radius == b.clip_radius,
        a.effect_text@ == b.effect_text@,
        a_area.visible == b_area.visible,
        a_origin == b_origin,
        (a.effect.uses_backdrop || a.effect.uses_xray) == (b.effect.uses_backdrop
            || b.effect.uses_xray),
        a.effect.uses_backdrop || a.effect.uses_xray ==> a_scene.lower_generation
            == b_scene.lower_generation,
        windows_are_among(
            windows_seen_by(a.effect, a_scene),
            a_area.effect_rect,
            windows_seen_by(b.effect, b_scene),
        ),
        layers_are_among(
            lower_layers_seen_by(a.effect, a_scene),
            a_scene.output_loc,
            a_area.effect_rect,
            lower_layers_seen_by(b.effect, b_scene),
            b_scene.output_loc,
        ),
{
    let x = shader_chunks(a, a_area, a_scene, a_output, a_origin);
    let y = shader_chunks(b, b_area, b_scene, b_output, b_origin);
    let g = generation_chunks(a.effect, a_scene).len() as int;
    let rect = a_area.effect_rect;
    lemma_shader_layout(a, a_area, a_scene, a_output, a_origin);
    lemma_shader_layout(b, b_area, b_scene, b_output, b_origin);
    signature::lemma_same_text(x, y, 0, a.stable_key@, b.stable_key@);
    signature::lemma_same_rect(x, y, 2, a_area.effect_rect, b_area.effect_rect);
    signature::lemma_same_rect(x, y, 6, a_output, b_output);
    signature::lemma_same_int(x, y, 10, a_area.padding, b_area.padding);
    signature::lemma_same_int(x, y, 11, a.clip_radius, b.clip_radius);
    signature::lemma_text_is_no_end(a.effect_text@);
    signature::lemma_text_is_no_end(b.effect_text@);
    if g == 1 {
        signature::lemma_same_word(x, y, 12, a_scene.lower_generation, b_scene.lower_generation);
    }
    signature::lemma_same_text(x, y, 12 + g, a.effect_text@, b.effect_text@);
    signature::lemma_same_rect(x, y, 14 + g, a_area.visible, b_area.visible);
    signature::lemma_same_int(x, y, 18 + g, a_origin.x, b_origin.x);
    signature::lemma_same_int(x, y, 19 + g, a_origin.y, b_origin.y);
    lemma_same_things_seen(
        windows_seen_by(a.effect, a_scene),
        lower_layers_seen_by(a.effect, a_scene),
        a_scene.output_loc,
        rect,
        windows_seen_by(b.effect, b_scene),
        lower_layers_seen_by(b.effect, b_scene),
        b_scene.output_loc,
        rect,
    );
}

/// The signature of an effect of a decoration is that of data that tells effects apart.
pub proof fn law_shader_signature_tells_effects_apart(
    a: &ShaderItem,
    a_area: &BackdropArea,
    a_scene: &SceneBehind,
    a_output: LogicalRect,
    a_origin: LogicalPoint,
    a_signature: u64,
    b: &ShaderItem,
    b_area: &BackdropArea,
    b_scene: &SceneBehind,
    b_output: LogicalRect,
    b_origin: LogicalPoint,
    b_signature: u64,
)
    requires
        call_ensures(shader_signature, (a, a_area, a_scene, a_output, a_origin), a_signature),
        call_ensures(shader_signature, (b, b_area, b_scene, b_output, b_origin), b_signature),
    ensures
        exists|x: Seq<Seq<u8>>, y: Seq<Seq<u8>>|
            a_signature == #[trigger] signature::signature_of(x) && b_signature
                == #[trigger] signature::signature_of(y) && (x == y ==> {
                &&& a.stable_key@ == b.stable_key@
                &&& a_area.effect_rect == b_area.effect_rect
                &&& a_output == b_output
                &&& a_area.padding == b_area.padding
                &&& a.clip_radius == b.clip_radius
                &&& a.effect_text@ == b.effect_text@
                &&& a_area.visible == b_area.visible
                &&& a_origin == b_origin
                &&& a.effect.uses_backdrop || a.effect.uses_xray ==> a_scene.lower_generation
                    == b_scene.lower_generation
                &&& windows_are_among(
                    windows_seen_by(a.effect, a_scene@),
                    a_area.effect_rect,
                    windows_seen_by(b.effect, b_scene@),
                )
                &&& layers_are_among(
                    lower_layers_seen_by(a.effect, a_scene@),
                    a_scene.output_loc,
                    a_area.effect_rect,
                    lower_layers_seen_by(b.effect, b_scene@),
                    b_scene.output_loc,
                )
            }),
{
    let x = shader_chunks(*a, *a_area, a_scene@, a_output, a_origin);
    let y = shader_chunks(*b, *b_area, b_scene@, b_output, b_origin);
    if x == y {
        law_shader_chunks_tell_effects_apart(
            *a,
            *a_area,
            a_scene@,
            a_output,
            a_origin,
            *b,
            *b_area,
            b_scene@,
            b_output,
            b_origin,
        );
    }
    assert(a_signature == signature::signature_of(x) && b_signature == signature::signature_of(y));
}

#[verifier::rlimit(30)]
proof fn lemma_protocol_layout(
    key: Seq<char>,
    effect: EffectTraits,
    text: Seq<char>,
    area: BackdropArea,
    scene: SceneView,
    output_geo: LogicalRect,
)
    ensures
        ({
            let x = protocol_chunks(key, effect, text, area, scene, output_geo);
            let g = generation_chunks(effect, scene).len() as int;
            &&& g == 0 || g == 1
            &&& x.len() >= 17 + g
            &&& x[0] == vstd::utf8::encode_utf8(key)
            &&& x.subrange(2, 6) == signature::rect_chunks(area.effect_rect)
            &&& x.subrange(6, 10) == signature::rect_chunks(output_geo)
            &&& x[10] == signature::int_chunk(area.padding)
            &&& g == 1 ==> x[11] == signature::word_chunk(scene.lower_generation)
            &&& x[11 + g] == vstd::utf8::encode_utf8(text)
            &&& x[12 + g] == seq![255u8]
            &&& x.subrange(13 + g, 17 + g) == signature::rect_chunks(area.capture)
            &&& x.skip(17 + g) == signature::window_chunks(
                windows_seen_by(effect, scene),
                area.effect_rect,
            ) + signature::layer_chunks(
                lower_layers_seen_by(effect, scene),
                scene.output_loc,
                area.effect_rect,
            )
        }),
{
    let x = protocol_chunks(key, effect, text, area, scene, output_geo);
    let g = generation_chunks(effect, scene).len() as int;
    assert(x.subrange(2, 6) =~= signature::rect_chunks(area.effect_rect));
    assert(x.subrange(6, 10) =~= signature::rect_chunks(output_geo));
    assert(x.subrange(13 + g, 17 + g) =~= signature::rect_chunks(area.capture));
    assert(x.skip(17 + g) =~= signature::window_chunks(
        windows_seen_by(effect, scene),
        area.effect_rect,
    ) + signature::layer_chunks(
        lower_layers_seen_by(effect, scene),
        scene.output_loc,
        area.effect_rect,
    ));
}

/// Background effects that clients ask for are told apart by all that their picture depends
/// on.
#[verifier::rlimit(30)]
pub proof fn law_protocol_chunks_tell_effects_apart(
    a_key: Seq<char>,
    a_effect: EffectTraits,
    a_text: Seq<char>,
    a_area: BackdropArea,
    a_scene: SceneView,
    a_output: LogicalRect,
    b_key: Seq<char>,
    b_effect: EffectTraits,
    b_text: Seq<char>,
    b_area: BackdropArea,
    b_scene: SceneView,
    b_output: LogicalRect,
)
    requires
        protocol_chunks(a_key, a_effect, a_text, a_area, a_scene, a_output) == protocol_chunks(
            b_key,
            b_effect,
            b_text,
            b_area,
            b_scene,
            b_output,
        ),
    ensures
        a_key == b_key,
        a_area.effect_rect == b_area.effect_rect,
        a_output == b_output,
        a_area.padding == b_area.padding,
        a_text == b_text,
        a_area.capture == b_area.capture,
        (a_effect.uses_backdrop || a_effect.uses_xray) == (b_effect.uses_backdrop
            || b_effect.uses_xray),
        a_effect.uses_backdrop || a_effect.uses_xray ==> a_scene.lower_generation
            == b_scene.lower_generation,
        windows_are_among(
            windows_seen_by(a_effect, a_scene),
            a_area.effect_rect,
            windows_seen_by(b_effect, b_scene),
        ),
        layers_are_among(
            lower_layers_seen_by(a_effect, a_scene),
            a_scene.output_loc,
            a_area.effect_rect,
            lower_layers_seen_by(b_effect, b_scene),
            b_scene.output_loc,
        ),
{
    let x = protocol_chunks(a_key, a_effect, a_text, a_area, a_scene, a_output);
    let y = protocol_chunks(b_key, b_effect, b_text, b_area, b_scene, b_output);
    let g = generation_chunks(a_effect, a_scene).len() as int;
    let rect = a_area.effect_rect;
    lemma_protocol_layout(a_key, a_effect, a_text, a_area, a_scene, a_output);
    lemma_protocol_layout(b_key, b_effect, b_text, b_area, b_scene, b_output);
    signature::lemma_same_text(x, y, 0, a_key, b_key);
    signature::lemma_same_rect(x, y, 2, a_area.effect_rect, b_area.effect_rect);
    signature::lemma_same_rect(x, y, 6, a_output, b_output);
    signature::lemma_same_int(x, y, 10, a_area.padding, b_area.padding);
    signature::lemma_text_is_no_end(a_text);
    signature::lemma_text_is_no_end(b_text);
    if g == 1 {
        signature::lemma_same_word(x, y, 11, a_scene.lower_generation, b_scene.lower_generation);
    }
    signature::lemma_same_text(x, y, 11 + g, a_text, b_text);
    signature::lemma_same_rect(x, y, 13 + g, a_area.capture, b_area.capture);
    lemma_same_things_seen(
        windows_seen_by(a_effect, a_scene),
        lower_layers_seen_by(a_effect, a_scene),
        a_scene.output_loc,
        rect,
        windows_seen_by(b_effect, b_scene),
        lower_layers_seen_by(b_effect, b_scene),
        b_scene.output_loc,
        rect,
    );
}

/// The signature of a background effect that a client asked for is that of data that tells
/// effects apart.
pub proof fn law_protocol_signature_tells_effects_apart(
    a_key: &str,
    a_effect: &EffectTraits,
    a_text: &str,
    a_area: &BackdropArea,
    a_scene: &SceneBehind,
    a_output: LogicalRect,
    a_signature: u64,
    b_key: &str,
    b_effect: &EffectTraits,
    b_text: &str,
    b_area: &BackdropArea,
    b_scene: &SceneBehind,
    b_output: LogicalRect,
    b_signature: u64,
)
    requires
        call_ensures(
            protocol_signature,
            (a_key, a_effect, a_text, a_area, a_scene, a_output),
            a_signature,
        ),
        call_ensures(
            protocol_signature,
            (b_key, b_effect, b_text, b_area, b_scene, b_output),
            b_signature,
        ),
    ensures
        exists|x: Seq<Seq<u8>>, y: Seq<Seq<u8>>|
            a_signature == #[trigger] signature::signature_of(x) && b_signature
                == #[trigger] signature::signature_of(y) && (x == y ==> {
                &&& a_key@ == b_key@
                &&& a_area.effect_rect == b_area.effect_rect
                &&& a_output == b_output
                &&& a_area.padding == b_area.padding
                &&& a_text@ == b_text@
                &&& a_area.capture == b_area.capture
                &&& a_effect.uses_backdrop || a_effect.uses_xray ==> a_scene.lower_generation
                    == b_scene.lower_generation
                &&& windows_are_among(
                    windows_seen_by(*a_effect, a_scene@),
                    a_area.effect_rect,
                    windows_seen_by(*b_effect, b_scene@),
                )
                &&& layers_are_among(
                    lower_layers_seen_by(*a_effect, a_scene@),
                    a_scene.output_loc,
                    a_area.effect_rect,
                    lower_layers_seen_by(*b_effect, b_scene@),
                    b_scene.output_loc,
                )
            }),
{
    let x = protocol_chunks(a_key@, *a_effect, a_text@, *a_area, a_scene@, a_output);
    let y = protocol_chunks(b_key@, *b_effect, b_text@, *b_area, b_scene@, b_output);
    if x == y {
        law_protocol_chunks_tell_effects_apart(
            a_key@,
            *a_effect,
            a_text@,
            *a_area,
            a_scene@,
            a_output,
            b_key@,
            *b_effect,
            b_text@,
            *b_area,
            b_scene@,
            b_output,
        );
    }
    assert(a_signature == signature::signature_of(x) && b_signature == signature::signature_of(y));
}

#[verifier::rlimit(30)]
proof fn lemma_upper_layer_layout(
    key: Seq<char>,
    effect: EffectTraits,
    text: Seq<char>,
    area: BackdropArea,
    scene: SceneView,
)
    ensures
        ({
            let x = upper_layer_chunks(key, effect, text, area, scene);
            let g = generation_chunks(effect, scene).len() as int;
            let n = x.len() as int;
            &&& g == 0 || g == 1
            &&& n >= 12 + g
            &&& g == 0 ==> n == 12
            &&& x[0] == vstd::utf8::encode_utf8(key)
            &&& g == 1 ==> x[2] == signature::word_chunk(scene.lower_generation)
            &&& x[n - 10] == vstd::utf8::encode_utf8(text)
            &&& x.subrange(n - 8, n - 4) == signature::rect_chunks(area.effect_rect)
            &&& x.subrange(n - 4, n) == signature::rect_chunks(area.capture)
            &&& x.subrange(2 + g, n - 10) == signature::window_chunks(
                windows_seen_by(effect, scene),
                area.effect_rect,
            ) + signature::layer_chunks(
                lower_layers_seen_by(effect, scene) + upper_layers_seen_by(effect, scene),
                scene.output_loc,
                area.effect_rect,
            )
        }),
{
    let x = upper_layer_chunks(key, effect, text, area, scene);
    let g = generation_chunks(effect, scene).len() as int;
    let n = x.len() as int;
    assert(x.subrange(n - 8, n - 4) =~= signature::rect_chunks(area.effect_rect));
    assert(x.subrange(n - 4, n) =~= signature::rect_chunks(area.capture));
    signature::lemma_layers_in_turn(
        lower_layers_seen_by(effect, scene),
        upper_layers_seen_by(effect, scene),
        scene.output_loc,
        area.effect_rect,
    );
    assert(x.subrange(2 + g, n - 10) =~= signature::window_chunks(
        windows_seen_by(effect, scene),
        area.effect_rect,
    ) + signature::layer_chunks(
        lower_layers_seen_by(effect, scene) + upper_layers_seen_by(effect, scene),
        scene.output_loc,
        area.effect_rect,
    ));
}

/// The backgrounds of layer surfaces above the windows are told apart by all that their
/// picture depends on; what lies under them may be a layer surface below all windows or one
/// above them.
#[verifier::rlimit(30)]
pub proof fn law_upper_layer_chunks_tell_effects_apart(
    a_key: Seq<char>,
    a_effect: EffectTraits,
    a_text: Seq<char>,
    a_area: BackdropArea,
    a_scene: SceneView,
    b_key: Seq<char>,
    b_effect: EffectTraits,
    b_text: Seq<char>,
    b_area: BackdropArea,
    b_scene: SceneView,
)
    requires
        upper_layer_chunks(a_key, a_effect, a_text, a_area, a_scene) == upper_layer_chunks(
            b_key,
            b_effect,
            b_text,
            b_area,
            b_scene,
        ),
    ensures
        a_key == b_key,
        a_area.effect_rect == b_area.effect_rect,
        a_text == b_text,
        a_area.capture == b_area.capture,
        (a_effect.uses_backdrop || a_effect.uses_xray) == (b_effect.uses_backdrop
            || b_effect.uses_xray),
        a_effect.uses_backdrop || a_effect.uses_xray ==> a_scene.lower_generation
            == b_scene.lower_generation,
        windows_are_among(
            windows_seen_by(a_effect, a_scene),
            a_area.effect_rect,
            windows_seen_by(b_effect, b_scene),
        ),
        layers_are_among(
            lower_layers_seen_by(a_effect, a_scene) + upper_layers_seen_by(a_effect, a_scene),
            a_scene.output_loc,
            a_area.effect_rect,
            lower_layers_seen_by(b_effect, b_scene) + upper_layers_seen_by(b_effect, b_scene),
            b_scene.output_loc,
        ),
{
    let x = upper_layer_chunks(a_key, a_effect, a_text, a_area, a_scene);
    let y = upper_layer_chunks(b_key, b_effect, b_text, b_area, b_scene);
    let n = x.len() as int;
    let g = generation_chunks(a_effect, a_scene).len() as int;
    let rect = a_area.effect_rect;
    let a_layers = lower_layers_seen_by(a_effect, a_scene) + upper_layers_seen_by(
        a_effect,
        a_scene,
    );
    let b_layers = lower_layers_seen_by(b_effect, b_scene) + upper_layers_seen_by(
        b_effect,
        b_scene,
    );
    lemma_upper_layer_layout(a_key, a_effect, a_text, a_area, a_scene);
    lemma_upper_layer_layout(b_key, b_effect, b_text, b_area, b_scene);
    signature::lemma_same_text(x, y, 0, a_key, b_key);
    if g == 1 {
        signature::lemma_same_word(x, y, 2, a_scene.lower_generation, b_scene.lower_generation);
    }
    signature::lemma_same_text(x, y, n - 10, a_text, b_text);
    signature::lemma_same_rect(x, y, n - 8, a_area.effect_rect, b_area.effect_rect);
    signature::lemma_same_rect(x, y, n - 4, a_area.capture, b_area.capture);
    lemma_same_things_seen(
        windows_seen_by(a_effect, a_scene),
        a_layers,
        a_scene.output_loc,
        rect,
        windows_seen_by(b_effect, b_scene),
        b_layers,
        b_scene.output_loc,
        rect,
    );
}

/// The signature of the background of a layer surface above the windows is that of data that
/// tells backgrounds apart.
pub proof fn law_upper_layer_signature_tells_effects_apart(
    a_key: &str,
    a_effect: &EffectTraits,
    a_text: &str,
    a_area: &BackdropArea,
    a_scene: &SceneBehind,
    a_signature: u64,
    b_key: &str,
    b_effect: &EffectTraits,
    b_text: &str,
    b_area: &BackdropArea,
    b_scene: &SceneBehind,
    b_signature: u64,
)
    requires
        call_ensures(upper_layer_signature, (a_key, a_effect, a_text, a_area, a_scene), a_signature),
        call_ensures(upper_layer_signature, (b_key, b_effect, b_text, b_area, b_scene), b_signature),
    ensures
        exists|x: Seq<Seq<u8>>, y: Seq<Seq<u8>>|
            a_signature == #[trigger] signature::signature_of(x) && b_signature
                == #[trigger] signature::signature_of(y) && (x == y ==> {
                &&& a_key@ == b_key@
                &&& a_area.effect_rect == b_area.effect_rect
                &&& a_text@ == b_text@
                &&& a_area.capture == b_area.capture
                &&& a_effect.uses_backdrop || a_effect.uses_xray ==> a_scene.lower_generation
                    == b_scene.lower_generation
                &&& windows_are_among(
                    windows_seen_by(*a_effect, a_scene@),
                    a_area.effect_rect,
                    windows_seen_by(*b_effect, b_scene@),
                )
                &&& layers_are_among(
                    lower_layers_seen_by(*a_effect, a_scene@) + upper_layers_seen_by(
                        *a_effect,
                        a_scene@,
                    ),
                    a_scene.output_loc,
                    a_area.effect_rect,
                    lower_layers_seen_by(*b_effect, b_scene@) + upper_layers_seen_by(
                        *b_effect,
                        b_scene@,
                    ),
                    b_scene.output_loc,
                )
            }),
{
    let x = upper_layer_chunks(a_key@, *a_effect, a_text@, *a_area, a_scene@);
    let y = upper_layer_chunks(b_key@, *b_effect, b_text@, *b_area, b_scene@);
    if x == y {
        law_upper_layer_chunks_tell_effects_apart(
            a_key@,
            *a_effect,
            a_text@,
            *a_area,
            a_scene@,
            b_key@,
            *b_effect,
            b_text@,
            *b_area,
            b_scene@,
        );
    }
    assert(a_signature == signature::signature_of(x) && b_signature == signature::signature_of(y));
}

/// The backgrounds of layer surfaces below the windows are told apart by all that their
/// picture depends on, and so by how often what the lower layers show has changed.
pub proof fn law_lower_layer_signature_tells_effects_apart(
    a_key: &str,
    a_generation: u64,
    a_text: &str,
    a_area: &BackdropArea,
    a_signature: u64,
    b_key: &str,
    b_generation: u64,
    b_text: &str,
    b_area: &BackdropArea,
    b_signature: u64,
)
    requires
        call_ensures(lower_layer_signature, (a_key, a_generation, a_text, a_area), a_signature),
        call_ensures(lower_layer_signature, (b_key, b_generation, b_text, b_area), b_signature),
    ensures
        exists|x: Seq<Seq<u8>>, y: Seq<Seq<u8>>|
            a_signature == #[trigger] signature::signature_of(x) && b_signature
                == #[trigger] signature::signature_of(y) && (x == y ==> {
                &&& a_key@ == b_key@
                &&& a_generation == b_generation
                &&& a_text@ == b_text@
                &&& a_area.effect_rect == b_area.effect_rect
                &&& a_area.capture == b_area.capture
            }),
{
    let x = lower_layer_chunks(a_key@, a_generation, a_text@, *a_area);
    let y = lower_layer_chunks(b_key@, b_generation, b_text@, *b_area);
    if x == y {
        signature::lemma_same_text(x, y, 0, a_key@, b_key@);
        signature::lemma_same_word(x, y, 2, a_generation, b_generation);
        signature::lemma_same_text(x, y, 3, a_text@, b_text@);
        assert(x.subrange(5, 9) =~= signature::rect_chunks(a_area.effect_rect));
        assert(y.subrange(5, 9) =~= signature::rect_chunks(b_area.effect_rect));
        signature::lemma_same_rect(x, y, 5, a_area.effect_rect, b_area.effect_rect);
        assert(x.subrange(9, 13) =~= signature::rect_chunks(a_area.capture));
        assert(y.subrange(9, 13) =~= signature::rect_chunks(b_area.capture));
        signature::lemma_same_rect(x, y, 9, a_area.capture, b_area.capture);
    }
    assert(a_signature == signature::signature_of(x) && b_signature == signature::signature_of(y));
}

/// How far the captured area reaches: by the area of the blur and no more, on every side, with
/// nothing around an effect without a blur, and further for a blur that is wider or is applied
/// more often.
pub proof fn law_area_around_the_effect(
    effect_rect: LogicalRect,
    effect: &EffectTraits,
    output_geo: LogicalRect,
    area: BackdropArea,
    px: int,
    py: int,
)
    requires
        padding_fits(effect_rect, blur_reach(effect.blur)),
        call_ensures(backdrop_area, (effect_rect, effect, output_geo), area),
        effect_rect.is_solid(),
        output_geo.is_solid(),
        area.capture.fits(),
        output_geo.fits(),
    ensures
        area.effect_rect == effect_rect,
        effect.blur is None ==> area.padding == 0 && area.capture == effect_rect,
        effect.blur is Some ==> area.padding >= 56,
        area.capture.x == effect_rect.x - area.padding,
        area.capture.y == effect_rect.y - area.padding,
        area.capture.right() == effect_rect.right() + area.padding,
        area.capture.bottom() == effect_rect.bottom() + area.padding,
        // What is captured of it is what the output shows.
        area.capture.covers(px, py) && output_geo.covers(px, py) ==> area.visible.covers(px, py),
        area.visible.covers(px, py) ==> area.capture.covers(px, py),
        !area.capture.disjoint_from(output_geo) && area.visible.covers(px, py)
            ==> output_geo.covers(px, py),
        area.capture.disjoint_from(output_geo) ==> area.visible == area.capture,
{
    if effect.blur is Some {
        lemma_reach(
            geometry::spec_max(effect.blur->0.radius as int, 1),
            geometry::spec_max(effect.blur->0.passes as int, 1),
        );
    }
    let left = geometry::spec_max(area.capture.x as int, output_geo.x as int);
    let top = geometry::spec_max(area.capture.y as int, output_geo.y as int);
    geometry::law_intersections_agree(area.capture, output_geo);
    if geometry::intersect_rects(area.capture, output_geo) is Some {
        assert(area.capture.covers(left, top) && output_geo.covers(left, top));
    }
}

/// A blur reaches further the wider it is and the more often it is applied; nothing less than
/// once and a pixel wide is counted.
pub proof fn law_blur_reach_grows(a: BlurStage, b: BlurStage)
    requires
        a.radius <= b.radius,
        a.passes <= b.passes,
    ensures
        blur_reach(Some(a)) <= blur_reach(Some(b)),
        a.radius >= 1 && a.passes >= 1 ==> blur_reach(Some(a)) == 24 * (a.radius * a.passes) + 32,
        a.radius < b.radius && a.radius >= 1 ==> blur_reach(Some(a)) < blur_reach(Some(b)),
        a.passes < b.passes && a.passes >= 1 ==> blur_reach(Some(a)) < blur_reach(Some(b)),
        blur_reach(None) == 0,
{
    let r = geometry::spec_max(a.radius as int, 1);
    let s = geometry::spec_max(b.radius as int, 1);
    let p = geometry::spec_max(a.passes as int, 1);
    let q = geometry::spec_max(b.passes as int, 1);
    assert(r * p <= s * q) by (nonlinear_arith)
        requires
            1 <= r <= s,
            1 <= p <= q,
    ;
    if r < s || p < q {
        assert(r * p < s * q) by (nonlinear_arith)
            requires
                1 <= r <= s,
                1 <= p <= q,
                r < s || p < q,
        ;
    }
    assert(r * p * 24 == 24 * (r * p));
    assert(s * q * 24 == 24 * (s * q));
}

/// Damage reaches an effect exactly if it comes from something that the effect shows.
pub proof fn law_damage_reaches_the_effects_that_show_it(
    effect: &EffectTraits,
    window_ids: &[Option<String>],
    lower_ids: &[u32],
    upper_ids: &[u32],
    source: &SourceDamage,
    entries: Vec<OwnedDamageRect>,
    entry: OwnedDamageRect,
)
    requires
        call_ensures(
            relevant_source_damage,
            (effect, window_ids, lower_ids, upper_ids, source),
            entries,
        ),
    ensures
        entries@.contains(entry) <==> {
            ||| effect.uses_backdrop && source.windows@.contains(entry) && exists|i: int|
                0 <= i < window_ids@.len() && (#[trigger] window_ids@[i]) is Some
                    && window_ids@[i]->0@ == entry.owner@
            ||| (effect.uses_backdrop || effect.uses_xray) && source.lower_layers@.contains(entry)
                && exists|i: int|
                0 <= i < lower_ids@.len() && crate::text::decimal((#[trigger] lower_ids@[i]) as int)
                    == entry.owner@
            ||| effect.uses_backdrop && source.upper_layers@.contains(entry) && exists|i: int|
                0 <= i < upper_ids@.len() && crate::text::decimal((#[trigger] upper_ids@[i]) as int)
                    == entry.owner@
        },
        !effect.uses_backdrop && !effect.uses_xray ==> entries@.len() == 0,
{
    damage::lemma_damage_is_of_its_owners(window_ids@, source.windows@, entry);
    damage::lemma_layer_damage_is_of_its_owners(lower_ids@, source.lower_layers@, entry);
    damage::lemma_layer_damage_is_of_its_owners(upper_ids@, source.upper_layers@, entry);
    let windows = if effect.uses_backdrop {
        damage::window_damage(window_ids@, source.windows@)
    } else {
        Seq::empty()
    };
    let lower = if effect.uses_backdrop || effect.uses_xray {
        damage::layer_damage(lower_ids@, source.lower_layers@)
    } else {
        Seq::empty()
    };
    let upper = if effect.uses_backdrop {
        damage::layer_damage(upper_ids@, source.upper_layers@)
    } else {
        Seq::empty()
    };
    assert(entries@ == windows + lower + upper);
    let all = windows + lower + upper;
    if windows.contains(entry) {
        let i = choose|i: int| 0 <= i < windows.len() && windows[i] == entry;
        assert(all[i] == entry);
    }
    if lower.contains(entry) {
        let i = choose|i: int| 0 <= i < lower.len() && lower[i] == entry;
        assert(all[windows.len() + i] == entry);
    }
    if upper.contains(entry) {
        let i = choose|i: int| 0 <= i < upper.len() && upper[i] == entry;
        assert(all[windows.len() + lower.len() + i] == entry);
    }
    if all.contains(entry) {
        let i = choose|i: int| 0 <= i < all.len() && all[i] == entry;
        if i < windows.len() {
            assert(windows[i] == entry);
        } else if i < windows.len() + lower.len() {
            assert(lower[i - windows.len()] == entry);
        } else {
            assert(upper[i - windows.len() - lower.len()] == entry);
        }
    }
}

/// A captured scene is stacked as the screen is: layer surfaces above the windows, the
/// windows, layer surfaces below them. Nothing of a list that was built is left out.
pub proof fn law_captured_scenes_are_stacked<E>(
    upper: Vec<Option<Vec<E>>>,
    windows: Vec<Option<Vec<E>>>,
    lower: Vec<Option<Vec<E>>>,
    scene: Vec<E>,
)
    requires
        call_ensures(backdrop_scene::<E>, (upper, windows, lower), scene),
    ensures
        scene@ == built(upper@) + built(windows@) + built(lower@),
        upper@.len() == 0 && windows@.len() == 0 && lower@.len() == 1 && lower@[0] is Some
            ==> scene@ == lower@[0]->0@,
        upper@.len() == 0 && windows@.len() == 2 && lower@.len() == 0 && windows@[0] is Some
            && windows@[1] is Some ==> scene@ == windows@[0]->0@ + windows@[1]->0@,
        upper@.len() == 1 && windows@.len() == 1 && lower@.len() == 1 && upper@[0] is Some
            && windows@[0] is Some && lower@[0] is Some ==> scene@ == upper@[0]->0@
            + windows@[0]->0@ + lower@[0]->0@,
{
    reveal_with_fuel(built, 3);
    assert(windows@.len() == 2 ==> windows@.drop_last().last() == windows@[0]);
    assert(Seq::<E>::empty() + Seq::<E>::empty() =~= Seq::<E>::empty());
    if windows@.len() == 2 && windows@[0] is Some && windows@[1] is Some {
        assert(built(windows@) =~= windows@[0]->0@ + windows@[1]->0@);
    }
}

/// The lists of a captured scene follow each other, and one that could not be built leaves no
/// gap.
pub proof fn law_built_lists_follow_each_other<E>(
    before: Seq<Option<Vec<E>>>,
    list: Option<Vec<E>>,
    after: Seq<Option<Vec<E>>>,
)
    ensures
        built(before.push(list) + after) == built(before) + (match list {
            Some(list) => list@,
            None => Seq::empty(),
        }) + built(after),
    decreases after.len(),
{
    if after.len() == 0 {
        assert(before.push(list) + after =~= before.push(list));
        assert(before.push(list).drop_last() =~= before);
        assert(built(after) =~= Seq::<E>::empty());
    } else {
        law_built_lists_follow_each_other(before, list, after.drop_last());
        assert((before.push(list) + after).drop_last() =~= before.push(list) + after.drop_last());
        assert((before.push(list) + after).last() == after.last());
    }
}

/// Which picture an effect starts from: what is behind it goes before the layer surfaces
/// alone, and these before plain white; a picture that was not taken, is not used or would be
/// empty is passed over.
pub proof fn law_effects_start_from_the_best_picture<E>(
    effect: &EffectTraits,
    backdrop: &[E],
    xray: &[E],
    taken: PicturesTaken,
    input: Option<InputPicture>,
)
    requires
        call_ensures(effect_input::<E>, (effect, backdrop, xray, taken), input),
    ensures
        input == Some(InputPicture::Backdrop) <==> effect.uses_backdrop && backdrop@.len() > 0
            && taken.backdrop,
        input == Some(InputPicture::Xray) <==> effect.uses_xray && xray@.len() > 0 && taken.xray
            && input != Some(InputPicture::Backdrop),
        input is None ==> !taken.white,
        input == Some(InputPicture::White) ==> taken.white,
        taken.white ==> input is Some,
{
}

/// A picture is taken exactly of what is used and not empty.
pub proof fn law_pictures_are_taken_of_what_is_used<E>(used: bool, scene: &[E], taken: bool)
    requires
        call_ensures(takes_picture::<E>, (used, scene), taken),
    ensures
        taken ==> used,
        taken ==> scene@.len() > 0,
        used && scene@.len() > 0 ==> taken,
{
}

/// The padding around an effect is as wide as its blur reaches, and there is none without one.
pub proof fn law_padding_of_blurs(blur: Option<BlurStage>, padding: i32)
    requires
        geometry::fits_i32(blur_reach(blur)),
        call_ensures(blur_padding, (blur,), padding),
    ensures
        blur is None ==> padding == 0,
        blur is Some && blur->0.radius >= 1 && blur->0.passes >= 1 ==> padding == 24 * (
        blur->0.radius * blur->0.passes) + 32,
        blur is Some && blur->0.radius < 1 && blur->0.passes < 1 ==> padding == 56,
{
    if blur is Some {
        law_blur_reach_grows(blur->0, blur->0);
        let r = geometry::spec_max(blur->0.radius as int, 1);
        let p = geometry::spec_max(blur->0.passes as int, 1);
        if r == 1 && p == 1 {
            assert(r * p == 1) by (nonlinear_arith)
                requires
                    r == 1,
                    p == 1,
            ;
        }
    }
}

} // verus!
