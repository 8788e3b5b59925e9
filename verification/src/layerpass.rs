//! The passes over the layer surfaces of an output, those above the windows and those below
//! them, from front to back.
//!
//! The pictures behind layer surfaces are kept from one to the next and from frame to frame.
//! Where the effect behind one of them fails, the pass ends there.

use crate::background::{
    self, Captured, LayerBackground, LayerError, LayerReply, LayerScene, LowerScene,
};
use crate::cache::{self, BackdropElement, LayerBackdrop, LayerPicture};
use crate::table::NameTable;
use vstd::prelude::*;

verus! {

/// What a layer surface shows without the effect behind it.
pub struct LayerContent<E> {
    pub popups: Vec<E>,
    /// The surface without its popups.
    pub root: Vec<E>,
    /// The surface with its own effects, if it has any.
    pub with_effects: Option<Vec<E>>,
}

impl<E> LayerContent<E> {
    /// Popups stand in front of their surface.
    pub open spec fn shown(self) -> Seq<E> {
        self.popups@ + match self.with_effects {
            Some(elements) => elements@,
            None => self.root@,
        }
    }
}

/// An element of a layer surface or of the effect behind it.
#[derive(Debug, PartialEq, Eq)]
pub enum LayerElement<E> {
    Surface(E),
    Backdrop(BackdropElement),
}

pub open spec fn surfaces<E>(elements: Seq<E>) -> Seq<LayerElement<E>> {
    elements.map_values(|element: E| LayerElement::Surface(element))
}

pub open spec fn backdrops<E>(elements: Seq<BackdropElement>) -> Seq<LayerElement<E>> {
    elements.map_values(|element: BackdropElement| LayerElement::Backdrop(element))
}

fn append_surfaces<E>(list: &mut Vec<LayerElement<E>>, elements: Vec<E>)
    ensures
        final(list)@ == old(list)@ + surfaces(elements@),
{
    let ghost all = elements@;
    let ghost before = list@;
    for element in it: elements
        invariant
            it.seq() == all,
            list@ =~= before + surfaces(all.take(it.index() as int)),
    {
        list.push(LayerElement::Surface(element));
    }
    assert(all.take(all.len() as int) =~= all);
}

fn append_backdrops<E>(list: &mut Vec<LayerElement<E>>, elements: Vec<BackdropElement>)
    ensures
        final(list)@ == old(list)@ + backdrops(elements@),
{
    let ghost all = elements@;
    let ghost before = list@;
    for element in it: elements
        invariant
            it.seq() == all,
            list@ =~= before + backdrops(all.take(it.index() as int)),
    {
        list.push(LayerElement::Backdrop(element));
    }
    assert(all.take(all.len() as int) =~= all);
}

fn append_content<E>(list: &mut Vec<LayerElement<E>>, content: LayerContent<E>)
    ensures
        final(list)@ == old(list)@ + surfaces(content.shown()),
{
    let ghost before = list@;
    let ghost shown = content.shown();
    append_surfaces(list, content.popups);
    match content.with_effects {
        Some(elements) => append_surfaces(list, elements),
        None => append_surfaces(list, content.root),
    }
    assert(list@ =~= before + surfaces(shown));
}

/// The effect behind a layer surface above the windows; see
/// `background::layer_background_path`.
pub enum UpperEffect<'a, E> {
    /// It is drawn from the frame itself; `None` if its elements cannot be built.
    Framebuffer(Option<Vec<E>>),
    /// It is drawn from a captured picture; see
    /// `background::configured_background_effect_elements_for_layer`.
    Texture {
        protocol_id: u32,
        background: Option<LayerBackground>,
        effect_text: &'a str,
        has_input: bool,
        reply: LayerReply<'a>,
    },
}

/// A layer surface above the windows.
pub struct UpperLayer<'a, E> {
    pub content: LayerContent<E>,
    pub effect: UpperEffect<'a, E>,
}

/// The scene of the layer surface at `index`.
pub open spec fn scene_at(scene: LayerScene, index: usize) -> LayerScene {
    LayerScene { index, ..scene }
}

impl<'a, E> UpperEffect<'a, E> {
    pub open spec fn fits(self, scene: LayerScene) -> bool {
        self matches UpperEffect::Texture { background, reply, .. } ==> scene.fits(
            background,
            reply.fresh_ids@,
        )
    }

    /// What comes of the effect: the pictures that are kept, and its elements.
    pub open spec fn outcome(self, scene: LayerScene, pictures: Map<Seq<char>, LayerPicture>) -> (
        Map<Seq<char>, LayerPicture>,
        Result<Seq<LayerElement<E>>, LayerError>,
    ) {
        match self {
            UpperEffect::Framebuffer(Some(elements)) => (pictures, Ok(surfaces(elements@))),
            UpperEffect::Framebuffer(None) => (pictures, Err(LayerError::Drawing)),
            UpperEffect::Texture { protocol_id, background, effect_text, has_input, reply } => {
                let (kept, r) = background::upper_background(
                    scene,
                    pictures,
                    protocol_id,
                    background,
                    effect_text@,
                    has_input,
                    reply,
                );
                (kept, as_backdrops(r))
            },
        }
    }
}

pub open spec fn as_backdrops<E>(r: Result<Seq<BackdropElement>, LayerError>) -> Result<
    Seq<LayerElement<E>>,
    LayerError,
> {
    match r {
        Ok(elements) => Ok(backdrops(elements)),
        Err(error) => Err(error),
    }
}

/// What is shown so far and, behind it, one more layer surface with the effect behind that.
pub open spec fn with_layer<E>(
    shown: Seq<LayerElement<E>>,
    content: LayerContent<E>,
    behind: Result<Seq<LayerElement<E>>, LayerError>,
) -> Result<Seq<LayerElement<E>>, LayerError> {
    match behind {
        Ok(behind) => Ok(shown + surfaces(content.shown()) + behind),
        Err(error) => Err(error),
    }
}

/// The layer surfaces above the windows, from front to back: the pictures that are kept, and
/// what is shown. The effect behind each sees the pictures that those before it have left,
/// and the first that fails ends the pass.
pub open spec fn upper_layer_pass<E>(
    scene: LayerScene,
    pictures: Map<Seq<char>, LayerPicture>,
    layers: Seq<UpperLayer<E>>,
) -> (Map<Seq<char>, LayerPicture>, Result<Seq<LayerElement<E>>, LayerError>)
    decreases layers.len(),
{
    if layers.len() == 0 {
        (pictures, Ok(Seq::empty()))
    } else {
        let (kept, shown) = upper_layer_pass(scene, pictures, layers.drop_last());
        match shown {
            Ok(shown) => {
                let index = (layers.len() - 1) as usize;
                let layer = layers.last();
                let (after, behind) = layer.effect.outcome(scene_at(scene, index), kept);
                (after, with_layer(shown, layer.content, behind))
            },
            Err(error) => (kept, Err(error)),
        }
    }
}

/// Once the pass over the first layer surfaces above the windows has failed, those after
/// them are neither shown nor change what is kept.
pub proof fn law_failed_upper_pass_ends<E>(
    scene: LayerScene,
    pictures: Map<Seq<char>, LayerPicture>,
    layers: Seq<UpperLayer<E>>,
    count: int,
)
    requires
        0 <= count <= layers.len(),
        upper_layer_pass(scene, pictures, layers.take(count)).1 is Err,
    ensures
        upper_layer_pass(scene, pictures, layers) == upper_layer_pass(
            scene,
            pictures,
            layers.take(count),
        ),
    decreases layers.len(),
{
    if count == layers.len() {
        assert(layers.take(count) =~= layers);
    } else {
        assert(layers.drop_last().take(count) =~= layers.take(count));
        law_failed_upper_pass_ends(scene, pictures, layers.drop_last(), count);
    }
}

/// The layer surfaces above the windows, from front to back: popups in front of their
/// surface, and the effect behind it. The layer surface at each place of the list is that at
/// the same place of `scene.upper_layers`; `scene.index` plays no part.
pub fn upper_layer_scene_elements<'a, E>(
    scene: &LayerScene,
    cache: &mut NameTable<LayerBackdrop>,
    layers: Vec<UpperLayer<'a, E>>,
) -> (r: Result<Vec<LayerElement<E>>, LayerError>)
    requires
        forall|i: int|
            0 <= i < layers@.len() ==> (#[trigger] layers@[i]).effect.fits(
                scene_at(*scene, i as usize),
            ),
    ensures
        (cache::pictures(final(cache)@), background::result_view(r)) == upper_layer_pass(
            *scene,
            cache::pictures(old(cache)@),
            layers@,
        ),
{
    let ghost all = layers@;
    let ghost first = cache::pictures(cache@);
    let mut shown: Vec<LayerElement<E>> = Vec::new();
    let mut index: usize = 0;
    let count: usize = layers.len();
    assert(all.take(0) =~= Seq::<UpperLayer<'a, E>>::empty());
    for layer in it: layers
        invariant
            it.seq() == all,
            index == it.index(),
            count == all.len(),
            first == cache::pictures(old(cache)@),
            forall|i: int|
                0 <= i < all.len() ==> (#[trigger] all[i]).effect.fits(
                    scene_at(*scene, i as usize),
                ),
            (cache::pictures(cache@), Ok::<Seq<LayerElement<E>>, LayerError>(shown@))
                == upper_layer_pass(*scene, first, all.take(index as int)),
    {
        let here: LayerScene = LayerScene { index, ..*scene };
        proof {
            assert(all.take(index + 1).drop_last() =~= all.take(index as int));
            assert(all.take(index + 1).last() == all[index as int]);
            assert(layer == all[index as int]);
            assert(here == scene_at(*scene, index));
        }
        append_content(&mut shown, layer.content);
        match layer.effect {
            UpperEffect::Framebuffer(Some(elements)) => append_surfaces(&mut shown, elements),
            UpperEffect::Framebuffer(None) => {
                proof {
                    law_failed_upper_pass_ends(*scene, first, all, index + 1);
                }
                return Err(LayerError::Drawing);
            },
            UpperEffect::Texture { protocol_id, background, effect_text, has_input, reply } => {
                match background::configured_background_effect_elements_for_layer(
                    &here,
                    cache,
                    protocol_id,
                    &background,
                    effect_text,
                    has_input,
                    &reply,
                ) {
                    Ok(elements) => append_backdrops(&mut shown, elements),
                    Err(error) => {
                        proof {
                            law_failed_upper_pass_ends(*scene, first, all, index + 1);
                        }
                        return Err(error);
                    },
                }
            },
        }
        index += 1;
    }
    assert(all.take(all.len() as int) =~= all);
    Ok(shown)
}

/// A layer surface below the windows. The effect behind it is as for
/// `background::lower_layer_background_elements`.
pub struct LowerLayer<'a, E> {
    pub content: LayerContent<E>,
    pub layer_id: &'a str,
    pub background: Option<LayerBackground>,
    pub effect_text: &'a str,
    /// The layer surfaces after this one show nothing.
    pub scene_is_empty: bool,
    /// The picture of what they show.
    pub snapshot: Captured,
    pub reply: LayerReply<'a>,
}

impl<'a, E> LowerLayer<'a, E> {
    /// What comes of the effect behind the layer surface at `index`: the pictures that are
    /// kept, and the elements of the effect.
    pub open spec fn outcome(
        self,
        scene: LowerScene,
        pictures: Map<Seq<char>, LayerPicture>,
        index: usize,
    ) -> (Map<Seq<char>, LayerPicture>, Result<Seq<LayerElement<E>>, LayerError>) {
        let (kept, r) = background::lower_background(
            scene,
            pictures,
            self.layer_id@,
            index,
            self.background,
            self.effect_text@,
            self.scene_is_empty,
            self.snapshot,
            self.reply,
        );
        (kept, as_backdrops(r))
    }
}

/// The layer surfaces below the windows, from front to back: the pictures that are kept, and
/// what is shown. The effect behind each sees the pictures that those before it have left,
/// and the first that fails ends the pass.
pub open spec fn lower_layer_pass<E>(
    scene: LowerScene,
    pictures: Map<Seq<char>, LayerPicture>,
    layers: Seq<LowerLayer<E>>,
) -> (Map<Seq<char>, LayerPicture>, Result<Seq<LayerElement<E>>, LayerError>)
    decreases layers.len(),
{
    if layers.len() == 0 {
        (pictures, Ok(Seq::empty()))
    } else {
        let (kept, shown) = lower_layer_pass(scene, pictures, layers.drop_last());
        match shown {
            Ok(shown) => {
                let layer = layers.last();
                let (after, behind) = layer.outcome(scene, kept, (layers.len() - 1) as usize);
                (after, with_layer(shown, layer.content, behind))
            },
            Err(error) => (kept, Err(error)),
        }
    }
}

/// Once the pass over the first layer surfaces below the windows has failed, those after
/// them are neither shown nor change what is kept.
pub proof fn law_failed_lower_pass_ends<E>(
    scene: LowerScene,
    pictures: Map<Seq<char>, LayerPicture>,
    layers: Seq<LowerLayer<E>>,
    count: int,
)
    requires
        0 <= count <= layers.len(),
        lower_layer_pass(scene, pictures, layers.take(count)).1 is Err,
    ensures
        lower_layer_pass(scene, pictures, layers) == lower_layer_pass(
            scene,
            pictures,
            layers.take(count),
        ),
    decreases layers.len(),
{
    if count == layers.len() {
        assert(layers.take(count) =~= layers);
    } else {
        assert(layers.drop_last().take(count) =~= layers.take(count));
        law_failed_lower_pass_ends(scene, pictures, layers.drop_last(), count);
    }
}

/// The layer surfaces below the windows, from front to back: popups in front of their
/// surface, and the effect behind it.
pub fn lower_layer_scene_elements<'a, E>(
    scene: &LowerScene,
    cache: &mut NameTable<LayerBackdrop>,
    layers: Vec<LowerLayer<'a, E>>,
) -> (r: Result<Vec<LayerElement<E>>, LayerError>)
    requires
        forall|i: int|
            0 <= i < layers@.len() ==> scene.fits(
                (#[trigger] layers@[i]).background,
                layers@[i].reply.fresh_ids@,
            ),
    ensures
        (cache::pictures(final(cache)@), background::result_view(r)) == lower_layer_pass(
            *scene,
            cache::pictures(old(cache)@),
            layers@,
        ),
{
    let ghost all = layers@;
    let ghost first = cache::pictures(cache@);
    let mut shown: Vec<LayerElement<E>> = Vec::new();
    let mut index: usize = 0;
    let count: usize = layers.len();
    assert(all.take(0) =~= Seq::<LowerLayer<'a, E>>::empty());
    for layer in it: layers
        invariant
            it.seq() == all,
            index == it.index(),
            count == all.len(),
            first == cache::pictures(old(cache)@),
            forall|i: int|
                0 <= i < all.len() ==> scene.fits(
                    (#[trigger] all[i]).background,
                    all[i].reply.fresh_ids@,
                ),
            (cache::pictures(cache@), Ok::<Seq<LayerElement<E>>, LayerError>(shown@))
                == lower_layer_pass(*scene, first, all.take(index as int)),
    {
        proof {
            assert(all.take(index + 1).drop_last() =~= all.take(index as int));
            assert(all.take(index + 1).last() == all[index as int]);
            assert(layer == all[index as int]);
        }
        append_content(&mut shown, layer.content);
        match background::lower_layer_background_elements(
            scene,
            cache,
            layer.layer_id,
            index,
            &layer.background,
            layer.effect_text,
            layer.scene_is_empty,
            layer.snapshot,
            &layer.reply,
        ) {
            Ok(elements) => append_backdrops(&mut shown, elements),
            Err(error) => {
                proof {
                    law_failed_lower_pass_ends(*scene, first, all, index + 1);
                }
                return Err(error);
            },
        }
        index += 1;
    }
    assert(all.take(all.len() as int) =~= all);
    Ok(shown)
}

/// One more layer surface above the windows stands behind those before it: its popups in front,
/// then the surface, with its own effects if it has any, then the effect behind it. Where those
/// before it have failed, or its effect fails, so does the pass.
pub proof fn law_upper_layers_stand_behind_each_other<'a, E>(
    scene: &LayerScene,
    cache: &mut NameTable<LayerBackdrop>,
    longer_cache: &mut NameTable<LayerBackdrop>,
    layers: Vec<UpperLayer<'a, E>>,
    longer: Vec<UpperLayer<'a, E>>,
    layer: UpperLayer<'a, E>,
    r: Result<Vec<LayerElement<E>>, LayerError>,
    longer_r: Result<Vec<LayerElement<E>>, LayerError>,
    i: int,
)
    requires
        call_ensures(upper_layer_scene_elements::<E>, (scene, cache, layers), r),
        call_ensures(upper_layer_scene_elements::<E>, (scene, longer_cache, longer), longer_r),
        longer@ == layers@.push(layer),
        cache::pictures(old(cache)@) == cache::pictures(old(longer_cache)@),
    ensures
        layers@.len() == 0 ==> r is Ok && r->Ok_0@.len() == 0 && cache::pictures(final(cache)@)
            == cache::pictures(old(cache)@),
        r is Err ==> longer_r is Err && longer_r->Err_0 == r->Err_0 && cache::pictures(
            final(longer_cache)@,
        ) == cache::pictures(final(cache)@),
        r is Ok && layer.effect == UpperEffect::<E>::Framebuffer(None) ==> longer_r is Err
            && longer_r->Err_0 == LayerError::Drawing,
        longer_r is Ok ==> r is Ok && {
            let before = r->Ok_0@;
            let after = longer_r->Ok_0@;
            let popups = layer.content.popups@;
            let body = match layer.content.with_effects {
                Some(elements) => elements@,
                None => layer.content.root@,
            };
            let behind = before.len() + popups.len() + body.len();
            &&& after.len() >= behind
            &&& after.take(before.len() as int) == before
            &&& 0 <= i < popups.len() ==> after[before.len() + i] == LayerElement::Surface(
                popups[i],
            )
            &&& 0 <= i < body.len() ==> after[before.len() + popups.len() + i]
                == LayerElement::Surface(body[i])
            &&& layer.effect matches UpperEffect::Framebuffer(Some(elements)) ==> after.len()
                == behind + elements@.len() && (0 <= i < elements@.len() ==> after[behind + i]
                == LayerElement::Surface(elements@[i]))
            &&& layer.effect matches UpperEffect::Texture { background: None, .. } ==> after.len()
                == behind
            &&& layer.effect is Texture && behind <= i < after.len() ==> after[i] is Backdrop
        },
{
    assert(longer@.drop_last() =~= layers@);
    if longer_r is Ok {
        assert(longer_r->Ok_0@.take(r->Ok_0@.len() as int) =~= r->Ok_0@);
    }
}

/// One more layer surface below the windows stands behind those before it, and has its effect
/// behind it.
pub proof fn law_lower_layers_stand_behind_each_other<'a, E>(
    scene: &LowerScene,
    cache: &mut NameTable<LayerBackdrop>,
    longer_cache: &mut NameTable<LayerBackdrop>,
    layers: Vec<LowerLayer<'a, E>>,
    longer: Vec<LowerLayer<'a, E>>,
    layer: LowerLayer<'a, E>,
    r: Result<Vec<LayerElement<E>>, LayerError>,
    longer_r: Result<Vec<LayerElement<E>>, LayerError>,
    i: int,
)
    requires
        call_ensures(lower_layer_scene_elements::<E>, (scene, cache, layers), r),
        call_ensures(lower_layer_scene_elements::<E>, (scene, longer_cache, longer), longer_r),
        longer@ == layers@.push(layer),
        cache::pictures(old(cache)@) == cache::pictures(old(longer_cache)@),
    ensures
        layers@.len() == 0 ==> r is Ok && r->Ok_0@.len() == 0 && cache::pictures(final(cache)@)
            == cache::pictures(old(cache)@),
        r is Err ==> longer_r is Err && longer_r->Err_0 == r->Err_0 && cache::pictures(
            final(longer_cache)@,
        ) == cache::pictures(final(cache)@),
        r is Ok && layer.background is None ==> longer_r is Ok,
        longer_r is Ok ==> r is Ok && {
            let before = r->Ok_0@;
            let after = longer_r->Ok_0@;
            let popups = layer.content.popups@;
            let body = match layer.content.with_effects {
                Some(elements) => elements@,
                None => layer.content.root@,
            };
            let behind = before.len() + popups.len() + body.len();
            &&& after.len() >= behind
            &&& after.take(before.len() as int) == before
            &&& 0 <= i < popups.len() ==> after[before.len() + i] == LayerElement::Surface(
                popups[i],
            )
            &&& 0 <= i < body.len() ==> after[before.len() + popups.len() + i]
                == LayerElement::Surface(body[i])
            &&& layer.background is None ==> after.len() == behind
            &&& layer.background is Some ==> after.len() == behind || after.len() == behind
                + layer.background->0.rects@.len()
            &&& behind <= i < after.len() ==> after[i] is Backdrop
        },
{
    assert(longer@.drop_last() =~= layers@);
    if longer_r is Ok {
        assert(longer_r->Ok_0@.take(r->Ok_0@.len() as int) =~= r->Ok_0@);
    }
}

/// The effect behind each layer surface above the windows is that of its own place, drawn with
/// the pictures that those before it have left; its pictures are kept, and where it fails the
/// pass fails as it does.
pub proof fn law_upper_effects_are_drawn_in_turn<'a, E>(
    scene: &LayerScene,
    own_scene: &LayerScene,
    cache: &mut NameTable<LayerBackdrop>,
    longer_cache: &mut NameTable<LayerBackdrop>,
    own_cache: &mut NameTable<LayerBackdrop>,
    layers: Vec<UpperLayer<'a, E>>,
    longer: Vec<UpperLayer<'a, E>>,
    content: LayerContent<E>,
    protocol_id: u32,
    background: &Option<LayerBackground>,
    effect_text: &'a str,
    has_input: bool,
    reply: &LayerReply<'a>,
    r: Result<Vec<LayerElement<E>>, LayerError>,
    longer_r: Result<Vec<LayerElement<E>>, LayerError>,
    own: Result<Vec<BackdropElement>, LayerError>,
    i: int,
)
    requires
        call_ensures(upper_layer_scene_elements::<E>, (scene, cache, layers), r),
        call_ensures(upper_layer_scene_elements::<E>, (scene, longer_cache, longer), longer_r),
        call_ensures(
            background::configured_background_effect_elements_for_layer,
            (own_scene, own_cache, protocol_id, background, effect_text, has_input, reply),
            own,
        ),
        longer@ == layers@.push(
            (UpperLayer {
                content,
                effect: UpperEffect::Texture {
                    protocol_id,
                    background: *background,
                    effect_text,
                    has_input,
                    reply: *reply,
                },
            }),
        ),
        *own_scene == (LayerScene { index: layers@.len() as usize, ..*scene }),
        cache::pictures(old(cache)@) == cache::pictures(old(longer_cache)@),
    ensures
        r is Ok && cache::pictures(old(own_cache)@) == cache::pictures(final(cache)@) ==> {
            &&& cache::pictures(final(longer_cache)@) == cache::pictures(final(own_cache)@)
            &&& own is Err ==> longer_r is Err && longer_r->Err_0 == own->Err_0
            &&& own is Ok ==> longer_r is Ok && longer_r->Ok_0@.len() == r->Ok_0@.len()
                + content.shown().len() + own->Ok_0@.len()
            &&& own is Ok && 0 <= i < own->Ok_0@.len() ==> longer_r->Ok_0@[r->Ok_0@.len()
                + content.shown().len() + i] == LayerElement::<E>::Backdrop(own->Ok_0@[i])
        },
{
    assert(longer@.drop_last() =~= layers@);
}

/// The effect behind each layer surface below the windows is that of its own place, drawn with
/// the pictures that those before it have left; its pictures are kept, and where it fails the
/// pass fails as it does.
pub proof fn law_lower_effects_are_drawn_in_turn<'a, E>(
    scene: &LowerScene,
    cache: &mut NameTable<LayerBackdrop>,
    longer_cache: &mut NameTable<LayerBackdrop>,
    own_cache: &mut NameTable<LayerBackdrop>,
    layers: Vec<LowerLayer<'a, E>>,
    longer: Vec<LowerLayer<'a, E>>,
    layer: LowerLayer<'a, E>,
    background: &Option<LayerBackground>,
    reply: &LayerReply<'a>,
    index: usize,
    r: Result<Vec<LayerElement<E>>, LayerError>,
    longer_r: Result<Vec<LayerElement<E>>, LayerError>,
    own: Result<Vec<BackdropElement>, LayerError>,
    i: int,
)
    requires
        call_ensures(lower_layer_scene_elements::<E>, (scene, cache, layers), r),
        call_ensures(lower_layer_scene_elements::<E>, (scene, longer_cache, longer), longer_r),
        call_ensures(
            background::lower_layer_background_elements,
            (
                scene,
                own_cache,
                layer.layer_id,
                index,
                background,
                layer.effect_text,
                layer.scene_is_empty,
                layer.snapshot,
                reply,
            ),
            own,
        ),
        *background == layer.background,
        *reply == layer.reply,
        index == layers@.len(),
        longer@ == layers@.push(layer),
        cache::pictures(old(cache)@) == cache::pictures(old(longer_cache)@),
    ensures
        r is Ok && cache::pictures(old(own_cache)@) == cache::pictures(final(cache)@) ==> {
            &&& cache::pictures(final(longer_cache)@) == cache::pictures(final(own_cache)@)
            &&& own is Err ==> longer_r is Err && longer_r->Err_0 == own->Err_0
            &&& own is Ok ==> longer_r is Ok && longer_r->Ok_0@.len() == r->Ok_0@.len()
                + layer.content.shown().len() + own->Ok_0@.len()
            &&& own is Ok && 0 <= i < own->Ok_0@.len() ==> longer_r->Ok_0@[r->Ok_0@.len()
                + layer.content.shown().len() + i] == LayerElement::<E>::Backdrop(own->Ok_0@[i])
        },
{
    assert(longer@.drop_last() =~= layers@);
    assert(index == (longer@.len() - 1) as usize);
}

} // verus!
