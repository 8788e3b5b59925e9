//! Signatures that tell whether a scene has changed since it was last drawn.

use crate::geometry::{self, EffectOutsets, LogicalPoint, LogicalRect};
use crate::region;
use crate::text;
use std::collections::hash_map::DefaultHasher;
use std::hash::Hasher;
use vstd::bytes::*;
use vstd::prelude::*;
use vstd::std_specs::hash::*;
use vstd::string::*;
use vstd::utf8::*;

verus! {

/// Collects what a scene depends on and turns it into a signature.
pub struct SceneHasher {
    hasher: DefaultHasher,
}

impl View for SceneHasher {
    type V = Seq<Seq<u8>>;

    closed spec fn view(&self) -> Seq<Seq<u8>> {
        self.hasher@
    }
}

/// The signature of what was collected.
pub open spec fn signature_of(chunks: Seq<Seq<u8>>) -> u64 {
    DefaultHasher::spec_finish(chunks)
}

/// What a text contributes: its bytes, and a byte that no text holds.
pub open spec fn text_chunks(text: Seq<char>) -> Seq<Seq<u8>> {
    seq![encode_utf8(text), seq![255u8]]
}

pub open spec fn int_chunk(n: i32) -> Seq<u8> {
    spec_u32_to_le_bytes(n as u32)
}

pub open spec fn id_chunk(id: u32) -> Seq<u8> {
    spec_u32_to_le_bytes(id)
}

pub open spec fn word_chunk(n: u64) -> Seq<u8> {
    spec_u64_to_le_bytes(n)
}

pub open spec fn rect_chunks(rect: LogicalRect) -> Seq<Seq<u8>> {
    seq![int_chunk(rect.x), int_chunk(rect.y), int_chunk(rect.width), int_chunk(rect.height)]
}

pub open spec fn outset_chunks(outsets: EffectOutsets) -> Seq<Seq<u8>> {
    seq![
        int_chunk(outsets.left),
        int_chunk(outsets.right),
        int_chunk(outsets.top),
        int_chunk(outsets.bottom),
    ]
}

impl SceneHasher {
    pub fn new() -> (hasher: SceneHasher)
        ensures
            hasher@ == Seq::<Seq<u8>>::empty(),
    {
        SceneHasher { hasher: DefaultHasher::new() }
    }

    pub fn text(&mut self, text: &str)
        ensures
            final(self)@ == old(self)@ + text_chunks(text@),
    {
        self.hasher.write(text.as_bytes());
        let mut end: Vec<u8> = Vec::new();
        end.push(255);
        assert(end@ =~= seq![255u8]);
        self.hasher.write(end.as_slice());
    }

    pub fn number(&mut self, n: i32)
        ensures
            final(self)@ == old(self)@.push(int_chunk(n)),
    {
        let bytes: Vec<u8> = u32_to_le_bytes(
            #[verifier::truncate]
            (n as u32),
        );
        self.hasher.write(bytes.as_slice());
    }

    pub fn id(&mut self, id: u32)
        ensures
            final(self)@ == old(self)@.push(id_chunk(id)),
    {
        let bytes: Vec<u8> = u32_to_le_bytes(id);
        self.hasher.write(bytes.as_slice());
    }

    pub fn word(&mut self, n: u64)
        ensures
            final(self)@ == old(self)@.push(word_chunk(n)),
    {
        let bytes: Vec<u8> = u64_to_le_bytes(n);
        self.hasher.write(bytes.as_slice());
    }

    pub fn rect(&mut self, rect: LogicalRect)
        ensures
            final(self)@ == old(self)@ + rect_chunks(rect),
    {
        self.number(rect.x);
        self.number(rect.y);
        self.number(rect.width);
        self.number(rect.height);
    }

    pub fn outsets(&mut self, outsets: EffectOutsets)
        ensures
            final(self)@ == old(self)@ + outset_chunks(outsets),
    {
        self.number(outsets.left);
        self.number(outsets.right);
        self.number(outsets.top);
        self.number(outsets.bottom);
    }

    pub fn finish(&self) -> (signature: u64)
        ensures
            signature == signature_of(self@),
    {
        self.hasher.finish()
    }
}

/// What the picture of an effect depends on: where it is drawn, the rectangle and the
/// outsets, the effect itself, the scale of the output and the scene it is drawn from.
pub struct EffectScene<'a> {
    pub placement: &'a str,
    pub rect: LogicalRect,
    pub outsets: EffectOutsets,
    /// A description of the effect that tells any two effects apart.
    pub effect: &'a str,
    /// The bits of the horizontal and of the vertical scale.
    pub scale_bits: (u64, u64),
    pub scene_signature: u64,
}

pub open spec fn effect_chunks(scene: EffectScene) -> Seq<Seq<u8>> {
    text_chunks(scene.placement@) + rect_chunks(scene.rect) + outset_chunks(scene.outsets)
        + text_chunks(scene.effect@) + seq![
        word_chunk(scene.scale_bits.0),
        word_chunk(scene.scale_bits.1),
        word_chunk(scene.scene_signature),
    ]
}

pub fn window_effect_signature(scene: &EffectScene) -> (signature: u64)
    ensures
        signature == signature_of(effect_chunks(*scene)),
{
    let mut hasher: SceneHasher = SceneHasher::new();
    hasher.text(scene.placement);
    hasher.rect(scene.rect);
    hasher.outsets(scene.outsets);
    hasher.text(scene.effect);
    hasher.word(scene.scale_bits.0);
    hasher.word(scene.scale_bits.1);
    hasher.word(scene.scene_signature);
    assert(hasher@ =~= effect_chunks(*scene));
    hasher.finish()
}

proof fn lemma_int_chunk_injective(a: i32, b: i32)
    requires
        int_chunk(a) == int_chunk(b),
    ensures
        a == b,
{
    lemma_auto_spec_u32_to_from_le_bytes();
    assert(int_chunk(a).len() == 4 && int_chunk(b).len() == 4);
    assert(spec_u32_from_le_bytes(int_chunk(a)) == a as u32);
    assert(spec_u32_from_le_bytes(int_chunk(b)) == b as u32);
    assert(a as u32 == b as u32 ==> a == b) by (bit_vector);
}

proof fn lemma_word_chunk_injective(a: u64, b: u64)
    requires
        word_chunk(a) == word_chunk(b),
    ensures
        a == b,
{
    lemma_auto_spec_u64_to_from_le_bytes();
    assert(word_chunk(a).len() == 8 && word_chunk(b).len() == 8);
    assert(spec_u64_from_le_bytes(word_chunk(a)) == a);
    assert(spec_u64_from_le_bytes(word_chunk(b)) == b);
}

proof fn lemma_text_injective(a: Seq<char>, b: Seq<char>)
    requires
        encode_utf8(a) == encode_utf8(b),
    ensures
        a == b,
{
    encode_utf8_decode_utf8(a);
    encode_utf8_decode_utf8(b);
}

/// What is collected for an effect tells any two situations apart: the signature differs
/// whenever anything it depends on does, up to collisions of the hash function.
pub proof fn law_effect_chunks_tell_scenes_apart(a: EffectScene, b: EffectScene)
    requires
        effect_chunks(a) == effect_chunks(b),
    ensures
        a.placement@ == b.placement@,
        a.rect == b.rect,
        a.outsets == b.outsets,
        a.effect@ == b.effect@,
        a.scale_bits == b.scale_bits,
        a.scene_signature == b.scene_signature,
{
    let x = effect_chunks(a);
    let y = effect_chunks(b);
    assert(x[0] == encode_utf8(a.placement@) && y[0] == encode_utf8(b.placement@));
    lemma_text_injective(a.placement@, b.placement@);
    assert(x[2] == int_chunk(a.rect.x) && y[2] == int_chunk(b.rect.x));
    lemma_int_chunk_injective(a.rect.x, b.rect.x);
    assert(x[3] == int_chunk(a.rect.y) && y[3] == int_chunk(b.rect.y));
    lemma_int_chunk_injective(a.rect.y, b.rect.y);
    assert(x[4] == int_chunk(a.rect.width) && y[4] == int_chunk(b.rect.width));
    lemma_int_chunk_injective(a.rect.width, b.rect.width);
    assert(x[5] == int_chunk(a.rect.height) && y[5] == int_chunk(b.rect.height));
    lemma_int_chunk_injective(a.rect.height, b.rect.height);
    assert(x[6] == int_chunk(a.outsets.left) && y[6] == int_chunk(b.outsets.left));
    lemma_int_chunk_injective(a.outsets.left, b.outsets.left);
    assert(x[7] == int_chunk(a.outsets.right) && y[7] == int_chunk(b.outsets.right));
    lemma_int_chunk_injective(a.outsets.right, b.outsets.right);
    assert(x[8] == int_chunk(a.outsets.top) && y[8] == int_chunk(b.outsets.top));
    lemma_int_chunk_injective(a.outsets.top, b.outsets.top);
    assert(x[9] == int_chunk(a.outsets.bottom) && y[9] == int_chunk(b.outsets.bottom));
    lemma_int_chunk_injective(a.outsets.bottom, b.outsets.bottom);
    assert(x[10] == encode_utf8(a.effect@) && y[10] == encode_utf8(b.effect@));
    lemma_text_injective(a.effect@, b.effect@);
    assert(x[12] == word_chunk(a.scale_bits.0) && y[12] == word_chunk(b.scale_bits.0));
    lemma_word_chunk_injective(a.scale_bits.0, b.scale_bits.0);
    assert(x[13] == word_chunk(a.scale_bits.1) && y[13] == word_chunk(b.scale_bits.1));
    lemma_word_chunk_injective(a.scale_bits.1, b.scale_bits.1);
    assert(x[14] == word_chunk(a.scene_signature) && y[14] == word_chunk(b.scene_signature));
    lemma_word_chunk_injective(a.scene_signature, b.scene_signature);
}

/// A window that can be seen through an effect: its identity and where it is.
pub struct SceneContributor {
    pub id: String,
    pub rect: LogicalRect,
}

/// What is known of a window that may be seen through an effect.
pub struct WindowPlace {
    /// The identity of the window and where it is drawn, if it has a decoration.
    pub decorated: Option<(String, LogicalRect)>,
    /// Where the window is in the layout, if it is part of it.
    pub location: Option<LogicalPoint>,
    /// The extent of its surfaces.
    pub bbox: LogicalRect,
    /// The protocol number of its surface, unless it is a window of the X server.
    pub protocol_id: Option<u32>,
}

impl WindowPlace {
    /// A window with a decoration counts with what is drawn of it. Another one counts with
    /// the extent of its surfaces, under the number of its surface, if it is part of the
    /// layout.
    pub open spec fn contribution(self) -> Option<(Seq<char>, LogicalRect)> {
        match self.decorated {
            Some((id, rect)) => Some((id@, rect)),
            None => match self.location {
                None => None,
                Some(location) => Some(
                    (
                        match self.protocol_id {
                            Some(id) => text::decimal(id as int),
                            None => "unknown"@,
                        },
                        geometry::rect_of(
                            location.x + self.bbox.x,
                            location.y + self.bbox.y,
                            self.bbox.width as int,
                            self.bbox.height as int,
                        ),
                    ),
                ),
            },
        }
    }

    /// The coordinates are within the range of machine integers.
    pub open spec fn fits(self) -> bool {
        &&& self.decorated is None && self.location is Some ==> geometry::fits_i32(
            self.location->0.x + self.bbox.x,
        ) && geometry::fits_i32(self.location->0.y + self.bbox.y)
        &&& self.contribution() matches Some((_, rect)) ==> rect.fits()
    }
}

pub fn contributor_window_scene_rect(place: &WindowPlace) -> (contributor: Option<SceneContributor>)
    requires
        place.fits(),
    ensures
        contributor is Some <==> place.contribution() is Some,
        contributor is Some ==> place.contribution() == Some(
            (contributor->0.id@, contributor->0.rect),
        ),
{
    match &place.decorated {
        Some((id, rect)) => Some(SceneContributor { id: id.clone(), rect: *rect }),
        None => match place.location {
            None => None,
            Some(location) => {
                let id: String = match place.protocol_id {
                    Some(id) => text::decimal_text(id),
                    None => "unknown".to_owned(),
                };
                Some(
                    SceneContributor {
                        id,
                        rect: LogicalRect::new(
                            location.x + place.bbox.x,
                            location.y + place.bbox.y,
                            place.bbox.width,
                            place.bbox.height,
                        ),
                    },
                )
            },
        },
    }
}

/// What the windows under an effect contribute, in order.
pub open spec fn window_chunks(windows: Seq<WindowPlace>, effect_rect: LogicalRect) -> Seq<Seq<u8>>
    decreases windows.len(),
{
    if windows.len() == 0 {
        Seq::empty()
    } else {
        let rest = window_chunks(windows.drop_last(), effect_rect);
        match windows.last().contribution() {
            Some((id, rect)) => if geometry::intersect_rects(rect, effect_rect) is Some {
                rest + text_chunks(id) + rect_chunks(rect)
            } else {
                rest
            },
            None => rest,
        }
    }
}

pub open spec fn windows_fit(windows: Seq<WindowPlace>) -> bool {
    forall|i: int| 0 <= i < windows.len() ==> (#[trigger] windows[i]).fits()
}

/// Collects the windows that lie under an effect.
pub fn hash_window_scene_contributors(
    hasher: &mut SceneHasher,
    windows: &[WindowPlace],
    effect_rect: LogicalRect,
)
    requires
        effect_rect.fits(),
        windows_fit(windows@),
    ensures
        final(hasher)@ == old(hasher)@ + window_chunks(windows@, effect_rect),
{
    let ghost before = hasher@;
    let mut index: usize = 0;
    assert(windows@.take(0) =~= Seq::<WindowPlace>::empty());
    while index < windows.len()
        invariant
            index <= windows@.len(),
            effect_rect.fits(),
            windows_fit(windows@),
            hasher@ =~= before + window_chunks(windows@.take(index as int), effect_rect),
        decreases windows@.len() - index,
    {
        proof {
            assert(windows@.take(index + 1).drop_last() =~= windows@.take(index as int));
            assert(windows@.take(index + 1).last() == windows@[index as int]);
            assert(windows@[index as int].fits());
        }
        match contributor_window_scene_rect(&windows[index]) {
            Some(contributor) => {
                if geometry::logical_rects_intersect(contributor.rect, effect_rect) {
                    hasher.text(contributor.id.as_str());
                    hasher.rect(contributor.rect);
                }
            },
            None => {},
        }
        index += 1;
    }
    assert(windows@.take(windows@.len() as int) =~= windows@);
}

/// A layer surface that may be seen through an effect, and where it is on its output.
#[derive(Clone, Copy, Debug, PartialEq, Eq, Structural)]
pub struct LayerPlace {
    pub protocol_id: u32,
    pub geometry: Option<LogicalRect>,
}

impl LayerPlace {
    /// Where the layer surface is in the layout of all outputs.
    pub open spec fn global_rect(self, output_loc: LogicalPoint) -> LogicalRect {
        geometry::rect_of(
            output_loc.x + self.geometry->0.x,
            output_loc.y + self.geometry->0.y,
            self.geometry->0.width as int,
            self.geometry->0.height as int,
        )
    }

    pub open spec fn fits_at(self, output_loc: LogicalPoint) -> bool {
        self.geometry matches Some(geo) ==> region::placed_fits(geo, output_loc)
    }
}

/// What the layer surfaces under an effect contribute, in order.
pub open spec fn layer_chunks(
    layers: Seq<LayerPlace>,
    output_loc: LogicalPoint,
    effect_rect: LogicalRect,
) -> Seq<Seq<u8>>
    decreases layers.len(),
{
    if layers.len() == 0 {
        Seq::empty()
    } else {
        let rest = layer_chunks(layers.drop_last(), output_loc, effect_rect);
        let last = layers.last();
        if last.geometry is Some && geometry::intersect_rects(
            last.global_rect(output_loc),
            effect_rect,
        ) is Some {
            rest + seq![id_chunk(last.protocol_id)] + rect_chunks(
                last.global_rect(output_loc),
            )
        } else {
            rest
        }
    }
}

pub open spec fn layers_fit(layers: Seq<LayerPlace>, output_loc: LogicalPoint) -> bool {
    forall|i: int| 0 <= i < layers.len() ==> (#[trigger] layers[i]).fits_at(output_loc)
}

/// Collects the layer surfaces that lie under an effect.
pub fn hash_layer_scene_contributors(
    hasher: &mut SceneHasher,
    layers: &[LayerPlace],
    output_loc: LogicalPoint,
    effect_rect: LogicalRect,
)
    requires
        effect_rect.fits(),
        layers_fit(layers@, output_loc),
    ensures
        final(hasher)@ == old(hasher)@ + layer_chunks(layers@, output_loc, effect_rect),
{
    let ghost before = hasher@;
    let mut index: usize = 0;
    assert(layers@.take(0) =~= Seq::<LayerPlace>::empty());
    while index < layers.len()
        invariant
            index <= layers@.len(),
            effect_rect.fits(),
            layers_fit(layers@, output_loc),
            hasher@ =~= before + layer_chunks(layers@.take(index as int), output_loc, effect_rect),
        decreases layers@.len() - index,
    {
        proof {
            assert(layers@.take(index + 1).drop_last() =~= layers@.take(index as int));
            assert(layers@.take(index + 1).last() == layers@[index as int]);
            assert(layers@[index as int].fits_at(output_loc));
        }
        let layer: LayerPlace = layers[index];
        match layer.geometry {
            Some(geo) => {
                let rect: LogicalRect = geo.translated(output_loc.x, output_loc.y);
                if geometry::logical_rects_intersect(rect, effect_rect) {
                    hasher.id(layer.protocol_id);
                    hasher.rect(rect);
                }
            },
            None => {},
        }
        index += 1;
    }
    assert(layers@.take(layers@.len() as int) =~= layers@);
}

/// No text is taken for the end of another.
pub(crate) proof fn lemma_text_is_no_end(text: Seq<char>)
    ensures
        encode_utf8(text) != seq![255u8],
{
    encode_utf8_valid_utf8(text);
    if encode_utf8(text) == seq![255u8] {
        assert(seq![255u8][0] == 255u8);
        assert(!valid_first_scalar(seq![255u8]));
        assert(!valid_utf8(seq![255u8]));
    }
}

pub(crate) proof fn lemma_int_chunk_len(n: i32)
    ensures
        int_chunk(n).len() == 4,
{
    lemma_auto_spec_u32_to_from_le_bytes();
}

/// The same text stands at this place of both lists.
pub(crate) proof fn lemma_same_text(
    x: Seq<Seq<u8>>,
    y: Seq<Seq<u8>>,
    at: int,
    a: Seq<char>,
    b: Seq<char>,
)
    requires
        x == y,
        0 <= at < x.len(),
        x[at] == encode_utf8(a),
        y[at] == encode_utf8(b),
    ensures
        a == b,
{
    lemma_text_injective(a, b);
}

/// The same rectangle stands at this place of both lists.
pub(crate) proof fn lemma_same_rect(
    x: Seq<Seq<u8>>,
    y: Seq<Seq<u8>>,
    at: int,
    a: LogicalRect,
    b: LogicalRect,
)
    requires
        x == y,
        0 <= at,
        at + 4 <= x.len(),
        x.subrange(at, at + 4) == rect_chunks(a),
        y.subrange(at, at + 4) == rect_chunks(b),
    ensures
        a == b,
{
    let p = rect_chunks(a);
    let q = rect_chunks(b);
    assert(p[0] == q[0] && p[1] == q[1] && p[2] == q[2] && p[3] == q[3]);
    lemma_int_chunk_injective(a.x, b.x);
    lemma_int_chunk_injective(a.y, b.y);
    lemma_int_chunk_injective(a.width, b.width);
    lemma_int_chunk_injective(a.height, b.height);
}

pub(crate) proof fn lemma_same_int(x: Seq<Seq<u8>>, y: Seq<Seq<u8>>, at: int, a: i32, b: i32)
    requires
        x == y,
        0 <= at < x.len(),
        x[at] == int_chunk(a),
        y[at] == int_chunk(b),
    ensures
        a == b,
{
    lemma_int_chunk_injective(a, b);
}

pub(crate) proof fn lemma_same_word(x: Seq<Seq<u8>>, y: Seq<Seq<u8>>, at: int, a: u64, b: u64)
    requires
        x == y,
        0 <= at < x.len(),
        x[at] == word_chunk(a),
        y[at] == word_chunk(b),
    ensures
        a == b,
{
    lemma_word_chunk_injective(a, b);
}

/// Each window takes six places of the list: its name, an end, and its rectangle.
proof fn lemma_window_chunks_shape(windows: Seq<WindowPlace>, effect_rect: LogicalRect, k: int)
    requires
        0 <= k,
        6 * k < window_chunks(windows, effect_rect).len(),
    ensures
        window_chunks(windows, effect_rect).len() % 6 == 0,
        6 * k + 6 <= window_chunks(windows, effect_rect).len(),
        window_chunks(windows, effect_rect)[6 * k + 1].len() == 1,
        exists|j: int|
            0 <= j < windows.len() && (#[trigger] windows[j]).contribution() is Some
                && !(windows[j].contribution()->0).1.disjoint_from(effect_rect)
                && window_chunks(windows, effect_rect).subrange(6 * k, 6 * k + 6) == text_chunks(
                (windows[j].contribution()->0).0,
            ) + rect_chunks((windows[j].contribution()->0).1),
    decreases windows.len(),
{
    let all = window_chunks(windows, effect_rect);
    let init = windows.drop_last();
    let rest = window_chunks(init, effect_rect);
    let last = windows.last();
    if last.contribution() is Some && geometry::intersect_rects(
        (last.contribution()->0).1,
        effect_rect,
    ) is Some {
        let (id, rect) = last.contribution()->0;
        lemma_rest_is_multiple(init, effect_rect);
        assert(all == rest + text_chunks(id) + rect_chunks(rect));
        if 6 * k < rest.len() {
            lemma_window_chunks_shape(init, effect_rect, k);
            assert(all.subrange(6 * k, 6 * k + 6) =~= rest.subrange(6 * k, 6 * k + 6));
            assert(all[6 * k + 1] == rest[6 * k + 1]);
            let j = choose|j: int|
                0 <= j < init.len() && (#[trigger] init[j]).contribution() is Some
                    && !(init[j].contribution()->0).1.disjoint_from(effect_rect)
                    && rest.subrange(6 * k, 6 * k + 6) == text_chunks(
                    (init[j].contribution()->0).0,
                ) + rect_chunks((init[j].contribution()->0).1);
            assert(windows[j] == init[j]);
        } else {
            assert(6 * k == rest.len());
            assert(all.subrange(6 * k, 6 * k + 6) =~= text_chunks(id) + rect_chunks(rect));
            assert(all[6 * k + 1] == seq![255u8]);
            lemma_overlap(rect, effect_rect);
            assert(windows[windows.len() - 1] == last);
        }
    } else {
        assert(all == rest);
        lemma_window_chunks_shape(init, effect_rect, k);
        let j = choose|j: int|
            0 <= j < init.len() && (#[trigger] init[j]).contribution() is Some
                && !(init[j].contribution()->0).1.disjoint_from(effect_rect) && rest.subrange(
                6 * k,
                6 * k + 6,
            ) == text_chunks((init[j].contribution()->0).0) + rect_chunks(
                (init[j].contribution()->0).1,
            );
        assert(windows[j] == init[j]);
    }
}

proof fn lemma_rest_is_multiple(windows: Seq<WindowPlace>, effect_rect: LogicalRect)
    ensures
        window_chunks(windows, effect_rect).len() % 6 == 0,
    decreases windows.len(),
{
    if windows.len() > 0 {
        lemma_rest_is_multiple(windows.drop_last(), effect_rect);
    }
}

/// Rectangles overlap when a point is in both.
proof fn lemma_overlap(a: LogicalRect, b: LogicalRect)
    ensures
        geometry::intersect_rects(a, b) is Some <==> !a.disjoint_from(b),
{
    let left = geometry::spec_max(a.x as int, b.x as int);
    let top = geometry::spec_max(a.y as int, b.y as int);
    if geometry::intersect_rects(a, b) is Some {
        assert(a.covers(left, top) && b.covers(left, top));
    }
}

/// Where the window at `i` stands in the list.
proof fn lemma_window_has_chunks(windows: Seq<WindowPlace>, effect_rect: LogicalRect, i: int) -> (k:
    int)
    requires
        0 <= i < windows.len(),
        windows[i].contribution() is Some,
        !(windows[i].contribution()->0).1.disjoint_from(effect_rect),
    ensures
        0 <= k,
        6 * k + 6 <= window_chunks(windows, effect_rect).len(),
        window_chunks(windows, effect_rect).subrange(6 * k, 6 * k + 6) == text_chunks(
            (windows[i].contribution()->0).0,
        ) + rect_chunks((windows[i].contribution()->0).1),
    decreases windows.len(),
{
    let all = window_chunks(windows, effect_rect);
    let init = windows.drop_last();
    let rest = window_chunks(init, effect_rect);
    lemma_rest_is_multiple(init, effect_rect);
    if i == windows.len() - 1 {
        let (id, rect) = windows[i].contribution()->0;
        lemma_overlap(rect, effect_rect);
        let k = rest.len() as int / 6;
        assert(all == rest + text_chunks(id) + rect_chunks(rect));
        assert(6 * k == rest.len());
        assert(all.subrange(6 * k, 6 * k + 6) =~= text_chunks(id) + rect_chunks(rect));
        k
    } else {
        assert(init[i] == windows[i]);
        let k = lemma_window_has_chunks(init, effect_rect, i);
        assert(rest.len() <= all.len() && all.take(rest.len() as int) =~= rest);
        assert(all.subrange(6 * k, 6 * k + 6) =~= rest.subrange(6 * k, 6 * k + 6));
        k
    }
}

/// One of the windows counts under this name with this rectangle.
pub open spec fn shows_window(windows: Seq<WindowPlace>, id: Seq<char>, rect: LogicalRect) -> bool {
    exists|j: int| 0 <= j < windows.len() && (#[trigger] windows[j]).contribution() == Some((id, rect))
}

/// Where the same was collected for two stacks of windows, every window of one that lies
/// under the effect is in the other, at the same place.
pub proof fn law_seen_windows_tell_stacks_apart(
    a: Seq<WindowPlace>,
    b: Seq<WindowPlace>,
    a_rect: LogicalRect,
    b_rect: LogicalRect,
    i: int,
)
    requires
        window_chunks(a, a_rect) == window_chunks(b, b_rect),
        0 <= i < a.len(),
        a[i].contribution() is Some,
        !(a[i].contribution()->0).1.disjoint_from(a_rect),
    ensures
        shows_window(b, (a[i].contribution()->0).0, (a[i].contribution()->0).1),
{
    let (id, rect) = a[i].contribution()->0;
    let x = window_chunks(a, a_rect);
    let k = lemma_window_has_chunks(a, a_rect, i);
    lemma_window_chunks_shape(b, b_rect, k);
    let j = choose|j: int|
        0 <= j < b.len() && (#[trigger] b[j]).contribution() is Some
            && !(b[j].contribution()->0).1.disjoint_from(b_rect) && window_chunks(
            b,
            b_rect,
        ).subrange(6 * k, 6 * k + 6) == text_chunks((b[j].contribution()->0).0) + rect_chunks(
            (b[j].contribution()->0).1,
        );
    let (other_id, other_rect) = b[j].contribution()->0;
    let p = text_chunks(id) + rect_chunks(rect);
    let q = text_chunks(other_id) + rect_chunks(other_rect);
    assert(p == q);
    assert(p[0] == encode_utf8(id) && q[0] == encode_utf8(other_id));
    lemma_same_text(p, q, 0, id, other_id);
    assert(p.subrange(2, 6) =~= rect_chunks(rect));
    assert(q.subrange(2, 6) =~= rect_chunks(other_rect));
    lemma_same_rect(p, q, 2, rect, other_rect);
    assert(b[j].contribution() == Some((id, rect)));
}

/// A window that does not reach under the effect changes nothing of what is collected.
pub proof fn law_windows_elsewhere_do_not_count(
    above: Seq<WindowPlace>,
    window: WindowPlace,
    below: Seq<WindowPlace>,
    effect_rect: LogicalRect,
)
    requires
        window.contribution() matches Some((_, rect)) ==> rect.disjoint_from(effect_rect),
    ensures
        window_chunks(above.push(window) + below, effect_rect) == window_chunks(
            above + below,
            effect_rect,
        ),
    decreases below.len(),
{
    if below.len() == 0 {
        if window.contribution() is Some {
            lemma_overlap((window.contribution()->0).1, effect_rect);
        }
        assert(above.push(window) + below =~= above.push(window));
        assert(above.push(window).drop_last() =~= above);
        assert(above + below =~= above);
    } else {
        law_windows_elsewhere_do_not_count(above, window, below.drop_last(), effect_rect);
        assert((above.push(window) + below).drop_last() =~= above.push(window)
            + below.drop_last());
        assert((above + below).drop_last() =~= above + below.drop_last());
    }
}

/// A window counts where it is drawn: with its decoration if it has one, and otherwise where
/// its surfaces are, as long as it is part of the layout.
pub proof fn law_windows_count_where_they_are(place: WindowPlace, px: int, py: int)
    requires
        place.fits(),
    ensures
        place.decorated matches Some((id, rect)) ==> place.contribution() == Some((id@, rect)),
        place.decorated is None && place.location is None ==> place.contribution() is None,
        place.decorated is None && place.location is Some ==> {
            &&& place.contribution() is Some
            &&& (place.contribution()->0).1.covers(px, py) <==> place.bbox.covers(
                px - place.location->0.x,
                py - place.location->0.y,
            )
            &&& place.protocol_id matches Some(number) ==> (place.contribution()->0).0
                == text::decimal(number as int)
            &&& place.protocol_id is None ==> (place.contribution()->0).0 == "unknown"@
        },
{
}

proof fn lemma_layer_chunks_len(
    layers: Seq<LayerPlace>,
    output_loc: LogicalPoint,
    effect_rect: LogicalRect,
)
    ensures
        layer_chunks(layers, output_loc, effect_rect).len() % 5 == 0,
        forall|k: int|
            0 <= k < layer_chunks(layers, output_loc, effect_rect).len() ==> (
            #[trigger] layer_chunks(layers, output_loc, effect_rect)[k]).len() == 4,
    decreases layers.len(),
{
    lemma_auto_spec_u32_to_from_le_bytes();
    if layers.len() > 0 {
        lemma_layer_chunks_len(layers.drop_last(), output_loc, effect_rect);
    }
}

/// Each layer surface takes five places of the list.
proof fn lemma_layer_chunks_shape(
    layers: Seq<LayerPlace>,
    output_loc: LogicalPoint,
    effect_rect: LogicalRect,
    k: int,
)
    requires
        0 <= k,
        5 * k < layer_chunks(layers, output_loc, effect_rect).len(),
    ensures
        5 * k + 5 <= layer_chunks(layers, output_loc, effect_rect).len(),
        exists|j: int|
            0 <= j < layers.len() && (#[trigger] layers[j]).geometry is Some && layer_chunks(
                layers,
                output_loc,
                effect_rect,
            ).subrange(5 * k, 5 * k + 5) == seq![id_chunk(layers[j].protocol_id)] + rect_chunks(
                layers[j].global_rect(output_loc),
            ),
    decreases layers.len(),
{
    let all = layer_chunks(layers, output_loc, effect_rect);
    let init = layers.drop_last();
    let rest = layer_chunks(init, output_loc, effect_rect);
    let last = layers.last();
    lemma_layer_chunks_len(init, output_loc, effect_rect);
    if 5 * k < rest.len() {
        lemma_layer_chunks_shape(init, output_loc, effect_rect, k);
        assert(all.subrange(5 * k, 5 * k + 5) =~= rest.subrange(5 * k, 5 * k + 5));
        let j = choose|j: int|
            0 <= j < init.len() && (#[trigger] init[j]).geometry is Some && rest.subrange(
                5 * k,
                5 * k + 5,
            ) == seq![id_chunk(init[j].protocol_id)] + rect_chunks(
                init[j].global_rect(output_loc),
            );
        assert(layers[j] == init[j]);
    } else {
        assert(5 * k == rest.len());
        assert(all.subrange(5 * k, 5 * k + 5) =~= seq![id_chunk(last.protocol_id)] + rect_chunks(
            last.global_rect(output_loc),
        ));
        assert(layers[layers.len() - 1] == last);
    }
}

proof fn lemma_layer_has_chunks(
    layers: Seq<LayerPlace>,
    output_loc: LogicalPoint,
    effect_rect: LogicalRect,
    i: int,
) -> (k: int)
    requires
        0 <= i < layers.len(),
        layers[i].geometry is Some,
        !layers[i].global_rect(output_loc).disjoint_from(effect_rect),
    ensures
        0 <= k,
        5 * k + 5 <= layer_chunks(layers, output_loc, effect_rect).len(),
        layer_chunks(layers, output_loc, effect_rect).subrange(5 * k, 5 * k + 5) == seq![
            id_chunk(layers[i].protocol_id),
        ] + rect_chunks(layers[i].global_rect(output_loc)),
    decreases layers.len(),
{
    let all = layer_chunks(layers, output_loc, effect_rect);
    let init = layers.drop_last();
    let rest = layer_chunks(init, output_loc, effect_rect);
    lemma_layer_chunks_len(init, output_loc, effect_rect);
    if i == layers.len() - 1 {
        lemma_overlap(layers[i].global_rect(output_loc), effect_rect);
        let k = rest.len() as int / 5;
        assert(5 * k == rest.len());
        assert(all.subrange(5 * k, 5 * k + 5) =~= seq![id_chunk(layers[i].protocol_id)]
            + rect_chunks(layers[i].global_rect(output_loc)));
        k
    } else {
        assert(init[i] == layers[i]);
        let k = lemma_layer_has_chunks(init, output_loc, effect_rect, i);
        assert(rest.len() <= all.len() && all.take(rest.len() as int) =~= rest);
        assert(all.subrange(5 * k, 5 * k + 5) =~= rest.subrange(5 * k, 5 * k + 5));
        k
    }
}

/// One of the layer surfaces has this number and is at this place of the layout.
pub open spec fn shows_layer(
    layers: Seq<LayerPlace>,
    output_loc: LogicalPoint,
    protocol_id: u32,
    rect: LogicalRect,
) -> bool {
    exists|j: int|
        0 <= j < layers.len() && (#[trigger] layers[j]).protocol_id == protocol_id
            && layers[j].geometry is Some && layers[j].global_rect(output_loc) == rect
}

/// Where the same was collected for two sets of layer surfaces, every one of the first that
/// lies under the effect is in the other, at the same place.
pub proof fn law_seen_layers_tell_sets_apart(
    a: Seq<LayerPlace>,
    b: Seq<LayerPlace>,
    a_loc: LogicalPoint,
    b_loc: LogicalPoint,
    a_rect: LogicalRect,
    b_rect: LogicalRect,
    i: int,
)
    requires
        layer_chunks(a, a_loc, a_rect) == layer_chunks(b, b_loc, b_rect),
        0 <= i < a.len(),
        a[i].geometry is Some,
        !a[i].global_rect(a_loc).disjoint_from(a_rect),
    ensures
        shows_layer(b, b_loc, a[i].protocol_id, a[i].global_rect(a_loc)),
{
    let rect = a[i].global_rect(a_loc);
    let k = lemma_layer_has_chunks(a, a_loc, a_rect, i);
    lemma_layer_chunks_shape(b, b_loc, b_rect, k);
    let j = choose|j: int|
        0 <= j < b.len() && (#[trigger] b[j]).geometry is Some && layer_chunks(
            b,
            b_loc,
            b_rect,
        ).subrange(5 * k, 5 * k + 5) == seq![id_chunk(b[j].protocol_id)] + rect_chunks(
            b[j].global_rect(b_loc),
        );
    let p = seq![id_chunk(a[i].protocol_id)] + rect_chunks(rect);
    let q = seq![id_chunk(b[j].protocol_id)] + rect_chunks(b[j].global_rect(b_loc));
    assert(p == q);
    assert(p[0] == id_chunk(a[i].protocol_id) && q[0] == id_chunk(b[j].protocol_id));
    lemma_auto_spec_u32_to_from_le_bytes();
    assert(spec_u32_from_le_bytes(p[0]) == a[i].protocol_id);
    assert(spec_u32_from_le_bytes(q[0]) == b[j].protocol_id);
    assert(p.subrange(1, 5) =~= rect_chunks(rect));
    assert(q.subrange(1, 5) =~= rect_chunks(b[j].global_rect(b_loc)));
    lemma_same_rect(p, q, 1, rect, b[j].global_rect(b_loc));
}

/// A layer surface that does not reach under the effect, or that has not been placed, changes
/// nothing of what is collected.
pub proof fn law_layers_elsewhere_do_not_count(
    above: Seq<LayerPlace>,
    layer: LayerPlace,
    below: Seq<LayerPlace>,
    output_loc: LogicalPoint,
    effect_rect: LogicalRect,
)
    requires
        layer.geometry is Some ==> layer.global_rect(output_loc).disjoint_from(effect_rect),
    ensures
        layer_chunks(above.push(layer) + below, output_loc, effect_rect) == layer_chunks(
            above + below,
            output_loc,
            effect_rect,
        ),
    decreases below.len(),
{
    if below.len() == 0 {
        lemma_overlap(layer.global_rect(output_loc), effect_rect);
        assert(above.push(layer) + below =~= above.push(layer));
        assert(above.push(layer).drop_last() =~= above);
        assert(above + below =~= above);
    } else {
        law_layers_elsewhere_do_not_count(
            above,
            layer,
            below.drop_last(),
            output_loc,
            effect_rect,
        );
        assert((above.push(layer) + below).drop_last() =~= above.push(layer) + below.drop_last());
        assert((above + below).drop_last() =~= above + below.drop_last());
    }
}

/// A layer surface is in the layout where it is on its output, moved by where the output is.
pub proof fn law_layers_are_placed_by_their_output(
    layer: LayerPlace,
    output_loc: LogicalPoint,
    px: int,
    py: int,
)
    requires
        layer.geometry is Some,
        layer.fits_at(output_loc),
    ensures
        layer.global_rect(output_loc).covers(px, py) <==> layer.geometry->0.covers(
            px - output_loc.x,
            py - output_loc.y,
        ),
{
}

/// What windows and what layer surfaces have contributed can be told apart.
pub(crate) proof fn lemma_split_contributions(
    a_windows: Seq<WindowPlace>,
    a_layers: Seq<LayerPlace>,
    a_loc: LogicalPoint,
    a_rect: LogicalRect,
    b_windows: Seq<WindowPlace>,
    b_layers: Seq<LayerPlace>,
    b_loc: LogicalPoint,
    b_rect: LogicalRect,
)
    requires
        window_chunks(a_windows, a_rect) + layer_chunks(a_layers, a_loc, a_rect) == window_chunks(
            b_windows,
            b_rect,
        ) + layer_chunks(b_layers, b_loc, b_rect),
        window_chunks(a_windows, a_rect).len() <= window_chunks(b_windows, b_rect).len(),
    ensures
        window_chunks(a_windows, a_rect) == window_chunks(b_windows, b_rect),
        layer_chunks(a_layers, a_loc, a_rect) == layer_chunks(b_layers, b_loc, b_rect),
{
    let w = window_chunks(a_windows, a_rect);
    let l = layer_chunks(a_layers, a_loc, a_rect);
    let v = window_chunks(b_windows, b_rect);
    let m = layer_chunks(b_layers, b_loc, b_rect);
    lemma_rest_is_multiple(a_windows, a_rect);
    lemma_rest_is_multiple(b_windows, b_rect);
    lemma_layer_chunks_len(a_layers, a_loc, a_rect);
    if w.len() < v.len() {
        let k = w.len() as int / 6;
        assert(6 * k == w.len());
        lemma_window_chunks_shape(b_windows, b_rect, k);
        assert((v + m)[6 * k + 1] == v[6 * k + 1]);
        assert((w + l).len() == (v + m).len());
        assert((w + l)[6 * k + 1] == l[1]);
        assert(l[1].len() == 4);
        assert(false);
    }
    assert(w =~= (w + l).take(w.len() as int));
    assert(v =~= (v + m).take(v.len() as int));
    assert(l =~= (w + l).skip(w.len() as int));
    assert(m =~= (v + m).skip(v.len() as int));
}

/// What is collected for two sets of layer surfaces in turn is what is collected for both.
pub(crate) proof fn lemma_layers_in_turn(
    first: Seq<LayerPlace>,
    second: Seq<LayerPlace>,
    output_loc: LogicalPoint,
    effect_rect: LogicalRect,
)
    ensures
        layer_chunks(first + second, output_loc, effect_rect) == layer_chunks(
            first,
            output_loc,
            effect_rect,
        ) + layer_chunks(second, output_loc, effect_rect),
    decreases second.len(),
{
    if second.len() == 0 {
        assert(first + second =~= first);
    } else {
        lemma_layers_in_turn(first, second.drop_last(), output_loc, effect_rect);
        assert((first + second).drop_last() =~= first + second.drop_last());
        assert((first + second).last() == second.last());
    }
}

/// The signature of an effect of a window is that of data that tells effects apart by all that
/// their picture depends on.
pub proof fn law_effect_signature_tells_scenes_apart(
    a: &EffectScene,
    b: &EffectScene,
    a_signature: u64,
    b_signature: u64,
)
    requires
        call_ensures(window_effect_signature, (a,), a_signature),
        call_ensures(window_effect_signature, (b,), b_signature),
    ensures
        exists|x: Seq<Seq<u8>>, y: Seq<Seq<u8>>|
            a_signature == #[trigger] signature_of(x) && b_signature == #[trigger] signature_of(y)
                && (x == y ==> {
                &&& a.placement@ == b.placement@
                &&& a.rect == b.rect
                &&& a.outsets == b.outsets
                &&& a.effect@ == b.effect@
                &&& a.scale_bits == b.scale_bits
                &&& a.scene_signature == b.scene_signature
            }),
{
    let x = effect_chunks(*a);
    let y = effect_chunks(*b);
    if x == y {
        law_effect_chunks_tell_scenes_apart(*a, *b);
    }
    assert(a_signature == signature_of(x) && b_signature == signature_of(y));
}

/// Windows count where they are drawn: decorated ones with what is drawn of them, others with
/// their surfaces, and not at all outside the layout.
pub proof fn law_contributing_windows(
    place: &WindowPlace,
    contributor: Option<SceneContributor>,
    px: int,
    py: int,
)
    requires
        place.fits(),
        call_ensures(contributor_window_scene_rect, (place,), contributor),
    ensures
        place.decorated is None && place.location is None <==> contributor is None,
        place.decorated matches Some((id, rect)) ==> contributor->0.id@ == id@
            && contributor->0.rect == rect,
        place.decorated is None && place.location is Some ==> {
            &&& contributor->0.rect.covers(px, py) <==> place.bbox.covers(
                px - place.location->0.x,
                py - place.location->0.y,
            )
            &&& place.protocol_id matches Some(number) ==> contributor->0.id@ == text::decimal(
                number as int,
            )
            &&& place.protocol_id is None ==> contributor->0.id@ == "unknown"@
        },
{
}

/// Collecting windows adds to what was collected before, and what is added tells stacks apart.
pub proof fn law_collected_windows_tell_stacks_apart(
    a: &mut SceneHasher,
    b: &mut SceneHasher,
    a_windows: &[WindowPlace],
    b_windows: &[WindowPlace],
    rect: LogicalRect,
    i: int,
)
    requires
        call_ensures(hash_window_scene_contributors, (a, a_windows, rect), ()),
        call_ensures(hash_window_scene_contributors, (b, b_windows, rect), ()),
        old(a)@ == old(b)@,
        0 <= i < a_windows@.len(),
        a_windows@[i].contribution() is Some,
        !(a_windows@[i].contribution()->0).1.disjoint_from(rect),
    ensures
        final(a)@.len() >= old(a)@.len() && final(a)@.take(old(a)@.len() as int) == old(a)@,
        final(a)@ == final(b)@ ==> shows_window(
            b_windows@,
            (a_windows@[i].contribution()->0).0,
            (a_windows@[i].contribution()->0).1,
        ),
{
    let n = old(a)@.len() as int;
    assert(final(a)@.take(n) =~= old(a)@);
    assert(final(a)@.skip(n) =~= window_chunks(a_windows@, rect));
    assert(final(b)@.skip(n) =~= window_chunks(b_windows@, rect));
    if final(a)@ == final(b)@ {
        law_seen_windows_tell_stacks_apart(a_windows@, b_windows@, rect, rect, i);
    }
}

/// Collecting layer surfaces adds to what was collected before, and what is added tells sets of
/// them apart.
pub proof fn law_collected_layers_tell_sets_apart(
    a: &mut SceneHasher,
    b: &mut SceneHasher,
    a_layers: &[LayerPlace],
    b_layers: &[LayerPlace],
    output_loc: LogicalPoint,
    rect: LogicalRect,
    i: int,
)
    requires
        call_ensures(hash_layer_scene_contributors, (a, a_layers, output_loc, rect), ()),
        call_ensures(hash_layer_scene_contributors, (b, b_layers, output_loc, rect), ()),
        old(a)@ == old(b)@,
        0 <= i < a_layers@.len(),
        a_layers@[i].geometry is Some,
        !a_layers@[i].global_rect(output_loc).disjoint_from(rect),
    ensures
        final(a)@.len() >= old(a)@.len() && final(a)@.take(old(a)@.len() as int) == old(a)@,
        final(a)@ == final(b)@ ==> shows_layer(
            b_layers@,
            output_loc,
            a_layers@[i].protocol_id,
            a_layers@[i].global_rect(output_loc),
        ),
{
    let n = old(a)@.len() as int;
    assert(final(a)@.take(n) =~= old(a)@);
    assert(final(a)@.skip(n) =~= layer_chunks(a_layers@, output_loc, rect));
    assert(final(b)@.skip(n) =~= layer_chunks(b_layers@, output_loc, rect));
    if final(a)@ == final(b)@ {
        law_seen_layers_tell_sets_apart(
            a_layers@,
            b_layers@,
            output_loc,
            output_loc,
            rect,
            rect,
            i,
        );
    }
}

/// What is collected is added to what was collected before, and different values add different
/// data.
pub proof fn law_collected_values_are_told_apart(
    a: &mut SceneHasher,
    b: &mut SceneHasher,
    c: &mut SceneHasher,
    d: &mut SceneHasher,
    n: i32,
    m: i32,
    p: u64,
    q: u64,
)
    requires
        call_ensures(SceneHasher::number, (a, n), ()),
        call_ensures(SceneHasher::number, (b, m), ()),
        call_ensures(SceneHasher::word, (c, p), ()),
        call_ensures(SceneHasher::word, (d, q), ()),
        old(a)@ == old(b)@,
        old(c)@ == old(d)@,
    ensures
        final(a)@ == final(b)@ <==> n == m,
        final(c)@ == final(d)@ <==> p == q,
        final(a)@.len() == old(a)@.len() + 1,
        final(c)@.len() == old(c)@.len() + 1,
{
    if final(a)@ == final(b)@ {
        let k = old(a)@.len() as int;
        assert(final(a)@[k] == int_chunk(n) && final(b)@[k] == int_chunk(m));
        lemma_int_chunk_injective(n, m);
    }
    if final(c)@ == final(d)@ {
        let k = old(c)@.len() as int;
        assert(final(c)@[k] == word_chunk(p) && final(d)@[k] == word_chunk(q));
        lemma_word_chunk_injective(p, q);
    }
}

/// Texts, numbers of surfaces, rectangles and outsets that are collected are told apart too.
pub proof fn law_collected_parts_are_told_apart(
    a: &mut SceneHasher,
    b: &mut SceneHasher,
    c: &mut SceneHasher,
    d: &mut SceneHasher,
    e: &mut SceneHasher,
    f: &mut SceneHasher,
    g: &mut SceneHasher,
    h: &mut SceneHasher,
    text: &str,
    other_text: &str,
    rect: LogicalRect,
    other_rect: LogicalRect,
    outsets: EffectOutsets,
    other_outsets: EffectOutsets,
    id: u32,
    other_id: u32,
)
    requires
        call_ensures(SceneHasher::text, (a, text), ()),
        call_ensures(SceneHasher::text, (b, other_text), ()),
        call_ensures(SceneHasher::rect, (c, rect), ()),
        call_ensures(SceneHasher::rect, (d, other_rect), ()),
        call_ensures(SceneHasher::outsets, (e, outsets), ()),
        call_ensures(SceneHasher::outsets, (f, other_outsets), ()),
        call_ensures(SceneHasher::id, (g, id), ()),
        call_ensures(SceneHasher::id, (h, other_id), ()),
        old(a)@ == old(b)@,
        old(c)@ == old(d)@,
        old(e)@ == old(f)@,
        old(g)@ == old(h)@,
    ensures
        final(a)@ == final(b)@ <==> text@ == other_text@,
        final(c)@ == final(d)@ <==> rect == other_rect,
        final(e)@ == final(f)@ <==> outsets == other_outsets,
        final(g)@ == final(h)@ <==> id == other_id,
{
    if final(a)@ == final(b)@ {
        let k = old(a)@.len() as int;
        lemma_same_text(final(a)@, final(b)@, k, text@, other_text@);
    }
    if final(c)@ == final(d)@ {
        let k = old(c)@.len() as int;
        assert(final(c)@.subrange(k, k + 4) =~= rect_chunks(rect));
        assert(final(d)@.subrange(k, k + 4) =~= rect_chunks(other_rect));
        lemma_same_rect(final(c)@, final(d)@, k, rect, other_rect);
    }
    if final(e)@ == final(f)@ {
        let k = old(e)@.len() as int;
        lemma_same_int(final(e)@, final(f)@, k, outsets.left, other_outsets.left);
        lemma_same_int(final(e)@, final(f)@, k + 1, outsets.right, other_outsets.right);
        lemma_same_int(final(e)@, final(f)@, k + 2, outsets.top, other_outsets.top);
        lemma_same_int(final(e)@, final(f)@, k + 3, outsets.bottom, other_outsets.bottom);
    }
    if final(g)@ == final(h)@ {
        let k = old(g)@.len() as int;
        lemma_auto_spec_u32_to_from_le_bytes();
        assert(final(g)@[k] == id_chunk(id) && final(h)@[k] == id_chunk(other_id));
        assert(spec_u32_from_le_bytes(id_chunk(id)) == id);
        assert(spec_u32_from_le_bytes(id_chunk(other_id)) == other_id);
    }
}

/// The signature is that of all that was collected, and of nothing else.
pub proof fn law_signatures_are_of_what_was_collected(
    fresh: SceneHasher,
    a: &SceneHasher,
    b: &SceneHasher,
    a_signature: u64,
    b_signature: u64,
)
    requires
        call_ensures(SceneHasher::new, (), fresh),
        call_ensures(SceneHasher::finish, (a,), a_signature),
        call_ensures(SceneHasher::finish, (b,), b_signature),
    ensures
        fresh@.len() == 0,
        a_signature == signature_of(a@),
        a@ == b@ ==> a_signature == b_signature,
{
}

} // verus!
