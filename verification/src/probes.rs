//! Probes for gaps between the elements of a window: small areas along edges whose pixels
//! are read back. All rectangles here are in pixels.

use crate::geometry::{self, LogicalPoint, LogicalRect};
use crate::table;
use crate::text;
use vstd::prelude::*;
use vstd::string::*;

verus! {

/// An area that is read back.
pub struct Probe {
    /// Which edge the area lies along, and how wide or how far in it is.
    pub side: String,
    pub rect: LogicalRect,
}

/// The names and areas of probes.
pub open spec fn shape_of(probe: Probe) -> (Seq<char>, LogicalRect) {
    (probe.side@, probe.rect)
}

pub open spec fn shapes_of(probes: Seq<Probe>) -> Seq<(Seq<char>, LogicalRect)> {
    probes.map_values(|probe: Probe| shape_of(probe))
}

pub open spec fn numbered(name: Seq<char>, n: int) -> Seq<char> {
    name + text::decimal(n) + "px"@
}

fn push_probe(probes: &mut Vec<Probe>, name: &str, n: i32, rect: LogicalRect)
    ensures
        shapes_of(final(probes)@) == shapes_of(old(probes)@).push(
            (numbered(name@, n as int), rect),
        ),
{
    let mut side: String = name.to_owned();
    text::append_i32(&mut side, n);
    side.append("px");
    let ghost before = shapes_of(probes@);
    probes.push(Probe { side, rect });
    assert(shapes_of(probes@) =~= before.push((numbered(name@, n as int), rect)));
}

/// The four areas of a given width along the edges of a rectangle.
pub open spec fn border_probes(g: LogicalRect, probe: int) -> Seq<(Seq<char>, LogicalRect)> {
    let width = geometry::spec_min(g.width as int, probe);
    let height = geometry::spec_min(g.height as int, probe);
    seq![
        (
            numbered("left-"@, probe),
            geometry::rect_of(g.x as int, g.y as int, width, g.height as int),
        ),
        (
            numbered("top-"@, probe),
            geometry::rect_of(g.x as int, g.y as int, g.width as int, height),
        ),
        (
            numbered("right-"@, probe),
            geometry::rect_of(g.x + (g.width - width), g.y as int, width, g.height as int),
        ),
        (
            numbered("bottom-"@, probe),
            geometry::rect_of(g.x as int, g.y + (g.height - height), g.width as int, height),
        ),
    ]
}

/// A line of pixels at a distance from the right edge, if the rectangle is wide enough.
pub open spec fn right_inset_probe(name: Seq<char>, g: LogicalRect, inset: int) -> Seq<
    (Seq<char>, LogicalRect),
> {
    if g.width > inset {
        seq![
            (
                numbered(name, inset),
                geometry::rect_of(
                    g.x + g.width - 1 - inset,
                    g.y as int,
                    1,
                    g.height as int,
                ),
            ),
        ]
    } else {
        Seq::empty()
    }
}

pub open spec fn bottom_inset_probe(g: LogicalRect, inset: int) -> Seq<(Seq<char>, LogicalRect)> {
    if g.height > inset {
        seq![
            (
                numbered("bottom-inset-"@, inset),
                geometry::rect_of(g.x as int, g.y + g.height - 1 - inset, g.width as int, 1),
            ),
        ]
    } else {
        Seq::empty()
    }
}

pub open spec fn inset_probes(g: LogicalRect, inset: int) -> Seq<(Seq<char>, LogicalRect)> {
    right_inset_probe("right-inset-"@, g, inset) + bottom_inset_probe(g, inset)
}

fn push_border_probes(probes: &mut Vec<Probe>, g: LogicalRect, probe: i32)
    requires
        g.fits(),
        probe >= 0,
    ensures
        shapes_of(final(probes)@) == shapes_of(old(probes)@) + border_probes(g, probe as int),
{
    let ghost before = shapes_of(probes@);
    let width: i32 = geometry::min_i32(g.width, probe);
    let height: i32 = geometry::min_i32(g.height, probe);
    push_probe(probes, "left-", probe, LogicalRect::new(g.x, g.y, width, g.height));
    push_probe(probes, "top-", probe, LogicalRect::new(g.x, g.y, g.width, height));
    push_probe(
        probes,
        "right-",
        probe,
        LogicalRect::new(g.x + (g.width - width), g.y, width, g.height),
    );
    push_probe(
        probes,
        "bottom-",
        probe,
        LogicalRect::new(g.x, g.y + (g.height - height), g.width, height),
    );
    assert(shapes_of(probes@) =~= before + border_probes(g, probe as int));
}

fn push_right_inset(probes: &mut Vec<Probe>, name: &str, g: LogicalRect, inset: i32)
    requires
        g.fits(),
        inset >= 0,
    ensures
        shapes_of(final(probes)@) == shapes_of(old(probes)@) + right_inset_probe(
            name@,
            g,
            inset as int,
        ),
{
    let ghost before = shapes_of(probes@);
    if g.width > inset {
        push_probe(
            probes,
            name,
            inset,
            LogicalRect::new(g.x + g.width - 1 - inset, g.y, 1, g.height),
        );
    }
    assert(shapes_of(probes@) =~= before + right_inset_probe(name@, g, inset as int));
}

fn push_inset_probes(probes: &mut Vec<Probe>, g: LogicalRect, inset: i32)
    requires
        g.fits(),
        inset >= 0,
    ensures
        shapes_of(final(probes)@) == shapes_of(old(probes)@) + inset_probes(g, inset as int),
{
    let ghost before = shapes_of(probes@);
    push_right_inset(probes, "right-inset-", g, inset);
    let ghost middle = shapes_of(probes@);
    if g.height > inset {
        push_probe(
            probes,
            "bottom-inset-",
            inset,
            LogicalRect::new(g.x, g.y + g.height - 1 - inset, g.width, 1),
        );
    }
    assert(shapes_of(probes@) =~= middle + bottom_inset_probe(g, inset as int));
    assert(shapes_of(probes@) =~= before + inset_probes(g, inset as int));
}

/// The areas along the edges of an element: one, two and four pixels wide at each edge, and
/// lines one, two, four and eight pixels inside the right and the bottom edge.
pub open spec fn edge_probes(g: LogicalRect) -> Seq<(Seq<char>, LogicalRect)> {
    border_probes(g, 1) + border_probes(g, 2) + border_probes(g, 4) + inset_probes(g, 1)
        + inset_probes(g, 2) + inset_probes(g, 4) + inset_probes(g, 8)
}

pub fn log_gap_readback_edge_probes(first_geometry: LogicalRect) -> (probes: Vec<Probe>)
    requires
        first_geometry.fits(),
    ensures
        shapes_of(probes@) == edge_probes(first_geometry),
{
    let mut probes: Vec<Probe> = Vec::new();
    assert(shapes_of(probes@) =~= Seq::<(Seq<char>, LogicalRect)>::empty());
    push_border_probes(&mut probes, first_geometry, 1);
    push_border_probes(&mut probes, first_geometry, 2);
    push_border_probes(&mut probes, first_geometry, 4);
    push_inset_probes(&mut probes, first_geometry, 1);
    push_inset_probes(&mut probes, first_geometry, 2);
    push_inset_probes(&mut probes, first_geometry, 4);
    push_inset_probes(&mut probes, first_geometry, 8);
    assert(shapes_of(probes@) =~= edge_probes(first_geometry));
    probes
}

/// Every area along an edge is part of the element.
pub proof fn law_edge_probes_are_within(g: LogicalRect, index: int)
    requires
        g.fits(),
        g.is_solid(),
        0 <= index < edge_probes(g).len(),
    ensures
        edge_probes(g)[index].1.within(g),
        edge_probes(g)[index].1.is_solid(),
{
    let shapes = edge_probes(g);
    let s1 = border_probes(g, 1);
    let s2 = border_probes(g, 2);
    let s4 = border_probes(g, 4);
    let i1 = inset_probes(g, 1);
    let i2 = inset_probes(g, 2);
    let i4 = inset_probes(g, 4);
    let i8 = inset_probes(g, 8);
    assert(shapes[index] == s1[index] || index >= 4);
    assert forall|k: int| 0 <= k < 4 implies (#[trigger] s1[k]).1.within(g) && s1[k].1.is_solid()
        && (#[trigger] s2[k]).1.within(g) && s2[k].1.is_solid() && (#[trigger] s4[k]).1.within(g)
        && s4[k].1.is_solid() by {
        assert(k == 0 || k == 1 || k == 2 || k == 3);
    }
    if index >= 4 && index < 8 {
        assert(shapes[index] == s2[index - 4]);
    } else if index >= 8 && index < 12 {
        assert(shapes[index] == s4[index - 8]);
    }
}

/// A buffer of a decoration, as far as the choice of the title bar looks at it.
pub struct DecorationBuffer {
    pub stable_key: String,
    pub height: i32,
}

pub open spec fn ends_in_shader(key: Seq<char>) -> bool {
    key.len() >= 7 && key.subrange(key.len() - 7, key.len() as int) == ":shader"@
}

impl DecorationBuffer {
    pub open spec fn is_titlebar(self) -> bool {
        ends_in_shader(self.stable_key@) && self.height == 30
    }
}

fn is_shader_key(key: &str) -> (r: bool)
    ensures
        r == ends_in_shader(key@),
{
    let length: usize = key.unicode_len();
    if length < 7 {
        return false;
    }
    let tail: &str = key.substring_char(length - 7, length);
    table::str_eq(tail, ":shader")
}

/// The position of the buffer that draws the title bar: the first that looks like one, else
/// the first of all.
pub open spec fn is_titlebar_index(buffers: Seq<DecorationBuffer>, index: Option<usize>) -> bool {
    match index {
        None => buffers.len() == 0,
        Some(at) => {
            &&& at < buffers.len()
            &&& if buffers[at as int].is_titlebar() {
                forall|i: int| 0 <= i < at ==> !(#[trigger] buffers[i]).is_titlebar()
            } else {
                at == 0 && forall|i: int|
                    0 <= i < buffers.len() ==> !(#[trigger] buffers[i]).is_titlebar()
            }
        },
    }
}

pub fn titlebar_buffer(buffers: &[DecorationBuffer]) -> (index: Option<usize>)
    ensures
        is_titlebar_index(buffers@, index),
{
    let mut index: usize = 0;
    while index < buffers.len()
        invariant
            index <= buffers@.len(),
            forall|i: int| 0 <= i < index ==> !(#[trigger] buffers@[i]).is_titlebar(),
        decreases buffers@.len() - index,
    {
        if is_shader_key(buffers[index].stable_key.as_str()) && buffers[index].height == 30 {
            return Some(index);
        }
        index += 1;
    }
    if buffers.len() > 0 {
        Some(0)
    } else {
        None
    }
}

/// How often the pixels of whole windows are read back, so that the log stays short.
pub const MAX_FINAL_READBACKS: usize = 12;

/// Tells whether the pixels of a window are to be read back, and counts it if they would
/// be: only when that was asked for, of windows that are not faded and have more than one
/// element, and only so many times.
pub fn final_readback_is_due(
    count: &mut usize,
    enabled: bool,
    is_opaque: bool,
    element_count: usize,
) -> (due: bool)
    ensures
        ({
            let asked = enabled && is_opaque && element_count > 1;
            &&& due == (asked && *old(count) < MAX_FINAL_READBACKS)
            &&& *final(count) == (if !asked {
                *old(count)
            } else if *old(count) == usize::MAX {
                0
            } else {
                (*old(count) + 1) as usize
            })
        }),
{
    if !enabled || !is_opaque || element_count <= 1 {
        return false;
    }
    let before: usize = *count;
    *count = if before == usize::MAX {
        0
    } else {
        before + 1
    };
    before < MAX_FINAL_READBACKS
}

/// A line of pixels near the right edge of the hole that the border of a box leaves.
pub open spec fn hole_probe(titlebar: LogicalRect, hole: LogicalRect, offset: int) -> (
    Seq<char>,
    LogicalRect,
) {
    (
        numbered("parent-hole-right-offset-"@, offset),
        geometry::rect_of(hole.right() + offset, titlebar.y as int, 1, titlebar.height as int),
    )
}

/// The areas that are read back of a whole window: lines inside the right edge of the title
/// bar, and around the right edge of the hole that it is in.
pub open spec fn final_probes(titlebar: LogicalRect, hole: Option<LogicalRect>) -> Seq<
    (Seq<char>, LogicalRect),
> {
    let name = "titlebar-right-inset-"@;
    right_inset_probe(name, titlebar, 0) + right_inset_probe(name, titlebar, 1)
        + right_inset_probe(name, titlebar, 2) + right_inset_probe(name, titlebar, 3)
        + right_inset_probe(name, titlebar, 4) + right_inset_probe(name, titlebar, 8) + (
    match hole {
        Some(hole) => seq![
            hole_probe(titlebar, hole, -2),
            hole_probe(titlebar, hole, -1),
            hole_probe(titlebar, hole, 0),
            hole_probe(titlebar, hole, 1),
            hole_probe(titlebar, hole, 2),
        ],
        None => Seq::empty(),
    })
}

fn push_hole_probe(probes: &mut Vec<Probe>, titlebar: LogicalRect, hole: LogicalRect, offset: i32)
    requires
        hole.fits(),
        geometry::fits_i32(hole.right() + offset),
    ensures
        shapes_of(final(probes)@) == shapes_of(old(probes)@).push(
            hole_probe(titlebar, hole, offset as int),
        ),
{
    push_probe(
        probes,
        "parent-hole-right-offset-",
        offset,
        LogicalRect::new(hole.x + hole.width + offset, titlebar.y, 1, titlebar.height),
    );
}

pub fn log_gap_final_composite_readback(titlebar: LogicalRect, hole: Option<LogicalRect>) -> (probes:
    Vec<Probe>)
    requires
        titlebar.fits(),
        hole is Some ==> hole->0.fits() && geometry::fits_i32(hole->0.right() - 2)
            && geometry::fits_i32(hole->0.right() + 2),
    ensures
        shapes_of(probes@) == final_probes(titlebar, hole),
{
    let mut probes: Vec<Probe> = Vec::new();
    assert(shapes_of(probes@) =~= Seq::<(Seq<char>, LogicalRect)>::empty());
    push_right_inset(&mut probes, "titlebar-right-inset-", titlebar, 0);
    push_right_inset(&mut probes, "titlebar-right-inset-", titlebar, 1);
    push_right_inset(&mut probes, "titlebar-right-inset-", titlebar, 2);
    push_right_inset(&mut probes, "titlebar-right-inset-", titlebar, 3);
    push_right_inset(&mut probes, "titlebar-right-inset-", titlebar, 4);
    push_right_inset(&mut probes, "titlebar-right-inset-", titlebar, 8);
    match hole {
        Some(hole) => {
            push_hole_probe(&mut probes, titlebar, hole, -2);
            push_hole_probe(&mut probes, titlebar, hole, -1);
            push_hole_probe(&mut probes, titlebar, hole, 0);
            push_hole_probe(&mut probes, titlebar, hole, 1);
            push_hole_probe(&mut probes, titlebar, hole, 2);
        },
        None => {},
    }
    assert(shapes_of(probes@) =~= final_probes(titlebar, hole));
    probes
}

/// How far the edges of one rectangle are from those of another.
#[derive(Clone, Copy, Debug, PartialEq, Eq, Structural)]
pub struct EdgeDelta {
    pub left: i32,
    pub top: i32,
    pub right: i32,
    pub bottom: i32,
}

pub fn edge_delta(titlebar: LogicalRect, hole: LogicalRect) -> (delta: EdgeDelta)
    requires
        titlebar.fits(),
        hole.fits(),
        geometry::fits_i32(titlebar.x - hole.x),
        geometry::fits_i32(titlebar.y - hole.y),
        geometry::fits_i32(titlebar.right() - hole.right()),
        geometry::fits_i32(titlebar.bottom() - hole.bottom()),
    ensures
        delta.left == titlebar.x - hole.x,
        delta.top == titlebar.y - hole.y,
        delta.right == titlebar.right() - hole.right(),
        delta.bottom == titlebar.bottom() - hole.bottom(),
{
    EdgeDelta {
        left: titlebar.x - hole.x,
        top: titlebar.y - hole.y,
        right: (titlebar.x + titlebar.width) - (hole.x + hole.width),
        bottom: (titlebar.y + titlebar.height) - (hole.y + hole.height),
    }
}

/// The rectangle moved by `offset`. Its corner stays in the range of machine integers.
pub fn translate_physical_rect(rect: LogicalRect, offset: LogicalPoint) -> (r: LogicalRect)
    ensures
        r == geometry::rect_of(
            geometry::saturate_i32(rect.x + offset.x),
            geometry::saturate_i32(rect.y + offset.y),
            rect.width as int,
            rect.height as int,
        ),
{
    LogicalRect::new(
        geometry::saturating_add_i32(rect.x, offset.x),
        geometry::saturating_add_i32(rect.y, offset.y),
        rect.width,
        rect.height,
    )
}

/// The area has an extent and there is something to draw in it.
pub fn probe_is_drawn(rect: LogicalRect, element_count: usize) -> (r: bool)
    ensures
        r == (rect.is_solid() && element_count > 0),
{
    rect.width > 0 && rect.height > 0 && element_count > 0
}

/// The alpha values of pixels of four bytes each; bytes that make no whole pixel are left
/// out.
pub open spec fn alphas(bytes: Seq<u8>) -> Seq<u8> {
    Seq::new((bytes.len() / 4) as nat, |i: int| bytes[4 * i + 3])
}

pub open spec fn count_transparent(alphas: Seq<u8>) -> nat
    decreases alphas.len(),
{
    if alphas.len() == 0 {
        0
    } else {
        count_transparent(alphas.drop_last()) + (if alphas.last() == 0 {
            1nat
        } else {
            0nat
        })
    }
}

/// What the alpha values of an area say.
#[derive(Clone, Copy, Debug, PartialEq, Eq, Structural)]
pub struct AlphaStats {
    pub transparent: usize,
    pub opaque: usize,
    pub min_alpha: u8,
    pub max_alpha: u8,
}

/// `stats` counts the pixels that are wholly transparent and the others, and holds the
/// least and the greatest alpha value. Without pixels these are 255 and 0.
pub open spec fn describes(stats: AlphaStats, alphas: Seq<u8>) -> bool {
    &&& stats.transparent == count_transparent(alphas)
    &&& stats.opaque == alphas.len() - count_transparent(alphas)
    &&& forall|i: int|
        0 <= i < alphas.len() ==> stats.min_alpha <= (#[trigger] alphas[i]) <= stats.max_alpha
    &&& alphas.len() > 0 ==> alphas.contains(stats.min_alpha) && alphas.contains(stats.max_alpha)
    &&& alphas.len() == 0 ==> stats.min_alpha == 255 && stats.max_alpha == 0
}

proof fn lemma_transparent_bound(alphas: Seq<u8>)
    ensures
        count_transparent(alphas) <= alphas.len(),
    decreases alphas.len(),
{
    if alphas.len() > 0 {
        lemma_transparent_bound(alphas.drop_last());
    }
}

pub fn alpha_stats(bytes: &[u8]) -> (stats: AlphaStats)
    ensures
        describes(stats, alphas(bytes@)),
{
    let mut stats: AlphaStats = AlphaStats {
        transparent: 0,
        opaque: 0,
        min_alpha: 255,
        max_alpha: 0,
    };
    let ghost all = alphas(bytes@);
    let total: usize = bytes.len();
    let pixels: usize = total / 4;
    let mut index: usize = 0;
    assert(all.take(0) =~= Seq::<u8>::empty());
    while index < pixels
        invariant
            all == alphas(bytes@),
            total == bytes@.len(),
            pixels == total / 4,
            index <= pixels,
            describes(stats, all.take(index as int)),
        decreases pixels - index,
    {
        let ghost before = all.take(index as int);
        let ghost after = all.take(index + 1);
        let alpha: u8 = bytes[4 * index + 3];
        proof {
            assert(after.drop_last() =~= before);
            assert(after.last() == alpha);
            lemma_transparent_bound(before);
            assert(forall|i: int| 0 <= i < index ==> #[trigger] after[i] == before[i]);
        }
        let ghost was = stats;
        if alpha < stats.min_alpha || index == 0 {
            stats.min_alpha = alpha;
        }
        if alpha > stats.max_alpha || index == 0 {
            stats.max_alpha = alpha;
        }
        if alpha == 0 {
            stats.transparent = stats.transparent + 1;
        } else {
            stats.opaque = stats.opaque + 1;
        }
        proof {
            assert(after[index as int] == alpha);
            if index > 0 {
                let i = choose|i: int| 0 <= i < before.len() && before[i] == was.min_alpha;
                assert(after[i] == was.min_alpha);
                let j = choose|j: int| 0 <= j < before.len() && before[j] == was.max_alpha;
                assert(after[j] == was.max_alpha);
            }
        }
        index += 1;
    }
    assert(all.take(all.len() as int) =~= all);
    stats
}

/// Where the bytes of a pixel start.
pub open spec fn pixel_offset(width: i32, x: i32, y: i32) -> int {
    4 * (y * geometry::spec_max(width as int, 1) + x)
}

pub open spec fn pixel_at(bytes: Seq<u8>, width: i32, height: i32, x: i32, y: i32) -> Option<
    (u8, u8, u8, u8),
> {
    let offset = pixel_offset(width, x, y);
    if 0 <= x < width && 0 <= y < height && offset + 4 <= bytes.len() {
        Some((bytes[offset], bytes[offset + 1], bytes[offset + 2], bytes[offset + 3]))
    } else {
        None
    }
}

/// The four bytes of a pixel of an area, if it is in the area and in the data.
pub fn sample_raw(bytes: &[u8], width: i32, height: i32, x: i32, y: i32) -> (pixel: Option<
    (u8, u8, u8, u8),
>)
    ensures
        pixel == pixel_at(bytes@, width, height, x, y),
{
    if x < 0 || y < 0 || x >= width || y >= height {
        return None;
    }
    proof {
        assert(0 <= y * width <= 0x7fff_ffff * 0x7fff_ffff) by (nonlinear_arith)
            requires
                0 <= y <= 0x7fff_ffff,
                0 <= width <= 0x7fff_ffff,
        ;
    }
    let offset: u128 = 4 * (y as u128 * width as u128 + x as u128);
    if offset + 4 > bytes.len() as u128 {
        return None;
    }
    let at: usize = offset as usize;
    Some((bytes[at], bytes[at + 1], bytes[at + 2], bytes[at + 3]))
}

/// The points of an area whose pixels are reported: its corner, its middle, and three along
/// its right edge.
pub open spec fn sample_points(width: i32, height: i32) -> Seq<(i32, i32)> {
    seq![
        (0i32, 0i32),
        ((width / 2) as i32, (height / 2) as i32),
        ((width - 1) as i32, 0i32),
        ((width - 1) as i32, (height / 2) as i32),
        ((width - 1) as i32, (height - 1) as i32),
    ]
}

/// A pixel that is reported.
#[derive(Clone, Copy, Debug)]
pub struct Sample {
    pub x: i32,
    pub y: i32,
    pub pixel: (u8, u8, u8, u8),
}

pub open spec fn samples_at(
    bytes: Seq<u8>,
    width: i32,
    height: i32,
    points: Seq<(i32, i32)>,
) -> Seq<Sample>
    decreases points.len(),
{
    if points.len() == 0 {
        Seq::empty()
    } else {
        let rest = samples_at(bytes, width, height, points.drop_last());
        let (x, y) = points.last();
        match pixel_at(bytes, width, height, x, y) {
            Some(pixel) => rest.push(Sample { x, y, pixel }),
            None => rest,
        }
    }
}

fn push_sample(samples: &mut Vec<Sample>, bytes: &[u8], width: i32, height: i32, x: i32, y: i32, Ghost(
    before,
): Ghost<Seq<(i32, i32)>>)
    requires
        old(samples)@ == samples_at(bytes@, width, height, before),
    ensures
        final(samples)@ == samples_at(bytes@, width, height, before.push((x, y))),
{
    assert(before.push((x, y)).drop_last() =~= before);
    match sample_raw(bytes, width, height, x, y) {
        Some(pixel) => {
            samples.push(Sample { x, y, pixel });
        },
        None => {},
    }
}

/// What the pixels of an area say.
pub struct ProbeReport {
    pub stats: AlphaStats,
    pub samples: Vec<Sample>,
}

/// Describes the pixels that were read back of an area.
pub fn log_gap_readback_probe(bytes: &[u8], width: i32, height: i32) -> (report: ProbeReport)
    requires
        width > 0,
        height > 0,
    ensures
        describes(report.stats, alphas(bytes@)),
        report.samples@ == samples_at(bytes@, width, height, sample_points(width, height)),
{
    let mut samples: Vec<Sample> = Vec::new();
    let ghost p0 = Seq::<(i32, i32)>::empty();
    push_sample(&mut samples, bytes, width, height, 0, 0, Ghost(p0));
    let ghost p1 = p0.push((0i32, 0i32));
    push_sample(&mut samples, bytes, width, height, width / 2, height / 2, Ghost(p1));
    let ghost p2 = p1.push(((width / 2) as i32, (height / 2) as i32));
    push_sample(&mut samples, bytes, width, height, width - 1, 0, Ghost(p2));
    let ghost p3 = p2.push(((width - 1) as i32, 0i32));
    push_sample(&mut samples, bytes, width, height, width - 1, height / 2, Ghost(p3));
    let ghost p4 = p3.push(((width - 1) as i32, (height / 2) as i32));
    push_sample(&mut samples, bytes, width, height, width - 1, height - 1, Ghost(p4));
    assert(p4.push(((width - 1) as i32, (height - 1) as i32)) =~= sample_points(width, height));
    ProbeReport { stats: alpha_stats(bytes), samples }
}

/// The smallest rectangle around two; never of negative size.
pub open spec fn union_of(a: LogicalRect, b: LogicalRect) -> LogicalRect {
    let left = geometry::spec_min(a.x as int, b.x as int);
    let top = geometry::spec_min(a.y as int, b.y as int);
    let right = geometry::spec_max(a.right(), b.right());
    let bottom = geometry::spec_max(a.bottom(), b.bottom());
    geometry::rect_of(
        left,
        top,
        geometry::spec_max(right - left, 0),
        geometry::spec_max(bottom - top, 0),
    )
}

pub open spec fn union_of_all(rects: Seq<LogicalRect>) -> LogicalRect
    decreases rects.len(),
{
    if rects.len() <= 1 {
        rects[0]
    } else {
        union_of(union_of_all(rects.drop_last()), rects.last())
    }
}

/// The edges and the size of the rectangle around two are in the range of machine integers.
pub open spec fn union_fits(a: LogicalRect, b: LogicalRect) -> bool {
    &&& a.fits()
    &&& b.fits()
    &&& geometry::fits_i32(
        geometry::spec_max(a.right(), b.right()) - geometry::spec_min(a.x as int, b.x as int),
    )
    &&& geometry::fits_i32(
        geometry::spec_max(a.bottom(), b.bottom()) - geometry::spec_min(a.y as int, b.y as int),
    )
}

/// This holds for each rectangle in turn with the one around those before it.
pub open spec fn unions_fit(rects: Seq<LogicalRect>) -> bool
    decreases rects.len(),
{
    rects.len() <= 1 || (unions_fit(rects.drop_last()) && union_fits(
        union_of_all(rects.drop_last()),
        rects.last(),
    ))
}

proof fn lemma_unions_fit_before(rects: Seq<LogicalRect>, count: int)
    requires
        unions_fit(rects),
        0 <= count <= rects.len(),
    ensures
        unions_fit(rects.take(count)),
    decreases rects.len(),
{
    if count == rects.len() {
        assert(rects.take(count) =~= rects);
    } else if rects.len() > 1 {
        lemma_unions_fit_before(rects.drop_last(), count);
        assert(rects.drop_last().take(count) =~= rects.take(count));
    }
}

/// The smallest rectangle around all elements of a scene, and the first eight of them.
pub fn debug_scene_geometry_snapshot(geometries: Vec<LogicalRect>) -> (r: (
    Option<LogicalRect>,
    Vec<LogicalRect>,
))
    requires
        unions_fit(geometries@),
    ensures
        r.0 == (if geometries@.len() == 0 {
            None
        } else {
            Some(union_of_all(geometries@))
        }),
        r.1@ == geometries@.take(geometry::spec_min(geometries@.len() as int, 8)),
{
    let mut first: Vec<LogicalRect> = Vec::new();
    let mut union: Option<LogicalRect> = None;
    let mut index: usize = 0;
    while index < geometries.len()
        invariant
            index <= geometries@.len(),
            unions_fit(geometries@),
            union == (if index == 0 {
                None
            } else {
                Some(union_of_all(geometries@.take(index as int)))
            }),
            first@ =~= geometries@.take(geometry::spec_min(index as int, 8)),
        decreases geometries@.len() - index,
    {
        let rect: LogicalRect = geometries[index];
        proof {
            assert(rect == geometries@[index as int]);
            assert(geometries@.take(index + 1).drop_last() =~= geometries@.take(index as int));
            assert(geometries@.take(index + 1).last() == rect);
            lemma_unions_fit_before(geometries@, index + 1);
        }
        let next: LogicalRect = match union {
            Some(current) => {
                let left: i32 = geometry::min_i32(current.x, rect.x);
                let top: i32 = geometry::min_i32(current.y, rect.y);
                let right: i32 = geometry::max_i32(
                    current.x + current.width,
                    rect.x + rect.width,
                );
                let bottom: i32 = geometry::max_i32(
                    current.y + current.height,
                    rect.y + rect.height,
                );
                LogicalRect::new(
                    left,
                    top,
                    geometry::max_i32(right - left, 0),
                    geometry::max_i32(bottom - top, 0),
                )
            },
            None => rect,
        };
        union = Some(next);
        if index < 8 {
            first.push(rect);
        }
        index += 1;
    }
    assert(geometries@.take(geometries@.len() as int) =~= geometries@);
    (union, first)
}

/// The areas along the edges of an element are the points of the element that are one, two and
/// four pixels from the left, the top, the right and the bottom edge.
pub proof fn law_edge_areas(g: LogicalRect, probes: Vec<Probe>, n: int, px: int, py: int)
    requires
        g.fits(),
        g.is_solid(),
        call_ensures(log_gap_readback_edge_probes, (g,), probes),
        0 <= n < 3,
    ensures
        probes@.len() >= 12,
        ({
            let width: int = if n == 0 {
                1
            } else if n == 1 {
                2
            } else {
                4
            };
            &&& probes@[4 * n].rect.covers(px, py) <==> g.covers(px, py) && px < g.x + width
            &&& probes@[4 * n + 1].rect.covers(px, py) <==> g.covers(px, py) && py < g.y + width
            &&& probes@[4 * n + 2].rect.covers(px, py) <==> g.covers(px, py) && px >= g.right()
                - width
            &&& probes@[4 * n + 3].rect.covers(px, py) <==> g.covers(px, py) && py >= g.bottom()
                - width
        }),
{
    let shapes = shapes_of(probes@);
    assert(shapes.len() == probes@.len());
    let a = border_probes(g, 1);
    let b = border_probes(g, 2);
    let c = border_probes(g, 4);
    assert(a.len() == 4 && b.len() == 4 && c.len() == 4);
    let width: int = if n == 0 {
        1
    } else if n == 1 {
        2
    } else {
        4
    };
    let border = border_probes(g, width);
    assert(shapes[4 * n] == border[0]);
    assert(shapes[4 * n + 1] == border[1]);
    assert(shapes[4 * n + 2] == border[2]);
    assert(shapes[4 * n + 3] == border[3]);
    assert(shapes[4 * n] == shape_of(probes@[4 * n]));
    assert(shapes[4 * n + 1] == shape_of(probes@[4 * n + 1]));
    assert(shapes[4 * n + 2] == shape_of(probes@[4 * n + 2]));
    assert(shapes[4 * n + 3] == shape_of(probes@[4 * n + 3]));
}

/// The title bar is the first buffer with the key of a shader that is thirty pixels high, and
/// the first of all if there is none.
pub proof fn law_titlebar_buffers(
    buffers: &[DecorationBuffer],
    index: Option<usize>,
    i: int,
)
    requires
        call_ensures(titlebar_buffer, (buffers,), index),
    ensures
        index is None <==> buffers@.len() == 0,
        0 <= i < buffers@.len() && ends_in_shader(buffers@[i].stable_key@) && buffers@[i].height
            == 30 ==> index->0 <= i && ends_in_shader(
            buffers@[index->0 as int].stable_key@,
        ) && buffers@[index->0 as int].height == 30,
        buffers@.len() > 0 && (forall|k: int|
            0 <= k < buffers@.len() ==> (#[trigger] buffers@[k]).height != 30) ==> index == Some(
            0usize,
        ),
{
    if 0 <= i < buffers@.len() && ends_in_shader(buffers@[i].stable_key@) && buffers@[i].height
        == 30 {
        assert(buffers@[i].is_titlebar());
    }
}

/// The key of a shader ends in its word after a colon, whatever goes before.
pub proof fn law_shader_keys(head: Seq<char>, key: Seq<char>)
    ensures
        ends_in_shader(head + ":shader"@),
        ends_in_shader(key) ==> exists|start: Seq<char>| key == #[trigger] (start + ":shader"@),
{
    reveal_strlit(":shader");
    let whole = head + ":shader"@;
    assert(whole.subrange(whole.len() - 7, whole.len() as int) =~= ":shader"@);
    if ends_in_shader(key) {
        let start = key.take(key.len() - 7);
        assert(key =~= start + ":shader"@);
    }
}

/// Pixels of whole windows are read back only if that was asked for, of opaque windows with more
/// than one element, and twelve times at most; only such windows are counted.
pub proof fn law_final_readbacks(
    count: &mut usize,
    enabled: bool,
    is_opaque: bool,
    element_count: usize,
    due: bool,
)
    requires
        call_ensures(final_readback_is_due, (count, enabled, is_opaque, element_count), due),
    ensures
        due ==> enabled && is_opaque && element_count > 1 && *old(count) < 12,
        enabled && is_opaque && element_count > 1 && *old(count) < 12 ==> due && *final(count)
            == *old(count) + 1,
        !enabled || !is_opaque || element_count <= 1 ==> !due && *final(count) == *old(count),
        enabled && is_opaque && element_count > 1 && *old(count) < usize::MAX ==> *final(count)
            == *old(count) + 1,
        enabled && is_opaque && element_count > 1 && *old(count) == usize::MAX ==> *final(count)
            == 0,
{
}

/// The differences of the edges bring each edge of the hole to that of the title bar.
pub proof fn law_edge_differences(titlebar: LogicalRect, hole: LogicalRect, delta: EdgeDelta)
    requires
        call_ensures(edge_delta, (titlebar, hole), delta),
    ensures
        hole.x + delta.left == titlebar.x,
        hole.y + delta.top == titlebar.y,
        hole.right() + delta.right == titlebar.right(),
        hole.bottom() + delta.bottom == titlebar.bottom(),
{
}

/// Moving a rectangle in pixels moves its points.
pub proof fn law_moved_pixels(
    rect: LogicalRect,
    offset: LogicalPoint,
    r: LogicalRect,
    px: int,
    py: int,
)
    requires
        call_ensures(translate_physical_rect, (rect, offset), r),
        geometry::fits_i32(rect.x + offset.x),
        geometry::fits_i32(rect.y + offset.y),
    ensures
        r.covers(px + offset.x, py + offset.y) <==> rect.covers(px, py),
{
}

/// An area is drawn exactly if it has an extent and there is something in it.
pub proof fn law_drawn_probes(rect: LogicalRect, element_count: usize, r: bool)
    requires
        call_ensures(probe_is_drawn, (rect, element_count), r),
    ensures
        r ==> rect.width > 0 && rect.height > 0 && element_count > 0,
        rect.width > 0 && rect.height > 0 && element_count > 0 ==> r,
{
}

/// One more pixel is counted as transparent or not, and the bounds of the alpha values follow;
/// only the fourth byte of a pixel matters.
pub proof fn law_alpha_statistics(
    bytes: &[u8],
    longer: &[u8],
    pixel: Seq<u8>,
    a: AlphaStats,
    b: AlphaStats,
    i: int,
)
    requires
        call_ensures(alpha_stats, (bytes,), a),
        call_ensures(alpha_stats, (longer,), b),
        bytes@.len() % 4 == 0,
        pixel.len() == 4,
        longer@ == bytes@ + pixel,
    ensures
        a.transparent + a.opaque == bytes@.len() / 4,
        pixel[3] == 0 ==> b.transparent == a.transparent + 1 && b.opaque == a.opaque,
        pixel[3] != 0 ==> b.transparent == a.transparent && b.opaque == a.opaque + 1,
        b.min_alpha <= pixel[3] <= b.max_alpha,
        b.min_alpha == pixel[3] || b.min_alpha == a.min_alpha,
        b.max_alpha == pixel[3] || b.max_alpha == a.max_alpha,
        bytes@.len() == 0 ==> a.min_alpha == 255 && a.max_alpha == 0,
        0 <= i < bytes@.len() / 4 ==> a.min_alpha <= bytes@[4 * i + 3] <= a.max_alpha,
{
    let x = alphas(bytes@);
    let y = alphas(longer@);
    lemma_transparent_bound(x);
    assert(y =~= x.push(pixel[3]));
    assert(y.drop_last() =~= x);
    assert(y[x.len() as int] == pixel[3]);
    if 0 <= i < x.len() {
        assert(x[i] == bytes@[4 * i + 3]);
    }
    if x.len() > 0 {
        let p = choose|p: int| 0 <= p < x.len() && x[p] == a.min_alpha;
        assert(y[p] == a.min_alpha);
        let q = choose|q: int| 0 <= q < x.len() && x[q] == a.max_alpha;
        assert(y[q] == a.max_alpha);
    }
    let p = choose|p: int| 0 <= p < y.len() && y[p] == b.min_alpha;
    if p < x.len() {
        assert(x[p] == b.min_alpha);
    }
    let q = choose|q: int| 0 <= q < y.len() && y[q] == b.max_alpha;
    if q < x.len() {
        assert(x[q] == b.max_alpha);
    }
}

/// A pixel is read from its place in the rows, if it is in the area and the data reach so far.
pub proof fn law_sampled_pixels(
    bytes: &[u8],
    width: i32,
    height: i32,
    x: i32,
    y: i32,
    pixel: Option<(u8, u8, u8, u8)>,
)
    requires
        call_ensures(sample_raw, (bytes, width, height, x, y), pixel),
    ensures
        x < 0 || y < 0 || x >= width || y >= height ==> pixel is None,
        0 <= x < width && 0 <= y < height && 4 * (y * width + x) + 4 <= bytes@.len() ==> {
            let at = 4 * (y * width + x);
            pixel == Some((bytes@[at], bytes@[at + 1], bytes@[at + 2], bytes@[at + 3]))
        },
        0 <= x < width && 0 <= y < height && 4 * (y * width + x) + 4 > bytes@.len() ==> pixel
            is None,
{
}

/// The rectangle around a scene holds every element, and the first eight are listed.
pub proof fn law_geometry_of_scenes(
    geometries: Vec<LogicalRect>,
    r: (Option<LogicalRect>, Vec<LogicalRect>),
    i: int,
    px: int,
    py: int,
)
    requires
        unions_fit(geometries@),
        call_ensures(debug_scene_geometry_snapshot, (geometries,), r),
    ensures
        r.0 is None <==> geometries@.len() == 0,
        0 <= i < geometries@.len() && geometries@[i].covers(px, py) ==> r.0->0.covers(px, py),
        geometries@.len() <= 8 ==> r.1@ == geometries@,
        geometries@.len() > 8 ==> r.1@.len() == 8,
        0 <= i < r.1@.len() ==> r.1@[i] == geometries@[i],
{
    if 0 <= i < geometries@.len() && geometries@[i].covers(px, py) {
        lemma_unions_hold_all(geometries@, i, px, py);
    }
    if geometries@.len() <= 8 {
        assert(geometries@.take(geometries@.len() as int) =~= geometries@);
    }
}

proof fn lemma_unions_hold_all(rects: Seq<LogicalRect>, i: int, px: int, py: int)
    requires
        unions_fit(rects),
        0 <= i < rects.len(),
        rects[i].covers(px, py),
    ensures
        union_of_all(rects).covers(px, py),
    decreases rects.len(),
{
    if rects.len() > 1 {
        if i < rects.len() - 1 {
            assert(rects.drop_last()[i] == rects[i]);
            lemma_unions_hold_all(rects.drop_last(), i, px, py);
        } else {
            assert(rects.last() == rects[i]);
        }
    }
}

/// The lines that are read back of a whole window: inside the right edge of the title bar, each
/// as high as the title bar and a pixel wide; and around the right edge of the hole it is in.
pub proof fn law_final_lines(
    titlebar: LogicalRect,
    hole: Option<LogicalRect>,
    probes: Vec<Probe>,
    k: int,
)
    requires
        titlebar.fits(),
        hole is Some ==> hole->0.fits() && geometry::fits_i32(hole->0.right() - 2)
            && geometry::fits_i32(hole->0.right() + 2),
        titlebar.width > 8,
        call_ensures(log_gap_final_composite_readback, (titlebar, hole), probes),
    ensures
        hole is None ==> probes@.len() == 6,
        hole is Some ==> probes@.len() == 11,
        0 <= k < 5 ==> probes@[k].rect.x == titlebar.right() - 1 - k,
        probes@[5].rect.x == titlebar.right() - 9,
        0 <= k < 6 ==> probes@[k].rect.width == 1 && probes@[k].rect.y == titlebar.y
            && probes@[k].rect.height == titlebar.height,
        hole is Some && 0 <= k < 5 ==> probes@[6 + k].rect.x == hole->0.right() + k - 2 && probes@[6
            + k].rect.width == 1 && probes@[6 + k].rect.y == titlebar.y && probes@[6
            + k].rect.height == titlebar.height,
{
    let shapes = shapes_of(probes@);
    assert(shapes.len() == probes@.len());
    assert forall|i: int| 0 <= i < probes@.len() implies (#[trigger] probes@[i]).rect
        == shapes[i].1 by {
        assert(shapes[i] == shape_of(probes@[i]));
    }
}

/// What is reported of an area: its alpha values, and of the points looked at those that are in
/// the data.
pub proof fn law_reports_of_probes(
    bytes: &[u8],
    width: i32,
    height: i32,
    report: ProbeReport,
    stats: AlphaStats,
)
    requires
        width > 0,
        height > 0,
        call_ensures(log_gap_readback_probe, (bytes, width, height), report),
        call_ensures(alpha_stats, (bytes,), stats),
    ensures
        report.stats.transparent == stats.transparent,
        report.stats.opaque == stats.opaque,
        report.samples@.len() <= 5,
        bytes@.len() >= 4 ==> report.samples@.len() > 0 && report.samples@[0].x == 0
            && report.samples@[0].y == 0 && report.samples@[0].pixel == (
            bytes@[0],
            bytes@[1],
            bytes@[2],
            bytes@[3],
        ),
{
    let points = sample_points(width, height);
    reveal_with_fuel(samples_at, 6);
    assert(points.drop_last().drop_last().drop_last().drop_last().drop_last() =~= Seq::empty());
    let first = points.drop_last().drop_last().drop_last().drop_last();
    assert(first.len() == 1 && first[0] == (0i32, 0i32));
    assert(pixel_offset(width, 0, 0) == 0) by (nonlinear_arith);
}

} // verus!
