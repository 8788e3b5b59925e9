//! Elements that are kept from frame to frame, and how a change of their contents is told
//! to the renderer.
//!
//! The renderer knows an element by a number and draws it anew when its commit counter
//! has changed.

use crate::geometry::{LogicalPoint, LogicalRect};
use crate::table::{self, NameTable};
use crate::text;
use vstd::prelude::*;
use vstd::string::*;

verus! {

/// The commit counter after one more change; it wraps around.
pub open spec fn next_commit(commit: usize) -> usize {
    if commit == usize::MAX {
        0
    } else {
        (commit + 1) as usize
    }
}

fn increment(commit: usize) -> (next: usize)
    ensures
        next == next_commit(commit),
{
    if commit == usize::MAX {
        0
    } else {
        commit + 1
    }
}

/// An element under which the contents with this signature were drawn last.
#[derive(Clone, Copy, Debug, PartialEq, Eq, Structural)]
pub struct ElementState {
    pub signature: u64,
    pub id: u64,
    pub commit: usize,
}

/// A new element starts with signature zero and commit zero. Other contents than before
/// count as one more commit.
pub open spec fn touched_state(
    entry: Option<ElementState>,
    signature: u64,
    fresh_id: u64,
) -> ElementState {
    let state = match entry {
        Some(state) => state,
        None => ElementState { signature: 0, id: fresh_id, commit: 0 },
    };
    if state.signature != signature {
        ElementState { signature, id: state.id, commit: next_commit(state.commit) }
    } else {
        state
    }
}

/// The number and the commit counter under which contents with this signature are drawn.
/// `fresh_id` is the number of the element if there is none yet.
pub fn effect_element_state(
    cache: &mut NameTable<ElementState>,
    key: &str,
    signature: u64,
    fresh_id: u64,
) -> (element: (u64, usize))
    ensures
        final(cache)@ == old(cache)@.insert(
            key@,
            touched_state(table::lookup(old(cache)@, key@), signature, fresh_id),
        ),
        element == (final(cache)@[key@].id, final(cache)@[key@].commit),
{
    let mut state: ElementState = match cache.get(key) {
        Some(state) => state,
        None => ElementState { signature: 0, id: fresh_id, commit: 0 },
    };
    if state.signature != signature {
        state.signature = signature;
        state.commit = increment(state.commit);
    }
    cache.insert(key, state);
    (state.id, state.commit)
}

/// An element of a window.
pub fn window_effect_element_state(
    cache: &mut NameTable<ElementState>,
    key: &str,
    signature: u64,
    fresh_id: u64,
) -> (element: (u64, usize))
    ensures
        final(cache)@ == old(cache)@.insert(
            key@,
            touched_state(table::lookup(old(cache)@, key@), signature, fresh_id),
        ),
        element == (final(cache)@[key@].id, final(cache)@[key@].commit),
{
    effect_element_state(cache, key, signature, fresh_id)
}

/// An element of a layer surface or a popup.
pub fn layer_effect_element_state(
    cache: &mut NameTable<ElementState>,
    key: &str,
    signature: u64,
    fresh_id: u64,
) -> (element: (u64, usize))
    ensures
        final(cache)@ == old(cache)@.insert(
            key@,
            touched_state(table::lookup(old(cache)@, key@), signature, fresh_id),
        ),
        element == (final(cache)@[key@].id, final(cache)@[key@].commit),
{
    effect_element_state(cache, key, signature, fresh_id)
}

/// An element keeps its number, and its commit counter changes exactly when its contents
/// do.
pub proof fn law_commits_follow_contents(entry: ElementState, signature: u64, fresh_id: u64)
    ensures
        ({
            let next = touched_state(Some(entry), signature, fresh_id);
            &&& next.id == entry.id
            &&& next.signature == signature
            &&& next.commit != entry.commit <==> signature != entry.signature
        }),
{
}

/// Drawing the same contents again changes nothing.
pub proof fn law_touching_is_idempotent(
    entry: Option<ElementState>,
    signature: u64,
    fresh_id: u64,
    other_id: u64,
)
    ensures
        touched_state(Some(touched_state(entry, signature, fresh_id)), signature, other_id)
            == touched_state(entry, signature, fresh_id),
{
}

/// The picture drawn last can be used again: its signature is the same, nothing that it
/// was drawn from is damaged, and the effect does not ask to be drawn for every frame.
pub open spec fn reusable(
    entry: Option<ElementState>,
    signature: u64,
    always_invalidated: bool,
    damaged: bool,
) -> bool {
    !always_invalidated && !damaged && entry is Some && entry->0.signature == signature
}

pub fn cached_backdrop(
    cache: &NameTable<ElementState>,
    key: &str,
    signature: u64,
    always_invalidated: bool,
    damaged: bool,
) -> (r: Option<ElementState>)
    ensures
        r == (if reusable(
            table::lookup(cache@, key@),
            signature,
            always_invalidated,
            damaged,
        ) {
            table::lookup(cache@, key@)
        } else {
            None
        }),
{
    if always_invalidated || damaged {
        return None;
    }
    match cache.get(key) {
        Some(state) => if state.signature == signature {
            Some(state)
        } else {
            None
        },
        None => None,
    }
}

/// The entry for a picture of a window that was drawn anew: another element, and one more
/// commit than the picture before.
pub open spec fn redrawn_state(
    entry: Option<ElementState>,
    signature: u64,
    fresh_id: u64,
) -> ElementState {
    ElementState {
        signature,
        id: fresh_id,
        commit: match entry {
            Some(state) => next_commit(state.commit),
            None => 0,
        },
    }
}

pub fn store_backdrop(
    cache: &mut NameTable<ElementState>,
    key: &str,
    signature: u64,
    fresh_id: u64,
) -> (state: ElementState)
    ensures
        state == redrawn_state(table::lookup(old(cache)@, key@), signature, fresh_id),
        final(cache)@ == old(cache)@.insert(key@, state),
{
    let commit: usize = match cache.get(key) {
        Some(state) => increment(state.commit),
        None => 0,
    };
    let state: ElementState = ElementState { signature, id: fresh_id, commit };
    cache.insert(key, state);
    state
}

/// A picture that was just drawn is used again as long as its signature is the same and
/// nothing under it is damaged.
pub proof fn law_stored_backdrop_is_reused(
    cache: Map<Seq<char>, ElementState>,
    key: Seq<char>,
    signature: u64,
    fresh_id: u64,
)
    ensures
        ({
            let state = redrawn_state(table::lookup(cache, key), signature, fresh_id);
            reusable(table::lookup(cache.insert(key, state), key), signature, false, false)
        }),
{
}

/// A part of the background of a layer surface: one rectangle of its region.
#[derive(Clone, Copy, Debug, PartialEq, Eq, Structural)]
pub struct BackdropPart {
    pub rect: LogicalRect,
    pub id: u64,
    pub commit: usize,
}

/// The picture behind a layer surface and the parts that show it.
pub struct LayerBackdrop {
    pub state: ElementState,
    pub parts: Vec<BackdropPart>,
}

/// A `LayerBackdrop` as a mathematical value.
#[verifier::ext_equal]
pub struct LayerPicture {
    pub state: ElementState,
    pub parts: Seq<BackdropPart>,
}

impl View for LayerBackdrop {
    type V = LayerPicture;

    open spec fn view(&self) -> LayerPicture {
        LayerPicture { state: self.state, parts: self.parts@ }
    }
}

/// The pictures behind layer surfaces that are kept.
pub open spec fn pictures(cache: Map<Seq<char>, LayerBackdrop>) -> Map<Seq<char>, LayerPicture> {
    cache.map_values(|backdrop: LayerBackdrop| backdrop@)
}

/// The picture under `key` is there and can be used again.
pub open spec fn layer_reusable(
    pictures: Map<Seq<char>, LayerPicture>,
    key: Seq<char>,
    signature: u64,
    always_invalidated: bool,
    damaged: bool,
) -> bool {
    pictures.contains_key(key) && reusable(
        Some(pictures[key].state),
        signature,
        always_invalidated,
        damaged,
    )
}

/// Where the part with this rectangle stands, or the number of parts if there is none.
pub open spec fn part_index(parts: Seq<BackdropPart>, rect: LogicalRect) -> int
    decreases parts.len(),
{
    if parts.len() == 0 {
        0
    } else if parts[0].rect == rect {
        0
    } else {
        1 + part_index(parts.drop_first(), rect)
    }
}

pub open spec fn part_with(parts: Seq<BackdropPart>, rect: LogicalRect) -> Option<BackdropPart> {
    if part_index(parts, rect) < parts.len() {
        Some(parts[part_index(parts, rect)])
    } else {
        None
    }
}

proof fn lemma_part_index(parts: Seq<BackdropPart>, rect: LogicalRect, index: int)
    requires
        0 <= index <= parts.len(),
        forall|i: int| 0 <= i < index ==> (#[trigger] parts[i]).rect != rect,
        index < parts.len() ==> parts[index].rect == rect,
    ensures
        part_index(parts, rect) == index,
    decreases index,
{
    if index > 0 {
        let rest = parts.drop_first();
        assert forall|i: int| 0 <= i < index - 1 implies (#[trigger] rest[i]).rect != rect by {
            assert(rest[i] == parts[i + 1]);
        }
        assert(parts[0].rect != rect);
        lemma_part_index(rest, rect, index - 1);
    }
}

fn find_part(parts: &Vec<BackdropPart>, rect: LogicalRect) -> (index: usize)
    ensures
        index == part_index(parts@, rect),
        index <= parts@.len(),
        index < parts@.len() ==> parts@[index as int].rect == rect,
{
    let mut index: usize = 0;
    while index < parts.len()
        invariant
            index <= parts@.len(),
            forall|i: int| 0 <= i < index ==> (#[trigger] parts@[i]).rect != rect,
        decreases parts@.len() - index,
    {
        if parts[index].rect == rect {
            proof {
                lemma_part_index(parts@, rect, index as int);
            }
            return index;
        }
        index += 1;
    }
    proof {
        lemma_part_index(parts@, rect, index as int);
    }
    index
}

/// The parts after one rectangle was drawn anew: a part that is missing is added, and if
/// there was a picture before, the part counts one more commit.
pub open spec fn touched_part(
    parts: Seq<BackdropPart>,
    rect: LogicalRect,
    fresh_id: u64,
    had_picture: bool,
) -> Seq<BackdropPart> {
    let index = part_index(parts, rect);
    let part = if index < parts.len() {
        parts[index]
    } else {
        BackdropPart { rect, id: fresh_id, commit: 0 }
    };
    let next = if had_picture {
        BackdropPart { rect, id: part.id, commit: next_commit(part.commit) }
    } else {
        part
    };
    if index < parts.len() {
        parts.update(index, next)
    } else {
        parts.push(next)
    }
}

/// The parts after all rectangles were drawn anew, in order.
pub open spec fn touched_parts(
    parts: Seq<BackdropPart>,
    rects: Seq<LogicalRect>,
    fresh_ids: Seq<u64>,
    had_picture: bool,
) -> Seq<BackdropPart>
    decreases rects.len(),
{
    if rects.len() == 0 {
        parts
    } else {
        touched_part(
            touched_parts(parts, rects.drop_last(), fresh_ids, had_picture),
            rects.last(),
            fresh_ids[rects.len() - 1],
            had_picture,
        )
    }
}

fn touch_part(parts: &mut Vec<BackdropPart>, rect: LogicalRect, fresh_id: u64, had_picture: bool)
    ensures
        final(parts)@ == touched_part(old(parts)@, rect, fresh_id, had_picture),
{
    let index: usize = find_part(parts, rect);
    let mut part: BackdropPart = if index < parts.len() {
        parts[index]
    } else {
        BackdropPart { rect, id: fresh_id, commit: 0 }
    };
    if had_picture {
        part.commit = increment(part.commit);
    }
    if index < parts.len() {
        parts.set(index, part);
    } else {
        parts.push(part);
    }
}

/// An element that shows a part of the picture behind a layer surface.
#[derive(Clone, Copy, Debug, PartialEq, Eq, Structural)]
pub struct BackdropElement {
    pub id: u64,
    pub commit: usize,
    /// The rectangle in the layout of all outputs; it names the part.
    pub rect: LogicalRect,
    /// The rectangle on the output.
    pub local_rect: LogicalRect,
}

/// The element for one rectangle. A part that was never drawn is shown under a number of
/// its own.
pub open spec fn element_for(
    parts: Seq<BackdropPart>,
    rect: LogicalRect,
    fresh_id: u64,
    output_loc: LogicalPoint,
) -> BackdropElement {
    let part = part_with(parts, rect);
    BackdropElement {
        id: if part is Some {
            part->0.id
        } else {
            fresh_id
        },
        commit: if part is Some {
            part->0.commit
        } else {
            0
        },
        rect,
        local_rect: rect.seen_from(output_loc),
    }
}

pub open spec fn elements_for(
    parts: Seq<BackdropPart>,
    rects: Seq<LogicalRect>,
    fresh_ids: Seq<u64>,
    output_loc: LogicalPoint,
) -> Seq<BackdropElement> {
    Seq::new(
        rects.len(),
        |i: int| element_for(parts, rects[i], fresh_ids[i], output_loc),
    )
}

pub open spec fn rects_fit_from(rects: Seq<LogicalRect>, output_loc: LogicalPoint) -> bool {
    forall|i: int| 0 <= i < rects.len() ==> (#[trigger] rects[i]).fits_from(output_loc)
}

fn part_elements(
    parts: &Vec<BackdropPart>,
    rects: &[LogicalRect],
    fresh_ids: &[u64],
    output_loc: LogicalPoint,
) -> (elements: Vec<BackdropElement>)
    requires
        fresh_ids@.len() == rects@.len(),
        rects_fit_from(rects@, output_loc),
    ensures
        elements@ == elements_for(parts@, rects@, fresh_ids@, output_loc),
{
    let mut elements: Vec<BackdropElement> = Vec::new();
    let mut index: usize = 0;
    while index < rects.len()
        invariant
            index <= rects@.len(),
            fresh_ids@.len() == rects@.len(),
            rects_fit_from(rects@, output_loc),
            elements@ =~= elements_for(parts@, rects@, fresh_ids@, output_loc).take(index as int),
        decreases rects@.len() - index,
    {
        let rect: LogicalRect = rects[index];
        assert(rects@[index as int].fits_from(output_loc));
        let found: usize = find_part(parts, rect);
        let (id, commit): (u64, usize) = if found < parts.len() {
            (parts[found].id, parts[found].commit)
        } else {
            (fresh_ids[index], 0)
        };
        elements.push(
            BackdropElement { id, commit, rect, local_rect: rect.relative_to(output_loc) },
        );
        index += 1;
    }
    elements
}

/// The elements that show the picture drawn last, if it can be used again.
pub fn reuse_layer_backdrop(
    cache: &NameTable<LayerBackdrop>,
    key: &str,
    signature: u64,
    always_invalidated: bool,
    damaged: bool,
    rects: &[LogicalRect],
    fresh_ids: &[u64],
    output_loc: LogicalPoint,
) -> (r: Option<Vec<BackdropElement>>)
    requires
        fresh_ids@.len() == rects@.len(),
        rects_fit_from(rects@, output_loc),
    ensures
        r is Some <==> layer_reusable(
            pictures(cache@),
            key@,
            signature,
            always_invalidated,
            damaged,
        ),
        r is Some ==> r->0@ == elements_for(
            pictures(cache@)[key@].parts,
            rects@,
            fresh_ids@,
            output_loc,
        ),
{
    if always_invalidated || damaged {
        return None;
    }
    match cache.get_ref(key) {
        Some(existing) => if existing.state.signature == signature {
            Some(part_elements(&existing.parts, rects, fresh_ids, output_loc))
        } else {
            None
        },
        None => None,
    }
}

fn copy_parts(parts: &Vec<BackdropPart>) -> (copy: Vec<BackdropPart>)
    ensures
        copy@ == parts@,
{
    let mut copy: Vec<BackdropPart> = Vec::new();
    let mut index: usize = 0;
    while index < parts.len()
        invariant
            index <= parts@.len(),
            copy@ =~= parts@.take(index as int),
        decreases parts@.len() - index,
    {
        copy.push(parts[index]);
        index += 1;
    }
    copy
}

/// The picture behind a layer surface after it was drawn anew: the element stays the same,
/// with one more commit, and so do the parts.
pub open spec fn redrawn_picture(
    entry: Option<LayerPicture>,
    signature: u64,
    fresh_id: u64,
    rects: Seq<LogicalRect>,
    fresh_ids: Seq<u64>,
) -> LayerPicture {
    match entry {
        Some(existing) => LayerPicture {
            state: ElementState {
                signature,
                id: existing.state.id,
                commit: next_commit(existing.state.commit),
            },
            parts: touched_parts(existing.parts, rects, fresh_ids, true),
        },
        None => LayerPicture {
            state: ElementState { signature, id: fresh_id, commit: 0 },
            parts: touched_parts(Seq::empty(), rects, fresh_ids, false),
        },
    }
}

/// Records that the picture behind a layer surface was drawn anew and returns the elements
/// that show it.
pub fn store_layer_backdrop(
    cache: &mut NameTable<LayerBackdrop>,
    key: &str,
    signature: u64,
    fresh_id: u64,
    rects: &[LogicalRect],
    fresh_ids: &[u64],
    output_loc: LogicalPoint,
) -> (elements: Vec<BackdropElement>)
    requires
        fresh_ids@.len() == rects@.len(),
        rects_fit_from(rects@, output_loc),
    ensures
        pictures(final(cache)@) == pictures(old(cache)@).insert(
            key@,
            redrawn_picture(
                table::lookup(pictures(old(cache)@), key@),
                signature,
                fresh_id,
                rects@,
                fresh_ids@,
            ),
        ),
        elements@ == elements_for(
            pictures(final(cache)@)[key@].parts,
            rects@,
            fresh_ids@,
            output_loc,
        ),
{
    let ghost before = if cache@.contains_key(key@) {
        cache@[key@].parts@
    } else {
        Seq::empty()
    };
    let had_picture: bool = cache.contains(key);
    let (state, mut parts): (ElementState, Vec<BackdropPart>) = match cache.get_ref(key) {
        Some(existing) => (
            ElementState {
                signature,
                id: existing.state.id,
                commit: increment(existing.state.commit),
            },
            copy_parts(&existing.parts),
        ),
        None => (ElementState { signature, id: fresh_id, commit: 0 }, Vec::new()),
    };
    let mut index: usize = 0;
    assert(rects@.take(0) =~= Seq::<LogicalRect>::empty());
    assert(parts@ =~= before);
    while index < rects.len()
        invariant
            index <= rects@.len(),
            fresh_ids@.len() == rects@.len(),
            parts@ == touched_parts(before, rects@.take(index as int), fresh_ids@, had_picture),
        decreases rects@.len() - index,
    {
        assert(rects@.take(index + 1).drop_last() =~= rects@.take(index as int));
        touch_part(&mut parts, rects[index], fresh_ids[index], had_picture);
        index += 1;
    }
    assert(rects@.take(rects@.len() as int) =~= rects@);
    let elements: Vec<BackdropElement> = part_elements(&parts, rects, fresh_ids, output_loc);
    cache.set(key, LayerBackdrop { state, parts });
    assert(pictures(cache@) =~= pictures(old(cache)@).insert(
        key@,
        redrawn_picture(
            table::lookup(pictures(old(cache)@), key@),
            signature,
            fresh_id,
            rects@,
            fresh_ids@,
        ),
    ));
    elements
}

proof fn lemma_touched_part(
    parts: Seq<BackdropPart>,
    rect: LogicalRect,
    fresh_id: u64,
    had_picture: bool,
    other: LogicalRect,
)
    ensures
        ({
            let next = touched_part(parts, rect, fresh_id, had_picture);
            &&& part_with(next, rect) is Some
            &&& other != rect ==> part_with(next, other) == part_with(parts, other)
            &&& part_with(parts, rect) is Some ==> part_with(next, rect)->0.id == part_with(
                parts,
                rect,
            )->0.id
            &&& part_with(next, rect)->0.commit == (if had_picture {
                next_commit(
                    if part_with(parts, rect) is Some {
                        part_with(parts, rect)->0.commit
                    } else {
                        0
                    },
                )
            } else {
                if part_with(parts, rect) is Some {
                    part_with(parts, rect)->0.commit
                } else {
                    0
                }
            })
            &&& part_with(parts, rect) is None ==> part_with(next, rect)->0.id == fresh_id
        }),
{
    lemma_part_index_bounds(parts, rect);
    lemma_part_index_bounds(parts, other);
    let next = touched_part(parts, rect, fresh_id, had_picture);
    let index = part_index(parts, rect);
    assert forall|i: int| 0 <= i < index implies (#[trigger] next[i]).rect != rect by {
        assert(next[i] == parts[i]);
    }
    lemma_part_index(next, rect, index);
    if other != rect {
        let at = part_index(parts, other);
        if at < parts.len() {
            assert forall|i: int| 0 <= i < at implies (#[trigger] next[i]).rect != other by {
                assert(parts[i].rect != other);
            }
            lemma_part_index(next, other, at);
        } else {
            assert forall|i: int| 0 <= i < next.len() implies (#[trigger] next[i]).rect != other by {
                if i < parts.len() {
                    assert(parts[i].rect != other);
                }
            }
            lemma_part_index(next, other, next.len() as int);
        }
    }
}

proof fn lemma_part_index_bounds(parts: Seq<BackdropPart>, rect: LogicalRect)
    ensures
        0 <= part_index(parts, rect) <= parts.len(),
        forall|i: int| 0 <= i < part_index(parts, rect) ==> (#[trigger] parts[i]).rect != rect,
        part_index(parts, rect) < parts.len() ==> parts[part_index(parts, rect)].rect == rect,
    decreases parts.len(),
{
    if parts.len() > 0 && parts[0].rect != rect {
        let rest = parts.drop_first();
        lemma_part_index_bounds(rest, rect);
        assert forall|i: int| 0 <= i < part_index(parts, rect) implies (#[trigger] parts[i]).rect
            != rect by {
            if i > 0 {
                assert(rest[i - 1] == parts[i]);
            }
        }
    }
}

/// Every rectangle that was drawn anew has a part.
proof fn lemma_touched_parts_are_there(
    parts: Seq<BackdropPart>,
    rects: Seq<LogicalRect>,
    fresh_ids: Seq<u64>,
    had_picture: bool,
    index: int,
)
    requires
        0 <= index < rects.len(),
    ensures
        part_with(touched_parts(parts, rects, fresh_ids, had_picture), rects[index]) is Some,
    decreases rects.len(),
{
    let init = rects.drop_last();
    let before = touched_parts(parts, init, fresh_ids, had_picture);
    lemma_touched_part(
        before,
        rects.last(),
        fresh_ids[rects.len() - 1],
        had_picture,
        rects[index],
    );
    if index < init.len() {
        lemma_touched_parts_are_there(parts, init, fresh_ids, had_picture, index);
        assert(init[index] == rects[index]);
    }
}

/// A picture behind a layer surface that was drawn anew can be used again, and shows the same
/// elements whatever new numbers there are by then.
pub proof fn law_redrawn_picture_is_reused(
    pictures: Map<Seq<char>, LayerPicture>,
    key: Seq<char>,
    signature: u64,
    fresh_id: u64,
    rects: Seq<LogicalRect>,
    fresh_ids: Seq<u64>,
    later_ids: Seq<u64>,
    output_loc: LogicalPoint,
)
    ensures
        ({
            let picture = redrawn_picture(
                table::lookup(pictures, key),
                signature,
                fresh_id,
                rects,
                fresh_ids,
            );
            &&& layer_reusable(pictures.insert(key, picture), key, signature, false, false)
            &&& elements_for(picture.parts, rects, later_ids, output_loc) == elements_for(
                picture.parts,
                rects,
                fresh_ids,
                output_loc,
            )
        }),
{
    let entry = table::lookup(pictures, key);
    let picture = redrawn_picture(entry, signature, fresh_id, rects, fresh_ids);
    let earlier = match entry {
        Some(existing) => existing.parts,
        None => Seq::empty(),
    };
    assert forall|i: int| 0 <= i < rects.len() implies #[trigger] element_for(
        picture.parts,
        rects[i],
        later_ids[i],
        output_loc,
    ) == element_for(picture.parts, rects[i], fresh_ids[i], output_loc) by {
        lemma_touched_parts_are_there(earlier, rects, fresh_ids, entry is Some, i);
    }
    assert(elements_for(picture.parts, rects, later_ids, output_loc) =~= elements_for(
        picture.parts,
        rects,
        fresh_ids,
        output_loc,
    ));
}

/// When a picture is drawn anew over one that was there, every part that shows it gets
/// another commit counter and keeps its number, so the renderer draws it again. Parts of
/// other rectangles are left as they are.
pub proof fn law_redrawn_parts_are_seen(
    parts: Seq<BackdropPart>,
    rects: Seq<LogicalRect>,
    fresh_ids: Seq<u64>,
    rect: LogicalRect,
)
    requires
        part_with(parts, rect) is Some,
        forall|i: int, j: int|
            0 <= i < j < rects.len() ==> #[trigger] rects[i] != #[trigger] rects[j],
    ensures
        ({
            let next = touched_parts(parts, rects, fresh_ids, true);
            &&& part_with(next, rect) is Some
            &&& part_with(next, rect)->0.id == part_with(parts, rect)->0.id
            &&& part_with(next, rect)->0.commit != part_with(parts, rect)->0.commit
                <==> rects.contains(rect)
        }),
    decreases rects.len(),
{
    if rects.len() > 0 {
        let init = rects.drop_last();
        let last = rects.last();
        let before = touched_parts(parts, init, fresh_ids, true);
        assert forall|i: int, j: int| 0 <= i < j < init.len() implies #[trigger] init[i]
            != #[trigger] init[j] by {
            assert(init[i] == rects[i] && init[j] == rects[j]);
        }
        law_redrawn_parts_are_seen(parts, init, fresh_ids, rect);
        lemma_touched_part(before, last, fresh_ids[rects.len() - 1], true, rect);
        assert(rects[rects.len() - 1] == last);
        if rect == last {
            assert(rects.contains(rect));
            if init.contains(rect) {
                let i = choose|i: int| 0 <= i < init.len() && init[i] == rect;
                assert(rects[i] == rects[rects.len() - 1]);
            }
        } else {
            if init.contains(rect) {
                let i = choose|i: int| 0 <= i < init.len() && init[i] == rect;
                assert(rects[i] == rect);
            }
            if rects.contains(rect) {
                let i = choose|i: int| 0 <= i < rects.len() && rects[i] == rect;
                assert(init[i] == rect);
            }
        }
    }
}

/// The text that names a part: that of the whole and the four numbers of its rectangle.
pub open spec fn part_key(stable_key: Seq<char>, rect: LogicalRect) -> Seq<char> {
    stable_key + ":"@ + text::decimal(rect.x as int) + ":"@ + text::decimal(rect.y as int) + ":"@
        + text::decimal(rect.width as int) + ":"@ + text::decimal(rect.height as int)
}

pub fn rect_key(stable_key: &str, rect: LogicalRect) -> (key: String)
    ensures
        key@ == part_key(stable_key@, rect),
{
    let mut key: String = stable_key.to_owned();
    key.append(":");
    text::append_i32(&mut key, rect.x);
    key.append(":");
    text::append_i32(&mut key, rect.y);
    key.append(":");
    text::append_i32(&mut key, rect.width);
    key.append(":");
    text::append_i32(&mut key, rect.height);
    assert(key@ =~= part_key(stable_key@, rect));
    key
}

proof fn lemma_split_at_colon(a: int, b: Seq<char>, c: int, d: Seq<char>)
    requires
        text::decimal(a) + table::colon() + b == text::decimal(c) + table::colon() + d,
    ensures
        a == c,
        b == d,
{
    text::law_decimal_characters(a, ':');
    text::law_decimal_characters(c, ':');
    table::law_colon_key_injective(text::decimal(a), b, text::decimal(c), d);
    text::law_decimal_is_injective(a, c);
}

proof fn lemma_join_is_associative(a: Seq<char>, b: Seq<char>, c: Seq<char>)
    ensures
        a + b + c == a + (b + c),
{
    assert(a + b + c =~= a + (b + c));
}

proof fn lemma_regroup(
    s: Seq<char>,
    c: Seq<char>,
    x: Seq<char>,
    y: Seq<char>,
    w: Seq<char>,
    h: Seq<char>,
)
    ensures
        s + c + x + c + y + c + w + c + h == s + c + (x + c + (y + c + (w + c + h))),
{
    let head = s + c;
    lemma_join_is_associative(head, x, c);
    lemma_join_is_associative(head + (x + c), y, c);
    lemma_join_is_associative(head, x + c, y + c);
    lemma_join_is_associative(head + (x + c + (y + c)), w, c);
    lemma_join_is_associative(head + (x + c + (y + c)), w + c, h);
    lemma_join_is_associative(head, x + c + (y + c), w + c + h);
    lemma_join_is_associative(x + c, y + c, w + c + h);
}

proof fn lemma_same_head(head: Seq<char>, a: Seq<char>, b: Seq<char>)
    requires
        head + a == head + b,
    ensures
        a == b,
{
    assert(a =~= (head + a).subrange(head.len() as int, (head + a).len() as int));
    assert(b =~= (head + b).subrange(head.len() as int, (head + b).len() as int));
}

/// Two parts of one background have the same name only when they are the same rectangle.
pub proof fn law_rect_keys_are_distinct(stable_key: Seq<char>, a: LogicalRect, b: LogicalRect)
    requires
        part_key(stable_key, a) == part_key(stable_key, b),
    ensures
        a == b,
{
    reveal_strlit(":");
    assert(":"@ =~= table::colon());
    let c = table::colon();
    let a4 = text::decimal(a.height as int);
    let b4 = text::decimal(b.height as int);
    let a3 = text::decimal(a.width as int) + c + a4;
    let b3 = text::decimal(b.width as int) + c + b4;
    let a2 = text::decimal(a.y as int) + c + a3;
    let b2 = text::decimal(b.y as int) + c + b3;
    lemma_regroup(
        stable_key,
        c,
        text::decimal(a.x as int),
        text::decimal(a.y as int),
        text::decimal(a.width as int),
        a4,
    );
    lemma_regroup(
        stable_key,
        c,
        text::decimal(b.x as int),
        text::decimal(b.y as int),
        text::decimal(b.width as int),
        b4,
    );
    lemma_same_head(
        stable_key + c,
        text::decimal(a.x as int) + c + a2,
        text::decimal(b.x as int) + c + b2,
    );
    lemma_split_at_colon(a.x as int, a2, b.x as int, b2);
    lemma_split_at_colon(a.y as int, a3, b.y as int, b3);
    lemma_split_at_colon(a.width as int, a4, b.width as int, b4);
    text::law_decimal_is_injective(a.height as int, b.height as int);
}

/// How the renderer knows an effect of a decoration: under the number it was first drawn with, as long as it
/// is there, and with a commit counter that moves on by one exactly when the contents are others
/// than those drawn last. Other elements are not touched.
pub proof fn law_effect_element_state(
    cache: &mut NameTable<ElementState>,
    key: &str,
    signature: u64,
    fresh_id: u64,
    element: (u64, usize),
    other: Seq<char>,
)
    requires
        call_ensures(effect_element_state, (cache, key, signature, fresh_id), element),
    ensures
        final(cache)@.contains_key(key@),
        final(cache)@[key@].signature == signature,
        final(cache)@[key@].id == element.0,
        final(cache)@[key@].commit == element.1,
        old(cache)@.contains_key(key@) ==> element.0 == old(cache)@[key@].id,
        !old(cache)@.contains_key(key@) ==> element.0 == fresh_id,
        old(cache)@.contains_key(key@) && old(cache)@[key@].signature == signature ==> element.1
            == old(cache)@[key@].commit,
        old(cache)@.contains_key(key@) && old(cache)@[key@].signature != signature ==> element.1
            != old(cache)@[key@].commit,
        old(cache)@.contains_key(key@) && old(cache)@[key@].signature != signature && old(
            cache)@[key@].commit < usize::MAX ==> element.1 == old(cache)@[key@].commit + 1,
        !old(cache)@.contains_key(key@) ==> element.1 == if signature == 0 {
            0usize
        } else {
            1usize
        },
        other != key@ ==> final(cache)@.contains_key(other) == old(cache)@.contains_key(other)
            && final(cache)@[other] == old(cache)@[other],
{
}

/// How the renderer knows an effect of a window: under the number it was first drawn with, as long as it
/// is there, and with a commit counter that moves on by one exactly when the contents are others
/// than those drawn last. Other elements are not touched.
pub proof fn law_window_effect_element_state(
    cache: &mut NameTable<ElementState>,
    key: &str,
    signature: u64,
    fresh_id: u64,
    element: (u64, usize),
    other: Seq<char>,
)
    requires
        call_ensures(window_effect_element_state, (cache, key, signature, fresh_id), element),
    ensures
        final(cache)@.contains_key(key@),
        final(cache)@[key@].signature == signature,
        final(cache)@[key@].id == element.0,
        final(cache)@[key@].commit == element.1,
        old(cache)@.contains_key(key@) ==> element.0 == old(cache)@[key@].id,
        !old(cache)@.contains_key(key@) ==> element.0 == fresh_id,
        old(cache)@.contains_key(key@) && old(cache)@[key@].signature == signature ==> element.1
            == old(cache)@[key@].commit,
        old(cache)@.contains_key(key@) && old(cache)@[key@].signature != signature ==> element.1
            != old(cache)@[key@].commit,
        old(cache)@.contains_key(key@) && old(cache)@[key@].signature != signature && old(
            cache)@[key@].commit < usize::MAX ==> element.1 == old(cache)@[key@].commit + 1,
        !old(cache)@.contains_key(key@) ==> element.1 == if signature == 0 {
            0usize
        } else {
            1usize
        },
        other != key@ ==> final(cache)@.contains_key(other) == old(cache)@.contains_key(other)
            && final(cache)@[other] == old(cache)@[other],
{
}

/// How the renderer knows an effect of a layer surface or a popup: under the number it was first drawn with, as long as it
/// is there, and with a commit counter that moves on by one exactly when the contents are others
/// than those drawn last. Other elements are not touched.
pub proof fn law_layer_effect_element_state(
    cache: &mut NameTable<ElementState>,
    key: &str,
    signature: u64,
    fresh_id: u64,
    element: (u64, usize),
    other: Seq<char>,
)
    requires
        call_ensures(layer_effect_element_state, (cache, key, signature, fresh_id), element),
    ensures
        final(cache)@.contains_key(key@),
        final(cache)@[key@].signature == signature,
        final(cache)@[key@].id == element.0,
        final(cache)@[key@].commit == element.1,
        old(cache)@.contains_key(key@) ==> element.0 == old(cache)@[key@].id,
        !old(cache)@.contains_key(key@) ==> element.0 == fresh_id,
        old(cache)@.contains_key(key@) && old(cache)@[key@].signature == signature ==> element.1
            == old(cache)@[key@].commit,
        old(cache)@.contains_key(key@) && old(cache)@[key@].signature != signature ==> element.1
            != old(cache)@[key@].commit,
        old(cache)@.contains_key(key@) && old(cache)@[key@].signature != signature && old(
            cache)@[key@].commit < usize::MAX ==> element.1 == old(cache)@[key@].commit + 1,
        !old(cache)@.contains_key(key@) ==> element.1 == if signature == 0 {
            0usize
        } else {
            1usize
        },
        other != key@ ==> final(cache)@.contains_key(other) == old(cache)@.contains_key(other)
            && final(cache)@[other] == old(cache)@[other],
{
}

/// The picture drawn last is used again exactly if it was drawn from the same, nothing that it
/// was drawn from is damaged, and the effect can do without being drawn for every frame.
pub proof fn law_pictures_are_reused_only_unchanged(
    cache: &NameTable<ElementState>,
    key: &str,
    signature: u64,
    always_invalidated: bool,
    damaged: bool,
    r: Option<ElementState>,
)
    requires
        call_ensures(cached_backdrop, (cache, key, signature, always_invalidated, damaged), r),
    ensures
        damaged ==> r is None,
        always_invalidated ==> r is None,
        !cache@.contains_key(key@) ==> r is None,
        cache@.contains_key(key@) && cache@[key@].signature != signature ==> r is None,
        cache@.contains_key(key@) && cache@[key@].signature == signature && !damaged
            && !always_invalidated ==> r == Some(cache@[key@]),
{
}

/// A picture that was drawn anew is another element than before, the renderer sees that it has
/// changed, and what it was drawn from is remembered. Other pictures are not touched.
pub proof fn law_pictures_drawn_anew_are_remembered(
    cache: &mut NameTable<ElementState>,
    key: &str,
    signature: u64,
    fresh_id: u64,
    state: ElementState,
    other: Seq<char>,
)
    requires
        call_ensures(store_backdrop, (cache, key, signature, fresh_id), state),
    ensures
        state.signature == signature,
        state.id == fresh_id,
        final(cache)@.contains_key(key@) && final(cache)@[key@] == state,
        old(cache)@.contains_key(key@) ==> state.commit != old(cache)@[key@].commit,
        old(cache)@.contains_key(key@) && old(cache)@[key@].commit < usize::MAX ==> state.commit
            == old(cache)@[key@].commit + 1,
        !old(cache)@.contains_key(key@) ==> state.commit == 0,
        other != key@ ==> final(cache)@.contains_key(other) == old(cache)@.contains_key(other)
            && final(cache)@[other] == old(cache)@[other],
{
}

/// The picture behind a layer surface is used again exactly if it was drawn from the same, and
/// nothing that it was drawn from is damaged. There is an element for each rectangle then, in
/// order, placed on the output.
pub proof fn law_layer_pictures_are_reused_only_unchanged(
    cache: &NameTable<LayerBackdrop>,
    key: &str,
    signature: u64,
    always_invalidated: bool,
    damaged: bool,
    rects: &[LogicalRect],
    fresh_ids: &[u64],
    output_loc: LogicalPoint,
    r: Option<Vec<BackdropElement>>,
    i: int,
    p: int,
)
    requires
        fresh_ids@.len() == rects@.len(),
        rects_fit_from(rects@, output_loc),
        call_ensures(
            reuse_layer_backdrop,
            (cache, key, signature, always_invalidated, damaged, rects, fresh_ids, output_loc),
            r,
        ),
    ensures
        r is Some <==> !damaged && !always_invalidated && cache@.contains_key(key@)
            && cache@[key@].state.signature == signature,
        r is Some ==> r->0@.len() == rects@.len(),
        r is Some && 0 <= i < rects@.len() ==> {
            let element = r->0@[i];
            &&& element.rect == rects@[i]
            &&& element.local_rect.x == rects@[i].x - output_loc.x
            &&& element.local_rect.y == rects@[i].y - output_loc.y
            &&& element.local_rect.width == rects@[i].width
            &&& element.local_rect.height == rects@[i].height
            // The first part with this rectangle is the one that is shown.
            &&& 0 <= p < cache@[key@].parts@.len() && cache@[key@].parts@[p].rect == rects@[i] && (
            forall|q: int| 0 <= q < p ==> (#[trigger] cache@[key@].parts@[q]).rect != rects@[i])
                ==> element.id == cache@[key@].parts@[p].id && element.commit
                == cache@[key@].parts@[p].commit
            &&& (forall|q: int|
                0 <= q < cache@[key@].parts@.len() ==> (#[trigger] cache@[key@].parts@[q]).rect
                    != rects@[i]) ==> element.id == fresh_ids@[i] && element.commit == 0
        },
{
    let kept = pictures(cache@);
    assert(kept.contains_key(key@) == cache@.contains_key(key@));
    if cache@.contains_key(key@) {
        assert(kept[key@] == cache@[key@]@);
        let parts = cache@[key@].parts@;
        if 0 <= i < rects@.len() {
            lemma_part_index_bounds(parts, rects@[i]);
            if 0 <= p < parts.len() && parts[p].rect == rects@[i] && (forall|q: int|
                0 <= q < p ==> (#[trigger] parts[q]).rect != rects@[i]) {
                lemma_part_index(parts, rects@[i], p);
            }
        }
    }
}

/// The picture behind a layer surface that was drawn anew keeps its number, moves its commit
/// counter and remembers what it was drawn from. There is an element for each rectangle, in
/// order, placed on the output; a rectangle that was shown before is shown under the number
/// that it had, with another commit counter. Other pictures are not touched.
pub proof fn law_layer_pictures_drawn_anew_are_remembered(
    cache: &mut NameTable<LayerBackdrop>,
    key: &str,
    signature: u64,
    fresh_id: u64,
    rects: &[LogicalRect],
    fresh_ids: &[u64],
    output_loc: LogicalPoint,
    elements: Vec<BackdropElement>,
    i: int,
    other: Seq<char>,
)
    requires
        fresh_ids@.len() == rects@.len(),
        rects_fit_from(rects@, output_loc),
        call_ensures(
            store_layer_backdrop,
            (cache, key, signature, fresh_id, rects, fresh_ids, output_loc),
            elements,
        ),
        0 <= i < rects@.len(),
        forall|j: int, k: int|
            0 <= j < k < rects@.len() ==> #[trigger] rects@[j] != #[trigger] rects@[k],
    ensures
        pictures(final(cache)@).contains_key(key@),
        pictures(final(cache)@)[key@].state.signature == signature,
        !old(cache)@.contains_key(key@) ==> pictures(final(cache)@)[key@].state.id == fresh_id
            && pictures(final(cache)@)[key@].state.commit == 0,
        old(cache)@.contains_key(key@) ==> pictures(final(cache)@)[key@].state.id
            == old(cache)@[key@].state.id && pictures(final(cache)@)[key@].state.commit
            != old(cache)@[key@].state.commit,
        elements@.len() == rects@.len(),
        elements@[i].rect == rects@[i],
        elements@[i].local_rect.x == rects@[i].x - output_loc.x,
        elements@[i].local_rect.y == rects@[i].y - output_loc.y,
        elements@[i].local_rect.width == rects@[i].width,
        elements@[i].local_rect.height == rects@[i].height,
        old(cache)@.contains_key(key@) && part_with(old(cache)@[key@].parts@, rects@[i]) is Some
            ==> elements@[i].id == part_with(old(cache)@[key@].parts@, rects@[i])->0.id
            && elements@[i].commit != part_with(old(cache)@[key@].parts@, rects@[i])->0.commit,
        !(old(cache)@.contains_key(key@) && part_with(old(cache)@[key@].parts@, rects@[i]) is Some)
            ==> elements@[i].id == fresh_ids@[i],
        other != key@ ==> pictures(final(cache)@).contains_key(other) == pictures(
            old(cache)@,
        ).contains_key(other) && pictures(final(cache)@)[other] == pictures(old(cache)@)[other],
{
    let before = pictures(old(cache)@);
    assert(before.contains_key(key@) == old(cache)@.contains_key(key@));
    let known = old(cache)@.contains_key(key@);
    let parts = if known {
        old(cache)@[key@].parts@
    } else {
        Seq::empty()
    };
    if known {
        assert(before[key@] == old(cache)@[key@]@);
        if part_with(parts, rects@[i]) is Some {
            law_redrawn_parts_are_seen(parts, rects@, fresh_ids@, rects@[i]);
            assert(rects@.contains(rects@[i]));
        }
    }
    lemma_part_index_bounds(parts, rects@[i]);
    lemma_touched_parts_are_there(parts, rects@, fresh_ids@, known, i);
    if part_with(parts, rects@[i]) is None {
        lemma_new_parts_are_numbered(parts, rects@, fresh_ids@, known, i);
    }
}

/// A rectangle without a part gets one under its own number.
proof fn lemma_new_parts_are_numbered(
    parts: Seq<BackdropPart>,
    rects: Seq<LogicalRect>,
    fresh_ids: Seq<u64>,
    had_picture: bool,
    index: int,
)
    requires
        0 <= index < rects.len(),
        part_with(parts, rects[index]) is None,
        forall|j: int, k: int|
            0 <= j < k < rects.len() ==> #[trigger] rects[j] != #[trigger] rects[k],
    ensures
        part_with(touched_parts(parts, rects, fresh_ids, had_picture), rects[index]) is Some,
        part_with(touched_parts(parts, rects, fresh_ids, had_picture), rects[index])->0.id
            == fresh_ids[index],
    decreases rects.len(),
{
    let before = touched_parts(parts, rects.drop_last(), fresh_ids, had_picture);
    lemma_touched_part(
        before,
        rects.last(),
        fresh_ids[rects.len() - 1],
        had_picture,
        rects[index],
    );
    assert forall|j: int, k: int|
        0 <= j < k < rects.drop_last().len() implies #[trigger] rects.drop_last()[j]
        != #[trigger] rects.drop_last()[k] by {
        assert(rects[j] != rects[k]);
    }
    if index < rects.len() - 1 {
        assert(rects.drop_last()[index] == rects[index]);
        assert(rects[index] != rects[rects.len() - 1]);
        lemma_new_parts_are_numbered(parts, rects.drop_last(), fresh_ids, had_picture, index);
    } else {
        lemma_untouched_part(parts, rects.drop_last(), fresh_ids, had_picture, rects[index]);
    }
}

/// A rectangle that was not drawn keeps its part, or stays without one.
proof fn lemma_untouched_part(
    parts: Seq<BackdropPart>,
    rects: Seq<LogicalRect>,
    fresh_ids: Seq<u64>,
    had_picture: bool,
    rect: LogicalRect,
)
    requires
        forall|j: int| 0 <= j < rects.len() ==> #[trigger] rects[j] != rect,
    ensures
        part_with(touched_parts(parts, rects, fresh_ids, had_picture), rect) == part_with(
            parts,
            rect,
        ),
    decreases rects.len(),
{
    if rects.len() > 0 {
        assert forall|j: int| 0 <= j < rects.drop_last().len() implies #[trigger] rects.drop_last()[j]
            != rect by {
            assert(rects[j] != rect);
        }
        lemma_untouched_part(parts, rects.drop_last(), fresh_ids, had_picture, rect);
        assert(rects[rects.len() - 1] != rect);
        lemma_touched_part(
            touched_parts(parts, rects.drop_last(), fresh_ids, had_picture),
            rects.last(),
            fresh_ids[rects.len() - 1],
            had_picture,
            rect,
        );
    }
}

/// Parts of one background are named by their whole rectangle.
pub proof fn law_rect_keys_name_rects(
    stable_key: &str,
    a: LogicalRect,
    b: LogicalRect,
    a_key: String,
    b_key: String,
)
    requires
        call_ensures(rect_key, (stable_key, a), a_key),
        call_ensures(rect_key, (stable_key, b), b_key),
    ensures
        a_key@ == b_key@ <==> a == b,
        a_key@.len() > stable_key@.len(),
        a_key@.take(stable_key@.len() as int) == stable_key@,
{
    if a_key@ == b_key@ {
        law_rect_keys_are_distinct(stable_key@, a, b);
    }
    reveal_strlit(":");
    assert(a_key@.take(stable_key@.len() as int) =~= stable_key@);
}

} // verus!
