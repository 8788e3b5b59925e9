//! What the pointer looks like.

use vstd::prelude::*;

verus! {

/// What clients ask the pointer to look like. Named shapes are known by number.
#[derive(Clone, Copy, Debug, PartialEq, Eq, Structural)]
pub enum CursorStatus {
    Hidden,
    Named(u32),
    /// A surface of a client; it may be gone.
    Surface { alive: bool },
}

/// The shape of the pointer where no client has a say.
pub const DEFAULT_CURSOR: u32 = 0;

/// A surface that is gone no longer counts, and the default shape takes its place.
pub open spec fn settled(status: CursorStatus) -> CursorStatus {
    if status == (CursorStatus::Surface { alive: false }) {
        CursorStatus::Named(DEFAULT_CURSOR)
    } else {
        status
    }
}

/// A shape that the compositor itself asks for goes before what clients ask for.
pub open spec fn effective(status: CursorStatus, compositor_shape: Option<u32>) -> CursorStatus {
    match compositor_shape {
        Some(shape) => CursorStatus::Named(shape),
        None => settled(status),
    }
}

/// Decides what the pointer looks like in a frame, and forgets a surface that is gone.
pub fn effective_cursor(status: &mut CursorStatus, compositor_shape: Option<u32>) -> (shown:
    CursorStatus)
    ensures
        *final(status) == settled(*old(status)),
        shown == effective(*old(status), compositor_shape),
{
    if *status == (CursorStatus::Surface { alive: false }) {
        *status = CursorStatus::Named(DEFAULT_CURSOR);
    }
    match compositor_shape {
        Some(shape) => CursorStatus::Named(shape),
        None => *status,
    }
}

/// The shape whose image is loaded; `None` when the client draws the pointer itself. For a
/// hidden pointer it is the default shape, which is then not shown.
pub fn cursor_shape(status: CursorStatus) -> (shape: Option<u32>)
    ensures
        shape == (match status {
            CursorStatus::Surface { .. } => None,
            CursorStatus::Named(shape) => Some(shape),
            CursorStatus::Hidden => Some(DEFAULT_CURSOR),
        }),
{
    match status {
        CursorStatus::Surface { .. } => None,
        CursorStatus::Named(shape) => Some(shape),
        CursorStatus::Hidden => Some(DEFAULT_CURSOR),
    }
}

/// The point of a cursor image that marks the position, in units of the output. Images come
/// in sizes for whole scales.
pub fn cursor_hotspot(xhot: u32, yhot: u32, cursor_scale: u32) -> (hotspot: (i32, i32))
    requires
        cursor_scale > 0,
    ensures
        hotspot.0 == (xhot / cursor_scale) as i32,
        hotspot.1 == (yhot / cursor_scale) as i32,
{
    ((xhot / cursor_scale) as i32, (yhot / cursor_scale) as i32)
}

/// One image of a shape. A shape may have several that follow each other in time.
pub struct CursorImage {
    pub width: u32,
    pub height: u32,
    pub xhot: u32,
    pub yhot: u32,
    pub delay: u32,
    pub pixels: Vec<u8>,
}

impl CursorImage {
    pub open spec fn same_as(self, other: CursorImage) -> bool {
        &&& self.width == other.width
        &&& self.height == other.height
        &&& self.xhot == other.xhot
        &&& self.yhot == other.yhot
        &&& self.delay == other.delay
        &&& self.pixels@ == other.pixels@
    }
}

fn same_bytes(a: &Vec<u8>, b: &Vec<u8>) -> (r: bool)
    ensures
        r == (a@ == b@),
{
    if a.len() != b.len() {
        return false;
    }
    let mut index: usize = 0;
    while index < a.len()
        invariant
            index <= a@.len(),
            a@.len() == b@.len(),
            forall|i: int| 0 <= i < index ==> a@[i] == b@[i],
        decreases a@.len() - index,
    {
        if a[index] != b[index] {
            return false;
        }
        index += 1;
    }
    assert(a@ =~= b@);
    true
}

fn same_image(a: &CursorImage, b: &CursorImage) -> (r: bool)
    ensures
        r == a.same_as(*b),
{
    a.width == b.width && a.height == b.height && a.xhot == b.xhot && a.yhot == b.yhot && a.delay
        == b.delay && same_bytes(&a.pixels, &b.pixels)
}

/// The images that have been uploaded, each of them once.
pub struct CursorImages {
    pub images: Vec<CursorImage>,
    /// The position of the image that the pointer shows, unless a client draws it.
    pub current: Option<usize>,
}

impl CursorImages {
    /// No image occurs twice, and the current one is one of them.
    pub open spec fn wf(self) -> bool {
        &&& forall|i: int, j: int|
            0 <= i < j < self.images@.len() ==> !(#[trigger] self.images@[i]).same_as(
                #[trigger] self.images@[j],
            )
        &&& self.current is Some ==> self.current->0 < self.images@.len()
    }

    /// The image at this position shows `image`.
    pub open spec fn holds_at(self, image: CursorImage, at: int) -> bool {
        0 <= at < self.images@.len() && self.images@[at].same_as(image)
    }
}

/// What to do for the image that the pointer is to show.
#[derive(Clone, Copy, Debug, PartialEq, Eq, Structural)]
pub struct ImageStep {
    /// Where the image stands among those that have been uploaded.
    pub index: usize,
    /// It has yet to be uploaded.
    pub upload: bool,
    /// The pointer showed something else before.
    pub changed: bool,
}

/// The pointer shows `image` from now on.
pub fn show_cursor_image(images: &mut CursorImages, image: CursorImage) -> (step: ImageStep)
    requires
        old(images).wf(),
    ensures
        final(images).wf(),
        final(images).current == Some(step.index),
        final(images).holds_at(image, step.index as int),
        step.upload <==> forall|i: int| !#[trigger] old(images).holds_at(image, i),
        final(images).images@ == (if step.upload {
            old(images).images@.push(image)
        } else {
            old(images).images@
        }),
        step.changed == (old(images).current != Some(step.index)),
{
    let ghost before = *images;
    let mut index: usize = 0;
    while index < images.images.len() && !same_image(&images.images[index], &image)
        invariant
            index <= images.images@.len(),
            *images == before,
            forall|i: int| 0 <= i < index ==> !(#[trigger] images.images@[i]).same_as(image),
        decreases images.images@.len() - index,
    {
        index += 1;
    }
    let upload: bool = index == images.images.len();
    proof {
        if upload {
            assert forall|i: int| !#[trigger] before.holds_at(image, i) by {}
        } else {
            assert(before.holds_at(image, index as int));
        }
    }
    if upload {
        images.images.push(image);
    }
    let changed: bool = match images.current {
        Some(current) => current != index,
        None => true,
    };
    images.current = Some(index);
    ImageStep { index, upload, changed }
}

/// A client draws the pointer itself from now on.
pub fn client_draws_cursor(images: &mut CursorImages)
    requires
        old(images).wf(),
    ensures
        final(images).wf(),
        final(images).images@ == old(images).images@,
        final(images).current is None,
{
    images.current = None;
}

/// An image that has been uploaded is found again later, whatever was uploaded after it.
pub proof fn law_uploaded_images_stay_known(
    before: CursorImages,
    after: CursorImages,
    image: CursorImage,
    at: int,
)
    requires
        before.holds_at(image, at),
        after.images@.len() >= before.images@.len(),
        after.images@.take(before.images@.len() as int) == before.images@,
    ensures
        after.holds_at(image, at),
{
    assert(after.images@.take(before.images@.len() as int)[at] == after.images@[at]);
}

/// What a client asks the pointer to look like is what it looks like, as long as the compositor
/// asks for nothing else: a hidden pointer stays hidden, a named shape is that shape, and a
/// surface that is alive is shown. Only a surface that is gone gives way to the default shape.
pub proof fn law_clients_decide_on_the_pointer(
    status: &mut CursorStatus,
    compositor_shape: Option<u32>,
    shown: CursorStatus,
)
    requires
        call_ensures(effective_cursor, (status, compositor_shape), shown),
    ensures
        // What clients asked for is not forgotten, whatever the compositor asks for.
        *old(status) != (CursorStatus::Surface { alive: false }) ==> *final(status) == *old(status),
        compositor_shape is None && *old(status) != (CursorStatus::Surface { alive: false })
            ==> shown == *old(status),
        compositor_shape is None && *old(status) is Hidden ==> shown is Hidden,
        *old(status) == (CursorStatus::Surface { alive: false }) ==> *final(status)
            == CursorStatus::Named(DEFAULT_CURSOR),
        compositor_shape is None && *old(status) == (CursorStatus::Surface { alive: false })
            ==> shown == CursorStatus::Named(DEFAULT_CURSOR),
        compositor_shape matches Some(shape) ==> shown == CursorStatus::Named(shape),
        // What is shown can be shown.
        shown != (CursorStatus::Surface { alive: false }),
        *final(status) != (CursorStatus::Surface { alive: false }),
{
}

/// Once it was decided what the pointer looks like, deciding again changes nothing; and a shape
/// that the compositor asked for in between leaves no trace.
pub proof fn law_deciding_on_the_pointer_again_changes_nothing(
    first: &mut CursorStatus,
    between: &mut CursorStatus,
    last: &mut CursorStatus,
    shape: u32,
    shown: CursorStatus,
    covered: CursorStatus,
    shown_again: CursorStatus,
)
    requires
        call_ensures(effective_cursor, (first, None), shown),
        call_ensures(effective_cursor, (between, Some(shape)), covered),
        call_ensures(effective_cursor, (last, None), shown_again),
    ensures
        *final(first) == *old(between) && *final(between) == *old(last) ==> shown_again == shown
            && *final(last) == *final(first),
{
}

/// An image is loaded exactly if a client does not draw the pointer itself: that of the shape
/// that is named.
pub proof fn law_named_shapes_are_loaded(status: CursorStatus, shape: Option<u32>)
    requires
        call_ensures(cursor_shape, (status,), shape),
    ensures
        shape is None <==> status is Surface,
        status matches CursorStatus::Named(number) ==> shape == Some(number),
        status is Hidden ==> shape == Some(DEFAULT_CURSOR),
{
}

/// The mark of an image scales with the image: it is that of the unscaled image, to the pixel
/// it is in.
pub proof fn law_hotspots_scale_with_the_image(xhot: u32, yhot: u32, scale: u32, hotspot: (i32, i32))
    requires
        scale > 0,
        xhot <= i32::MAX,
        yhot <= i32::MAX,
        call_ensures(cursor_hotspot, (xhot, yhot, scale), hotspot),
    ensures
        hotspot.0 * scale <= xhot < (hotspot.0 + 1) * scale,
        hotspot.1 * scale <= yhot < (hotspot.1 + 1) * scale,
{
    vstd::arithmetic::div_mod::lemma_fundamental_div_mod(xhot as int, scale as int);
    vstd::arithmetic::div_mod::lemma_fundamental_div_mod(yhot as int, scale as int);
    vstd::arithmetic::div_mod::lemma_mod_bound(xhot as int, scale as int);
    vstd::arithmetic::div_mod::lemma_mod_bound(yhot as int, scale as int);
    vstd::arithmetic::div_mod::lemma_div_is_ordered_by_denominator(xhot as int, 1, scale as int);
    vstd::arithmetic::div_mod::lemma_div_is_ordered_by_denominator(yhot as int, 1, scale as int);
    let x = (xhot / scale) as int;
    let y = (yhot / scale) as int;
    assert((x + 1) * scale == scale * x + scale) by (nonlinear_arith);
    assert((y + 1) * scale == scale * y + scale) by (nonlinear_arith);
    assert(x * scale == scale * x) by (nonlinear_arith);
    assert(y * scale == scale * y) by (nonlinear_arith);
}

/// An image is uploaded when it is shown for the first time and never again: shown a second
/// time it is at the same place, and the pointer has not changed if nothing was shown in
/// between.
pub proof fn law_images_are_uploaded_once(
    first: &mut CursorImages,
    second: &mut CursorImages,
    image: CursorImage,
    again: CursorImage,
    a: ImageStep,
    b: ImageStep,
)
    requires
        old(first).wf(),
        old(second).wf(),
        call_ensures(show_cursor_image, (first, image), a),
        call_ensures(show_cursor_image, (second, again), b),
        image.width == again.width,
        image.height == again.height,
        image.xhot == again.xhot,
        image.yhot == again.yhot,
        image.delay == again.delay,
        image.pixels@ == again.pixels@,
    ensures
        old(second).images@ == final(first).images@ ==> !b.upload && b.index == a.index
            && final(second).images@ == old(second).images@,
        old(second).images@ == final(first).images@ && old(second).current == final(first).current
            ==> !b.changed,
        old(second).images@ == final(first).images@ && old(second).current is None ==> b.changed,
        a.upload ==> final(first).images@.len() == old(first).images@.len() + 1,
        !a.upload ==> final(first).images@ == old(first).images@,
        a.index < final(first).images@.len(),
        ({
            let kept = final(first).images@[a.index as int];
            &&& kept.width == image.width
            &&& kept.height == image.height
            &&& kept.xhot == image.xhot
            &&& kept.yhot == image.yhot
            &&& kept.delay == image.delay
            &&& kept.pixels@ == image.pixels@
        }),
        old(first).images@.len() == 0 ==> a.upload && a.changed,
{
    assert(final(first).holds_at(image, a.index as int));
    if old(second).images@ == final(first).images@ {
        assert(old(second).holds_at(again, a.index as int));
        assert(final(second).holds_at(again, b.index as int));
        if a.index != b.index {
            let images = final(first).images@;
            if a.index < b.index {
                assert(images[a.index as int].same_as(images[b.index as int]));
            } else {
                assert(images[b.index as int].same_as(images[a.index as int]));
            }
        }
    }
}

/// Once a client draws the pointer itself, no uploaded image is current, and none is forgotten.
pub proof fn law_client_drawn_pointers_forget_no_image(images: &mut CursorImages)
    requires
        old(images).wf(),
        call_ensures(client_draws_cursor, (images,), ()),
    ensures
        final(images).current is None,
        final(images).images@ == old(images).images@,
{
}

} // verus!
