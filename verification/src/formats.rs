//! The buffer formats that clients are told about.

use vstd::prelude::*;

verus! {

/// A pixel format and how the pixels are laid out in memory.
#[derive(Clone, Copy, Debug, PartialEq, Eq, Structural)]
pub struct Format {
    pub code: u32,
    pub modifier: u64,
}

/// Pixels line by line.
pub const MODIFIER_LINEAR: u64 = 0;

/// The layout is not known.
pub const MODIFIER_INVALID: u64 = 0x00ff_ffff_ffff_ffff;

/// A layout of Nvidia's that stores blocks of pixels compressed: the vendor is in the top
/// byte, bit 4 tells that the pixels are in blocks, and the compression is in bits 23 to 25.
pub open spec fn is_compressed(modifier: u64) -> bool {
    &&& modifier / 0x100_0000_0000_0000 == 3
    &&& (modifier / 0x10) % 2 == 1
    &&& (modifier / 0x80_0000) % 8 != 0
}

pub fn is_nvidia_compressed_modifier(modifier: u64) -> (r: bool)
    ensures
        r == is_compressed(modifier),
{
    assert(modifier >> 56 == modifier / 0x100_0000_0000_0000) by (bit_vector);
    assert((modifier & 0x10 != 0) == ((modifier / 0x10) % 2 == 1)) by (bit_vector);
    assert((modifier & 0x380_0000 != 0) == ((modifier / 0x80_0000) % 8 != 0)) by (bit_vector);
    modifier >> 56 == 3 && modifier & 0x10 != 0 && modifier & 0x380_0000 != 0
}

/// The first occurrence of each format, in order.
pub open spec fn distinct(formats: Seq<Format>) -> Seq<Format>
    decreases formats.len(),
{
    if formats.len() == 0 {
        Seq::empty()
    } else {
        let rest = distinct(formats.drop_last());
        if rest.contains(formats.last()) {
            rest
        } else {
            rest.push(formats.last())
        }
    }
}

/// A set of formats that keeps the order in which they were added.
pub struct FormatSet {
    formats: Vec<Format>,
}

impl View for FormatSet {
    type V = Seq<Format>;

    closed spec fn view(&self) -> Seq<Format> {
        self.formats@
    }
}

impl FormatSet {
    /// No format occurs twice.
    pub open spec fn wf(self) -> bool {
        self@.no_duplicates()
    }

    pub fn new() -> (set: FormatSet)
        ensures
            set.wf(),
            set@ == Seq::<Format>::empty(),
    {
        FormatSet { formats: Vec::new() }
    }

    pub fn contains(&self, format: Format) -> (r: bool)
        ensures
            r == self@.contains(format),
    {
        let mut index: usize = 0;
        while index < self.formats.len()
            invariant
                index <= self.formats@.len(),
                forall|i: int| 0 <= i < index ==> self.formats@[i] != format,
            decreases self.formats@.len() - index,
        {
            if self.formats[index] == format {
                assert(self@[index as int] == format);
                return true;
            }
            index += 1;
        }
        false
    }

    pub fn insert(&mut self, format: Format)
        requires
            old(self).wf(),
        ensures
            final(self).wf(),
            final(self)@ == (if old(self)@.contains(format) {
                old(self)@
            } else {
                old(self)@.push(format)
            }),
    {
        if !self.contains(format) {
            self.formats.push(format);
        }
    }

    /// Adds formats one after the other.
    fn insert_all(&mut self, formats: &[Format], Ghost(before): Ghost<Seq<Format>>)
        requires
            old(self).wf(),
            old(self)@ == distinct(before),
        ensures
            final(self).wf(),
            final(self)@ == distinct(before + formats@),
    {
        let mut index: usize = 0;
        assert(before + formats@.take(0) =~= before);
        while index < formats.len()
            invariant
                index <= formats@.len(),
                self.wf(),
                self@ == distinct(before + formats@.take(index as int)),
            decreases formats@.len() - index,
        {
            proof {
                let next = before + formats@.take(index + 1);
                assert(next.drop_last() =~= before + formats@.take(index as int));
                assert(next.last() == formats@[index as int]);
            }
            self.insert(formats[index]);
            index += 1;
        }
        assert(formats@.take(formats@.len() as int) =~= formats@);
    }

    /// The set of the formats in a list.
    pub fn from_list(formats: &[Format]) -> (set: FormatSet)
        ensures
            set.wf(),
            set@ == distinct(formats@),
    {
        let mut set: FormatSet = FormatSet::new();
        set.insert_all(formats, Ghost(Seq::empty()));
        assert(Seq::<Format>::empty() + formats@ =~= formats@);
        set
    }

    /// The formats that `other` holds as well, in the order of this set.
    pub fn intersection(&self, other: &FormatSet) -> (common: Vec<Format>)
        ensures
            common@ == in_both(self@, other@),
    {
        let mut common: Vec<Format> = Vec::new();
        let mut index: usize = 0;
        assert(self@.take(0) =~= Seq::<Format>::empty());
        while index < self.formats.len()
            invariant
                index <= self@.len(),
                self@ == self.formats@,
                common@ == in_both(self@.take(index as int), other@),
            decreases self@.len() - index,
        {
            assert(self@.take(index + 1).drop_last() =~= self@.take(index as int));
            if other.contains(self.formats[index]) {
                common.push(self.formats[index]);
            }
            index += 1;
        }
        assert(self@.take(self@.len() as int) =~= self@);
        common
    }
}

/// The formats of the first list that occur in the second, in order.
pub open spec fn in_both(formats: Seq<Format>, other: Seq<Format>) -> Seq<Format>
    decreases formats.len(),
{
    if formats.len() == 0 {
        Seq::empty()
    } else {
        let rest = in_both(formats.drop_last(), other);
        if other.contains(formats.last()) {
            rest.push(formats.last())
        } else {
            rest
        }
    }
}

/// The formats that are not compressed, in order.
pub open spec fn uncompressed(formats: Seq<Format>) -> Seq<Format>
    decreases formats.len(),
{
    if formats.len() == 0 {
        Seq::empty()
    } else {
        let rest = uncompressed(formats.drop_last());
        if is_compressed(formats.last().modifier) {
            rest
        } else {
            rest.push(formats.last())
        }
    }
}

/// The formats that a client is advised to use, by what they allow.
pub struct FeedbackFormats {
    /// Formats that the display could show directly.
    pub scanout: FormatSet,
    /// Those of them that the primary plane takes.
    pub primary: Vec<Format>,
    /// Those of them that the primary plane or an overlay plane takes.
    pub primary_or_overlay: Vec<Format>,
}

/// Compressed layouts are left out of what is advised for showing buffers directly: the
/// driver claims to take them and then refuses the frame.
pub fn surface_dmabuf_feedback(
    render_formats: &FormatSet,
    primary_formats: &FormatSet,
    overlay_formats: &[Format],
) -> (feedback: FeedbackFormats)
    requires
        render_formats.wf(),
        primary_formats.wf(),
    ensures
        feedback.scanout.wf(),
        feedback.scanout@ == uncompressed(render_formats@),
        feedback.primary@ == in_both(primary_formats@, feedback.scanout@),
        feedback.primary_or_overlay@ == in_both(
            distinct(primary_formats@ + overlay_formats@),
            feedback.scanout@,
        ),
{
    let mut kept: Vec<Format> = Vec::new();
    let mut index: usize = 0;
    assert(render_formats@.take(0) =~= Seq::<Format>::empty());
    while index < render_formats.formats.len()
        invariant
            index <= render_formats@.len(),
            render_formats@ == render_formats.formats@,
            kept@ == uncompressed(render_formats@.take(index as int)),
        decreases render_formats@.len() - index,
    {
        assert(render_formats@.take(index + 1).drop_last() =~= render_formats@.take(
            index as int,
        ));
        let format: Format = render_formats.formats[index];
        if !is_nvidia_compressed_modifier(format.modifier) {
            kept.push(format);
        }
        index += 1;
    }
    assert(render_formats@.take(render_formats@.len() as int) =~= render_formats@);
    proof {
        lemma_uncompressed_of_set(render_formats@);
        lemma_distinct_of_set(kept@);
        lemma_distinct_of_set(primary_formats@);
    }
    let scanout: FormatSet = FormatSet::from_list(kept.as_slice());
    let primary: Vec<Format> = primary_formats.intersection(&scanout);
    let mut either: FormatSet = FormatSet::from_list(primary_formats.formats.as_slice());
    either.insert_all(overlay_formats, Ghost(primary_formats@));
    let primary_or_overlay: Vec<Format> = either.intersection(&scanout);
    FeedbackFormats { scanout, primary, primary_or_overlay }
}

/// The formats with a plain layout, in order.
pub open spec fn linear_formats(formats: Seq<Format>) -> Seq<Format>
    decreases formats.len(),
{
    if formats.len() == 0 {
        Seq::empty()
    } else {
        let rest = linear_formats(formats.drop_last());
        if formats.last().modifier == MODIFIER_LINEAR || formats.last().modifier
            == MODIFIER_INVALID {
            rest.push(formats.last())
        } else {
            rest
        }
    }
}

/// The formats that all clients are told about: all that the renderer takes, or only those
/// with a plain layout, which programs that record the screen handle faster.
pub fn advertised_formats(all: &FormatSet, linear_only: bool) -> (formats: FormatSet)
    requires
        all.wf(),
    ensures
        formats.wf(),
        formats@ == (if linear_only {
            linear_formats(all@)
        } else {
            all@
        }),
{
    if !linear_only {
        proof {
            lemma_distinct_of_set(all@);
        }
        return FormatSet::from_list(all.formats.as_slice());
    }
    let mut kept: Vec<Format> = Vec::new();
    let mut index: usize = 0;
    assert(all@.take(0) =~= Seq::<Format>::empty());
    while index < all.formats.len()
        invariant
            index <= all@.len(),
            all@ == all.formats@,
            kept@ == linear_formats(all@.take(index as int)),
        decreases all@.len() - index,
    {
        assert(all@.take(index + 1).drop_last() =~= all@.take(index as int));
        let format: Format = all.formats[index];
        if format.modifier == MODIFIER_LINEAR || format.modifier == MODIFIER_INVALID {
            kept.push(format);
        }
        index += 1;
    }
    assert(all@.take(all@.len() as int) =~= all@);
    proof {
        lemma_linear_of_set(all@);
        lemma_distinct_of_set(kept@);
    }
    FormatSet::from_list(kept.as_slice())
}

proof fn lemma_distinct_keeps(formats: Seq<Format>, format: Format)
    ensures
        distinct(formats).contains(format) <==> formats.contains(format),
    decreases formats.len(),
{
    if formats.len() > 0 {
        let init = formats.drop_last();
        let rest = distinct(init);
        lemma_distinct_keeps(init, format);
        lemma_distinct_keeps(init, formats.last());
        if formats.contains(format) {
            let i = choose|i: int| 0 <= i < formats.len() && formats[i] == format;
            if i < formats.len() - 1 {
                assert(init[i] == format);
                let j = choose|j: int| 0 <= j < rest.len() && rest[j] == format;
                assert(distinct(formats)[j] == format);
            } else if !rest.contains(format) {
                assert(distinct(formats)[rest.len() as int] == format);
            }
        }
        if distinct(formats).contains(format) {
            let j = choose|j: int|
                0 <= j < distinct(formats).len() && distinct(formats)[j] == format;
            if j < rest.len() {
                assert(rest[j] == format);
                let i = choose|i: int| 0 <= i < init.len() && init[i] == format;
                assert(formats[i] == format);
            } else {
                assert(formats[formats.len() - 1] == format);
            }
        }
    }
}

proof fn lemma_in_both(formats: Seq<Format>, other: Seq<Format>, format: Format)
    ensures
        in_both(formats, other).contains(format) <==> formats.contains(format) && other.contains(
            format,
        ),
    decreases formats.len(),
{
    if formats.len() > 0 {
        let init = formats.drop_last();
        let rest = in_both(init, other);
        let all = in_both(formats, other);
        lemma_in_both(init, other, format);
        if all.contains(format) {
            let j = choose|j: int| 0 <= j < all.len() && all[j] == format;
            if j < rest.len() {
                assert(rest[j] == format);
                let i = choose|i: int| 0 <= i < init.len() && init[i] == format;
                assert(formats[i] == format);
            } else {
                assert(formats[formats.len() - 1] == format);
            }
        }
        if formats.contains(format) && other.contains(format) {
            let i = choose|i: int| 0 <= i < formats.len() && formats[i] == format;
            if i < formats.len() - 1 {
                assert(init[i] == format);
                let j = choose|j: int| 0 <= j < rest.len() && rest[j] == format;
                assert(all[j] == format);
            } else {
                assert(all[rest.len() as int] == format);
            }
        }
    }
}

proof fn lemma_uncompressed(formats: Seq<Format>, format: Format)
    ensures
        uncompressed(formats).contains(format) <==> formats.contains(format) && !is_compressed(
            format.modifier,
        ),
    decreases formats.len(),
{
    if formats.len() > 0 {
        let init = formats.drop_last();
        let rest = uncompressed(init);
        let all = uncompressed(formats);
        lemma_uncompressed(init, format);
        if all.contains(format) {
            let j = choose|j: int| 0 <= j < all.len() && all[j] == format;
            if j < rest.len() {
                assert(rest[j] == format);
                let i = choose|i: int| 0 <= i < init.len() && init[i] == format;
                assert(formats[i] == format);
            } else {
                assert(formats[formats.len() - 1] == format);
            }
        }
        if formats.contains(format) && !is_compressed(format.modifier) {
            let i = choose|i: int| 0 <= i < formats.len() && formats[i] == format;
            if i < formats.len() - 1 {
                assert(init[i] == format);
                let j = choose|j: int| 0 <= j < rest.len() && rest[j] == format;
                assert(all[j] == format);
            } else {
                assert(all[rest.len() as int] == format);
            }
        }
    }
}

proof fn lemma_distinct_of_set(formats: Seq<Format>)
    requires
        formats.no_duplicates(),
    ensures
        distinct(formats) == formats,
    decreases formats.len(),
{
    if formats.len() > 0 {
        let init = formats.drop_last();
        lemma_distinct_of_set(init);
        if init.contains(formats.last()) {
            let i = choose|i: int| 0 <= i < init.len() && init[i] == formats.last();
            assert(formats[i] == formats[formats.len() - 1]);
        }
        assert(formats =~= init.push(formats.last()));
    } else {
        assert(formats =~= Seq::<Format>::empty());
    }
}

proof fn lemma_uncompressed_of_set(formats: Seq<Format>)
    requires
        formats.no_duplicates(),
    ensures
        uncompressed(formats).no_duplicates(),
    decreases formats.len(),
{
    if formats.len() > 0 {
        let init = formats.drop_last();
        lemma_uncompressed_of_set(init);
        lemma_uncompressed(init, formats.last());
        if init.contains(formats.last()) {
            let i = choose|i: int| 0 <= i < init.len() && init[i] == formats.last();
            assert(formats[i] == formats[formats.len() - 1]);
        }
    }
}

proof fn lemma_linear_of_set(formats: Seq<Format>)
    requires
        formats.no_duplicates(),
    ensures
        linear_formats(formats).no_duplicates(),
        forall|i: int|
            0 <= i < linear_formats(formats).len() ==> formats.contains(
                #[trigger] linear_formats(formats)[i],
            ),
    decreases formats.len(),
{
    if formats.len() > 0 {
        let init = formats.drop_last();
        let rest = linear_formats(init);
        lemma_linear_of_set(init);
        assert forall|i: int| 0 <= i < rest.len() implies formats.contains(#[trigger] rest[i])
            && rest[i] != formats.last() by {
            assert(init.contains(rest[i]));
            let j = choose|j: int| 0 <= j < init.len() && init[j] == rest[i];
            assert(formats[j] == rest[i]);
        }
        let all = linear_formats(formats);
        assert forall|i: int| 0 <= i < all.len() implies formats.contains(#[trigger] all[i]) by {
            if i < rest.len() {
                assert(all[i] == rest[i]);
            } else {
                assert(formats[formats.len() - 1] == all[i]);
            }
        }
    }
}

/// A format is advised for showing buffers directly exactly when the renderer takes it and
/// it is not compressed.
pub proof fn law_scanout_formats_are_never_compressed(render: Seq<Format>, format: Format)
    ensures
        uncompressed(render).contains(format) <==> render.contains(format) && !is_compressed(
            format.modifier,
        ),
{
    lemma_uncompressed(render, format);
}

/// What the primary plane takes is also among what any plane takes, and both are among the
/// formats for showing buffers directly.
pub proof fn law_plane_formats_are_nested(
    primary: Seq<Format>,
    overlay: Seq<Format>,
    scanout: Seq<Format>,
    format: Format,
)
    ensures
        in_both(primary, scanout).contains(format) ==> in_both(
            distinct(primary + overlay),
            scanout,
        ).contains(format),
        in_both(distinct(primary + overlay), scanout).contains(format) ==> scanout.contains(format),
{
    lemma_in_both(primary, scanout, format);
    lemma_in_both(distinct(primary + overlay), scanout, format);
    lemma_distinct_keeps(primary + overlay, format);
    if primary.contains(format) {
        let i = choose|i: int| 0 <= i < primary.len() && primary[i] == format;
        assert((primary + overlay)[i] == format);
    }
}

/// A layout is taken for compressed exactly if it is Nvidia's, in blocks, and names a
/// compression. Layouts that differ only in what is none of these go together.
pub proof fn law_compressed_layouts(modifier: u64, r: bool)
    requires
        call_ensures(is_nvidia_compressed_modifier, (modifier,), r),
    ensures
        modifier == MODIFIER_LINEAR || modifier == MODIFIER_INVALID ==> !r,
        r ==> modifier >= 0x300_0000_0000_0000 && modifier < 0x400_0000_0000_0000,
        modifier == 0x300_0000_0080_0010 ==> r,
        r <==> modifier / 0x100_0000_0000_0000 == 3 && (modifier / 0x10) % 2 == 1 && (modifier
            / 0x80_0000) % 8 != 0,
{
}

/// A set holds what was added to it, once, and nothing else.
pub proof fn law_sets_of_formats(
    set: &mut FormatSet,
    format: Format,
    other: Format,
    list: &[Format],
    made: FormatSet,
    found: bool,
)
    requires
        old(set).wf(),
        call_ensures(FormatSet::insert, (set, format), ()),
        call_ensures(FormatSet::from_list, (list,), made),
        call_ensures(FormatSet::contains, (&made, other), found),
    ensures
        final(set)@.contains(format),
        final(set).wf(),
        other != format ==> (final(set)@.contains(other) <==> old(set)@.contains(other)),
        old(set)@.contains(format) ==> final(set)@ == old(set)@,
        found <==> list@.contains(other),
        made.wf(),
{
    lemma_distinct_keeps(list@, other);
    if !old(set)@.contains(format) {
        assert(final(set)@[old(set)@.len() as int] == format);
        if other != format && final(set)@.contains(other) {
            let i = choose|i: int| 0 <= i < final(set)@.len() && final(set)@[i] == other;
            assert(old(set)@[i] == other);
        }
        if old(set)@.contains(other) {
            let i = choose|i: int| 0 <= i < old(set)@.len() && old(set)@[i] == other;
            assert(final(set)@[i] == other);
        }
    }
}

/// What two sets have in common is what both hold.
pub proof fn law_common_formats(
    set: &FormatSet,
    other: &FormatSet,
    common: Vec<Format>,
    format: Format,
)
    requires
        call_ensures(FormatSet::intersection, (set, other), common),
    ensures
        common@.contains(format) <==> set@.contains(format) && other@.contains(format),
{
    lemma_in_both(set@, other@, format);
}

/// What is advised for showing buffers directly: every format that the renderer takes and that
/// is not compressed; for a plane, those of them that the plane takes.
pub proof fn law_advised_formats(
    render: &FormatSet,
    primary: &FormatSet,
    overlay: &[Format],
    feedback: FeedbackFormats,
    format: Format,
)
    requires
        render.wf(),
        primary.wf(),
        call_ensures(surface_dmabuf_feedback, (render, primary, overlay), feedback),
    ensures
        feedback.scanout@.contains(format) <==> render@.contains(format) && !is_compressed(
            format.modifier,
        ),
        feedback.primary@.contains(format) <==> primary@.contains(format) && render@.contains(
            format,
        ) && !is_compressed(format.modifier),
        feedback.primary_or_overlay@.contains(format) <==> (primary@.contains(format)
            || overlay@.contains(format)) && render@.contains(format) && !is_compressed(
            format.modifier,
        ),
{
    lemma_uncompressed(render@, format);
    lemma_in_both(primary@, feedback.scanout@, format);
    lemma_in_both(distinct(primary@ + overlay@), feedback.scanout@, format);
    lemma_distinct_keeps(primary@ + overlay@, format);
    let all = primary@ + overlay@;
    if primary@.contains(format) {
        let i = choose|i: int| 0 <= i < primary@.len() && primary@[i] == format;
        assert(all[i] == format);
    }
    if overlay@.contains(format) {
        let i = choose|i: int| 0 <= i < overlay@.len() && overlay@[i] == format;
        assert(all[primary@.len() + i] == format);
    }
    if all.contains(format) {
        let i = choose|i: int| 0 <= i < all.len() && all[i] == format;
        if i < primary@.len() {
            assert(primary@[i] == format);
        } else {
            assert(overlay@[i - primary@.len()] == format);
        }
    }
}

proof fn lemma_linear(formats: Seq<Format>, format: Format)
    ensures
        linear_formats(formats).contains(format) <==> formats.contains(format) && (format.modifier
            == MODIFIER_LINEAR || format.modifier == MODIFIER_INVALID),
    decreases formats.len(),
{
    if formats.len() > 0 {
        let init = formats.drop_last();
        lemma_linear(init, format);
        let rest = linear_formats(init);
        let all = linear_formats(formats);
        assert(formats.contains(format) <==> init.contains(format) || formats.last() == format) by {
            if init.contains(format) {
                let i = choose|i: int| 0 <= i < init.len() && init[i] == format;
                assert(formats[i] == format);
            }
            if formats.contains(format) {
                let i = choose|i: int| 0 <= i < formats.len() && formats[i] == format;
                if i < init.len() {
                    assert(init[i] == format);
                }
            }
            assert(formats[formats.len() - 1] == formats.last());
        }
        if formats.last().modifier == MODIFIER_LINEAR || formats.last().modifier
            == MODIFIER_INVALID {
            assert(all == rest.push(formats.last()));
            if rest.contains(format) {
                let i = choose|i: int| 0 <= i < rest.len() && rest[i] == format;
                assert(all[i] == format);
            }
            assert(all[rest.len() as int] == formats.last());
            if all.contains(format) {
                let i = choose|i: int| 0 <= i < all.len() && all[i] == format;
                if i < rest.len() {
                    assert(rest[i] == format);
                }
            }
        }
    }
}

/// Clients are told of every format, or, where only plain layouts are wanted, of exactly those
/// whose layout is plain or not known.
pub proof fn law_told_formats(
    all: &FormatSet,
    linear_only: bool,
    formats: FormatSet,
    format: Format,
)
    requires
        all.wf(),
        call_ensures(advertised_formats, (all, linear_only), formats),
    ensures
        !linear_only ==> formats@ == all@,
        linear_only ==> (formats@.contains(format) <==> all@.contains(format) && (format.modifier
            == MODIFIER_LINEAR || format.modifier == MODIFIER_INVALID)),
{
    lemma_linear(all@, format);
}

} // verus!
