//! Showing a fullscreen window without composing it, and the flags of a frame.

use crate::geometry::{self, LogicalRect};
use crate::redraw::SurfaceData;
use crate::table::{self, NameTable};
use vstd::prelude::*;
use vstd::slice::slice_subrange;

verus! {

/// What is known of a window when its output is rendered.
#[derive(Clone, Copy, Debug, PartialEq, Eq, Structural)]
pub struct WindowStatus {
    pub has_decoration: bool,
    /// The window may be rendered on this output.
    pub render_allowed: bool,
    /// Where the window is in the layout, if it is part of it.
    pub geometry: Option<LogicalRect>,
    /// The window is one of the shell's, and its client has taken on the fullscreen state.
    pub acked_fullscreen: bool,
    /// The window is neither moved nor scaled.
    pub identity_geometry: bool,
    /// The window is not faded.
    pub full_opacity: bool,
}

impl WindowStatus {
    /// The window is rendered at least in part on the output.
    pub open spec fn renders_on(self, output_geo: LogicalRect) -> bool {
        self.has_decoration && self.render_allowed && self.geometry is Some
            && geometry::saturated_intersection(self.geometry->0, output_geo) is Some
    }

    /// The window is fullscreen, covers the output, and is at rest.
    pub open spec fn takes_over(self, output_geo: LogicalRect) -> bool {
        self.acked_fullscreen && self.geometry is Some && geometry::saturated_intersection(
            self.geometry->0,
            output_geo,
        ) == Some(output_geo) && self.identity_geometry && self.full_opacity
    }
}

/// The position of the topmost window that is rendered on the output, or the number of
/// windows if none is.
pub open spec fn topmost(windows: Seq<WindowStatus>, output_geo: LogicalRect) -> int
    decreases windows.len(),
{
    if windows.len() == 0 {
        0
    } else if windows[0].renders_on(output_geo) {
        0
    } else {
        1 + topmost(windows.drop_first(), output_geo)
    }
}

proof fn lemma_topmost(windows: Seq<WindowStatus>, output_geo: LogicalRect, index: int)
    requires
        0 <= index <= windows.len(),
        forall|i: int| 0 <= i < index ==> !(#[trigger] windows[i]).renders_on(output_geo),
        index < windows.len() ==> windows[index].renders_on(output_geo),
    ensures
        topmost(windows, output_geo) == index,
    decreases index,
{
    if index > 0 {
        let rest = windows.drop_first();
        assert forall|i: int| 0 <= i < index - 1 implies !(#[trigger] rest[i]).renders_on(
            output_geo,
        ) by {
            assert(rest[i] == windows[i + 1]);
        }
        assert(!windows[0].renders_on(output_geo));
        lemma_topmost(rest, output_geo, index - 1);
    }
}

/// The window that alone makes up the frame: the topmost one that is rendered, if it takes
/// over the output and no window is closing.
pub open spec fn sole_window(
    windows: Seq<WindowStatus>,
    closing_count: usize,
    output_geo: LogicalRect,
) -> Option<int> {
    let index = topmost(windows, output_geo);
    if closing_count == 0 && index < windows.len() && windows[index].takes_over(output_geo) {
        Some(index)
    } else {
        None
    }
}

pub fn fullscreen_scanout_window(
    windows_top_to_bottom: &[WindowStatus],
    closing_snapshot_count: usize,
    output_geo: LogicalRect,
) -> (window: Option<usize>)
    ensures
        sole_window(windows_top_to_bottom@, closing_snapshot_count, output_geo) == (match window {
            Some(index) => Some(index as int),
            None => None,
        }),
{
    if closing_snapshot_count != 0 {
        return None;
    }
    let mut index: usize = 0;
    while index < windows_top_to_bottom.len()
        invariant
            index <= windows_top_to_bottom@.len(),
            forall|i: int|
                0 <= i < index ==> !(#[trigger] windows_top_to_bottom@[i]).renders_on(output_geo),
            closing_snapshot_count == 0,
        decreases windows_top_to_bottom@.len() - index,
    {
        let window: WindowStatus = windows_top_to_bottom[index];
        match window.geometry {
            Some(rect) => {
                let common: Option<LogicalRect> = geometry::rectangle_intersection(
                    rect,
                    output_geo,
                );
                if window.has_decoration && window.render_allowed && common.is_some() {
                    proof {
                        lemma_topmost(windows_top_to_bottom@, output_geo, index as int);
                    }
                    if !window.acked_fullscreen {
                        return None;
                    }
                    match common {
                        Some(common) => {
                            if common != output_geo {
                                return None;
                            }
                        },
                        None => {
                            return None;
                        },
                    }
                    if !window.identity_geometry || !window.full_opacity {
                        return None;
                    }
                    return Some(index);
                }
            },
            None => {},
        }
        index += 1;
    }
    proof {
        lemma_topmost(windows_top_to_bottom@, output_geo, index as int);
    }
    None
}

/// The windows that can be seen through layer surfaces above them: one that alone makes up the
/// frame hides all others.
pub fn windows_behind_layers<T>(windows_top_to_bottom: &[T], sole: Option<usize>) -> (seen: &[T])
    requires
        sole is Some ==> sole->0 < windows_top_to_bottom@.len(),
    ensures
        seen@ == (match sole {
            Some(index) => seq![windows_top_to_bottom@[index as int]],
            None => windows_top_to_bottom@,
        }),
{
    match sole {
        Some(index) => {
            let count: usize = windows_top_to_bottom.len();
            assert(index < count);
            let seen: &[T] = slice_subrange(windows_top_to_bottom, index, index + 1);
            assert(seen@ =~= seq![windows_top_to_bottom@[index as int]]);
            seen
        },
        None => windows_top_to_bottom,
    }
}

/// The window that alone makes up the frame covers every point of the output, so nothing
/// below it could be seen.
pub proof fn law_sole_window_covers_the_output(
    windows: Seq<WindowStatus>,
    closing_count: usize,
    output_geo: LogicalRect,
    px: int,
    py: int,
)
    requires
        sole_window(windows, closing_count, output_geo) is Some,
        output_geo.covers(px, py),
        output_geo.fits(),
    ensures
        ({
            let window = windows[sole_window(windows, closing_count, output_geo)->0];
            window.geometry is Some && window.geometry->0.covers(px, py)
        }),
{
}

/// Every window above the one that alone makes up the frame is not rendered on the output.
pub proof fn law_nothing_above_the_sole_window(
    windows: Seq<WindowStatus>,
    closing_count: usize,
    output_geo: LogicalRect,
    above: int,
)
    requires
        sole_window(windows, closing_count, output_geo) is Some,
        0 <= above < sole_window(windows, closing_count, output_geo)->0,
    ensures
        !windows[above].renders_on(output_geo),
{
    lemma_above_topmost(windows, output_geo, above);
}

proof fn lemma_above_topmost(windows: Seq<WindowStatus>, output_geo: LogicalRect, above: int)
    requires
        0 <= above < topmost(windows, output_geo),
        above < windows.len(),
    ensures
        !windows[above].renders_on(output_geo),
    decreases windows.len(),
{
    if above > 0 {
        lemma_above_topmost(windows.drop_first(), output_geo, above - 1);
        assert(windows.drop_first()[above - 1] == windows[above]);
    }
}

/// Which planes of the display may show something else than the composed frame.
#[derive(Clone, Copy, Debug, PartialEq, Eq, Structural)]
pub struct FrameFlags {
    pub primary_scanout: bool,
    pub overlay_scanout: bool,
    pub cursor_scanout: bool,
}

/// How a frame is shown.
#[derive(Clone, Copy, Debug, PartialEq, Eq, Structural)]
pub struct FramePlan {
    /// The client's buffer may be shown without composing a frame.
    pub scanout_candidate: bool,
    /// The frame is shown at once instead of at the next refresh.
    pub should_tear: bool,
    /// The color behind everything is black rather than that of the desktop.
    pub clear_to_black: bool,
    pub flags: FrameFlags,
}

/// What the plan for a frame depends on.
#[derive(Clone, Copy, Debug, PartialEq, Eq, Structural)]
pub struct FrameConditions {
    /// One window alone makes up the frame.
    pub fullscreen: bool,
    /// Something of a layer surface above the windows is shown.
    pub upper_layers_visible: bool,
    pub cursor_visible: bool,
    pub tearing_forced: bool,
    /// What the configuration says of the window.
    pub allow_tearing: Option<bool>,
    /// What the client of the window asks for.
    pub client_prefers_tearing: bool,
}

impl FrameConditions {
    pub open spec fn overlay_visible(self) -> bool {
        self.fullscreen && self.upper_layers_visible
    }

    /// The configuration decides; where it says nothing the client does.
    pub open spec fn wants_tearing(self) -> bool {
        self.tearing_forced || (match self.allow_tearing {
            Some(allowed) => allowed,
            None => self.client_prefers_tearing,
        })
    }
}

pub open spec fn frame_plan_of(
    supports_async_flip: bool,
    conditions: FrameConditions,
) -> FramePlan {
    let scanout_candidate = conditions.fullscreen && !conditions.overlay_visible();
    let should_tear = supports_async_flip && !conditions.cursor_visible && scanout_candidate
        && conditions.wants_tearing();
    FramePlan {
        scanout_candidate,
        should_tear,
        clear_to_black: conditions.fullscreen,
        flags: FrameFlags {
            primary_scanout: !conditions.overlay_visible(),
            overlay_scanout: true,
            cursor_scanout: !should_tear,
        },
    }
}

/// Decides how the frame is shown and notes on the surface whether it tears.
pub fn plan_frame(surface: &mut SurfaceData, conditions: FrameConditions) -> (plan: FramePlan)
    ensures
        plan == frame_plan_of(old(surface).supports_async_flip, conditions),
        *final(surface) == (SurfaceData { tearing_active: plan.should_tear, ..*old(surface) }),
{
    let overlay_visible: bool = conditions.fullscreen && conditions.upper_layers_visible;
    let scanout_candidate: bool = conditions.fullscreen && !overlay_visible;
    let wants_tearing: bool = conditions.tearing_forced || match conditions.allow_tearing {
        Some(allowed) => allowed,
        None => conditions.client_prefers_tearing,
    };
    let should_tear: bool = surface.supports_async_flip && !conditions.cursor_visible
        && scanout_candidate && wants_tearing;
    surface.tearing_active = should_tear;
    FramePlan {
        scanout_candidate,
        should_tear,
        clear_to_black: conditions.fullscreen,
        flags: FrameFlags {
            primary_scanout: !overlay_visible,
            overlay_scanout: true,
            cursor_scanout: !should_tear,
        },
    }
}

/// A frame tears only when the display can do so, a fullscreen window alone is shown, and
/// neither a cursor nor a layer surface is in front of it. The cursor then stays off the
/// plane of its own, since such a frame may change no other plane.
pub proof fn law_tearing_needs_a_bare_fullscreen_window(
    supports_async_flip: bool,
    conditions: FrameConditions,
)
    ensures
        ({
            let plan = frame_plan_of(supports_async_flip, conditions);
            plan.should_tear ==> supports_async_flip && conditions.fullscreen
                && !conditions.upper_layers_visible && !conditions.cursor_visible
                && plan.scanout_candidate && plan.flags.primary_scanout
                && !plan.flags.cursor_scanout
        }),
{
}

/// How an element was shown.
#[derive(Clone, Copy, Debug, PartialEq, Eq, Structural)]
pub enum PresentationState {
    ZeroCopy,
    Skipped,
    Rendering,
    /// Composed, because the plane does not take the format of the buffer.
    FormatUnsupported,
    /// Composed, because showing the buffer directly failed.
    ScanoutFailed,
}

/// How many elements were shown in each way. Those that were composed for a reason count
/// as rendered too.
#[derive(Clone, Copy, Debug, PartialEq, Eq, Structural)]
pub struct PresentationCounts {
    pub zero_copy: usize,
    pub rendered: usize,
    pub skipped: usize,
    pub format_unsupported: usize,
    pub scanout_failed: usize,
}

pub open spec fn count_of(states: Seq<PresentationState>, wanted: PresentationState) -> nat
    decreases states.len(),
{
    if states.len() == 0 {
        0
    } else {
        count_of(states.drop_last(), wanted) + (if states.last() == wanted {
            1nat
        } else {
            0nat
        })
    }
}

proof fn lemma_counts_fit(states: Seq<PresentationState>)
    ensures
        count_of(states, PresentationState::ZeroCopy) + count_of(states, PresentationState::Skipped)
            + count_of(states, PresentationState::Rendering) + count_of(
            states,
            PresentationState::FormatUnsupported,
        ) + count_of(states, PresentationState::ScanoutFailed) == states.len(),
    decreases states.len(),
{
    if states.len() > 0 {
        lemma_counts_fit(states.drop_last());
    }
}

pub fn count_presentation_states(states: &[PresentationState]) -> (counts: PresentationCounts)
    ensures
        counts.zero_copy == count_of(states@, PresentationState::ZeroCopy),
        counts.skipped == count_of(states@, PresentationState::Skipped),
        counts.format_unsupported == count_of(states@, PresentationState::FormatUnsupported),
        counts.scanout_failed == count_of(states@, PresentationState::ScanoutFailed),
        counts.rendered == states@.len() - counts.zero_copy - counts.skipped,
{
    let mut counts: PresentationCounts = PresentationCounts {
        zero_copy: 0,
        rendered: 0,
        skipped: 0,
        format_unsupported: 0,
        scanout_failed: 0,
    };
    let mut index: usize = 0;
    assert(states@.take(0) =~= Seq::<PresentationState>::empty());
    while index < states.len()
        invariant
            index <= states@.len(),
            counts.zero_copy == count_of(
                states@.take(index as int),
                PresentationState::ZeroCopy,
            ),
            counts.skipped == count_of(states@.take(index as int), PresentationState::Skipped),
            counts.format_unsupported == count_of(
                states@.take(index as int),
                PresentationState::FormatUnsupported,
            ),
            counts.scanout_failed == count_of(
                states@.take(index as int),
                PresentationState::ScanoutFailed,
            ),
            counts.rendered == index - counts.zero_copy - counts.skipped,
            counts.zero_copy + counts.skipped + counts.format_unsupported + counts.scanout_failed
                <= index,
        decreases states@.len() - index,
    {
        proof {
            assert(states@.take(index + 1).drop_last() =~= states@.take(index as int));
            lemma_counts_fit(states@.take(index + 1));
        }
        match states[index] {
            PresentationState::ZeroCopy => {
                counts.zero_copy = counts.zero_copy + 1;
            },
            PresentationState::Skipped => {
                counts.skipped = counts.skipped + 1;
            },
            PresentationState::Rendering => {
                counts.rendered = counts.rendered + 1;
            },
            PresentationState::FormatUnsupported => {
                counts.rendered = counts.rendered + 1;
                counts.format_unsupported = counts.format_unsupported + 1;
            },
            PresentationState::ScanoutFailed => {
                counts.rendered = counts.rendered + 1;
                counts.scanout_failed = counts.scanout_failed + 1;
            },
        }
        index += 1;
    }
    assert(states@.take(states@.len() as int) =~= states@);
    counts
}

/// The picture that captures of an output are served from: its size in pixels, the bits of
/// its scale and its orientation.
#[derive(Clone, Copy, Debug, PartialEq, Eq, Structural)]
pub struct OutputCaptureMirror {
    pub width: i32,
    pub height: i32,
    pub scale_x_bits: u64,
    pub scale_y_bits: u64,
    pub transform: u32,
}

/// How to serve the captures of an output.
#[derive(Clone, Copy, Debug, PartialEq, Eq, Structural)]
pub enum MirrorStep {
    /// Nobody captures the output: there is no picture of it.
    Drop,
    /// The output has no mode, so there is nothing to draw.
    Keep,
    /// The picture is drawn, into a new one if that is needed.
    Draw { recreate: bool },
}

/// A picture is needed while a capture is waiting. It is made anew when there is none or
/// when the output has changed its shape.
pub open spec fn mirror_step(
    mirror: Option<OutputCaptureMirror>,
    capture_waiting: bool,
    shape: Option<OutputCaptureMirror>,
) -> MirrorStep {
    if !capture_waiting {
        MirrorStep::Drop
    } else {
        match shape {
            None => MirrorStep::Keep,
            Some(shape) => MirrorStep::Draw { recreate: mirror != Some(shape) },
        }
    }
}

/// Decides how to serve the captures of an output; `shape` is that of the output, if it has
/// a mode.
pub fn render_output_capture_mirror(
    mirrors: &mut NameTable<OutputCaptureMirror>,
    output: &str,
    capture_waiting: bool,
    shape: Option<OutputCaptureMirror>,
) -> (step: MirrorStep)
    ensures
        step == mirror_step(table::lookup(old(mirrors)@, output@), capture_waiting, shape),
        final(mirrors)@ == (if capture_waiting {
            old(mirrors)@
        } else {
            old(mirrors)@.remove(output@)
        }),
{
    if !capture_waiting {
        mirrors.remove(output);
        return MirrorStep::Drop;
    }
    match shape {
        None => MirrorStep::Keep,
        Some(shape) => {
            let recreate: bool = match mirrors.get(output) {
                Some(mirror) => mirror != shape,
                None => true,
            };
            MirrorStep::Draw { recreate }
        },
    }
}

/// Records what came of drawing the picture: one that could not be drawn is given up, and
/// the frame shows its elements one by one.
pub fn capture_mirror_drawn(
    mirrors: &mut NameTable<OutputCaptureMirror>,
    output: &str,
    shape: OutputCaptureMirror,
    drawn: bool,
)
    ensures
        final(mirrors)@ == (if drawn {
            old(mirrors)@.insert(output@, shape)
        } else {
            old(mirrors)@.remove(output@)
        }),
{
    if drawn {
        mirrors.set(output, shape);
    } else {
        mirrors.remove(output);
    }
}

/// While captures are waiting and the output keeps its shape, its picture is made once.
pub proof fn law_mirrors_are_made_once(
    mirrors: Map<Seq<char>, OutputCaptureMirror>,
    output: Seq<char>,
    shape: OutputCaptureMirror,
)
    ensures
        mirror_step(table::lookup(mirrors.insert(output, shape), output), true, Some(shape))
            == (MirrorStep::Draw { recreate: false }),
{
}

/// Who decides whether a bare fullscreen window tears: tearing that is forced goes before all,
/// then what the configuration says, whatever the client prefers, and where it says nothing
/// the client.
pub proof fn law_who_decides_on_tearing(
    surface: &mut SurfaceData,
    conditions: FrameConditions,
    plan: FramePlan,
)
    requires
        call_ensures(plan_frame, (surface, conditions), plan),
    ensures
        old(surface).supports_async_flip && conditions.fullscreen
            && !conditions.upper_layers_visible && !conditions.cursor_visible ==> {
            &&& conditions.tearing_forced ==> plan.should_tear
            &&& !conditions.tearing_forced && conditions.allow_tearing == Some(true)
                ==> plan.should_tear
            &&& !conditions.tearing_forced && conditions.allow_tearing == Some(false)
                ==> !plan.should_tear
            &&& !conditions.tearing_forced && conditions.allow_tearing is None ==> plan.should_tear
                == conditions.client_prefers_tearing
        },
        // Nothing tears that cannot, or that something else is shown with.
        !old(surface).supports_async_flip ==> !plan.should_tear,
        !conditions.fullscreen ==> !plan.should_tear,
        conditions.upper_layers_visible ==> !plan.should_tear,
        conditions.cursor_visible ==> !plan.should_tear,
        // The surface knows, and nothing else of it changes.
        final(surface).tearing_active == plan.should_tear,
        *final(surface) == (SurfaceData {
            tearing_active: final(surface).tearing_active,
            ..*old(surface)
        }),
{
}

/// The client's buffer is shown as it is only where it makes up the whole frame, and only then
/// is the rest black; the plane of the frame itself is composed only under a layer surface in
/// front of a fullscreen window.
pub proof fn law_planes_of_a_frame(
    surface: &mut SurfaceData,
    conditions: FrameConditions,
    plan: FramePlan,
)
    requires
        call_ensures(plan_frame, (surface, conditions), plan),
    ensures
        plan.scanout_candidate <==> conditions.fullscreen && !conditions.upper_layers_visible,
        plan.clear_to_black <==> conditions.fullscreen,
        !plan.flags.primary_scanout <==> conditions.fullscreen && conditions.upper_layers_visible,
        plan.flags.overlay_scanout,
        plan.flags.cursor_scanout <==> !plan.should_tear,
{
}

/// Which window alone makes up the frame: one that is rendered on the output with none above
/// it that is, fullscreen as its client knows, over all of the output, neither moved nor scaled
/// nor faded, while no window is closing.
pub proof fn law_the_sole_window(
    windows: &[WindowStatus],
    closing: usize,
    output_geo: LogicalRect,
    window: Option<usize>,
    i: int,
)
    requires
        call_ensures(fullscreen_scanout_window, (windows, closing, output_geo), window),
        0 <= i < windows@.len(),
        // The window at `i` is rendered and none above it is.
        windows@[i].renders_on(output_geo),
        forall|k: int| 0 <= k < i ==> !(#[trigger] windows@[k]).renders_on(output_geo),
    ensures
        window is Some ==> window->0 == i,
        window is Some <==> {
            &&& closing == 0
            &&& windows@[i].acked_fullscreen
            &&& windows@[i].identity_geometry
            &&& windows@[i].full_opacity
            &&& windows@[i].geometry is Some
            &&& geometry::saturated_intersection(windows@[i].geometry->0, output_geo) == Some(
                output_geo,
            )
        },
{
    lemma_topmost(windows@, output_geo, i);
}

/// Without a window that is rendered on the output, none makes up the frame.
pub proof fn law_no_sole_window_among_hidden_ones(
    windows: &[WindowStatus],
    closing: usize,
    output_geo: LogicalRect,
    window: Option<usize>,
)
    requires
        call_ensures(fullscreen_scanout_window, (windows, closing, output_geo), window),
        forall|k: int|
            0 <= k < windows@.len() ==> !(#[trigger] windows@[k]).has_decoration
                || !windows@[k].render_allowed || windows@[k].geometry is None
                || geometry::saturated_intersection(windows@[k].geometry->0, output_geo) is None,
    ensures
        window is None,
{
    lemma_topmost(windows@, output_geo, windows@.len() as int);
}

/// A window is rendered on an output exactly if it may be, is decorated and shares a point with
/// it.
pub proof fn law_windows_are_rendered_where_they_are(status: WindowStatus, output_geo: LogicalRect)
    requires
        status.geometry is Some ==> status.geometry->0.fits() && status.geometry->0.is_solid(),
        output_geo.fits(),
        output_geo.is_solid(),
    ensures
        status.renders_on(output_geo) <==> {
            &&& status.has_decoration
            &&& status.render_allowed
            &&& status.geometry is Some
            &&& !status.geometry->0.disjoint_from(output_geo)
        },
{
    if status.geometry is Some {
        let rect = status.geometry->0;
        geometry::law_intersections_agree(rect, output_geo);
        let left = geometry::spec_max(rect.x as int, output_geo.x as int);
        let top = geometry::spec_max(rect.y as int, output_geo.y as int);
        if geometry::intersect_rects(rect, output_geo) is Some {
            assert(rect.covers(left, top) && output_geo.covers(left, top));
        }
    }
}

/// Behind layer surfaces a window that alone makes up the frame is all that is seen, and
/// otherwise every window is.
pub proof fn law_windows_seen_behind_layers<T>(windows: &[T], sole: Option<usize>, seen: &[T], i: int)
    requires
        call_ensures(windows_behind_layers::<T>, (windows, sole), seen),
        sole is Some ==> sole->0 < windows@.len(),
    ensures
        sole is None ==> seen@ == windows@,
        sole is Some ==> seen@.len() == 1 && seen@[0] == windows@[sole->0 as int],
{
}

/// Each element is counted where it belongs, one at a time: one that is shown in another way
/// counts for that way and for no other, except that what was composed for a reason is
/// rendered as well.
pub proof fn law_elements_are_counted_once(
    before: &[PresentationState],
    after: &[PresentationState],
    state: PresentationState,
    a: PresentationCounts,
    b: PresentationCounts,
)
    requires
        call_ensures(count_presentation_states, (before,), a),
        call_ensures(count_presentation_states, (after,), b),
        after@ == before@.push(state),
    ensures
        b.zero_copy == a.zero_copy + (if state == PresentationState::ZeroCopy {
            1int
        } else {
            0
        }),
        b.skipped == a.skipped + (if state == PresentationState::Skipped {
            1int
        } else {
            0
        }),
        b.format_unsupported == a.format_unsupported + (if state
            == PresentationState::FormatUnsupported {
            1int
        } else {
            0
        }),
        b.scanout_failed == a.scanout_failed + (if state == PresentationState::ScanoutFailed {
            1int
        } else {
            0
        }),
        b.rendered == a.rendered + (if state == PresentationState::ZeroCopy || state
            == PresentationState::Skipped {
            0int
        } else {
            1
        }),
        before@.len() == 0 ==> a.zero_copy == 0 && a.skipped == 0 && a.rendered == 0
            && a.format_unsupported == 0 && a.scanout_failed == 0,
{
    assert(after@.drop_last() =~= before@);
    lemma_counts_fit(before@);
    lemma_counts_fit(after@);
}

/// A picture of an output is drawn exactly while a capture of it is waiting and it has a mode;
/// it is made anew exactly if there is none of this shape. One that nobody waits for is
/// dropped, and pictures of other outputs stay.
pub proof fn law_capture_mirrors(
    mirrors: &mut NameTable<OutputCaptureMirror>,
    output: &str,
    capture_waiting: bool,
    shape: Option<OutputCaptureMirror>,
    step: MirrorStep,
    other: Seq<char>,
)
    requires
        call_ensures(
            render_output_capture_mirror,
            (mirrors, output, capture_waiting, shape),
            step,
        ),
    ensures
        !capture_waiting ==> step == MirrorStep::Drop && !final(mirrors)@.contains_key(output@),
        capture_waiting && shape is None ==> step == MirrorStep::Keep,
        capture_waiting && shape is Some ==> step is Draw,
        capture_waiting && shape is Some && old(mirrors)@.contains_key(output@) && old(mirrors)@[output@] == shape->0 ==> step == (MirrorStep::Draw { recreate: false }),
        capture_waiting && shape is Some && !(old(mirrors)@.contains_key(output@) && old(mirrors)@[output@] == shape->0) ==> step == (MirrorStep::Draw { recreate: true }),
        capture_waiting ==> final(mirrors)@ == old(mirrors)@,
        other != output@ ==> final(mirrors)@.contains_key(other) == old(mirrors)@.contains_key(
            other,
        ) && final(mirrors)@[other] == old(mirrors)@[other],
{
}

/// A picture that was drawn is kept with its shape, one that was not is given up, and pictures
/// of other outputs stay.
pub proof fn law_drawn_mirrors_are_kept(
    mirrors: &mut NameTable<OutputCaptureMirror>,
    output: &str,
    shape: OutputCaptureMirror,
    drawn: bool,
    other: Seq<char>,
)
    requires
        call_ensures(capture_mirror_drawn, (mirrors, output, shape, drawn), ()),
    ensures
        drawn ==> final(mirrors)@.contains_key(output@) && final(mirrors)@[output@] == shape,
        !drawn ==> !final(mirrors)@.contains_key(output@),
        other != output@ ==> final(mirrors)@.contains_key(other) == old(mirrors)@.contains_key(
            other,
        ) && final(mirrors)@[other] == old(mirrors)@[other],
{
}

} // verus!
