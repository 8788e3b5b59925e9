//! A whole frame: what is painted again, what is shown and in which order, and what is
//! done for its windows once it is on its way.

use crate::geometry::LogicalRect;
use crate::redraw::SurfaceData;
use crate::scanout::{self, FrameConditions, FramePlan, PresentationState};
use crate::table::NameSet;
use std::collections::HashMap;
use vstd::prelude::*;

verus! {

/// The areas that are painted again whatever the elements of the frame say: those of
/// decorations that have changed, and all of the output when that was asked for or when
/// painted areas are being marked and some are.
pub open spec fn forced_damage(
    pending: Seq<LogicalRect>,
    force_full: bool,
    blink: bool,
    output_rect: LogicalRect,
) -> Seq<LogicalRect> {
    let full = if force_full {
        pending.push(output_rect)
    } else {
        pending
    };
    if blink {
        full.push(output_rect)
    } else {
        full
    }
}

pub fn extra_damage(
    pending: Vec<LogicalRect>,
    force_full_damage: bool,
    capture_blink: bool,
    blink_visible_count: usize,
    output_rect: LogicalRect,
) -> (damage: Vec<LogicalRect>)
    ensures
        damage@ == forced_damage(
            pending@,
            force_full_damage,
            capture_blink && blink_visible_count > 0,
            output_rect,
        ),
{
    let mut damage: Vec<LogicalRect> = pending;
    if force_full_damage {
        damage.push(output_rect);
    }
    if capture_blink && blink_visible_count > 0 {
        damage.push(output_rect);
    }
    damage
}

/// The parts of a frame, each from front to back.
pub struct FrameParts<T> {
    /// Messages about errors in the configuration.
    pub error_texts: Vec<T>,
    pub error_backgrounds: Vec<T>,
    pub fps_overlay: Vec<T>,
    pub cursor: Vec<T>,
    /// Marks of painted areas.
    pub blink: Vec<T>,
    pub lock_surface: Vec<T>,
    /// Areas that are painted again.
    pub damage: Vec<T>,
    pub upper_layers: Vec<T>,
    pub closing_windows: Vec<T>,
    pub windows: Vec<T>,
    pub lower_layers: Vec<T>,
}

/// What can be seen of the desktop: behind a window that alone makes up the frame nothing
/// can.
pub open spec fn scene_of<T>(parts: FrameParts<T>, fullscreen: bool) -> Seq<T> {
    parts.upper_layers@ + parts.closing_windows@ + parts.windows@ + (if fullscreen {
        Seq::empty()
    } else {
        parts.lower_layers@
    })
}

/// What captures of the output show: everything but the cursor and the messages of the
/// compositor itself. Areas that are painted again are left out where one window alone
/// makes up the frame, since they would keep it from being shown directly.
pub open spec fn content_of<T>(parts: FrameParts<T>, fullscreen: bool) -> Seq<T> {
    parts.blink@ + parts.lock_surface@ + (if fullscreen {
        Seq::empty()
    } else {
        parts.damage@
    }) + scene_of(parts, fullscreen)
}

pub open spec fn overlay_of<T>(parts: FrameParts<T>) -> Seq<T> {
    parts.error_texts@ + parts.error_backgrounds@ + parts.fps_overlay@ + parts.cursor@
}

/// A frame in two parts: what captures show, and what is in front of it.
pub struct ComposedFrame<T> {
    pub overlay: Vec<T>,
    pub content: Vec<T>,
    /// One window alone makes up the frame.
    pub fullscreen: bool,
    pub upper_layers_visible: bool,
    pub cursor_visible: bool,
}

pub fn compose_frame<T>(parts: FrameParts<T>, fullscreen: bool) -> (frame: ComposedFrame<T>)
    ensures
        frame.overlay@ == overlay_of(parts),
        frame.content@ == content_of(parts, fullscreen),
        frame.fullscreen == fullscreen,
        frame.upper_layers_visible == (parts.upper_layers@.len() > 0),
        frame.cursor_visible == (parts.cursor@.len() > 0),
{
    let ghost given = parts;
    let mut parts: FrameParts<T> = parts;
    let upper_layers_visible: bool = parts.upper_layers.len() > 0;
    let cursor_visible: bool = parts.cursor.len() > 0;
    let mut overlay: Vec<T> = Vec::new();
    overlay.append(&mut parts.error_texts);
    overlay.append(&mut parts.error_backgrounds);
    overlay.append(&mut parts.fps_overlay);
    overlay.append(&mut parts.cursor);
    let mut content: Vec<T> = Vec::new();
    content.append(&mut parts.blink);
    content.append(&mut parts.lock_surface);
    if !fullscreen {
        content.append(&mut parts.damage);
    }
    content.append(&mut parts.upper_layers);
    content.append(&mut parts.closing_windows);
    content.append(&mut parts.windows);
    if !fullscreen {
        content.append(&mut parts.lower_layers);
    }
    assert(overlay@ =~= overlay_of(given));
    assert(content@ =~= content_of(given, fullscreen));
    ComposedFrame { overlay, content, fullscreen, upper_layers_visible, cursor_visible }
}

pub open spec fn shown_elements<T>(frame: ComposedFrame<T>, mirrored: Option<T>) -> Seq<T> {
    frame.overlay@ + (match mirrored {
        Some(picture) => seq![picture],
        None => frame.content@,
    })
}

fn frame_elements<T>(frame: ComposedFrame<T>, mirrored: Option<T>) -> (elements: Vec<T>)
    ensures
        elements@ == shown_elements(frame, mirrored),
{
    let mut elements: Vec<T> = frame.overlay;
    let ghost overlay = elements@;
    match mirrored {
        Some(picture) => {
            elements.push(picture);
            assert(elements@ =~= overlay + seq![picture]);
        },
        None => {
            let mut content: Vec<T> = frame.content;
            elements.append(&mut content);
        },
    }
    elements
}

/// Who asks for frames that are shown at once.
#[derive(Clone, Copy, Debug, PartialEq, Eq, Structural)]
pub struct TearingWishes {
    /// They are asked for everywhere, for trials.
    pub forced: bool,
    /// What the configuration says of the window that makes up the frame.
    pub allow_tearing: Option<bool>,
    /// What the client of that window asks for.
    pub client_prefers_tearing: bool,
}

pub open spec fn conditions_of<T>(
    frame: ComposedFrame<T>,
    wishes: TearingWishes,
) -> FrameConditions {
    FrameConditions {
        fullscreen: frame.fullscreen,
        upper_layers_visible: frame.upper_layers_visible,
        cursor_visible: frame.cursor_visible,
        tearing_forced: wishes.forced,
        allow_tearing: wishes.allow_tearing,
        client_prefers_tearing: wishes.client_prefers_tearing,
    }
}

/// What the display is given: the elements from front to back, and how they are shown.
pub struct RenderedFrame<T> {
    pub elements: Vec<T>,
    pub plan: FramePlan,
}

/// Decides what the display is given. Where the content was already drawn for captures, its
/// picture is shown.
pub fn render_surface<T>(
    surface: &mut SurfaceData,
    frame: ComposedFrame<T>,
    wishes: TearingWishes,
    mirrored: Option<T>,
) -> (rendered: RenderedFrame<T>)
    ensures
        rendered.elements@ == shown_elements(frame, mirrored),
        rendered.plan == scanout::frame_plan_of(
            old(surface).supports_async_flip,
            conditions_of(frame, wishes),
        ),
        *final(surface) == (SurfaceData {
            tearing_active: rendered.plan.should_tear,
            ..*old(surface)
        }),
{
    let plan: FramePlan = scanout::plan_frame(
        surface,
        FrameConditions {
            fullscreen: frame.fullscreen,
            upper_layers_visible: frame.upper_layers_visible,
            cursor_visible: frame.cursor_visible,
            tearing_forced: wishes.forced,
            allow_tearing: wishes.allow_tearing,
            client_prefers_tearing: wishes.client_prefers_tearing,
        },
    );
    RenderedFrame { elements: frame_elements(frame, mirrored), plan }
}

/// A frame that tears shows a window that alone makes up the frame, and neither a cursor
/// nor a layer surface.
pub proof fn law_tearing_frames_are_bare<T>(
    parts: FrameParts<T>,
    frame: ComposedFrame<T>,
    wishes: TearingWishes,
    supports_async_flip: bool,
)
    requires
        frame.upper_layers_visible == (parts.upper_layers@.len() > 0),
        frame.cursor_visible == (parts.cursor@.len() > 0),
        scanout::frame_plan_of(supports_async_flip, conditions_of(frame, wishes)).should_tear,
    ensures
        frame.fullscreen,
        parts.cursor@.len() == 0,
        parts.upper_layers@.len() == 0,
        supports_async_flip,
{
}

/// Where no layer surface, lock screen or mark is in front of a window that alone makes up
/// the frame, the content is that window.
pub proof fn law_fullscreen_frames_are_bare<T>(parts: FrameParts<T>)
    requires
        parts.closing_windows@.len() == 0,
        parts.blink@.len() == 0,
        parts.lock_surface@.len() == 0,
        parts.upper_layers@.len() == 0,
    ensures
        content_of(parts, true) == parts.windows@,
{
    assert(content_of(parts, true) =~= parts.windows@);
}

/// Everything that is shown of the desktop can be captured, in the same order.
pub proof fn law_captures_show_the_scene<T>(parts: FrameParts<T>, fullscreen: bool)
    ensures
        ({
            let content = content_of(parts, fullscreen);
            let scene = scene_of(parts, fullscreen);
            content.subrange(content.len() - scene.len(), content.len() as int) == scene
        }),
{
    let content = content_of(parts, fullscreen);
    let scene = scene_of(parts, fullscreen);
    assert(content.subrange(content.len() - scene.len(), content.len() as int) =~= scene);
}

/// How the elements of a frame were shown, by the numbers the renderer knows them under.
pub struct FrameStates {
    pub shown: HashMap<u64, PresentationState>,
    /// How they were drawn for captures, if the display was given the picture of that.
    pub mirrored: Option<HashMap<u64, PresentationState>>,
}

impl FrameStates {
    /// What the display made of an element counts; of an element that it was not given,
    /// what was drawn for captures does.
    pub open spec fn state_of(self, id: u64) -> Option<PresentationState> {
        if self.shown@.contains_key(id) {
            Some(self.shown@[id])
        } else if self.mirrored is Some && self.mirrored->0@.contains_key(id) {
            Some(self.mirrored->0@[id])
        } else {
            None
        }
    }

    /// The element is part of what is shown.
    pub open spec fn presents(self, id: u64) -> bool {
        self.state_of(id) is Some && self.state_of(id)->0 != PresentationState::Skipped
    }

    pub open spec fn presents_any(self, ids: Seq<u64>) -> bool {
        exists|i: int| 0 <= i < ids.len() && self.presents(#[trigger] ids[i])
    }

    pub fn element_state(&self, id: u64) -> (state: Option<PresentationState>)
        ensures
            state == self.state_of(id),
    {
        broadcast use vstd::std_specs::hash::group_hash_axioms;

        match self.shown.get(&id) {
            Some(state) => Some(*state),
            None => match &self.mirrored {
                Some(mirrored) => match mirrored.get(&id) {
                    Some(state) => Some(*state),
                    None => None,
                },
                None => None,
            },
        }
    }

    pub fn element_was_presented(&self, id: u64) -> (presented: bool)
        ensures
            presented == self.presents(id),
    {
        match self.element_state(id) {
            Some(state) => state != PresentationState::Skipped,
            None => false,
        }
    }

    fn any_was_presented(&self, ids: &Vec<u64>) -> (presented: bool)
        ensures
            presented == self.presents_any(ids@),
    {
        let mut index: usize = 0;
        while index < ids.len()
            invariant
                index <= ids@.len(),
                forall|i: int| 0 <= i < index ==> !self.presents(#[trigger] ids@[i]),
            decreases ids@.len() - index,
        {
            if self.element_was_presented(ids[index]) {
                assert(self.presents(ids@[index as int]));
                return true;
            }
            index += 1;
        }
        false
    }
}

/// A window whose surfaces are told about the output that shows them.
pub struct PresentedWindow {
    /// `None` for a window without a decoration.
    pub id: Option<String>,
    /// The numbers of the elements of its surfaces.
    pub surfaces: Vec<u64>,
    /// An effect is shown in place of the window.
    pub replaced: bool,
}

impl PresentedWindow {
    /// At least one of its surfaces is in the frame. Or it is shown although none is: the
    /// picture of it has moved, or an effect replaces it.
    pub open spec fn is_shown(
        self,
        states: FrameStates,
        transform: Set<Seq<char>>,
        changed: Set<Seq<char>>,
    ) -> bool {
        states.presents_any(self.surfaces@) || (self.id is Some && transform.contains(self.id->0@)
            && changed.contains(self.id->0@)) || (self.id is Some && self.replaced)
    }
}

/// The positions of the windows that go on receiving frames at the rate of the output. A
/// window that is shown as a picture at rest does not.
pub open spec fn shown_windows(
    windows: Seq<PresentedWindow>,
    states: FrameStates,
    transform: Set<Seq<char>>,
    changed: Set<Seq<char>>,
) -> Seq<usize>
    decreases windows.len(),
{
    if windows.len() == 0 {
        Seq::empty()
    } else {
        let rest = shown_windows(windows.drop_last(), states, transform, changed);
        if windows.last().is_shown(states, transform, changed) {
            rest.push((windows.len() - 1) as usize)
        } else {
            rest
        }
    }
}

/// The windows whose surfaces belong to this output, for a frame in which something has
/// changed.
pub fn restore_presented_window_surface_primary_outputs(
    windows: &[PresentedWindow],
    states: &FrameStates,
    transform: &NameSet,
    changed: &NameSet,
) -> (shown: Vec<usize>)
    ensures
        shown@ == shown_windows(windows@, *states, transform@, changed@),
{
    let mut shown: Vec<usize> = Vec::new();
    let mut index: usize = 0;
    assert(windows@.take(0) =~= Seq::<PresentedWindow>::empty());
    while index < windows.len()
        invariant
            index <= windows@.len(),
            shown@ == shown_windows(
                windows@.take(index as int),
                *states,
                transform@,
                changed@,
            ),
        decreases windows@.len() - index,
    {
        assert(windows@.take(index + 1).drop_last() =~= windows@.take(index as int));
        let window: &PresentedWindow = &windows[index];
        let by_decoration: bool = match &window.id {
            Some(id) => window.replaced || (transform.contains(id.as_str()) && changed.contains(
                id.as_str(),
            )),
            None => false,
        };
        if states.any_was_presented(&window.surfaces) || by_decoration {
            shown.push(index);
        }
        index += 1;
    }
    assert(windows@.take(windows@.len() as int) =~= windows@);
    shown
}

/// A surface that was drawn for captures and that the display was not given, since it was
/// given the picture of all of them, still counts as shown.
pub proof fn law_mirrored_surfaces_are_shown(states: FrameStates, id: u64)
    requires
        states.mirrored is Some,
        states.mirrored->0@.contains_key(id),
        states.mirrored->0@[id] != PresentationState::Skipped,
        !states.shown@.contains_key(id),
    ensures
        states.presents(id),
{
}

/// Those of the names that wait for the focus, in order.
pub open spec fn awaited(names: Seq<String>, pending: Set<Seq<char>>) -> Seq<String> {
    names.filter(|name: String| pending.contains(name@))
}

/// The windows that were drawn for the first time and wait for the focus.
pub fn initial_focus_windows(newly_ready: Vec<String>, pending: &NameSet) -> (windows: Vec<String>)
    ensures
        windows@ == awaited(newly_ready@, pending@),
{
    let ghost all = newly_ready@;
    let ghost waits = |name: String| pending@.contains(name@);
    let mut windows: Vec<String> = Vec::new();
    reveal(Seq::filter);
    assert(all.take(0) =~= Seq::<String>::empty());
    for name in it: newly_ready
        invariant
            it.seq() == all,
            waits == (|name: String| pending@.contains(name@)),
            windows@ == all.take(it.index() as int).filter(waits),
    {
        assert(all.take(it.index() + 1).drop_last() =~= all.take(it.index() as int));
        assert(all.take(it.index() + 1).last() == name);
        reveal(Seq::filter);
        if pending.contains(name.as_str()) {
            windows.push(name);
        }
    }
    assert(all.take(all.len() as int) =~= all);
    windows
}

/// What is painted again in any case: what was asked for, and all of the output if that was
/// asked for or if marked areas are seen.
pub proof fn law_painted_areas(
    pending: Vec<LogicalRect>,
    force_full: bool,
    capture_blink: bool,
    blink_visible_count: usize,
    output_rect: LogicalRect,
    damage: Vec<LogicalRect>,
    i: int,
)
    requires
        call_ensures(
            extra_damage,
            (pending, force_full, capture_blink, blink_visible_count, output_rect),
            damage,
        ),
    ensures
        0 <= i < pending@.len() ==> damage@.len() > i && damage@[i] == pending@[i],
        force_full || capture_blink && blink_visible_count > 0 ==> damage@.contains(output_rect)
            && damage@.len() > pending@.len(),
        !force_full && !(capture_blink && blink_visible_count > 0) ==> damage@ == pending@,
        pending@.len() <= i < damage@.len() ==> damage@[i] == output_rect,
{
    if damage@.len() > pending@.len() {
        assert(damage@[pending@.len() as int] == output_rect);
    }
}

/// The parts of a frame from front to back: messages, the rate, the cursor; marks, the lock
/// screen, painted areas, layer surfaces above the windows, closing windows, windows, layer
/// surfaces below them. Painted areas and the layer surfaces below are left out where one window
/// alone makes up the frame.
pub proof fn law_frames_are_stacked<T>(
    parts: FrameParts<T>,
    fullscreen: bool,
    frame: ComposedFrame<T>,
    i: int,
)
    requires
        call_ensures(compose_frame::<T>, (parts, fullscreen), frame),
        0 <= i,
    ensures
        ({
            let o = frame.overlay@;
            let a = parts.error_texts@.len();
            let b = a + parts.error_backgrounds@.len();
            let c = b + parts.fps_overlay@.len();
            &&& o.len() == c + parts.cursor@.len()
            &&& i < parts.error_texts@.len() ==> o[i] == parts.error_texts@[i]
            &&& i < parts.error_backgrounds@.len() ==> o[a + i] == parts.error_backgrounds@[i]
            &&& i < parts.fps_overlay@.len() ==> o[b + i] == parts.fps_overlay@[i]
            &&& i < parts.cursor@.len() ==> o[c + i] == parts.cursor@[i]
        }),
        ({
            let s = frame.content@;
            let damage: int = if fullscreen {
                0
            } else {
                parts.damage@.len() as int
            };
            let lower: int = if fullscreen {
                0
            } else {
                parts.lower_layers@.len() as int
            };
            let a = parts.blink@.len();
            let b = a + parts.lock_surface@.len();
            let c = b + damage;
            let d = c + parts.upper_layers@.len();
            let e = d + parts.closing_windows@.len();
            let f = e + parts.windows@.len();
            &&& s.len() == f + lower
            &&& i < parts.blink@.len() ==> s[i] == parts.blink@[i]
            &&& i < parts.lock_surface@.len() ==> s[a + i] == parts.lock_surface@[i]
            &&& i < damage ==> s[b + i] == parts.damage@[i]
            &&& i < parts.upper_layers@.len() ==> s[c + i] == parts.upper_layers@[i]
            &&& i < parts.closing_windows@.len() ==> s[d + i] == parts.closing_windows@[i]
            &&& i < parts.windows@.len() ==> s[e + i] == parts.windows@[i]
            &&& i < lower ==> s[f + i] == parts.lower_layers@[i]
        }),
        frame.fullscreen == fullscreen,
        frame.upper_layers_visible <==> parts.upper_layers@.len() > 0,
        frame.cursor_visible <==> parts.cursor@.len() > 0,
{
}

/// The display is given what is in front and then the content, or the picture of the content if
/// that was drawn. How it is shown follows from what the frame is and who asks for tearing.
pub proof fn law_what_the_display_is_given<T>(
    surface: &mut SurfaceData,
    frame: ComposedFrame<T>,
    wishes: TearingWishes,
    mirrored: Option<T>,
    rendered: RenderedFrame<T>,
    i: int,
)
    requires
        call_ensures(render_surface::<T>, (surface, frame, wishes, mirrored), rendered),
    ensures
        0 <= i < frame.overlay@.len() ==> rendered.elements@.len() > i && rendered.elements@[i]
            == frame.overlay@[i],
        mirrored is Some ==> rendered.elements@.len() == frame.overlay@.len() + 1
            && rendered.elements@.last() == mirrored->0,
        mirrored is None ==> rendered.elements@.len() == frame.overlay@.len() + frame.content@.len()
            && (0 <= i < frame.content@.len() ==> rendered.elements@[frame.overlay@.len() + i]
            == frame.content@[i]),
        old(surface).supports_async_flip && frame.fullscreen && !frame.upper_layers_visible
            && !frame.cursor_visible ==> {
            &&& wishes.forced ==> rendered.plan.should_tear
            &&& !wishes.forced && wishes.allow_tearing is Some ==> rendered.plan.should_tear
                == wishes.allow_tearing->0
            &&& !wishes.forced && wishes.allow_tearing is None ==> rendered.plan.should_tear
                == wishes.client_prefers_tearing
        },
        rendered.plan.should_tear ==> old(surface).supports_async_flip && frame.fullscreen
            && !frame.upper_layers_visible && !frame.cursor_visible,
        rendered.plan.clear_to_black <==> frame.fullscreen,
        rendered.plan.scanout_candidate <==> frame.fullscreen && !frame.upper_layers_visible,
        final(surface).tearing_active == rendered.plan.should_tear,
{
}

/// An element is presented exactly if it was not skipped, by the display or, where the display
/// was not given it, by what was drawn for captures.
pub proof fn law_presented_elements(
    states: &FrameStates,
    id: u64,
    state: Option<PresentationState>,
    presented: bool,
)
    requires
        call_ensures(FrameStates::element_state, (states, id), state),
        call_ensures(FrameStates::element_was_presented, (states, id), presented),
    ensures
        states.shown@.contains_key(id) ==> state == Some(states.shown@[id]),
        !states.shown@.contains_key(id) && states.mirrored is Some
            && states.mirrored->0@.contains_key(id) ==> state == Some(states.mirrored->0@[id]),
        !states.shown@.contains_key(id) && (states.mirrored is None
            || !states.mirrored->0@.contains_key(id)) ==> state is None,
        presented <==> state is Some && state->0 != PresentationState::Skipped,
{
}

/// Which windows go on receiving frames: those with a surface that is shown, wherever it is
/// among their surfaces, those whose picture has moved, and those that an effect replaces. The
/// positions are in order.
pub proof fn law_windows_that_receive_frames(
    windows: &[PresentedWindow],
    states: &FrameStates,
    transform: &NameSet,
    changed: &NameSet,
    shown: Vec<usize>,
    w: int,
    a: int,
    b: int,
)
    requires
        windows@.len() <= usize::MAX,
        call_ensures(
            restore_presented_window_surface_primary_outputs,
            (windows, states, transform, changed),
            shown,
        ),
        0 <= w < windows@.len(),
    ensures
        shown@.contains(w as usize) <==> {
            ||| exists|i: int|
                0 <= i < windows@[w].surfaces@.len() && {
                    let id = #[trigger] windows@[w].surfaces@[i];
                    if states.shown@.contains_key(id) {
                        states.shown@[id] != PresentationState::Skipped
                    } else {
                        states.mirrored is Some && states.mirrored->0@.contains_key(id)
                            && states.mirrored->0@[id] != PresentationState::Skipped
                    }
                }
            ||| windows@[w].id is Some && transform@.contains(windows@[w].id->0@)
                && changed@.contains(windows@[w].id->0@)
            ||| windows@[w].id is Some && windows@[w].replaced
        },
        0 <= a < b < shown@.len() ==> shown@[a] < shown@[b],
        0 <= a < shown@.len() ==> shown@[a] < windows@.len(),
{
    lemma_shown_windows(windows@, *states, transform@, changed@, w);
    let window = windows@[w];
    if states.presents_any(window.surfaces@) {
        let i = choose|i: int|
            0 <= i < window.surfaces@.len() && states.presents(#[trigger] window.surfaces@[i]);
        let id = windows@[w].surfaces@[i];
        assert(states.presents(id));
    }
    if exists|i: int|
        0 <= i < windows@[w].surfaces@.len() && {
            let id = #[trigger] windows@[w].surfaces@[i];
            if states.shown@.contains_key(id) {
                states.shown@[id] != PresentationState::Skipped
            } else {
                states.mirrored is Some && states.mirrored->0@.contains_key(id)
                    && states.mirrored->0@[id] != PresentationState::Skipped
            }
        } {
        let i = choose|i: int|
            0 <= i < windows@[w].surfaces@.len() && {
                let id = #[trigger] windows@[w].surfaces@[i];
                if states.shown@.contains_key(id) {
                    states.shown@[id] != PresentationState::Skipped
                } else {
                    states.mirrored is Some && states.mirrored->0@.contains_key(id)
                        && states.mirrored->0@[id] != PresentationState::Skipped
                }
            };
        assert(states.presents(window.surfaces@[i]));
    }
}

proof fn lemma_shown_windows(
    windows: Seq<PresentedWindow>,
    states: FrameStates,
    transform: Set<Seq<char>>,
    changed: Set<Seq<char>>,
    w: int,
)
    requires
        windows.len() <= usize::MAX,
    ensures
        0 <= w < windows.len() ==> (shown_windows(windows, states, transform, changed).contains(
            w as usize,
        ) <==> windows[w].is_shown(states, transform, changed)),
        forall|a: int|
            0 <= a < shown_windows(windows, states, transform, changed).len() ==> (
            #[trigger] shown_windows(windows, states, transform, changed)[a]) < windows.len(),
        forall|a: int, b: int|
            0 <= a < b < shown_windows(windows, states, transform, changed).len() ==> (
            #[trigger] shown_windows(windows, states, transform, changed)[a]) < (
            #[trigger] shown_windows(windows, states, transform, changed)[b]),
    decreases windows.len(),
{
    if windows.len() > 0 {
        let init = windows.drop_last();
        lemma_shown_windows(init, states, transform, changed, w);
        let rest = shown_windows(init, states, transform, changed);
        let all = shown_windows(windows, states, transform, changed);
        let last = (windows.len() - 1) as usize;
        if windows.last().is_shown(states, transform, changed) {
            assert(all == rest.push(last));
            assert(all[rest.len() as int] == last);
            if 0 <= w < init.len() {
                assert(init[w] == windows[w]);
                if rest.contains(w as usize) {
                    let k = choose|k: int| 0 <= k < rest.len() && rest[k] == w as usize;
                    assert(all[k] == w as usize);
                }
                if all.contains(w as usize) {
                    let k = choose|k: int| 0 <= k < all.len() && all[k] == w as usize;
                    assert(rest[k] == w as usize);
                }
            }
        } else if 0 <= w < init.len() {
            assert(init[w] == windows[w]);
        } else if 0 <= w < windows.len() && rest.contains(w as usize) {
            let k = choose|k: int| 0 <= k < rest.len() && rest[k] == w as usize;
            assert(rest[k] < init.len());
        }
    }
}

/// Of the windows that were drawn for the first time, exactly those that wait for the focus are
/// named.
pub proof fn law_windows_that_wait_for_the_focus(
    newly_ready: Vec<String>,
    pending: &NameSet,
    windows: Vec<String>,
    name: String,
)
    requires
        call_ensures(initial_focus_windows, (newly_ready, pending), windows),
    ensures
        windows@.contains(name) <==> newly_ready@.contains(name) && pending@.contains(name@),
{
    let wanted = |name: String| pending@.contains(name@);
    if windows@.contains(name) {
        newly_ready@.lemma_filter_contains_rev(wanted, name);
        let i = choose|i: int| 0 <= i < windows@.len() && windows@[i] == name;
        newly_ready@.lemma_filter_pred(wanted, i);
    }
    if newly_ready@.contains(name) && pending@.contains(name@) {
        let i = choose|i: int| 0 <= i < newly_ready@.len() && newly_ready@[i] == name;
        newly_ready@.lemma_filter_contains(wanted, i);
    }
}

} // verus!
