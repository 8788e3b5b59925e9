//! Pictures of windows: the scene of a window as others see it through their effects, and
//! the pictures that are kept for the time when a window closes.

use crate::clip::{self, WindowClipElement};
use crate::damage;
use crate::geometry::LogicalRect;
use crate::order;
use crate::redraw::{SurfaceData, TtySession};
use crate::scene::{self, TtyRenderElement};
use crate::slots;
use crate::table::{self, NameTable};
use vstd::prelude::*;

verus! {

/// The client's part of a window that is captured.
pub enum CapturedContent<E> {
    /// The surfaces, clipped to the place that the decoration gives them.
    Clipped(Vec<WindowClipElement<E>>),
    /// The surfaces as they are.
    Plain(Vec<E>),
}

/// A window with a decoration. Parts that could not be built are `None`.
pub struct CapturedDecoration<E> {
    pub backgrounds: Option<Vec<(usize, E)>>,
    pub icons: Option<Vec<(usize, E)>>,
    pub texts: Option<Vec<(usize, E)>>,
    pub content: CapturedContent<E>,
}

/// Clipped surfaces are in front of those that are not.
pub open spec fn captured_content<E>(content: CapturedContent<E>, identity: bool) -> Seq<
    TtyRenderElement<E>,
> {
    match content {
        CapturedContent::Clipped(list) => scene::all_as(
            clip::clipped_of(list@),
            scene::clipped_kind(identity),
        ) + scene::all_as(clip::raw_of(list@), scene::window_kind(identity)),
        CapturedContent::Plain(list) => scene::all_as(list@, scene::window_kind(identity)),
    }
}

/// The decoration in its order, and then the client's part.
pub open spec fn captured_window<E>(decoration: CapturedDecoration<E>, identity: bool) -> Seq<
    TtyRenderElement<E>,
> {
    order::elements_by_order(
        scene::all_ordered_as(
            slots::listed(decoration.backgrounds),
            scene::decoration_kind(identity),
        ) + scene::all_ordered_as(slots::listed(decoration.icons), scene::text_kind(identity))
            + scene::all_ordered_as(slots::listed(decoration.texts), scene::text_kind(identity)),
    ) + captured_content(decoration.content, identity)
}

fn content_elements<E>(content: CapturedContent<E>, identity: bool) -> (elements: Vec<
    TtyRenderElement<E>,
>)
    ensures
        elements@ == captured_content(content, identity),
{
    match content {
        CapturedContent::Clipped(list) => {
            let (clipped, raw): (Vec<E>, Vec<E>) = clip::split_clipped(list);
            let mut elements: Vec<TtyRenderElement<E>> = scene::transform_clipped_elements(
                clipped,
                identity,
            );
            let mut raw: Vec<TtyRenderElement<E>> = scene::transform_window_elements(
                raw,
                identity,
            );
            elements.append(&mut raw);
            elements
        },
        CapturedContent::Plain(list) => scene::transform_window_elements(list, identity),
    }
}

/// What others see of a window through their effects: nothing of a window that is not part
/// of the layout, and only the popups of one without a decoration.
pub fn window_scene_elements_for_capture<E>(
    in_layout: bool,
    decoration: Option<CapturedDecoration<E>>,
    popups: Vec<E>,
    identity: bool,
) -> (elements: Vec<TtyRenderElement<E>>)
    ensures
        elements@ == (if !in_layout {
            Seq::empty()
        } else {
            (match decoration {
                Some(decoration) => captured_window(decoration, identity),
                None => Seq::empty(),
            }) + scene::all_as(popups@, scene::window_kind(identity))
        }),
{
    let mut elements: Vec<TtyRenderElement<E>> = Vec::new();
    if !in_layout {
        return elements;
    }
    match decoration {
        Some(decoration) => {
            let ghost given = decoration;
            let mut ui: Vec<(usize, TtyRenderElement<E>)> = Vec::new();
            match decoration.backgrounds {
                Some(backgrounds) => {
                    scene::append_ordered(
                        &mut ui,
                        backgrounds,
                        scene::decoration_kind(identity),
                    );
                },
                None => {},
            }
            match decoration.icons {
                Some(icons) => {
                    scene::append_ordered(&mut ui, icons, scene::text_kind(identity));
                },
                None => {},
            }
            match decoration.texts {
                Some(texts) => {
                    scene::append_ordered(&mut ui, texts, scene::text_kind(identity));
                },
                None => {},
            }
            assert(ui@ =~= scene::all_ordered_as(
                slots::listed(given.backgrounds),
                scene::decoration_kind(identity),
            ) + scene::all_ordered_as(slots::listed(given.icons), scene::text_kind(identity))
                + scene::all_ordered_as(slots::listed(given.texts), scene::text_kind(identity)));
            elements = order::elements_in_order(ui);
            let mut content: Vec<TtyRenderElement<E>> = content_elements(
                decoration.content,
                identity,
            );
            elements.append(&mut content);
        },
        None => {},
    }
    let mut popups: Vec<TtyRenderElement<E>> = scene::transform_window_elements(popups, identity);
    elements.append(&mut popups);
    elements
}

/// Takes a picture of the client's part of a window for the time when it closes. Without a
/// decoration, or without anything to show, the picture stays what it was. Otherwise the
/// old picture is given up, and a new one of the size of the client's part is kept if it
/// could be taken.
pub fn capture_live_snapshot_for_window(
    live: &mut NameTable<LogicalRect>,
    decoration: Option<(&str, LogicalRect)>,
    surface_count: usize,
    captured: bool,
)
    ensures
        final(live)@ == (match decoration {
            Some((id, client_rect)) => if surface_count == 0 {
                old(live)@
            } else if captured {
                old(live)@.insert(id@, client_rect)
            } else {
                old(live)@.remove(id@)
            },
            None => old(live)@,
        }),
{
    match decoration {
        Some((id, client_rect)) => {
            if surface_count > 0 {
                live.remove(id);
                if captured {
                    live.insert(id, client_rect);
                    assert(live@ =~= old(live)@.insert(id@, client_rect));
                }
            }
        },
        None => {},
    }
}

/// The output that the picture of a closing window is taken for: the one that the window
/// belongs to, else the first that shows it, else the first there is.
pub open spec fn close_output(
    preferred: Option<Seq<char>>,
    outputs: Seq<String>,
    window_outputs: Seq<String>,
) -> Option<Seq<char>> {
    if preferred is Some && damage::holds_name(outputs, preferred->0) {
        preferred
    } else if window_outputs.len() > 0 {
        Some(window_outputs[0]@)
    } else if outputs.len() > 0 {
        Some(outputs[0]@)
    } else {
        None
    }
}

pub fn close_capture_output(
    preferred: &Option<String>,
    outputs: &[String],
    window_outputs: &[String],
) -> (output: Option<String>)
    ensures
        (match output {
            Some(name) => Some(name@),
            None => None,
        }) == close_output(
            match *preferred {
                Some(name) => Some(name@),
                None => None,
            },
            outputs@,
            window_outputs@,
        ),
{
    match preferred {
        Some(name) => {
            if damage::contains_name(outputs, name.as_str()) {
                return Some(name.clone());
            }
        },
        None => {},
    }
    if window_outputs.len() > 0 {
        return Some(window_outputs[0].clone());
    }
    if outputs.len() > 0 {
        return Some(outputs[0].clone());
    }
    None
}

/// The device drives this output.
pub open spec fn drives(surfaces: Seq<SurfaceData>, output: Seq<char>) -> bool {
    exists|s: int| 0 <= s < surfaces.len() && (#[trigger] surfaces[s]).output@ == output
}

fn device_drives(surfaces: &Vec<SurfaceData>, output: &str) -> (r: bool)
    ensures
        r == drives(surfaces@, output@),
{
    let mut index: usize = 0;
    while index < surfaces.len()
        invariant
            index <= surfaces@.len(),
            forall|s: int| 0 <= s < index ==> (#[trigger] surfaces@[s]).output@ != output@,
        decreases surfaces@.len() - index,
    {
        if table::str_eq(surfaces[index].output.as_str(), output) {
            assert(surfaces@[index as int].output@ == output@);
            return true;
        }
        index += 1;
    }
    false
}

/// The device that takes pictures for an output: the first that drives it, else the first
/// there is.
pub open spec fn is_device_for(session: TtySession, output: Seq<char>, device: Option<usize>) -> bool {
    match device {
        Some(b) => {
            &&& b < session.backends@.len()
            &&& if drives(session.backends@[b as int].surfaces@, output) {
                forall|c: int|
                    0 <= c < b ==> !drives((#[trigger] session.backends@[c]).surfaces@, output)
            } else {
                b == 0 && forall|c: int|
                    0 <= c < session.backends@.len() ==> !drives(
                        (#[trigger] session.backends@[c]).surfaces@,
                        output,
                    )
            }
        },
        None => session.backends@.len() == 0,
    }
}

pub fn close_capture_device(session: &TtySession, output: &str) -> (device: Option<usize>)
    ensures
        is_device_for(*session, output@, device),
{
    let mut index: usize = 0;
    while index < session.backends.len()
        invariant
            index <= session.backends@.len(),
            forall|c: int|
                0 <= c < index ==> !drives((#[trigger] session.backends@[c]).surfaces@, output@),
        decreases session.backends@.len() - index,
    {
        if device_drives(&session.backends[index].surfaces, output) {
            return Some(index);
        }
        index += 1;
    }
    if session.backends.len() > 0 {
        Some(0)
    } else {
        None
    }
}

/// Where the picture of a closing window is taken.
pub struct CloseCapture {
    pub device: usize,
    pub output: String,
}

/// No picture is taken of a window that is not part of the layout or has no decoration, nor
/// without an output or a device.
pub fn capture_live_snapshot_for_close(
    session: &TtySession,
    in_layout: bool,
    has_decoration: bool,
    preferred: &Option<String>,
    outputs: &[String],
    window_outputs: &[String],
) -> (plan: Option<CloseCapture>)
    ensures
        ({
            let output = close_output(
                match *preferred {
                    Some(name) => Some(name@),
                    None => None,
                },
                outputs@,
                window_outputs@,
            );
            &&& plan is Some <==> in_layout && has_decoration && output is Some
                && session.backends@.len() > 0
            &&& plan is Some ==> Some(plan->0.output@) == output && is_device_for(
                *session,
                output->0,
                Some(plan->0.device),
            )
        }),
{
    if !in_layout || !has_decoration {
        return None;
    }
    match close_capture_output(preferred, outputs, window_outputs) {
        Some(output) => match close_capture_device(session, output.as_str()) {
            Some(device) => Some(CloseCapture { device, output }),
            None => None,
        },
        None => None,
    }
}

/// Takes the picture of a closing window where `plan` says, and tells whether a picture of it
/// is now kept. `taken` tells what came of taking it: whether there is one, or that it failed.
/// A window that shows nothing keeps the picture that it had, and without a plan nothing is
/// done.
pub fn finish_close_capture(
    live: &mut NameTable<LogicalRect>,
    plan: &Option<CloseCapture>,
    id: &str,
    client_rect: LogicalRect,
    surface_count: usize,
    taken: Result<bool, ()>,
) -> (kept: Result<bool, ()>)
    ensures
        final(live)@ == (if *plan is None || surface_count == 0 {
            old(live)@
        } else if taken == Ok::<bool, ()>(true) {
            old(live)@.insert(id@, client_rect)
        } else {
            old(live)@.remove(id@)
        }),
        kept == (if *plan is None {
            Ok::<bool, ()>(false)
        } else if surface_count > 0 && taken is Err {
            Err(())
        } else {
            Ok(final(live)@.contains_key(id@))
        }),
{
    if plan.is_none() {
        return Ok(false);
    }
    let captured: bool = match taken {
        Ok(captured) => captured,
        Err(_) => false,
    };
    capture_live_snapshot_for_window(live, Some((id, client_rect)), surface_count, captured);
    if surface_count > 0 && taken.is_err() {
        return Err(());
    }
    Ok(live.contains(id))
}

/// Others see nothing of a window outside the layout. Of one in it they see the decoration in
/// its order, the client's part behind that, and the popups last; of one without a decoration
/// only the popups.
pub proof fn law_what_others_see_of_a_window<E>(
    in_layout: bool,
    decoration: Option<CapturedDecoration<E>>,
    popups: Vec<E>,
    identity: bool,
    elements: Vec<TtyRenderElement<E>>,
    i: int,
)
    requires
        call_ensures(
            window_scene_elements_for_capture::<E>,
            (in_layout, decoration, popups, identity),
            elements,
        ),
    ensures
        !in_layout ==> elements@.len() == 0,
        in_layout ==> elements@.len() >= popups@.len(),
        in_layout && decoration is None ==> elements@.len() == popups@.len(),
        in_layout && 0 <= i < popups@.len() ==> {
            let shown = elements@[elements@.len() - popups@.len() + i];
            &&& shown.element == popups@[i]
            &&& shown.kind == if identity {
                scene::TtyElementKind::Window
            } else {
                scene::TtyElementKind::TransformedWindow
            }
        },
        in_layout && decoration is Some ==> {
            let surfaces: int = match decoration->0.content {
                CapturedContent::Clipped(list) => list@.len() as int,
                CapturedContent::Plain(list) => list@.len() as int,
            };
            let parts = slots::listed(decoration->0.backgrounds).len() + slots::listed(
                decoration->0.icons,
            ).len() + slots::listed(decoration->0.texts).len();
            &&& elements@.len() == parts + surfaces + popups@.len()
            &&& decoration->0.content matches CapturedContent::Plain(list) ==> (0 <= i < list@.len()
                ==> elements@[parts + i] == (TtyRenderElement {
                kind: if identity {
                    scene::TtyElementKind::Window
                } else {
                    scene::TtyElementKind::TransformedWindow
                },
                element: list@[i],
            }))
        },
{
    if in_layout && decoration is Some {
        let d = decoration->0;
        let items = scene::all_ordered_as(
            slots::listed(d.backgrounds),
            scene::decoration_kind(identity),
        ) + scene::all_ordered_as(slots::listed(d.icons), scene::text_kind(identity))
            + scene::all_ordered_as(slots::listed(d.texts), scene::text_kind(identity));
        order::law_ordered_elements_are_those_given(
            items,
            TtyRenderElement { kind: scene::TtyElementKind::Generic, element: arbitrary() },
        );
        if let CapturedContent::Clipped(list) = d.content {
            clip::lemma_clip_parts_len(list@);
        }
    }
}

/// The picture for the time when a window closes is replaced when a new one was taken, given up
/// when that failed, and left as it is for a window that has no decoration or shows nothing.
/// Pictures of other windows stay.
pub proof fn law_live_snapshots(
    live: &mut NameTable<LogicalRect>,
    id: &str,
    client_rect: LogicalRect,
    surface_count: usize,
    captured: bool,
    other: Seq<char>,
)
    requires
        call_ensures(
            capture_live_snapshot_for_window,
            (live, Some((id, client_rect)), surface_count, captured),
            (),
        ),
    ensures
        surface_count == 0 ==> final(live)@ == old(live)@,
        surface_count > 0 && captured ==> final(live)@.contains_key(id@) && final(live)@[id@]
            == client_rect,
        surface_count > 0 && !captured ==> !final(live)@.contains_key(id@),
        other != id@ ==> final(live)@.contains_key(other) == old(live)@.contains_key(other)
            && final(live)@[other] == old(live)@[other],
{
}

/// No picture is taken of a window without a decoration.
pub proof fn law_no_live_snapshot_without_decoration(
    live: &mut NameTable<LogicalRect>,
    surface_count: usize,
    captured: bool,
)
    requires
        call_ensures(capture_live_snapshot_for_window, (live, None, surface_count, captured), ()),
    ensures
        final(live)@ == old(live)@,
{
}

/// The picture of a closing window is taken for the output that the window belongs to if that
/// is still there, else for the first that shows it, else for the first there is.
pub proof fn law_close_capture_outputs(
    preferred: &Option<String>,
    outputs: &[String],
    window_outputs: &[String],
    output: Option<String>,
    i: int,
)
    requires
        call_ensures(close_capture_output, (preferred, outputs, window_outputs), output),
    ensures
        output is None <==> outputs@.len() == 0 && window_outputs@.len() == 0,
        preferred is Some && 0 <= i < outputs@.len() && outputs@[i]@ == preferred->0@
            ==> output is Some && output->0@ == preferred->0@,
        (preferred is None || forall|k: int|
            0 <= k < outputs@.len() ==> (#[trigger] outputs@[k])@ != preferred->0@) ==> {
            &&& window_outputs@.len() > 0 ==> output is Some && output->0@ == window_outputs@[0]@
            &&& window_outputs@.len() == 0 && outputs@.len() > 0 ==> output is Some && output->0@
                == outputs@[0]@
        },
{
}

/// The device that takes the picture drives the output if any device does, and is the first
/// that does; else it is the first device.
pub proof fn law_close_capture_devices(
    session: &TtySession,
    output: &str,
    device: Option<usize>,
    b: int,
    s: int,
)
    requires
        call_ensures(close_capture_device, (session, output), device),
    ensures
        device is None <==> session.backends@.len() == 0,
        device is Some ==> device->0 < session.backends@.len(),
        0 <= b < session.backends@.len() && 0 <= s < session.backends@[b].surfaces@.len()
            && session.backends@[b].surfaces@[s].output@ == output@ ==> device is Some && device->0
            <= b && exists|t: int|
            0 <= t < session.backends@[device->0 as int].surfaces@.len() && (
            #[trigger] session.backends@[device->0 as int].surfaces@[t]).output@ == output@,
        (forall|p: int, q: int|
            0 <= p < session.backends@.len() && 0 <= q < session.backends@[p].surfaces@.len() ==> (
            #[trigger] session.backends@[p].surfaces@[q]).output@ != output@)
            && session.backends@.len() > 0 ==> device == Some(0usize),
{
    if 0 <= b < session.backends@.len() && 0 <= s < session.backends@[b].surfaces@.len()
        && session.backends@[b].surfaces@[s].output@ == output@ {
        assert(drives(session.backends@[b].surfaces@, output@));
    }
}

/// A picture is taken for closing exactly of a window in the layout with a decoration, where
/// there is an output and a device.
pub proof fn law_close_captures_are_planned(
    session: &TtySession,
    in_layout: bool,
    has_decoration: bool,
    preferred: &Option<String>,
    outputs: &[String],
    window_outputs: &[String],
    plan: Option<CloseCapture>,
)
    requires
        call_ensures(
            capture_live_snapshot_for_close,
            (session, in_layout, has_decoration, preferred, outputs, window_outputs),
            plan,
        ),
    ensures
        plan is Some <==> in_layout && has_decoration && session.backends@.len() > 0 && (
        outputs@.len() > 0 || window_outputs@.len() > 0),
        plan is Some ==> plan->0.device < session.backends@.len(),
        plan is Some && preferred is None && window_outputs@.len() > 0 ==> plan->0.output@
            == window_outputs@[0]@,
        plan is Some && preferred is None && window_outputs@.len() == 0 ==> plan->0.output@
            == outputs@[0]@,
        plan is Some && preferred is Some && (exists|i: int|
            0 <= i < outputs@.len() && (#[trigger] outputs@[i])@ == preferred->0@)
            ==> plan->0.output@ == preferred->0@,
{
}

/// What is kept of a closing window: the new picture if one was taken, none if that failed, and
/// the one before if the window shows nothing.
pub proof fn law_close_captures_are_finished(
    live: &mut NameTable<LogicalRect>,
    plan: &Option<CloseCapture>,
    id: &str,
    client_rect: LogicalRect,
    surface_count: usize,
    taken: Result<bool, ()>,
    kept: Result<bool, ()>,
    other: Seq<char>,
)
    requires
        call_ensures(
            finish_close_capture,
            (live, plan, id, client_rect, surface_count, taken),
            kept,
        ),
    ensures
        plan is None ==> kept == Ok::<bool, ()>(false) && final(live)@ == old(live)@,
        plan is Some && surface_count == 0 ==> final(live)@ == old(live)@ && kept == Ok::<bool, ()>(
            old(live)@.contains_key(id@),
        ),
        plan is Some && surface_count > 0 && taken == Ok::<bool, ()>(true) ==> kept
            == Ok::<bool, ()>(true) && final(live)@.contains_key(id@) && final(live)@[id@]
            == client_rect,
        plan is Some && surface_count > 0 && taken == Ok::<bool, ()>(false) ==> kept
            == Ok::<bool, ()>(false) && !final(live)@.contains_key(id@),
        plan is Some && surface_count > 0 && taken is Err ==> kept is Err && !final(
            live)@.contains_key(id@),
        other != id@ ==> final(live)@.contains_key(other) == old(live)@.contains_key(other)
            && final(live)@[other] == old(live)@[other],
{
}

} // verus!
