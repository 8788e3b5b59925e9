//! Damage that clients report, and how long it is kept.

use crate::geometry::LogicalRect;
use crate::redraw::{SurfaceData, TtyRedrawState, TtySession};
use crate::table;
use crate::text;
use vstd::prelude::*;

verus! {

/// A damaged rectangle and the window or layer surface it comes from.
#[derive(Debug)]
pub struct OwnedDamageRect {
    pub owner: String,
    pub rect: LogicalRect,
}

impl Clone for OwnedDamageRect {
    fn clone(&self) -> (copy: Self)
        ensures
            copy == *self,
    {
        OwnedDamageRect { owner: self.owner.clone(), rect: self.rect }
    }
}

/// Damage that no output has consumed yet.
pub struct DamageState {
    pub window_source: Vec<OwnedDamageRect>,
    pub lower_layer_source: Vec<OwnedDamageRect>,
    pub upper_layer_source: Vec<OwnedDamageRect>,
    pub pending_decoration: Vec<LogicalRect>,
}

/// One of the names is `name`.
pub open spec fn holds_name(names: Seq<String>, name: Seq<char>) -> bool {
    exists|i: int| 0 <= i < names.len() && (#[trigger] names[i])@ == name
}

pub fn contains_name(names: &[String], name: &str) -> (r: bool)
    ensures
        r == holds_name(names@, name@),
{
    let mut index: usize = 0;
    while index < names.len()
        invariant
            index <= names@.len(),
            forall|i: int| 0 <= i < index ==> (#[trigger] names@[i])@ != name@,
        decreases names@.len() - index,
    {
        if table::str_eq(names[index].as_str(), name) {
            assert(names@[index as int]@ == name@);
            return true;
        }
        index += 1;
    }
    false
}

/// The owner is one of the windows; windows without a decoration have no identity.
pub open spec fn is_window_owner(window_ids: Seq<Option<String>>, owner: Seq<char>) -> bool {
    exists|i: int|
        0 <= i < window_ids.len() && (#[trigger] window_ids[i]) is Some && window_ids[i]->0@ == owner
}

/// The owner is one of the layer surfaces, which are known by their protocol number.
pub open spec fn is_layer_owner(layer_ids: Seq<u32>, owner: Seq<char>) -> bool {
    exists|i: int|
        0 <= i < layer_ids.len() && text::decimal((#[trigger] layer_ids[i]) as int) == owner
}

fn window_owns(window_ids: &[Option<String>], owner: &str) -> (r: bool)
    ensures
        r == is_window_owner(window_ids@, owner@),
{
    let mut index: usize = 0;
    while index < window_ids.len()
        invariant
            index <= window_ids@.len(),
            forall|i: int|
                0 <= i < index ==> !((#[trigger] window_ids@[i]) is Some && window_ids@[i]->0@
                    == owner@),
        decreases window_ids@.len() - index,
    {
        match &window_ids[index] {
            Some(id) => {
                if table::str_eq(id.as_str(), owner) {
                    assert(window_ids@[index as int] is Some && window_ids@[index as int]->0@
                        == owner@);
                    return true;
                }
            },
            None => {},
        }
        index += 1;
    }
    false
}

fn layer_owns(layer_ids: &[u32], owner: &str) -> (r: bool)
    ensures
        r == is_layer_owner(layer_ids@, owner@),
{
    let mut index: usize = 0;
    while index < layer_ids.len()
        invariant
            index <= layer_ids@.len(),
            forall|i: int|
                0 <= i < index ==> text::decimal((#[trigger] layer_ids@[i]) as int) != owner@,
        decreases layer_ids@.len() - index,
    {
        let id: String = text::decimal_text(layer_ids[index]);
        if table::str_eq(id.as_str(), owner) {
            assert(text::decimal(layer_ids@[index as int] as int) == owner@);
            return true;
        }
        index += 1;
    }
    false
}

/// The damage that comes from the given windows, in the order it was reported.
pub open spec fn window_damage(
    window_ids: Seq<Option<String>>,
    source: Seq<OwnedDamageRect>,
) -> Seq<OwnedDamageRect> {
    source.filter(|entry: OwnedDamageRect| is_window_owner(window_ids, entry.owner@))
}

/// The damage that comes from the given layer surfaces, in the order it was reported.
pub open spec fn layer_damage(
    layer_ids: Seq<u32>,
    source: Seq<OwnedDamageRect>,
) -> Seq<OwnedDamageRect> {
    source.filter(|entry: OwnedDamageRect| is_layer_owner(layer_ids, entry.owner@))
}

pub fn collect_window_source_damage(
    window_ids: &[Option<String>],
    source_damage: &[OwnedDamageRect],
) -> (entries: Vec<OwnedDamageRect>)
    ensures
        entries@ == window_damage(window_ids@, source_damage@),
{
    let ghost wanted = |entry: OwnedDamageRect| is_window_owner(window_ids@, entry.owner@);
    let mut entries: Vec<OwnedDamageRect> = Vec::new();
    let mut index: usize = 0;
    reveal(Seq::filter);
    while index < source_damage.len()
        invariant
            index <= source_damage@.len(),
            wanted == (|entry: OwnedDamageRect| is_window_owner(window_ids@, entry.owner@)),
            entries@ == source_damage@.take(index as int).filter(wanted),
        decreases source_damage@.len() - index,
    {
        proof {
            reveal(Seq::filter);
            assert(source_damage@.take(index + 1).drop_last() =~= source_damage@.take(
                index as int,
            ));
        }
        if window_owns(window_ids, source_damage[index].owner.as_str()) {
            entries.push(source_damage[index].clone());
        }
        index += 1;
    }
    assert(source_damage@.take(source_damage@.len() as int) =~= source_damage@);
    entries
}

pub fn collect_layer_source_damage(layer_ids: &[u32], source_damage: &[OwnedDamageRect]) -> (entries:
    Vec<OwnedDamageRect>)
    ensures
        entries@ == layer_damage(layer_ids@, source_damage@),
{
    let ghost wanted = |entry: OwnedDamageRect| is_layer_owner(layer_ids@, entry.owner@);
    let mut entries: Vec<OwnedDamageRect> = Vec::new();
    let mut index: usize = 0;
    reveal(Seq::filter);
    while index < source_damage.len()
        invariant
            index <= source_damage@.len(),
            wanted == (|entry: OwnedDamageRect| is_layer_owner(layer_ids@, entry.owner@)),
            entries@ == source_damage@.take(index as int).filter(wanted),
        decreases source_damage@.len() - index,
    {
        proof {
            reveal(Seq::filter);
            assert(source_damage@.take(index + 1).drop_last() =~= source_damage@.take(
                index as int,
            ));
        }
        if layer_owns(layer_ids, source_damage[index].owner.as_str()) {
            entries.push(source_damage[index].clone());
        }
        index += 1;
    }
    assert(source_damage@.take(source_damage@.len() as int) =~= source_damage@);
    entries
}

/// The outputs that a window is on.
pub struct WindowVisibility {
    /// `None` for a window without a decoration.
    pub id: Option<String>,
    pub outputs: Vec<String>,
}

/// A mapped layer surface and the output that it is on.
pub struct LayerVisibility {
    pub layer: u32,
    pub output: String,
}

/// The output of this surface still has to be rendered.
pub open spec fn is_pending_output(session: TtySession, name: Seq<char>) -> bool {
    exists|b: int, s: int| #[trigger] is_pending_surface(session, b, s, name)
}

pub open spec fn is_pending_surface(
    session: TtySession,
    b: int,
    s: int,
    name: Seq<char>,
) -> bool {
    &&& 0 <= b < session.backends@.len()
    &&& 0 <= s < session.backends@[b].surfaces@.len()
    &&& session.backends@[b].surfaces@[s].wants_redraw()
    &&& session.backends@[b].surfaces@[s].output@ == name
}

/// The window is on one of the outputs; the last entry for it counts.
pub open spec fn window_on_any(
    windows: Seq<WindowVisibility>,
    outputs: Seq<String>,
    owner: Seq<char>,
) -> bool
    decreases windows.len(),
{
    if windows.len() == 0 {
        false
    } else if windows.last().id is Some && windows.last().id->0@ == owner {
        exists|i: int|
            0 <= i < windows.last().outputs@.len() && holds_name(
                outputs,
                (#[trigger] windows.last().outputs@[i])@,
            )
    } else {
        window_on_any(windows.drop_last(), outputs, owner)
    }
}

/// The layer surface is on one of the outputs.
pub open spec fn layer_on_any(
    layers: Seq<LayerVisibility>,
    outputs: Seq<String>,
    owner: Seq<char>,
) -> bool {
    exists|i: int|
        0 <= i < layers.len() && text::decimal((#[trigger] layers[i]).layer as int) == owner
            && holds_name(outputs, layers[i].output@)
}

fn surface_wants_redraw(surface: &SurfaceData) -> (r: bool)
    ensures
        r == surface.wants_redraw(),
{
    match surface.redraw_state {
        TtyRedrawState::Idle => false,
        TtyRedrawState::Queued => true,
        TtyRedrawState::WaitingForVBlank { redraw_needed } => redraw_needed,
        TtyRedrawState::WaitingForEstimatedVBlank { queued, .. } => queued,
    }
}

/// The outputs that still have to be rendered.
pub fn pending_output_names(session: &TtySession) -> (names: Vec<String>)
    ensures
        forall|name: Seq<char>| #[trigger]
            holds_name(names@, name) <==> is_pending_output(*session, name),
        names@.len() == 0 <==> forall|name: Seq<char>| !#[trigger]
            is_pending_output(*session, name),
{
    let mut names: Vec<String> = Vec::new();
    let mut b: usize = 0;
    while b < session.backends.len()
        invariant
            b <= session.backends@.len(),
            forall|i: int|
                0 <= i < names@.len() ==> is_pending_output(*session, (#[trigger] names@[i])@),
            forall|p: int, q: int, name: Seq<char>|
                p < b && #[trigger] is_pending_surface(*session, p, q, name) ==> holds_name(
                    names@,
                    name,
                ),
        decreases session.backends@.len() - b,
    {
        let mut s: usize = 0;
        while s < session.backends[b].surfaces.len()
            invariant
                b < session.backends@.len(),
                s <= session.backends@[b as int].surfaces@.len(),
                forall|i: int|
                    0 <= i < names@.len() ==> is_pending_output(*session, (#[trigger] names@[i])@),
                forall|p: int, q: int, name: Seq<char>|
                    (p < b || (p == b && q < s)) && #[trigger] is_pending_surface(
                        *session,
                        p,
                        q,
                        name,
                    ) ==> holds_name(names@, name),
            decreases session.backends@[b as int].surfaces@.len() - s,
        {
            let surface: &SurfaceData = &session.backends[b].surfaces[s];
            if surface_wants_redraw(surface) {
                let ghost before = names@;
                names.push(surface.output.clone());
                proof {
                    let added = surface.output@;
                    assert(is_pending_surface(*session, b as int, s as int, added));
                    assert(names@[before.len() as int]@ == added);
                    assert forall|name: Seq<char>| holds_name(before, name) implies holds_name(
                        names@,
                        name,
                    ) by {
                        let i = choose|i: int| 0 <= i < before.len() && (#[trigger] before[i])@ == name;
                        assert(names@[i]@ == name);
                    }
                    assert(holds_name(names@, added));
                }
            }
            s += 1;
        }
        b += 1;
    }
    proof {
        assert forall|name: Seq<char>| is_pending_output(*session, name) implies #[trigger]
            holds_name(names@, name) by {
            let (p, q) = choose|p: int, q: int| #[trigger] is_pending_surface(*session, p, q, name);
            assert(is_pending_surface(*session, p, q, name));
        }
        if names@.len() > 0 {
            assert(is_pending_output(*session, names@[0]@));
        }
        if exists|name: Seq<char>| #[trigger] is_pending_output(*session, name) {
            let name = choose|name: Seq<char>| #[trigger] is_pending_output(*session, name);
            assert(holds_name(names@, name));
        }
    }
    names
}

fn any_name_in(names: &[String], outputs: &[String]) -> (r: bool)
    ensures
        r == exists|i: int|
            0 <= i < names@.len() && holds_name(outputs@, (#[trigger] names@[i])@),
{
    let mut index: usize = 0;
    while index < names.len()
        invariant
            index <= names@.len(),
            forall|i: int| 0 <= i < index ==> !holds_name(outputs@, (#[trigger] names@[i])@),
        decreases names@.len() - index,
    {
        if contains_name(outputs, names[index].as_str()) {
            assert(holds_name(outputs@, names@[index as int]@));
            return true;
        }
        index += 1;
    }
    false
}

fn window_needed(windows: &[WindowVisibility], outputs: &[String], owner: &str) -> (r: bool)
    ensures
        r == window_on_any(windows@, outputs@, owner@),
{
    let mut left: usize = windows.len();
    assert(windows@.take(left as int) =~= windows@);
    while left > 0
        invariant
            left <= windows@.len(),
            window_on_any(windows@, outputs@, owner@) == window_on_any(
                windows@.take(left as int),
                outputs@,
                owner@,
            ),
        decreases left,
    {
        proof {
            assert(windows@.take(left as int).drop_last() =~= windows@.take(left - 1));
            assert(windows@.take(left as int).last() == windows@[left - 1]);
        }
        match &windows[left - 1].id {
            Some(id) => {
                if table::str_eq(id.as_str(), owner) {
                    return any_name_in(windows[left - 1].outputs.as_slice(), outputs);
                }
            },
            None => {},
        }
        left -= 1;
    }
    false
}

fn layer_needed(layers: &[LayerVisibility], outputs: &[String], owner: &str) -> (r: bool)
    ensures
        r == layer_on_any(layers@, outputs@, owner@),
{
    let mut index: usize = 0;
    while index < layers.len()
        invariant
            index <= layers@.len(),
            forall|i: int|
                0 <= i < index ==> !(text::decimal((#[trigger] layers@[i]).layer as int) == owner@
                    && holds_name(outputs@, layers@[i].output@)),
        decreases layers@.len() - index,
    {
        let id: String = text::decimal_text(layers[index].layer);
        if table::str_eq(id.as_str(), owner) && contains_name(
            outputs,
            layers[index].output.as_str(),
        ) {
            assert(text::decimal(layers@[index as int].layer as int) == owner@);
            return true;
        }
        index += 1;
    }
    false
}

fn retain_window_damage(
    source: &Vec<OwnedDamageRect>,
    windows: &[WindowVisibility],
    outputs: &[String],
) -> (kept: Vec<OwnedDamageRect>)
    ensures
        kept@ == source@.filter(
            |entry: OwnedDamageRect| window_on_any(windows@, outputs@, entry.owner@),
        ),
{
    let ghost wanted = |entry: OwnedDamageRect| window_on_any(windows@, outputs@, entry.owner@);
    let mut kept: Vec<OwnedDamageRect> = Vec::new();
    let mut index: usize = 0;
    reveal(Seq::filter);
    while index < source.len()
        invariant
            index <= source@.len(),
            wanted == (|entry: OwnedDamageRect|
                window_on_any(windows@, outputs@, entry.owner@)),
            kept@ == source@.take(index as int).filter(wanted),
        decreases source@.len() - index,
    {
        proof {
            reveal(Seq::filter);
            assert(source@.take(index + 1).drop_last() =~= source@.take(index as int));
        }
        if window_needed(windows, outputs, source[index].owner.as_str()) {
            kept.push(source[index].clone());
        }
        index += 1;
    }
    assert(source@.take(source@.len() as int) =~= source@);
    kept
}

fn retain_layer_damage(
    source: &Vec<OwnedDamageRect>,
    layers: &[LayerVisibility],
    outputs: &[String],
) -> (kept: Vec<OwnedDamageRect>)
    ensures
        kept@ == source@.filter(
            |entry: OwnedDamageRect| layer_on_any(layers@, outputs@, entry.owner@),
        ),
{
    let ghost wanted = |entry: OwnedDamageRect| layer_on_any(layers@, outputs@, entry.owner@);
    let mut kept: Vec<OwnedDamageRect> = Vec::new();
    let mut index: usize = 0;
    reveal(Seq::filter);
    while index < source.len()
        invariant
            index <= source@.len(),
            wanted == (|entry: OwnedDamageRect| layer_on_any(layers@, outputs@, entry.owner@)),
            kept@ == source@.take(index as int).filter(wanted),
        decreases source@.len() - index,
    {
        proof {
            reveal(Seq::filter);
            assert(source@.take(index + 1).drop_last() =~= source@.take(index as int));
        }
        if layer_needed(layers, outputs, source[index].owner.as_str()) {
            kept.push(source[index].clone());
        }
        index += 1;
    }
    assert(source@.take(source@.len() as int) =~= source@);
    kept
}

/// An output that still has to be rendered shows the window; the last entry for it counts.
pub open spec fn window_still_needed(
    session: TtySession,
    windows: Seq<WindowVisibility>,
    owner: Seq<char>,
) -> bool
    decreases windows.len(),
{
    if windows.len() == 0 {
        false
    } else if windows.last().id is Some && windows.last().id->0@ == owner {
        exists|i: int|
            0 <= i < windows.last().outputs@.len() && is_pending_output(
                session,
                (#[trigger] windows.last().outputs@[i])@,
            )
    } else {
        window_still_needed(session, windows.drop_last(), owner)
    }
}

/// An output that still has to be rendered shows the layer surface.
pub open spec fn layer_still_needed(
    session: TtySession,
    layers: Seq<LayerVisibility>,
    owner: Seq<char>,
) -> bool {
    exists|i: int|
        0 <= i < layers.len() && text::decimal((#[trigger] layers[i]).layer as int) == owner
            && is_pending_output(session, layers[i].output@)
}

proof fn lemma_window_needed(
    session: TtySession,
    windows: Seq<WindowVisibility>,
    outputs: Seq<String>,
    owner: Seq<char>,
)
    requires
        forall|name: Seq<char>| #[trigger]
            holds_name(outputs, name) <==> is_pending_output(session, name),
    ensures
        window_on_any(windows, outputs, owner) == window_still_needed(session, windows, owner),
    decreases windows.len(),
{
    if windows.len() > 0 {
        lemma_window_needed(session, windows.drop_last(), outputs, owner);
    }
}

/// What is left of the damage once the processed outputs have consumed theirs. While some
/// output still has to be rendered, the damage of what that output shows is kept; damage
/// of decorations never is. When no output was processed nothing changes.
pub open spec fn damage_after(
    before: DamageState,
    after: DamageState,
    session: TtySession,
    processed: bool,
    windows: Seq<WindowVisibility>,
    layers: Seq<LayerVisibility>,
) -> bool {
    if !processed {
        after == before
    } else if exists|name: Seq<char>| #[trigger] is_pending_output(session, name) {
        &&& after.window_source@ == before.window_source@.filter(
            |entry: OwnedDamageRect| window_still_needed(session, windows, entry.owner@),
        )
        &&& after.lower_layer_source@ == before.lower_layer_source@.filter(
            |entry: OwnedDamageRect| layer_still_needed(session, layers, entry.owner@),
        )
        &&& after.upper_layer_source@ == before.upper_layer_source@.filter(
            |entry: OwnedDamageRect| layer_still_needed(session, layers, entry.owner@),
        )
        &&& after.pending_decoration@.len() == 0
    } else {
        &&& after.window_source@.len() == 0
        &&& after.lower_layer_source@.len() == 0
        &&& after.upper_layer_source@.len() == 0
        &&& after.pending_decoration@.len() == 0
    }
}

/// Drops the damage that the processed outputs were the last to need. The result tells
/// whether the damage markers of the processed outputs are done with as well.
pub fn finish_processed_outputs(
    session: &TtySession,
    damage: &mut DamageState,
    processed_outputs: &[String],
    windows: &[WindowVisibility],
    layers: &[LayerVisibility],
) -> (finished: bool)
    ensures
        finished == (processed_outputs@.len() > 0),
        damage_after(*old(damage), *final(damage), *session, finished, windows@, layers@),
{
    if processed_outputs.len() == 0 {
        return false;
    }
    let pending: Vec<String> = pending_output_names(session);
    if pending.len() > 0 {
        let window_source: Vec<OwnedDamageRect> = retain_window_damage(
            &damage.window_source,
            windows,
            pending.as_slice(),
        );
        let lower: Vec<OwnedDamageRect> = retain_layer_damage(
            &damage.lower_layer_source,
            layers,
            pending.as_slice(),
        );
        let upper: Vec<OwnedDamageRect> = retain_layer_damage(
            &damage.upper_layer_source,
            layers,
            pending.as_slice(),
        );
        proof {
            let by_name = |entry: OwnedDamageRect|
                window_on_any(windows@, pending@, entry.owner@);
            let by_output = |entry: OwnedDamageRect|
                window_still_needed(*session, windows@, entry.owner@);
            assert forall|entry: OwnedDamageRect| #[trigger] by_name(entry) == by_output(entry) by {
                lemma_window_needed(*session, windows@, pending@, entry.owner@);
            }
            assert(by_name =~= by_output);
            let layer_by_name = |entry: OwnedDamageRect|
                layer_on_any(layers@, pending@, entry.owner@);
            let layer_by_output = |entry: OwnedDamageRect|
                layer_still_needed(*session, layers@, entry.owner@);
            assert(layer_by_name =~= layer_by_output);
        }
        damage.window_source = window_source;
        damage.lower_layer_source = lower;
        damage.upper_layer_source = upper;
        damage.pending_decoration.clear();
    } else {
        damage.pending_decoration.clear();
        damage.window_source.clear();
        damage.lower_layer_source.clear();
        damage.upper_layer_source.clear();
    }
    true
}

/// Damage is kept exactly as long as an output that shows its owner has yet to be
/// rendered: nothing of such a window is lost, and nothing else is kept.
pub proof fn law_damage_is_kept_while_needed(
    before: DamageState,
    after: DamageState,
    session: TtySession,
    windows: Seq<WindowVisibility>,
    layers: Seq<LayerVisibility>,
    entry: OwnedDamageRect,
)
    requires
        damage_after(before, after, session, true, windows, layers),
    ensures
        after.window_source@.contains(entry) <==> before.window_source@.contains(entry)
            && window_still_needed(session, windows, entry.owner@),
        after.lower_layer_source@.contains(entry) <==> before.lower_layer_source@.contains(entry)
            && layer_still_needed(session, layers, entry.owner@),
        after.upper_layer_source@.contains(entry) <==> before.upper_layer_source@.contains(entry)
            && layer_still_needed(session, layers, entry.owner@),
{
    let window_kept = |e: OwnedDamageRect| window_still_needed(session, windows, e.owner@);
    let layer_kept = |e: OwnedDamageRect| layer_still_needed(session, layers, e.owner@);
    lemma_filter_keeps(before.window_source@, window_kept, entry);
    lemma_filter_keeps(before.lower_layer_source@, layer_kept, entry);
    lemma_filter_keeps(before.upper_layer_source@, layer_kept, entry);
    if !exists|name: Seq<char>| #[trigger] is_pending_output(session, name) {
        lemma_nothing_needed(session, windows, entry.owner@);
    }
}

proof fn lemma_filter_keeps(
    source: Seq<OwnedDamageRect>,
    kept: spec_fn(OwnedDamageRect) -> bool,
    entry: OwnedDamageRect,
)
    ensures
        source.filter(kept).contains(entry) <==> source.contains(entry) && kept(entry),
{
    if source.filter(kept).contains(entry) {
        source.lemma_filter_contains_rev(kept, entry);
        let i = choose|i: int| 0 <= i < source.filter(kept).len() && source.filter(kept)[i] == entry;
        source.lemma_filter_pred(kept, i);
    }
    if source.contains(entry) && kept(entry) {
        let i = choose|i: int| 0 <= i < source.len() && source[i] == entry;
        source.lemma_filter_contains(kept, i);
    }
}

proof fn lemma_nothing_needed(
    session: TtySession,
    windows: Seq<WindowVisibility>,
    owner: Seq<char>,
)
    requires
        forall|name: Seq<char>| !#[trigger] is_pending_output(session, name),
    ensures
        !window_still_needed(session, windows, owner),
    decreases windows.len(),
{
    if windows.len() > 0 {
        lemma_nothing_needed(session, windows.drop_last(), owner);
    }
}

pub(crate) proof fn lemma_damage_is_of_its_owners(
    window_ids: Seq<Option<String>>,
    source: Seq<OwnedDamageRect>,
    entry: OwnedDamageRect,
)
    ensures
        window_damage(window_ids, source).contains(entry) <==> source.contains(entry)
            && is_window_owner(window_ids, entry.owner@),
{
    lemma_filter_keeps(
        source,
        |entry: OwnedDamageRect| is_window_owner(window_ids, entry.owner@),
        entry,
    );
}

pub(crate) proof fn lemma_layer_damage_is_of_its_owners(
    layer_ids: Seq<u32>,
    source: Seq<OwnedDamageRect>,
    entry: OwnedDamageRect,
)
    ensures
        layer_damage(layer_ids, source).contains(entry) <==> source.contains(entry)
            && is_layer_owner(layer_ids, entry.owner@),
{
    lemma_filter_keeps(
        source,
        |entry: OwnedDamageRect| is_layer_owner(layer_ids, entry.owner@),
        entry,
    );
}

/// Of the damage of windows, exactly what one of the given windows reported is collected,
/// wherever the window stands in the list.
pub proof fn law_window_damage_is_collected_by_owner(
    window_ids: &[Option<String>],
    source: &[OwnedDamageRect],
    entries: Vec<OwnedDamageRect>,
    entry: OwnedDamageRect,
)
    requires
        call_ensures(collect_window_source_damage, (window_ids, source), entries),
    ensures
        entries@.contains(entry) <==> source@.contains(entry) && exists|i: int|
            0 <= i < window_ids@.len() && (#[trigger] window_ids@[i]) is Some
                && window_ids@[i]->0@ == entry.owner@,
        entries@.len() <= source@.len(),
{
    lemma_damage_is_of_its_owners(window_ids@, source@, entry);
    source@.lemma_filter_len(
        |entry: OwnedDamageRect| is_window_owner(window_ids@, entry.owner@),
    );
}

/// Of the damage of layer surfaces, exactly what one of the given ones reported is collected.
pub proof fn law_layer_damage_is_collected_by_owner(
    layer_ids: &[u32],
    source: &[OwnedDamageRect],
    entries: Vec<OwnedDamageRect>,
    entry: OwnedDamageRect,
)
    requires
        call_ensures(collect_layer_source_damage, (layer_ids, source), entries),
    ensures
        entries@.contains(entry) <==> source@.contains(entry) && exists|i: int|
            0 <= i < layer_ids@.len() && text::decimal((#[trigger] layer_ids@[i]) as int)
                == entry.owner@,
        entries@.len() <= source@.len(),
{
    lemma_layer_damage_is_of_its_owners(layer_ids@, source@, entry);
    source@.lemma_filter_len(|entry: OwnedDamageRect| is_layer_owner(layer_ids@, entry.owner@));
}

/// The last entry for an owner is the one that counts.
proof fn lemma_last_entry_counts(
    session: TtySession,
    windows: Seq<WindowVisibility>,
    owner: Seq<char>,
    w: int,
)
    requires
        0 <= w < windows.len(),
        windows[w].id is Some,
        windows[w].id->0@ == owner,
        forall|k: int|
            w < k < windows.len() ==> (#[trigger] windows[k]).id is None || windows[k].id->0@
                != owner,
    ensures
        window_still_needed(session, windows, owner) == exists|i: int|
            0 <= i < windows[w].outputs@.len() && is_pending_output(
                session,
                (#[trigger] windows[w].outputs@[i])@,
            ),
    decreases windows.len(),
{
    if w < windows.len() - 1 {
        assert(windows.last() == windows[windows.len() - 1]);
        assert(windows.drop_last()[w] == windows[w]);
        assert forall|k: int| w < k < windows.drop_last().len() implies (
        #[trigger] windows.drop_last()[k]).id is None || windows.drop_last()[k].id->0@ != owner by {
            assert(windows.drop_last()[k] == windows[k]);
        }
        lemma_last_entry_counts(session, windows.drop_last(), owner, w);
    }
}

proof fn lemma_unknown_owners_need_nothing(
    session: TtySession,
    windows: Seq<WindowVisibility>,
    owner: Seq<char>,
)
    requires
        forall|k: int|
            0 <= k < windows.len() ==> (#[trigger] windows[k]).id is None || windows[k].id->0@
                != owner,
    ensures
        !window_still_needed(session, windows, owner),
    decreases windows.len(),
{
    if windows.len() > 0 {
        assert(windows.last() == windows[windows.len() - 1]);
        assert forall|k: int| 0 <= k < windows.drop_last().len() implies (
        #[trigger] windows.drop_last()[k]).id is None || windows.drop_last()[k].id->0@ != owner by {
            assert(windows.drop_last()[k] == windows[k]);
        }
        lemma_unknown_owners_need_nothing(session, windows.drop_last(), owner);
    }
}

/// The surface at this place is to be drawn again: now, at its next refresh, or when the
/// timer that stands for it ends.
pub open spec fn is_to_be_drawn(state: TtyRedrawState) -> bool {
    ||| state is Queued
    ||| state is WaitingForVBlank && state->redraw_needed
    ||| state is WaitingForEstimatedVBlank && state->queued
}

/// While one of the outputs that a window is on, whichever it is, has a redraw pending, no
/// damage of the window is lost.
pub proof fn law_damage_of_a_window_on_a_pending_output_is_kept(
    session: &TtySession,
    damage: &mut DamageState,
    processed_outputs: &[String],
    windows: &[WindowVisibility],
    layers: &[LayerVisibility],
    finished: bool,
    w: int,
    i: int,
    b: int,
    s: int,
    entry: OwnedDamageRect,
)
    requires
        call_ensures(
            finish_processed_outputs,
            (session, damage, processed_outputs, windows, layers),
            finished,
        ),
        // The last entry for the window.
        0 <= w < windows@.len(),
        windows@[w].id is Some,
        windows@[w].id->0@ == entry.owner@,
        forall|k: int|
            w < k < windows@.len() ==> (#[trigger] windows@[k]).id is None || windows@[k].id->0@
                != entry.owner@,
        // Any output that it lists.
        0 <= i < windows@[w].outputs@.len(),
        // Any surface that shows this output.
        0 <= b < session.backends@.len(),
        0 <= s < session.backends@[b].surfaces@.len(),
        session.backends@[b].surfaces@[s].output@ == windows@[w].outputs@[i]@,
        is_to_be_drawn(session.backends@[b].surfaces@[s].redraw_state),
    ensures
        old(damage).window_source@.contains(entry) ==> final(damage).window_source@.contains(entry),
{
    let name = windows@[w].outputs@[i]@;
    assert(is_pending_surface(*session, b, s, name));
    assert(is_pending_output(*session, name));
    lemma_last_entry_counts(*session, windows@, entry.owner@, w);
    if finished {
        law_damage_is_kept_while_needed(
            *old(damage),
            *final(damage),
            *session,
            windows@,
            layers@,
            entry,
        );
    }
}

/// Damage of a window goes once every output that the window is on has been drawn.
pub proof fn law_damage_of_a_drawn_window_goes(
    session: &TtySession,
    damage: &mut DamageState,
    processed_outputs: &[String],
    windows: &[WindowVisibility],
    layers: &[LayerVisibility],
    finished: bool,
    w: int,
    entry: OwnedDamageRect,
)
    requires
        call_ensures(
            finish_processed_outputs,
            (session, damage, processed_outputs, windows, layers),
            finished,
        ),
        processed_outputs@.len() > 0,
        0 <= w < windows@.len(),
        windows@[w].id is Some,
        windows@[w].id->0@ == entry.owner@,
        forall|k: int|
            w < k < windows@.len() ==> (#[trigger] windows@[k]).id is None || windows@[k].id->0@
                != entry.owner@,
        forall|i: int, b: int, s: int|
            0 <= i < windows@[w].outputs@.len() && 0 <= b < session.backends@.len() && 0 <= s
                < session.backends@[b].surfaces@.len()
                && (#[trigger] session.backends@[b].surfaces@[s]).output@
                == (#[trigger] windows@[w].outputs@[i])@ ==> !is_to_be_drawn(
                session.backends@[b].surfaces@[s].redraw_state,
            ),
    ensures
        !final(damage).window_source@.contains(entry),
{
    lemma_last_entry_counts(*session, windows@, entry.owner@, w);
    if window_still_needed(*session, windows@, entry.owner@) {
        let i = choose|i: int|
            0 <= i < windows@[w].outputs@.len() && is_pending_output(
                *session,
                (#[trigger] windows@[w].outputs@[i])@,
            );
        let name = windows@[w].outputs@[i]@;
        let (b, s) = choose|b: int, s: int| #[trigger] is_pending_surface(*session, b, s, name);
        assert(is_pending_surface(*session, b, s, name));
        assert(session.backends@[b].surfaces@[s].output@ == windows@[w].outputs@[i]@);
        assert(false);
    }
    law_damage_is_kept_while_needed(*old(damage), *final(damage), *session, windows@, layers@, entry);
}

/// Damage of a window that is on no output goes with the first output that is drawn.
pub proof fn law_damage_of_an_unknown_window_goes(
    session: &TtySession,
    damage: &mut DamageState,
    processed_outputs: &[String],
    windows: &[WindowVisibility],
    layers: &[LayerVisibility],
    finished: bool,
    entry: OwnedDamageRect,
)
    requires
        call_ensures(
            finish_processed_outputs,
            (session, damage, processed_outputs, windows, layers),
            finished,
        ),
        processed_outputs@.len() > 0,
        forall|k: int|
            0 <= k < windows@.len() ==> (#[trigger] windows@[k]).id is None || windows@[k].id->0@
                != entry.owner@,
    ensures
        !final(damage).window_source@.contains(entry),
{
    lemma_unknown_owners_need_nothing(*session, windows@, entry.owner@);
    law_damage_is_kept_while_needed(*old(damage), *final(damage), *session, windows@, layers@, entry);
}

/// Damage of a layer surface is kept exactly while an output that it is on has a redraw
/// pending, whether it is below or above the windows.
pub proof fn law_damage_of_a_layer_on_a_pending_output_is_kept(
    session: &TtySession,
    damage: &mut DamageState,
    processed_outputs: &[String],
    windows: &[WindowVisibility],
    layers: &[LayerVisibility],
    finished: bool,
    i: int,
    b: int,
    s: int,
    entry: OwnedDamageRect,
)
    requires
        call_ensures(
            finish_processed_outputs,
            (session, damage, processed_outputs, windows, layers),
            finished,
        ),
        0 <= i < layers@.len(),
        text::decimal(layers@[i].layer as int) == entry.owner@,
        0 <= b < session.backends@.len(),
        0 <= s < session.backends@[b].surfaces@.len(),
        session.backends@[b].surfaces@[s].output@ == layers@[i].output@,
        is_to_be_drawn(session.backends@[b].surfaces@[s].redraw_state),
    ensures
        old(damage).lower_layer_source@.contains(entry) ==> final(damage).lower_layer_source@.contains(entry),
        old(damage).upper_layer_source@.contains(entry) ==> final(damage).upper_layer_source@.contains(entry),
{
    let name = layers@[i].output@;
    assert(is_pending_surface(*session, b, s, name));
    assert(is_pending_output(*session, name));
    assert(layer_still_needed(*session, layers@, entry.owner@));
    if finished {
        law_damage_is_kept_while_needed(
            *old(damage),
            *final(damage),
            *session,
            windows@,
            layers@,
            entry,
        );
    }
}

/// Damage of a layer surface goes once every output that it is on has been drawn.
pub proof fn law_damage_of_a_drawn_layer_goes(
    session: &TtySession,
    damage: &mut DamageState,
    processed_outputs: &[String],
    windows: &[WindowVisibility],
    layers: &[LayerVisibility],
    finished: bool,
    entry: OwnedDamageRect,
)
    requires
        call_ensures(
            finish_processed_outputs,
            (session, damage, processed_outputs, windows, layers),
            finished,
        ),
        processed_outputs@.len() > 0,
        forall|i: int, b: int, s: int|
            0 <= i < layers@.len() && text::decimal((#[trigger] layers@[i]).layer as int)
                == entry.owner@ && 0 <= b < session.backends@.len() && 0 <= s
                < session.backends@[b].surfaces@.len()
                && (#[trigger] session.backends@[b].surfaces@[s]).output@ == layers@[i].output@
                ==> !is_to_be_drawn(session.backends@[b].surfaces@[s].redraw_state),
    ensures
        !final(damage).lower_layer_source@.contains(entry),
        !final(damage).upper_layer_source@.contains(entry),
{
    if layer_still_needed(*session, layers@, entry.owner@) {
        let i = choose|i: int|
            0 <= i < layers@.len() && text::decimal((#[trigger] layers@[i]).layer as int)
                == entry.owner@ && is_pending_output(*session, layers@[i].output@);
        let name = layers@[i].output@;
        let (b, s) = choose|b: int, s: int| #[trigger] is_pending_surface(*session, b, s, name);
        assert(is_pending_surface(*session, b, s, name));
        assert(session.backends@[b].surfaces@[s].output@ == layers@[i].output@);
        assert(false);
    }
    law_damage_is_kept_while_needed(*old(damage), *final(damage), *session, windows@, layers@, entry);
}

/// While no output was drawn no damage is consumed; damage of decorations goes with the first
/// output that is drawn. No damage is made up.
pub proof fn law_only_drawn_outputs_consume_damage(
    session: &TtySession,
    damage: &mut DamageState,
    processed_outputs: &[String],
    windows: &[WindowVisibility],
    layers: &[LayerVisibility],
    finished: bool,
    entry: OwnedDamageRect,
)
    requires
        call_ensures(
            finish_processed_outputs,
            (session, damage, processed_outputs, windows, layers),
            finished,
        ),
    ensures
        finished <==> processed_outputs@.len() > 0,
        processed_outputs@.len() == 0 ==> *final(damage) == *old(damage),
        processed_outputs@.len() > 0 ==> final(damage).pending_decoration@.len() == 0,
        final(damage).window_source@.contains(entry) ==> old(damage).window_source@.contains(entry),
        final(damage).lower_layer_source@.contains(entry) ==> old(damage).lower_layer_source@.contains(entry),
        final(damage).upper_layer_source@.contains(entry) ==> old(damage).upper_layer_source@.contains(entry),
{
    if finished {
        law_damage_is_kept_while_needed(
            *old(damage),
            *final(damage),
            *session,
            windows@,
            layers@,
            entry,
        );
    }
}

/// The outputs with a pending redraw are named exactly: each of them, and no other.
pub proof fn law_pending_outputs_are_named(
    session: &TtySession,
    names: Vec<String>,
    b: int,
    s: int,
    i: int,
)
    requires
        call_ensures(pending_output_names, (session,), names),
        0 <= b < session.backends@.len(),
        0 <= s < session.backends@[b].surfaces@.len(),
        is_to_be_drawn(session.backends@[b].surfaces@[s].redraw_state),
    ensures
        exists|k: int|
            0 <= k < names@.len() && (#[trigger] names@[k])@
                == session.backends@[b].surfaces@[s].output@,
        0 <= i < names@.len() ==> exists|p: int, q: int|
            0 <= p < session.backends@.len() && 0 <= q < session.backends@[p].surfaces@.len()
                && is_to_be_drawn((#[trigger] session.backends@[p].surfaces@[q]).redraw_state)
                && session.backends@[p].surfaces@[q].output@ == names@[i]@,
{
    let name = session.backends@[b].surfaces@[s].output@;
    assert(is_pending_surface(*session, b, s, name));
    assert(is_pending_output(*session, name));
    assert(holds_name(names@, name));
    if 0 <= i < names@.len() {
        let other = names@[i]@;
        assert(holds_name(names@, other));
        let (p, q) = choose|p: int, q: int| #[trigger] is_pending_surface(*session, p, q, other);
        assert(is_pending_surface(*session, p, q, other));
        assert(is_to_be_drawn(session.backends@[p].surfaces@[q].redraw_state));
    }
}

/// A name is found at whatever place of the list it is, and no other is taken for it.
pub proof fn law_names_are_found(names: &[String], name: &str, r: bool, i: int)
    requires
        call_ensures(contains_name, (names, name), r),
    ensures
        0 <= i < names@.len() && names@[i]@ == name@ ==> r,
        (forall|k: int| 0 <= k < names@.len() ==> (#[trigger] names@[k])@ != name@) ==> !r,
{
}

} // verus!
