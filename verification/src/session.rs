//! The devices and outputs of a session.

use crate::damage::DamageState;
use crate::modes::{self, DisplayModePreference, DrmMode, WlMode};
use crate::records::{self, OutputRecords};
use crate::redraw::{
    self, BackendData, RenderSurfaceOutcome, SurfaceData, TtyAction, TtyRedrawState, TtySession,
};
use crate::table;
use crate::text;
use crate::timing::Nanos;
use vstd::prelude::*;
use vstd::string::*;

verus! {

impl TtySession {
    /// The surface at these places drives the display controller `crtc` of device `node`.
    pub open spec fn holds(self, node: u64, crtc: u32, b: int, s: int) -> bool {
        &&& 0 <= b < self.backends@.len()
        &&& 0 <= s < self.backends@[b].surfaces@.len()
        &&& self.backends@[b].node == node
        &&& self.backends@[b].surfaces@[s].crtc == crtc
    }

    /// No device occurs twice, and no controller twice on one device.
    pub open spec fn wf(self) -> bool {
        &&& forall|a: int, b: int|
            0 <= a < b < self.backends@.len() ==> (#[trigger] self.backends@[a]).node != (
            #[trigger] self.backends@[b]).node
        &&& forall|b: int| 0 <= b < self.backends@.len() ==> distinct_crtcs(
            (#[trigger] self.backends@[b]).surfaces@,
        )
    }

    pub open spec fn has_node(self, node: u64) -> bool {
        exists|b: int| 0 <= b < self.backends@.len() && (#[trigger] self.backends@[b]).node == node
    }

    /// The same devices are part of both sessions.
    pub open spec fn has_nodes_of(self, other: TtySession) -> bool {
        forall|node: u64| #[trigger] self.has_node(node) <==> other.has_node(node)
    }

    /// The surfaces by device and controller.
    pub open spec fn surfaces(self) -> Map<(u64, u32), SurfaceData> {
        Map::new(
            |key: (u64, u32)| exists|b: int, s: int| #[trigger] self.holds(key.0, key.1, b, s),
            |key: (u64, u32)|
                {
                    let (b, s) = choose|b: int, s: int| #[trigger] self.holds(key.0, key.1, b, s);
                    self.backends@[b].surfaces@[s]
                },
        )
    }
}

pub open spec fn distinct_crtcs(surfaces: Seq<SurfaceData>) -> bool {
    forall|a: int, b: int|
        0 <= a < b < surfaces.len() ==> (#[trigger] surfaces[a]).crtc != (#[trigger] surfaces[b]).crtc
}

proof fn lemma_place_is_unique(
    session: TtySession,
    node: u64,
    crtc: u32,
    b: int,
    s: int,
    c: int,
    t: int,
)
    requires
        session.wf(),
        session.holds(node, crtc, b, s),
        session.holds(node, crtc, c, t),
    ensures
        b == c,
        s == t,
{
    if b < c {
        assert(session.backends@[b].node != session.backends@[c].node);
    } else if c < b {
        assert(session.backends@[c].node != session.backends@[b].node);
    } else {
        assert(distinct_crtcs(session.backends@[b].surfaces@));
    }
}

/// The surface found at a place is the one that the session holds for its key.
proof fn lemma_surface_at(session: TtySession, node: u64, crtc: u32, b: int, s: int)
    requires
        session.wf(),
        session.holds(node, crtc, b, s),
    ensures
        session.surfaces().contains_key((node, crtc)),
        session.surfaces()[(node, crtc)] == session.backends@[b].surfaces@[s],
{
    let key = (node, crtc);
    assert(session.holds(key.0, key.1, b, s));
    assert(session.surfaces().contains_key(key));
    let (c, t) = choose|c: int, t: int| #[trigger] session.holds(key.0, key.1, c, t);
    lemma_place_is_unique(session, node, crtc, b, s, c, t);
}

/// Where device `node` stands.
pub fn find_backend(session: &TtySession, node: u64) -> (place: Option<usize>)
    ensures
        place is None <==> !session.has_node(node),
        place matches Some(b) ==> b < session.backends@.len() && session.backends@[b as int].node
            == node,
{
    let mut b: usize = 0;
    while b < session.backends.len()
        invariant
            b <= session.backends@.len(),
            forall|i: int| 0 <= i < b ==> (#[trigger] session.backends@[i]).node != node,
        decreases session.backends@.len() - b,
    {
        if session.backends[b].node == node {
            return Some(b);
        }
        b += 1;
    }
    None
}

fn find_crtc(surfaces: &Vec<SurfaceData>, crtc: u32) -> (place: Option<usize>)
    ensures
        place is None ==> forall|i: int|
            0 <= i < surfaces@.len() ==> (#[trigger] surfaces@[i]).crtc != crtc,
        place matches Some(s) ==> s < surfaces@.len() && surfaces@[s as int].crtc == crtc,
{
    let mut s: usize = 0;
    while s < surfaces.len()
        invariant
            s <= surfaces@.len(),
            forall|i: int| 0 <= i < s ==> (#[trigger] surfaces@[i]).crtc != crtc,
        decreases surfaces@.len() - s,
    {
        if surfaces[s].crtc == crtc {
            return Some(s);
        }
        s += 1;
    }
    None
}

/// Where the surface of controller `crtc` of device `node` stands.
pub fn find_surface(session: &TtySession, node: u64, crtc: u32) -> (place: Option<(usize, usize)>)
    requires
        session.wf(),
    ensures
        place is Some <==> session.surfaces().contains_key((node, crtc)),
        place matches Some((b, s)) ==> session.holds(node, crtc, b as int, s as int)
            && session.backends@[b as int].surfaces@[s as int] == session.surfaces()[(node, crtc)],
{
    match find_backend(session, node) {
        None => {
            assert(!session.surfaces().contains_key((node, crtc)));
            None
        },
        Some(b) => match find_crtc(&session.backends[b].surfaces, crtc) {
            None => {
                proof {
                    if session.surfaces().contains_key((node, crtc)) {
                        let (c, t) = choose|c: int, t: int| #[trigger]
                            session.holds(node, crtc, c, t);
                        if c < b {
                            assert(session.backends@[c].node != session.backends@[b as int].node);
                        } else if b < c {
                            assert(session.backends@[b as int].node != session.backends@[c].node);
                        }
                    }
                }
                None
            },
            Some(s) => {
                proof {
                    assert(session.holds(node, crtc, b as int, s as int));
                    lemma_surface_at(*session, node, crtc, b as int, s as int);
                }
                Some((b, s))
            },
        },
    }
}

/// Puts the surface of a connected output in place; one that the controller had before is
/// replaced.
pub fn insert_surface(session: &mut TtySession, node: u64, surface: SurfaceData)
    requires
        old(session).wf(),
        old(session).has_node(node),
    ensures
        final(session).wf(),
        final(session).has_nodes_of(*old(session)),
        final(session).surfaces() == old(session).surfaces().insert((node, surface.crtc), surface),
        *final(session) == (TtySession { backends: final(session).backends, ..*old(session) }),
{
    let ghost before = *session;
    let ghost crtc = surface.crtc;
    let ghost added = surface;
    match find_backend(session, node) {
        None => {},
        Some(b) => {
            let ghost kept = session.backends@[b as int].surfaces@;
            match find_crtc(&session.backends[b].surfaces, surface.crtc) {
                Some(s) => {
                    session.backends[b].surfaces[s] = surface;
                    proof {
                        assert(session.backends@[b as int].surfaces@ =~= kept.update(
                            s as int,
                            added,
                        ));
                        lemma_one_backend_changed(before, *session, b as int);
                        assert(distinct_crtcs(before.backends@[b as int].surfaces@));
                        assert(session.holds(node, crtc, b as int, s as int));
                        assert forall|n: u64, c: u32, i: int, j: int| #[trigger]
                            session.holds(n, c, i, j) <==> before.holds(n, c, i, j) by {}
                        lemma_surfaces_after_insert(before, *session, node, added, b as int, s as int);
                    }
                },
                None => {
                    session.backends[b].surfaces.push(surface);
                    proof {
                        let s = kept.len() as int;
                        assert(session.backends@[b as int].surfaces@ =~= kept.push(added));
                        lemma_one_backend_changed(before, *session, b as int);
                        assert(distinct_crtcs(before.backends@[b as int].surfaces@));
                        assert(session.holds(node, crtc, b as int, s));
                        lemma_surfaces_after_insert(before, *session, node, added, b as int, s);
                    }
                },
            }
        },
    }
}

proof fn lemma_one_backend_changed(before: TtySession, after: TtySession, b: int)
    requires
        before.wf(),
        0 <= b < before.backends@.len(),
        after.backends@.len() == before.backends@.len(),
        forall|i: int|
            0 <= i < before.backends@.len() && i != b ==> #[trigger] after.backends@[i]
                == before.backends@[i],
        after.backends@[b].node == before.backends@[b].node,
        distinct_crtcs(after.backends@[b].surfaces@),
    ensures
        after.wf(),
        after.has_nodes_of(before),
{
    assert forall|i: int| 0 <= i < after.backends@.len() implies (#[trigger] after.backends@[i]).node
        == before.backends@[i].node by {}
    assert forall|node: u64| #[trigger] after.has_node(node) <==> before.has_node(node) by {
        if after.has_node(node) {
            let i = choose|i: int|
                0 <= i < after.backends@.len() && (#[trigger] after.backends@[i]).node == node;
            assert(before.backends@[i].node == node);
        }
        if before.has_node(node) {
            let i = choose|i: int|
                0 <= i < before.backends@.len() && (#[trigger] before.backends@[i]).node == node;
            assert(after.backends@[i].node == node);
        }
    }
    assert forall|i: int, j: int| 0 <= i < j < after.backends@.len() implies (
    #[trigger] after.backends@[i]).node != (#[trigger] after.backends@[j]).node by {
        assert(before.backends@[i].node != before.backends@[j].node);
    }
    assert forall|i: int| 0 <= i < after.backends@.len() implies distinct_crtcs(
        (#[trigger] after.backends@[i]).surfaces@,
    ) by {
        if i != b {
            assert(distinct_crtcs(before.backends@[i].surfaces@));
        }
    }
}

proof fn lemma_surfaces_after_insert(
    before: TtySession,
    after: TtySession,
    node: u64,
    surface: SurfaceData,
    b: int,
    s: int,
)
    requires
        before.wf(),
        after.wf(),
        after.holds(node, surface.crtc, b, s),
        after.backends@[b].surfaces@[s] == surface,
        forall|n: u64, c: u32, i: int, j: int|
            (n, c) != (node, surface.crtc) ==> (#[trigger] after.holds(n, c, i, j) <==> before.holds(
                n,
                c,
                i,
                j,
            )),
        forall|n: u64, c: u32, i: int, j: int|
            (n, c) != (node, surface.crtc) && #[trigger] before.holds(n, c, i, j)
                ==> after.backends@[i].surfaces@[j] == before.backends@[i].surfaces@[j],
    ensures
        after.surfaces() == before.surfaces().insert((node, surface.crtc), surface),
{
    let expected = before.surfaces().insert((node, surface.crtc), surface);
    lemma_surface_at(after, node, surface.crtc, b, s);
    assert forall|key: (u64, u32)| #[trigger] after.surfaces().contains_key(key)
        <==> expected.contains_key(key) by {
        if key != (node, surface.crtc) {
            if after.surfaces().contains_key(key) {
                let (i, j) = choose|i: int, j: int| #[trigger] after.holds(key.0, key.1, i, j);
                assert(before.holds(key.0, key.1, i, j));
            }
            if before.surfaces().contains_key(key) {
                let (i, j) = choose|i: int, j: int| #[trigger] before.holds(key.0, key.1, i, j);
                assert(after.holds(key.0, key.1, i, j));
            }
        }
    }
    assert forall|key: (u64, u32)| #[trigger] after.surfaces().contains_key(key) implies
        after.surfaces()[key] == expected[key] by {
        if key != (node, surface.crtc) {
            let (i, j) = choose|i: int, j: int| #[trigger] after.holds(key.0, key.1, i, j);
            assert(before.holds(key.0, key.1, i, j));
            lemma_surface_at(after, key.0, key.1, i, j);
            lemma_surface_at(before, key.0, key.1, i, j);
        }
    }
    assert(after.surfaces() =~= expected);
}

/// Takes the surface of controller `crtc` of device `node` away.
pub fn remove_surface(session: &mut TtySession, node: u64, crtc: u32) -> (removed: Option<
    SurfaceData,
>)
    requires
        old(session).wf(),
    ensures
        final(session).wf(),
        final(session).has_nodes_of(*old(session)),
        final(session).surfaces() == old(session).surfaces().remove((node, crtc)),
        removed == (if old(session).surfaces().contains_key((node, crtc)) {
            Some(old(session).surfaces()[(node, crtc)])
        } else {
            None
        }),
        *final(session) == (TtySession { backends: final(session).backends, ..*old(session) }),
{
    let ghost before = *session;
    match find_surface(session, node, crtc) {
        None => {
            assert(before.surfaces().remove((node, crtc)) =~= before.surfaces());
            None
        },
        Some((b, s)) => {
            let ghost kept = session.backends@[b as int].surfaces@;
            let removed: SurfaceData = session.backends[b].surfaces.remove(s);
            proof {
                let after = *session;
                assert(after.backends@[b as int].surfaces@ =~= kept.remove(s as int));
                assert(distinct_crtcs(before.backends@[b as int].surfaces@));
                assert forall|i: int, j: int|
                    0 <= i < j < after.backends@[b as int].surfaces@.len() implies (
                #[trigger] after.backends@[b as int].surfaces@[i]).crtc != (
                #[trigger] after.backends@[b as int].surfaces@[j]).crtc by {
                    let p = if i < s {
                        i
                    } else {
                        i + 1
                    };
                    let q = if j < s {
                        j
                    } else {
                        j + 1
                    };
                    assert(kept[p].crtc != kept[q].crtc);
                }
                lemma_one_backend_changed(before, after, b as int);
                lemma_surfaces_after_remove(before, after, node, crtc, b as int, s as int);
            }
            Some(removed)
        },
    }
}

proof fn lemma_surfaces_after_remove(
    before: TtySession,
    after: TtySession,
    node: u64,
    crtc: u32,
    b: int,
    s: int,
)
    requires
        before.wf(),
        after.wf(),
        before.holds(node, crtc, b, s),
        after.backends@.len() == before.backends@.len(),
        forall|i: int|
            0 <= i < before.backends@.len() && i != b ==> #[trigger] after.backends@[i]
                == before.backends@[i],
        after.backends@[b].node == node,
        after.backends@[b].surfaces@ == before.backends@[b].surfaces@.remove(s),
    ensures
        after.surfaces() == before.surfaces().remove((node, crtc)),
{
    let expected = before.surfaces().remove((node, crtc));
    assert forall|key: (u64, u32), i: int, j: int| #[trigger] after.holds(key.0, key.1, i, j) implies
        key != (node, crtc) && before.surfaces().contains_key(key) && before.surfaces()[key]
        == after.backends@[i].surfaces@[j] by {
        let q = if i == b && j >= s {
            j + 1
        } else {
            j
        };
        assert(before.holds(key.0, key.1, i, q));
        lemma_surface_at(before, key.0, key.1, i, q);
        if key == (node, crtc) {
            lemma_place_is_unique(before, node, crtc, b, s, i, q);
        }
    }
    assert forall|key: (u64, u32)| #[trigger] after.surfaces().contains_key(key)
        <==> expected.contains_key(key) by {
        if after.surfaces().contains_key(key) {
            let (i, j) = choose|i: int, j: int| #[trigger] after.holds(key.0, key.1, i, j);
            assert(after.holds(key.0, key.1, i, j));
        }
        if expected.contains_key(key) {
            let (i, j) = choose|i: int, j: int| #[trigger] before.holds(key.0, key.1, i, j);
            let q = if i == b && j > s {
                j - 1
            } else {
                j
            };
            assert(after.holds(key.0, key.1, i, q));
        }
    }
    assert forall|key: (u64, u32)| #[trigger] after.surfaces().contains_key(key) implies
        after.surfaces()[key] == expected[key] by {
        let (i, j) = choose|i: int, j: int| #[trigger] after.holds(key.0, key.1, i, j);
        assert(after.holds(key.0, key.1, i, j));
        lemma_surface_at(after, key.0, key.1, i, j);
    }
    assert(after.surfaces() =~= expected);
}

/// The name of an output: the kind of its connector and the number of it.
pub open spec fn connector_name(interface: Seq<char>, interface_id: u32) -> Seq<char> {
    interface + seq!['-'] + text::decimal(interface_id as int)
}

pub fn output_name(interface: &str, interface_id: u32) -> (name: String)
    ensures
        name@ == connector_name(interface@, interface_id),
{
    proof {
        reveal_strlit("-");
    }
    assert("-"@ =~= seq!['-']);
    let mut name: String = interface.to_owned();
    name.append("-");
    text::append_u32(&mut name, interface_id);
    name
}

/// The mode to drive a newly connected output with; `None` when the configuration keeps
/// the output unused.
pub fn connector_mode(allowed: bool, modes: &[DrmMode], preference: &DisplayModePreference) -> (mode:
    Option<DrmMode>)
    requires
        allowed ==> modes@.len() > 0 && modes::candidates_timed(modes@, *preference),
    ensures
        mode is None <==> !allowed,
        mode is Some ==> exists|i: int|
            modes::is_selected(modes@, *preference, i) && mode->0 == #[trigger] modes@[i],
{
    if !allowed {
        return None;
    }
    Some(modes::select_output_mode(modes, preference))
}

/// An output was connected and its controller set up: its surface is put in place and its
/// first redraw queued.
pub fn connector_connected(
    session: &mut TtySession,
    node: u64,
    crtc: u32,
    output: String,
    available_modes: Vec<DrmMode>,
    frame_duration: Nanos,
    supports_async_flip: bool,
) -> (actions: Vec<TtyAction>)
    requires
        old(session).wf(),
        old(session).has_node(node),
    ensures
        final(session).wf(),
        final(session).has_nodes_of(*old(session)),
        final(session).surfaces() == old(session).surfaces().insert(
            (node, crtc),
            redraw::connected_surface(
                crtc,
                output,
                available_modes,
                frame_duration,
                supports_async_flip,
            ),
        ),
        *final(session) == (TtySession { backends: final(session).backends, ..*old(session) }),
        actions@ == seq![
            TtyAction::ApplyDisplayConfiguration,
            TtyAction::NotifyOutputsChanged,
            TtyAction::ScheduleRedraw,
        ],
{
    let surface: SurfaceData = redraw::new_surface(
        crtc,
        output,
        available_modes,
        frame_duration,
        supports_async_flip,
    );
    insert_surface(session, node, surface);
    let mut actions: Vec<TtyAction> = Vec::new();
    actions.push(TtyAction::ApplyDisplayConfiguration);
    actions.push(TtyAction::NotifyOutputsChanged);
    actions.push(TtyAction::ScheduleRedraw);
    actions
}

/// An output that was disconnected: the surface that is gone and what to do once its output
/// is out of the layout.
pub struct DisconnectedOutput {
    pub surface: SurfaceData,
    /// The name of its connector, under which it was announced.
    pub name: String,
    pub actions: Vec<TtyAction>,
}

impl DisconnectedOutput {
    /// The display configuration is applied again, and others are told.
    pub open spec fn is_followed_up(self) -> bool {
        self.actions@ == seq![TtyAction::ApplyDisplayConfiguration, TtyAction::NotifyOutputsChanged]
    }
}

/// The damage of decorations is given up and all other damage kept.
pub open spec fn decorations_cleared(before: DamageState, after: DamageState) -> bool {
    &&& after.pending_decoration@.len() == 0
    &&& after == (DamageState { pending_decoration: after.pending_decoration, ..before })
}

/// What a connector is known by: its kind and its number.
pub struct ConnectorId {
    pub interface: String,
    pub interface_id: u32,
}

impl ConnectorId {
    pub open spec fn name(self) -> Seq<char> {
        connector_name(self.interface@, self.interface_id)
    }
}

/// An output was disconnected: its surface goes, and with it the damage of decorations and
/// all that is kept under the name of the connector. Without a surface nothing changes.
pub fn connector_disconnected<C>(
    session: &mut TtySession,
    damage: &mut DamageState,
    records: &mut OutputRecords<C>,
    node: u64,
    crtc: u32,
    connector: &ConnectorId,
) -> (removed: Option<DisconnectedOutput>)
    requires
        old(session).wf(),
    ensures
        final(session).wf(),
        final(session).has_nodes_of(*old(session)),
        final(session).surfaces() == old(session).surfaces().remove((node, crtc)),
        removed is Some <==> old(session).surfaces().contains_key((node, crtc)),
        removed is Some ==> removed->0.surface == old(session).surfaces()[(node, crtc)]
            && removed->0.name@ == connector.name() && removed->0.is_followed_up(),
        *final(session) == (TtySession { backends: final(session).backends, ..*old(session) }),
        removed is None ==> *final(damage) == *old(damage) && *final(records) == *old(records),
        removed is Some ==> decorations_cleared(*old(damage), *final(damage)) && final(records)@
            == old(records)@.without(Set::empty().insert(connector.name())),
{
    match remove_surface(session, node, crtc) {
        None => None,
        Some(surface) => {
            let name: String = output_name(connector.interface.as_str(), connector.interface_id);
            records.forget(name.as_str());
            damage.pending_decoration.clear();
            let mut actions: Vec<TtyAction> = Vec::new();
            actions.push(TtyAction::ApplyDisplayConfiguration);
            actions.push(TtyAction::NotifyOutputsChanged);
            assert(actions@ =~= seq![
                TtyAction::ApplyDisplayConfiguration,
                TtyAction::NotifyOutputsChanged,
            ]);
            Some(DisconnectedOutput { surface, name, actions })
        },
    }
}

/// What a scan of the connectors of a device has found. Without a controller there is
/// nothing to drive the connector with.
#[derive(Clone, Copy, Debug, PartialEq, Eq, Structural)]
pub enum ScanEvent {
    Connected { crtc: Option<u32> },
    Disconnected { crtc: Option<u32> },
    Changed { crtc: Option<u32> },
}

/// What to do about a connector.
#[derive(Clone, Copy, Debug, PartialEq, Eq, Structural)]
pub enum ScanStep {
    Connect { crtc: u32 },
    Disconnect { crtc: u32 },
    /// Replace the modes of the output and apply the display configuration again.
    UpdateModes { crtc: u32 },
    Ignore,
}

pub open spec fn step_of(event: ScanEvent) -> ScanStep {
    match event {
        ScanEvent::Connected { crtc: Some(crtc) } => ScanStep::Connect { crtc },
        ScanEvent::Disconnected { crtc: Some(crtc) } => ScanStep::Disconnect { crtc },
        ScanEvent::Changed { crtc: Some(crtc) } => ScanStep::UpdateModes { crtc },
        _ => ScanStep::Ignore,
    }
}

pub fn scan_step(event: ScanEvent) -> (step: ScanStep)
    ensures
        step == step_of(event),
{
    match event {
        ScanEvent::Connected { crtc: Some(crtc) } => ScanStep::Connect { crtc },
        ScanEvent::Disconnected { crtc: Some(crtc) } => ScanStep::Disconnect { crtc },
        ScanEvent::Changed { crtc: Some(crtc) } => ScanStep::UpdateModes { crtc },
        _ => ScanStep::Ignore,
    }
}

/// The controllers to connect when a device is added: those of the connectors that the
/// first scan finds connected.
pub fn device_added(events: &[ScanEvent]) -> (crtcs: Vec<u32>)
    ensures
        crtcs@ == connected_crtcs(events@),
{
    let mut crtcs: Vec<u32> = Vec::new();
    let mut index: usize = 0;
    while index < events.len()
        invariant
            index <= events@.len(),
            crtcs@ == connected_crtcs(events@.take(index as int)),
        decreases events@.len() - index,
    {
        assert(events@.take(index + 1).drop_last() =~= events@.take(index as int));
        match scan_step(events[index]) {
            ScanStep::Connect { crtc } => {
                crtcs.push(crtc);
            },
            _ => {},
        }
        index += 1;
    }
    assert(events@.take(events@.len() as int) =~= events@);
    crtcs
}

pub open spec fn connected_crtcs(events: Seq<ScanEvent>) -> Seq<u32>
    decreases events.len(),
{
    if events.len() == 0 {
        Seq::empty()
    } else {
        let rest = connected_crtcs(events.drop_last());
        match step_of(events.last()) {
            ScanStep::Connect { crtc } => rest.push(crtc),
            _ => rest,
        }
    }
}

/// What to do once the connectors of a device have changed, in order.
pub struct DeviceChange {
    pub steps: Vec<ScanStep>,
    /// Something changed that others have to be told of once all steps are done.
    pub notify: bool,
}

pub fn device_changed(events: &[ScanEvent]) -> (change: DeviceChange)
    ensures
        change.steps@ == events@.map_values(|event: ScanEvent| step_of(event)),
        change.notify == exists|i: int|
            0 <= i < events@.len() && step_of(#[trigger] events@[i]) != ScanStep::Ignore,
{
    let mut steps: Vec<ScanStep> = Vec::new();
    let mut notify: bool = false;
    let mut index: usize = 0;
    while index < events.len()
        invariant
            index <= events@.len(),
            steps@ =~= events@.take(index as int).map_values(|event: ScanEvent| step_of(event)),
            notify == exists|i: int|
                0 <= i < index && step_of(#[trigger] events@[i]) != ScanStep::Ignore,
        decreases events@.len() - index,
    {
        let step: ScanStep = scan_step(events[index]);
        if step != ScanStep::Ignore {
            assert(step_of(events@[index as int]) != ScanStep::Ignore);
            notify = true;
        }
        steps.push(step);
        index += 1;
    }
    assert(events@.take(events@.len() as int) =~= events@);
    DeviceChange { steps, notify }
}

/// Replaces the modes of a connector whose display has changed. The result tells whether
/// the controller drives an output.
pub fn update_available_modes(
    session: &mut TtySession,
    node: u64,
    crtc: u32,
    available_modes: Vec<DrmMode>,
) -> (known: bool)
    requires
        old(session).wf(),
    ensures
        final(session).wf(),
        final(session).has_nodes_of(*old(session)),
        known == old(session).surfaces().contains_key((node, crtc)),
        final(session).surfaces() == (if known {
            old(session).surfaces().insert(
                (node, crtc),
                SurfaceData { available_modes, ..old(session).surfaces()[(node, crtc)] },
            )
        } else {
            old(session).surfaces()
        }),
        *final(session) == (TtySession { backends: final(session).backends, ..*old(session) }),
{
    let ghost before = *session;
    match find_surface(session, node, crtc) {
        None => false,
        Some((b, s)) => {
            let ghost kept = session.backends@[b as int].surfaces@;
            let ghost changed = SurfaceData { available_modes, ..kept[s as int] };
            session.backends[b].surfaces[s].available_modes = available_modes;
            proof {
                assert(session.backends@[b as int].surfaces@ =~= kept.update(s as int, changed));
                assert(distinct_crtcs(before.backends@[b as int].surfaces@));
                lemma_one_backend_changed(before, *session, b as int);
                assert(session.holds(node, crtc, b as int, s as int));
                lemma_surfaces_after_insert(before, *session, node, changed, b as int, s as int);
            }
            true
        },
    }
}

/// A device joins the session, with no output yet. A device that was there under the same
/// number is replaced, and its surfaces go.
pub fn add_backend(session: &mut TtySession, node: u64)
    requires
        old(session).wf(),
    ensures
        final(session).wf(),
        final(session).surfaces() == old(session).surfaces().remove_keys(
            Set::new(|key: (u64, u32)| key.0 == node),
        ),
        forall|other: u64| #[trigger]
            final(session).has_node(other) <==> old(session).has_node(other) || other == node,
        *final(session) == (TtySession { backends: final(session).backends, ..*old(session) }),
{
    let ghost first = *session;
    remove_backend(session, node);
    proof {
        assert(!session.has_node(node));
        assert(session.surfaces() =~= first.surfaces().remove_keys(
            Set::new(|key: (u64, u32)| key.0 == node),
        ));
    }
    let ghost before = *session;
    session.backends.push(BackendData { node, surfaces: Vec::new() });
    proof {
        let after = *session;
        let last = before.backends@.len() as int;
        assert forall|n: u64, c: u32, i: int, j: int| #[trigger] after.holds(n, c, i, j)
            <==> before.holds(n, c, i, j) by {}
        assert forall|other: u64| #[trigger] after.has_node(other) <==> before.has_node(other)
            || other == node by {
            if before.has_node(other) {
                let i = choose|i: int|
                    0 <= i < before.backends@.len() && (#[trigger] before.backends@[i]).node == other;
                assert(after.backends@[i].node == other);
            }
            assert(after.backends@[last].node == node);
        }
        assert forall|i: int, j: int| 0 <= i < j < after.backends@.len() implies (
        #[trigger] after.backends@[i]).node != (#[trigger] after.backends@[j]).node by {
            if j < last {
                assert(before.backends@[i].node != before.backends@[j].node);
            } else {
                assert(before.backends@[i].node != node);
            }
        }
        assert forall|i: int| 0 <= i < after.backends@.len() implies distinct_crtcs(
            (#[trigger] after.backends@[i]).surfaces@,
        ) by {
            if i < last {
                assert(distinct_crtcs(before.backends@[i].surfaces@));
            }
        }
        assert forall|key: (u64, u32)| #[trigger] after.surfaces().contains_key(key) implies
            after.surfaces()[key] == before.surfaces()[key] by {
            let (i, j) = choose|i: int, j: int| #[trigger] after.holds(key.0, key.1, i, j);
            assert(before.holds(key.0, key.1, i, j));
            lemma_surface_at(after, key.0, key.1, i, j);
            lemma_surface_at(before, key.0, key.1, i, j);
        }
        assert forall|key: (u64, u32)| #[trigger] before.surfaces().contains_key(key) implies
            after.surfaces().contains_key(key) by {
            let (i, j) = choose|i: int, j: int| #[trigger] before.holds(key.0, key.1, i, j);
            assert(after.holds(key.0, key.1, i, j));
        }
        assert(after.surfaces() =~= before.surfaces());
    }
}

/// Takes a device away with all its surfaces. The result is what it drove.
pub fn remove_backend(session: &mut TtySession, node: u64) -> (removed: Option<BackendData>)
    requires
        old(session).wf(),
    ensures
        final(session).wf(),
        forall|other: u64| #[trigger]
            final(session).has_node(other) <==> old(session).has_node(other) && other != node,
        removed is Some <==> old(session).has_node(node),
        removed matches Some(backend) ==> backend.node == node && old(session).backends@.contains(
            backend,
        ),
        forall|key: (u64, u32)| #[trigger]
            final(session).surfaces().contains_key(key) <==> old(session).surfaces().contains_key(
                key,
            ) && key.0 != node,
        forall|key: (u64, u32)| #[trigger]
            final(session).surfaces().contains_key(key) ==> final(session).surfaces()[key] == old(session).surfaces()[key],
        *final(session) == (TtySession { backends: final(session).backends, ..*old(session) }),
{
    let ghost before = *session;
    match find_backend(session, node) {
        None => {
            proof {
                assert forall|key: (u64, u32)| #[trigger] before.surfaces().contains_key(
                    key,
                ) implies key.0 != node by {
                    let (i, j) = choose|i: int, j: int| #[trigger] before.holds(key.0, key.1, i, j);
                    assert(before.backends@[i].node == key.0);
                }
            }
            None
        },
        Some(b) => {
            let backend: BackendData = session.backends.remove(b);
            proof {
                let after = *session;
                assert(after.backends@ =~= before.backends@.remove(b as int));
                assert(before.backends@[b as int] == backend);
                assert forall|other: u64| #[trigger] after.has_node(other) <==> before.has_node(
                    other,
                ) && other != node by {
                    if after.has_node(other) {
                        let i = choose|i: int|
                            0 <= i < after.backends@.len() && (#[trigger] after.backends@[i]).node
                                == other;
                        let p = if i < b {
                            i
                        } else {
                            i + 1
                        };
                        assert(before.backends@[p].node == other);
                        if p < b {
                            assert(before.backends@[p].node != before.backends@[b as int].node);
                        } else {
                            assert(before.backends@[b as int].node != before.backends@[p].node);
                        }
                    }
                    if before.has_node(other) && other != node {
                        let i = choose|i: int|
                            0 <= i < before.backends@.len() && (#[trigger] before.backends@[i]).node
                                == other;
                        let p = if i < b {
                            i
                        } else {
                            i - 1
                        };
                        assert(after.backends@[p].node == other);
                    }
                }
                assert forall|i: int, j: int| 0 <= i < j < after.backends@.len() implies (
                #[trigger] after.backends@[i]).node != (#[trigger] after.backends@[j]).node by {
                    let p = if i < b {
                        i
                    } else {
                        i + 1
                    };
                    let q = if j < b {
                        j
                    } else {
                        j + 1
                    };
                    assert(before.backends@[p].node != before.backends@[q].node);
                }
                assert forall|i: int| 0 <= i < after.backends@.len() implies distinct_crtcs(
                    (#[trigger] after.backends@[i]).surfaces@,
                ) by {
                    let p = if i < b {
                        i
                    } else {
                        i + 1
                    };
                    assert(distinct_crtcs(before.backends@[p].surfaces@));
                }
                assert forall|key: (u64, u32)| #[trigger] after.surfaces().contains_key(key)
                    implies before.surfaces().contains_key(key) && key.0 != node
                    && after.surfaces()[key] == before.surfaces()[key] by {
                    let (i, j) = choose|i: int, j: int| #[trigger] after.holds(key.0, key.1, i, j);
                    let p = if i < b {
                        i
                    } else {
                        i + 1
                    };
                    assert(before.holds(key.0, key.1, p, j));
                    lemma_surface_at(after, key.0, key.1, i, j);
                    lemma_surface_at(before, key.0, key.1, p, j);
                    if p < b {
                        assert(before.backends@[p].node != before.backends@[b as int].node);
                    } else {
                        assert(before.backends@[b as int].node != before.backends@[p].node);
                    }
                }
                assert forall|key: (u64, u32)|
                    before.surfaces().contains_key(key) && key.0 != node implies #[trigger]
                    after.surfaces().contains_key(key) by {
                    let (i, j) = choose|i: int, j: int| #[trigger] before.holds(key.0, key.1, i, j);
                    let p = if i < b {
                        i
                    } else {
                        i - 1
                    };
                    assert(after.holds(key.0, key.1, p, j));
                }
            }
            Some(backend)
        },
    }
}

/// The surfaces of a device that go when its controllers are disconnected in turn.
pub open spec fn disconnected(
    surfaces: Map<(u64, u32), SurfaceData>,
    node: u64,
    crtcs: Seq<u32>,
) -> Seq<SurfaceData>
    decreases crtcs.len(),
{
    if crtcs.len() == 0 {
        Seq::empty()
    } else {
        let rest = disconnected(surfaces, node, crtcs.drop_last());
        if surfaces.contains_key((node, crtcs.last())) && !crtcs.drop_last().contains(
            crtcs.last(),
        ) {
            rest.push(surfaces[(node, crtcs.last())])
        } else {
            rest
        }
    }
}

pub open spec fn surfaces_of(outputs: Seq<DisconnectedOutput>) -> Seq<SurfaceData> {
    outputs.map_values(|output: DisconnectedOutput| output.surface)
}

pub open spec fn names_of(outputs: Seq<DisconnectedOutput>) -> Seq<Seq<char>> {
    outputs.map_values(|output: DisconnectedOutput| output.name@)
}

/// A connector and the controller that drives it.
pub struct DrivenConnector {
    pub id: ConnectorId,
    pub crtc: u32,
}

pub open spec fn crtcs_of(connectors: Seq<DrivenConnector>) -> Seq<u32> {
    connectors.map_values(|connector: DrivenConnector| connector.crtc)
}

/// The names of the outputs that go when connectors are disconnected in turn.
pub open spec fn disconnected_names(
    surfaces: Map<(u64, u32), SurfaceData>,
    node: u64,
    connectors: Seq<DrivenConnector>,
) -> Seq<Seq<char>>
    decreases connectors.len(),
{
    if connectors.len() == 0 {
        Seq::empty()
    } else {
        let rest = disconnected_names(surfaces, node, connectors.drop_last());
        let last = connectors.last();
        if surfaces.contains_key((node, last.crtc)) && !crtcs_of(
            connectors.drop_last(),
        ).contains(last.crtc) {
            rest.push(last.id.name())
        } else {
            rest
        }
    }
}

/// The names under which outputs are forgotten when connectors are disconnected in turn.
pub open spec fn forgotten(
    surfaces: Map<(u64, u32), SurfaceData>,
    node: u64,
    connectors: Seq<DrivenConnector>,
) -> Set<Seq<char>>
    decreases connectors.len(),
{
    if connectors.len() == 0 {
        Set::empty()
    } else {
        let rest = forgotten(surfaces, node, connectors.drop_last());
        let last = connectors.last();
        if surfaces.contains_key((node, last.crtc)) && !crtcs_of(
            connectors.drop_last(),
        ).contains(last.crtc) {
            rest.union(Set::empty().insert(last.id.name()))
        } else {
            rest
        }
    }
}

/// A device is gone. The outputs of its `connectors` are disconnected in turn, and then the
/// device is taken away with whatever else it drove. The result are the outputs
/// that were disconnected; it is `None`, and nothing changes, when there is no such device.
/// Others are told afterwards that outputs have changed.
pub fn device_removed<C>(
    session: &mut TtySession,
    damage: &mut DamageState,
    records: &mut OutputRecords<C>,
    node: u64,
    connectors: &[DrivenConnector],
) -> (removed: Option<Vec<DisconnectedOutput>>)
    requires
        old(session).wf(),
    ensures
        final(session).wf(),
        removed is Some <==> old(session).has_node(node),
        removed is None ==> *final(session) == *old(session) && *final(damage) == *old(damage)
            && *final(records) == *old(records),
        forall|other: u64| #[trigger]
            final(session).has_node(other) <==> old(session).has_node(other) && other != node,
        final(session).surfaces() == old(session).surfaces().remove_keys(
            Set::new(|key: (u64, u32)| key.0 == node),
        ),
        *final(session) == (TtySession { backends: final(session).backends, ..*old(session) }),
        removed is Some ==> {
            &&& surfaces_of(removed->0@) == disconnected(
                old(session).surfaces(),
                node,
                crtcs_of(connectors@),
            )
            &&& names_of(removed->0@) == disconnected_names(
                old(session).surfaces(),
                node,
                connectors@,
            )
            &&& final(records)@ == old(records)@.without(
                forgotten(old(session).surfaces(), node, connectors@),
            )
            &&& forall|i: int|
                0 <= i < removed->0@.len() ==> (#[trigger] removed->0@[i]).is_followed_up()
            &&& removed->0@.len() == 0 ==> *final(damage) == *old(damage)
            &&& removed->0@.len() > 0 ==> decorations_cleared(*old(damage), *final(damage))
        },
{
    let ghost before = *session;
    let ghost node_keys = Set::new(|key: (u64, u32)| key.0 == node);
    if find_backend(session, node).is_none() {
        proof {
            assert forall|key: (u64, u32)| #[trigger] before.surfaces().contains_key(key) implies
                key.0 != node by {
                let (i, j) = choose|i: int, j: int| #[trigger] before.holds(key.0, key.1, i, j);
                assert(before.backends@[i].node == key.0);
            }
            assert(before.surfaces().remove_keys(node_keys) =~= before.surfaces());
        }
        return None;
    }
    let mut removed: Vec<DisconnectedOutput> = Vec::new();
    let mut index: usize = 0;
    let ghost crtcs = crtcs_of(connectors@);
    proof {
        assert(crtcs.take(0) =~= Seq::<u32>::empty());
        assert(connectors@.take(0) =~= Seq::<DrivenConnector>::empty());
        records::lemma_without_none(records@);
    }
    while index < connectors.len()
        invariant
            index <= connectors@.len(),
            crtcs == crtcs_of(connectors@),
            before == *old(session),
            records@ == old(records)@.without(
                forgotten(before.surfaces(), node, connectors@.take(index as int)),
            ),
            session.wf(),
            session.has_nodes_of(before),
            before.has_node(node),
            *session == (TtySession { backends: session.backends, ..before }),
            forall|key: (u64, u32)| #[trigger]
                session.surfaces().contains_key(key) <==> before.surfaces().contains_key(key) && !(
                key.0 == node && crtcs.take(index as int).contains(key.1)),
            forall|key: (u64, u32)| #[trigger]
                session.surfaces().contains_key(key) ==> session.surfaces()[key]
                    == before.surfaces()[key],
            surfaces_of(removed@) =~= disconnected(
                before.surfaces(),
                node,
                crtcs.take(index as int),
            ),
            names_of(removed@) =~= disconnected_names(
                before.surfaces(),
                node,
                connectors@.take(index as int),
            ),
            forall|i: int| 0 <= i < removed@.len() ==> (#[trigger] removed@[i]).is_followed_up(),
            removed@.len() == 0 ==> *damage == *old(damage),
            removed@.len() > 0 ==> decorations_cleared(*old(damage), *damage),
        decreases connectors@.len() - index,
    {
        let crtc: u32 = connectors[index].crtc;
        let ghost earlier = crtcs.take(index as int);
        let ghost later = crtcs.take(index + 1);
        proof {
            assert(connectors@.take(index + 1).drop_last() =~= connectors@.take(index as int));
            assert(crtcs_of(connectors@.take(index as int)) =~= earlier);
            records::lemma_without_twice(
                old(records)@,
                forgotten(before.surfaces(), node, connectors@.take(index as int)),
                Set::empty().insert(connectors@[index as int].id.name()),
            );
            assert(later.drop_last() =~= earlier);
            assert(later.last() == crtc);
            assert forall|c: u32| #[trigger] later.contains(c) <==> earlier.contains(c) || c
                == crtc by {
                if earlier.contains(c) {
                    let k = choose|k: int| 0 <= k < earlier.len() && earlier[k] == c;
                    assert(later[k] == c);
                }
                assert(later[index as int] == crtc);
                if later.contains(c) && c != crtc {
                    let k = choose|k: int| 0 <= k < later.len() && later[k] == c;
                    assert(earlier[k] == c);
                }
            }
        }
        match connector_disconnected(
            session,
            damage,
            records,
            node,
            crtc,
            &connectors[index].id,
        ) {
            Some(output) => {
                removed.push(output);
            },
            None => {},
        }
        index += 1;
    }
    assert(crtcs.take(crtcs.len() as int) =~= crtcs);
    assert(connectors@.take(connectors@.len() as int) =~= connectors@);
    remove_backend(session, node);
    assert(session.surfaces() =~= before.surfaces().remove_keys(node_keys));
    Some(removed)
}

impl TtySession {
    pub open spec fn in_range(self, b: int, s: int) -> bool {
        0 <= b < self.backends@.len() && 0 <= s < self.backends@[b].surfaces@.len()
    }

    /// The surface at these places drives the output of this name.
    pub open spec fn names(self, b: int, s: int, name: Seq<char>) -> bool {
        self.in_range(b, s) && self.backends@[b].surfaces@[s].output@ == name
    }

    /// One of the surfaces drives the output of this name.
    pub open spec fn has_output(self, name: Seq<char>) -> bool {
        exists|b: int, s: int| #[trigger] self.names(b, s, name)
    }

    /// As `names`, and no surface before it does.
    pub open spec fn names_first(self, b: int, s: int, name: Seq<char>) -> bool {
        &&& self.names(b, s, name)
        &&& forall|c: int, t: int|
            (c < b || (c == b && t < s)) ==> !#[trigger] self.names(c, t, name)
    }

    /// The output of this name offers a mode that clients see as `wanted`.
    pub open spec fn offers_mode(self, name: Seq<char>, wanted: WlMode) -> bool {
        exists|b: int, s: int| #[trigger]
            self.names_first(b, s, name) && offers(
                self.backends@[b].surfaces@[s].available_modes@,
                wanted,
            )
    }

    /// Every mode that the output of this name offers has a refresh rate.
    pub open spec fn modes_timed(self, name: Seq<char>) -> bool {
        forall|b: int, s: int| #[trigger]
            self.names_first(b, s, name) ==> modes::all_timed(
                self.backends@[b].surfaces@[s].available_modes@,
            )
    }

    /// Every mode that a search for `wanted` on the output of this name comes to has a
    /// refresh rate.
    pub open spec fn search_timed(self, name: Seq<char>, wanted: WlMode) -> bool {
        forall|b: int, s: int| #[trigger]
            self.names_first(b, s, name) ==> timed_until(
                self.backends@[b].surfaces@[s].available_modes@,
                wanted,
            )
    }
}

/// One of the modes is one that clients see as `wanted`.
pub open spec fn offers(modes: Seq<DrmMode>, wanted: WlMode) -> bool {
    exists|i: int| 0 <= i < modes.len() && (#[trigger] modes[i]).as_wl_mode() == wanted
}

/// The first surface that drives the output of this name.
pub fn find_output(session: &TtySession, output_name: &str) -> (place: Option<(usize, usize)>)
    ensures
        place is None ==> forall|b: int, s: int| !#[trigger] session.names(b, s, output_name@),
        place is Some <==> session.has_output(output_name@),
        place matches Some((b, s)) ==> session.names_first(b as int, s as int, output_name@),
{
    let mut b: usize = 0;
    while b < session.backends.len()
        invariant
            b <= session.backends@.len(),
            forall|c: int, t: int| c < b ==> !#[trigger] session.names(c, t, output_name@),
        decreases session.backends@.len() - b,
    {
        let mut s: usize = 0;
        while s < session.backends[b].surfaces.len()
            invariant
                b < session.backends@.len(),
                s <= session.backends@[b as int].surfaces@.len(),
                forall|c: int, t: int|
                    (c < b || (c == b && t < s)) ==> !#[trigger] session.names(c, t, output_name@),
            decreases session.backends@[b as int].surfaces@.len() - s,
        {
            if table::str_eq(session.backends[b].surfaces[s].output.as_str(), output_name) {
                assert(session.names(b as int, s as int, output_name@));
                return Some((b, s));
            }
            s += 1;
        }
        b += 1;
    }
    None
}

pub open spec fn wl_modes(modes: Seq<DrmMode>) -> Seq<WlMode> {
    modes.map_values(|mode: DrmMode| mode.as_wl_mode())
}

/// The modes of the output of this name, as clients see them; `None` when there is no
/// such output.
pub fn tty_output_available_modes(session: &TtySession, output_name: &str) -> (modes: Option<
    Vec<WlMode>,
>)
    requires
        session.modes_timed(output_name@),
    ensures
        modes is None <==> forall|b: int, s: int| !#[trigger] session.names(b, s, output_name@),
        modes is Some <==> session.has_output(output_name@),
        modes matches Some(modes) ==> exists|b: int, s: int| #[trigger]
            session.names_first(b, s, output_name@) && modes@ == wl_modes(
                session.backends@[b].surfaces@[s].available_modes@,
            ),
{
    match find_output(session, output_name) {
        None => None,
        Some((b, s)) => {
            let available: &Vec<DrmMode> = &session.backends[b].surfaces[s].available_modes;
            assert(session.names(b as int, s as int, output_name@));
            assert(session.in_range(b as int, s as int));
            let mut modes: Vec<WlMode> = Vec::new();
            let mut index: usize = 0;
            while index < available.len()
                invariant
                    index <= available@.len(),
                    modes::all_timed(available@),
                    modes@ =~= wl_modes(available@.take(index as int)),
                decreases available@.len() - index,
            {
                modes.push(available[index].wl_mode());
                index += 1;
            }
            assert(available@.take(available@.len() as int) =~= available@);
            Some(modes)
        },
    }
}

/// The surfaces of all devices, one device after the other.
pub open spec fn surfaces_in_order(backends: Seq<BackendData>) -> Seq<SurfaceData>
    decreases backends.len(),
{
    if backends.len() == 0 {
        Seq::empty()
    } else {
        surfaces_in_order(backends.drop_last()) + backends.last().surfaces@
    }
}

/// The names of the connected outputs.
pub fn tty_connected_outputs(session: &TtySession) -> (outputs: Vec<String>)
    ensures
        outputs@ == surfaces_in_order(session.backends@).map_values(
            |surface: SurfaceData| surface.output,
        ),
{
    let ghost name_of = |surface: SurfaceData| surface.output;
    let mut outputs: Vec<String> = Vec::new();
    let mut b: usize = 0;
    while b < session.backends.len()
        invariant
            b <= session.backends@.len(),
            name_of == (|surface: SurfaceData| surface.output),
            outputs@ =~= surfaces_in_order(session.backends@.take(b as int)).map_values(name_of),
        decreases session.backends@.len() - b,
    {
        let surfaces: &Vec<SurfaceData> = &session.backends[b].surfaces;
        let ghost done = surfaces_in_order(session.backends@.take(b as int));
        let mut s: usize = 0;
        while s < surfaces.len()
            invariant
                s <= surfaces@.len(),
                name_of == (|surface: SurfaceData| surface.output),
                outputs@ =~= (done + surfaces@.take(s as int)).map_values(name_of),
            decreases surfaces@.len() - s,
        {
            outputs.push(surfaces[s].output.clone());
            s += 1;
        }
        proof {
            assert(surfaces@.take(surfaces@.len() as int) =~= surfaces@);
            assert(session.backends@.take(b + 1).drop_last() =~= session.backends@.take(b as int));
        }
        b += 1;
    }
    assert(session.backends@.take(session.backends@.len() as int) =~= session.backends@);
    outputs
}

/// The mode to switch an output to, and where the surface of the output stands.
#[derive(Clone, Copy, Debug, PartialEq, Eq, Structural)]
pub struct ModeSwitch {
    pub backend: usize,
    pub surface: usize,
    pub mode: DrmMode,
}

/// The modes up to the first one that clients see as `wanted` have refresh rates.
pub open spec fn timed_until(modes: Seq<DrmMode>, wanted: WlMode) -> bool {
    forall|i: int|
        0 <= i < modes.len() && (forall|j: int|
            0 <= j < i ==> (#[trigger] modes[j]).as_wl_mode() != wanted) ==> (
        #[trigger] modes[i]).is_timed()
}

/// The first of `modes` that clients see as `wanted`.
pub open spec fn is_first_match(modes: Seq<DrmMode>, wanted: WlMode, i: int) -> bool {
    &&& 0 <= i < modes.len()
    &&& modes[i].as_wl_mode() == wanted
    &&& forall|j: int| 0 <= j < i ==> (#[trigger] modes[j]).as_wl_mode() != wanted
}

/// Finds how to switch the output of this name to `mode`; `None` when there is no such
/// output or it does not offer the mode.
pub fn plan_tty_output_mode(session: &TtySession, output_name: &str, mode: WlMode) -> (plan: Option<
    ModeSwitch,
>)
    requires
        session.search_timed(output_name@, mode),
    ensures
        plan is None ==> forall|b: int, s: int| #[trigger]
            session.names_first(b, s, output_name@) ==> forall|i: int|
                0 <= i < session.backends@[b].surfaces@[s].available_modes@.len() ==> (
                #[trigger] session.backends@[b].surfaces@[s].available_modes@[i]).as_wl_mode()
                    != mode,
        plan is Some <==> session.offers_mode(output_name@, mode),
        plan matches Some(plan) ==> session.names_first(
            plan.backend as int,
            plan.surface as int,
            output_name@,
        ) && exists|i: int|
            is_first_match(
                session.backends@[plan.backend as int].surfaces@[plan.surface as int].available_modes@,
                mode,
                i,
            ) && plan.mode
                == #[trigger] session.backends@[plan.backend as int].surfaces@[plan.surface as int].available_modes@[i],
{
    match find_output(session, output_name) {
        None => {
            proof {
                assert forall|b: int, s: int| !#[trigger] session.names_first(
                    b,
                    s,
                    output_name@,
                ) by {
                    assert(!session.names(b, s, output_name@));
                }
            }
            None
        },
        Some((b, s)) => {
            let available: &Vec<DrmMode> = &session.backends[b].surfaces[s].available_modes;
            assert(session.names(b as int, s as int, output_name@));
            assert(session.in_range(b as int, s as int));
            let mut index: usize = 0;
            while index < available.len()
                invariant
                    index <= available@.len(),
                    timed_until(available@, mode),
                    forall|j: int| 0 <= j < index ==> (#[trigger] available@[j]).as_wl_mode() != mode,
                    b < session.backends@.len(),
                    s < session.backends@[b as int].surfaces@.len(),
                    *available == session.backends@[b as int].surfaces@[s as int].available_modes,
                    session.names_first(b as int, s as int, output_name@),
                decreases available@.len() - index,
            {
                if available[index].wl_mode() == mode {
                    assert(is_first_match(available@, mode, index as int));
                    assert(offers(available@, mode));
                    return Some(ModeSwitch { backend: b, surface: s, mode: available[index] });
                }
                index += 1;
            }
            proof {
                assert forall|c: int, t: int| #[trigger]
                    session.names_first(c, t, output_name@) implies c == b && t == s by {
                    assert(session.names(c, t, output_name@));
                    assert(session.names(b as int, s as int, output_name@));
                }
            }
            None
        },
    }
}

/// The output was switched to another mode: it is redrawn, and its frames last as long as
/// the mode says.
pub fn apply_tty_output_mode(surface: &mut SurfaceData, frame_duration: Nanos)
    ensures
        *final(surface) == (SurfaceData {
            frame_duration,
            redraw_state: TtyRedrawState::Queued,
            ..*old(surface)
        }),
{
    surface.frame_duration = frame_duration;
    surface.redraw_state = TtyRedrawState::Queued;
}

/// Starts a pass over all outputs when a redraw is wanted and the session is active; every
/// output then has a redraw queued. The result tells whether to go through the outputs.
pub fn render_if_needed(session: &mut TtySession) -> (render: bool)
    ensures
        render == (old(session).needs_redraw && old(session).session_active),
        !render ==> *final(session) == *old(session),
        render ==> redraw::backends_changed(
            old(session).backends@,
            final(session).backends@,
            redraw::SurfaceChange::QueueRedraw,
        ) && *final(session) == (TtySession {
            backends: final(session).backends,
            needs_redraw: false,
            ..*old(session)
        }),
{
    if !session.needs_redraw || !session.session_active {
        return false;
    }
    session.needs_redraw = false;
    redraw::queue_tty_redraws(session);
    true
}

/// The surfaces of a device by device and controller.
pub open spec fn keys_of(backend: BackendData) -> Seq<(u64, u32)> {
    backend.surfaces@.map_values(|surface: SurfaceData| (backend.node, surface.crtc))
}

/// All surfaces by device and controller, one device after the other.
pub open spec fn all_keys(backends: Seq<BackendData>) -> Seq<(u64, u32)>
    decreases backends.len(),
{
    if backends.len() == 0 {
        Seq::empty()
    } else {
        all_keys(backends.drop_last()) + keys_of(backends.last())
    }
}

/// The surfaces that a pass over all outputs renders in turn.
pub fn surfaces_to_render(session: &TtySession) -> (keys: Vec<(u64, u32)>)
    ensures
        keys@ == all_keys(session.backends@),
{
    let mut keys: Vec<(u64, u32)> = Vec::new();
    let mut b: usize = 0;
    assert(session.backends@.take(0) =~= Seq::<BackendData>::empty());
    while b < session.backends.len()
        invariant
            b <= session.backends@.len(),
            keys@ == all_keys(session.backends@.take(b as int)),
        decreases session.backends@.len() - b,
    {
        let backend: &BackendData = &session.backends[b];
        let ghost done = keys@;
        let mut s: usize = 0;
        assert(keys_of(*backend).take(0) =~= Seq::<(u64, u32)>::empty());
        while s < backend.surfaces.len()
            invariant
                s <= backend.surfaces@.len(),
                keys@ =~= done + keys_of(*backend).take(s as int),
            decreases backend.surfaces@.len() - s,
        {
            keys.push((backend.node, backend.surfaces[s].crtc));
            s += 1;
        }
        proof {
            assert(keys_of(*backend).take(backend.surfaces@.len() as int) =~= keys_of(*backend));
            assert(session.backends@.take(b + 1).drop_last() =~= session.backends@.take(b as int));
            assert(session.backends@.take(b + 1).last() == *backend);
        }
        b += 1;
    }
    assert(session.backends@.take(session.backends@.len() as int) =~= session.backends@);
    keys
}

/// A pass over all outputs leaves no surface out.
pub proof fn law_passes_reach_every_surface(session: TtySession, key: (u64, u32))
    ensures
        all_keys(session.backends@).contains(key) <==> session.surfaces().contains_key(key),
{
    lemma_keys_are_places(session.backends@, key);
    if session.surfaces().contains_key(key) {
        let (b, s) = choose|b: int, s: int| #[trigger] session.holds(key.0, key.1, b, s);
        assert(is_key_at(session.backends@, key, b, s));
    }
    if all_keys(session.backends@).contains(key) {
        let (b, s) = choose|b: int, s: int| #[trigger] is_key_at(session.backends@, key, b, s);
        assert(session.holds(key.0, key.1, b, s));
    }
}

spec fn is_key_at(backends: Seq<BackendData>, key: (u64, u32), b: int, s: int) -> bool {
    &&& 0 <= b < backends.len()
    &&& 0 <= s < backends[b].surfaces@.len()
    &&& key == (backends[b].node, backends[b].surfaces@[s].crtc)
}

proof fn lemma_keys_are_places(backends: Seq<BackendData>, key: (u64, u32))
    ensures
        all_keys(backends).contains(key) <==> exists|b: int, s: int| #[trigger]
            is_key_at(backends, key, b, s),
    decreases backends.len(),
{
    if backends.len() > 0 {
        let init = backends.drop_last();
        let last = backends.last();
        lemma_keys_are_places(init, key);
        if all_keys(backends).contains(key) {
            let i = choose|i: int| 0 <= i < all_keys(backends).len() && all_keys(backends)[i] == key;
            if i < all_keys(init).len() {
                assert(all_keys(init)[i] == key);
                let (b, s) = choose|b: int, s: int| #[trigger] is_key_at(init, key, b, s);
                assert(is_key_at(backends, key, b, s));
            } else {
                let s = i - all_keys(init).len();
                assert(keys_of(last)[s] == key);
                assert(is_key_at(backends, key, backends.len() - 1, s));
            }
        }
        if exists|b: int, s: int| #[trigger] is_key_at(backends, key, b, s) {
            let (b, s) = choose|b: int, s: int| #[trigger] is_key_at(backends, key, b, s);
            if b < init.len() {
                assert(is_key_at(init, key, b, s));
                let i = choose|i: int| 0 <= i < all_keys(init).len() && all_keys(init)[i] == key;
                assert(all_keys(backends)[i] == key);
            } else {
                assert(keys_of(last)[s] == key);
                assert(all_keys(backends)[all_keys(init).len() + s] == key);
            }
        }
    }
}

/// Notes what became of rendering one surface: the output of a surface that was processed
/// is among those that are finished after the pass.
pub fn note_outcome(
    processed: &mut Vec<String>,
    session: &TtySession,
    node: u64,
    crtc: u32,
    outcome: RenderSurfaceOutcome,
)
    requires
        session.wf(),
        session.surfaces().contains_key((node, crtc)),
    ensures
        final(processed)@ == (match outcome {
            RenderSurfaceOutcome::Skipped => old(processed)@,
            RenderSurfaceOutcome::Processed => old(processed)@.push(
                session.surfaces()[(node, crtc)].output,
            ),
        }),
{
    match outcome {
        RenderSurfaceOutcome::Skipped => {},
        RenderSurfaceOutcome::Processed => match find_surface(session, node, crtc) {
            Some((b, s)) => {
                processed.push(session.backends[b].surfaces[s].output.clone());
            },
            None => {},
        },
    }
}

/// A pause, a resume or a request for a redraw reaches every surface of the session, and
/// neither adds nor removes one.
pub proof fn law_changes_reach_every_surface(
    before: TtySession,
    after: TtySession,
    change: redraw::SurfaceChange,
    node: u64,
    crtc: u32,
)
    requires
        before.wf(),
        redraw::backends_changed(before.backends@, after.backends@, change),
    ensures
        after.wf(),
        after.has_nodes_of(before),
        after.surfaces().contains_key((node, crtc)) <==> before.surfaces().contains_key(
            (node, crtc),
        ),
        before.surfaces().contains_key((node, crtc)) ==> after.surfaces()[(node, crtc)]
            == before.surfaces()[(node, crtc)].changed(change),
{
    assert forall|other: u64| #[trigger] after.has_node(other) <==> before.has_node(other) by {
        if after.has_node(other) {
            let i = choose|i: int|
                0 <= i < after.backends@.len() && (#[trigger] after.backends@[i]).node == other;
            assert(before.backends@[i].node == other);
        }
        if before.has_node(other) {
            let i = choose|i: int|
                0 <= i < before.backends@.len() && (#[trigger] before.backends@[i]).node == other;
            assert(after.backends@[i].node == other);
        }
    }
    assert forall|i: int, j: int| 0 <= i < j < after.backends@.len() implies (
    #[trigger] after.backends@[i]).node != (#[trigger] after.backends@[j]).node by {
        assert(before.backends@[i].node != before.backends@[j].node);
    }
    assert forall|i: int| 0 <= i < after.backends@.len() implies distinct_crtcs(
        (#[trigger] after.backends@[i]).surfaces@,
    ) by {
        assert(distinct_crtcs(before.backends@[i].surfaces@));
        let kept = before.backends@[i].surfaces@;
        let changed = after.backends@[i].surfaces@;
        assert forall|a: int, b: int| 0 <= a < b < changed.len() implies (#[trigger] changed[a]).crtc
            != (#[trigger] changed[b]).crtc by {
            assert(kept[a].crtc != kept[b].crtc);
        }
    }
    assert forall|b: int, s: int| #[trigger] after.holds(node, crtc, b, s) <==> before.holds(
        node,
        crtc,
        b,
        s,
    ) by {
        if 0 <= b < after.backends@.len() {
            assert(after.backends@[b].node == before.backends@[b].node);
            if 0 <= s < after.backends@[b].surfaces@.len() {
                assert(after.backends@[b].surfaces@[s].crtc
                    == before.backends@[b].surfaces@[s].crtc);
            }
        }
    }
    let key = (node, crtc);
    if after.surfaces().contains_key(key) {
        let (b, s) = choose|b: int, s: int| #[trigger] after.holds(key.0, key.1, b, s);
        assert(before.holds(key.0, key.1, b, s));
    }
    if before.surfaces().contains_key(key) {
        let (b, s) = choose|b: int, s: int| #[trigger] before.holds(key.0, key.1, b, s);
        assert(after.holds(key.0, key.1, b, s));
        lemma_surface_at(before, node, crtc, b, s);
        lemma_surface_at(after, node, crtc, b, s);
        assert(after.backends@[b].node == node);
    }
}

/// What follows a render that a finished frame has started.
#[derive(Clone, Copy, Debug, PartialEq, Eq, Structural)]
pub enum FollowUpRender {
    /// Finish the output.
    Finish,
    Nothing,
    /// Try again with all outputs.
    ScheduleRedraw,
}

pub fn render_queued_surface_after_frame_finish(
    outcome: Result<RenderSurfaceOutcome, ()>,
) -> (next: FollowUpRender)
    ensures
        next == (match outcome {
            Ok(RenderSurfaceOutcome::Processed) => FollowUpRender::Finish,
            Ok(RenderSurfaceOutcome::Skipped) => FollowUpRender::Nothing,
            Err(_) => FollowUpRender::ScheduleRedraw,
        }),
{
    match outcome {
        Ok(RenderSurfaceOutcome::Processed) => FollowUpRender::Finish,
        Ok(RenderSurfaceOutcome::Skipped) => FollowUpRender::Nothing,
        Err(_) => FollowUpRender::ScheduleRedraw,
    }
}

/// A device is found exactly if it is part of the session, and an output exactly if its
/// controller drives one; what is found is what was looked for.
pub proof fn law_devices_and_surfaces_are_found(
    session: &TtySession,
    node: u64,
    crtc: u32,
    backend: Option<usize>,
    place: Option<(usize, usize)>,
    b: int,
    s: int,
)
    requires
        session.wf(),
        call_ensures(find_backend, (session, node), backend),
        call_ensures(find_surface, (session, node, crtc), place),
    ensures
        backend is Some ==> backend->0 < session.backends@.len()
            && session.backends@[backend->0 as int].node == node,
        0 <= b < session.backends@.len() && session.backends@[b].node == node ==> backend is Some,
        place is Some ==> session.holds(node, crtc, (place->0).0 as int, (place->0).1 as int),
        0 <= b < session.backends@.len() && session.backends@[b].node == node && 0 <= s
            < session.backends@[b].surfaces@.len() && session.backends@[b].surfaces@[s].crtc == crtc
            ==> place is Some,
{
    if 0 <= b < session.backends@.len() && session.backends@[b].node == node && 0 <= s
        < session.backends@[b].surfaces@.len() && session.backends@[b].surfaces@[s].crtc == crtc {
        assert(session.holds(node, crtc, b, s));
        lemma_surface_at(*session, node, crtc, b, s);
    }
}

/// What a session holds for a controller of a device is the surface that stands there.
pub proof fn law_sessions_hold_their_surfaces(session: TtySession, b: int, s: int)
    requires
        session.wf(),
        session.in_range(b, s),
    ensures
        ({
            let key = (session.backends@[b].node, session.backends@[b].surfaces@[s].crtc);
            session.surfaces().contains_key(key) && session.surfaces()[key]
                == session.backends@[b].surfaces@[s]
        }),
{
    let node = session.backends@[b].node;
    let crtc = session.backends@[b].surfaces@[s].crtc;
    assert(session.holds(node, crtc, b, s));
    lemma_surface_at(session, node, crtc, b, s);
}

/// A surface that is put in place is the one of its controller, and one that is taken away is
/// handed out; no other surface changes, and no device comes or goes.
pub proof fn law_surfaces_come_and_go(
    added: &mut TtySession,
    removed: &mut TtySession,
    node: u64,
    crtc: u32,
    surface: SurfaceData,
    gone: Option<SurfaceData>,
    other: (u64, u32),
)
    requires
        call_ensures(insert_surface, (added, node, surface), ()),
        call_ensures(remove_surface, (removed, node, crtc), gone),
    ensures
        final(added).surfaces().contains_key((node, surface.crtc)),
        final(added).surfaces()[(node, surface.crtc)] == surface,
        other != (node, surface.crtc) ==> final(added).surfaces().contains_key(other) == old(
            added).surfaces().contains_key(other) && final(added).surfaces()[other] == old(
            added).surfaces()[other],
        !final(removed).surfaces().contains_key((node, crtc)),
        gone is Some <==> old(removed).surfaces().contains_key((node, crtc)),
        gone is Some ==> gone->0 == old(removed).surfaces()[(node, crtc)],
        other != (node, crtc) ==> final(removed).surfaces().contains_key(other) == old(
            removed).surfaces().contains_key(other) && final(removed).surfaces()[other] == old(
            removed).surfaces()[other],
        final(added).has_node(other.0) <==> old(added).has_node(other.0),
        final(removed).has_node(other.0) <==> old(removed).has_node(other.0),
        final(added).session_active == old(added).session_active && final(added).needs_redraw
            == old(added).needs_redraw && final(added).force_full_damage == old(
            added).force_full_damage,
{
}

/// Outputs of one kind are told apart by their numbers.
pub proof fn law_output_names_are_told_apart(
    interface: &str,
    a: u32,
    b: u32,
    a_name: String,
    b_name: String,
)
    requires
        call_ensures(output_name, (interface, a), a_name),
        call_ensures(output_name, (interface, b), b_name),
    ensures
        a_name@ == b_name@ <==> a == b,
        a_name@ == interface@ + seq!['-'] + text::decimal(a as int),
{
    if a_name@ == b_name@ {
        let n = (interface@.len() + 1) as int;
        assert(a_name@.skip(n) =~= text::decimal(a as int));
        assert(b_name@.skip(n) =~= text::decimal(b as int));
        text::law_decimal_is_injective(a as int, b as int);
    }
}

/// A newly connected output is driven with the mode that the preference selects, and not at all
/// if the configuration keeps it unused.
pub proof fn law_modes_of_new_outputs(
    allowed: bool,
    modes: &[DrmMode],
    preference: &DisplayModePreference,
    mode: Option<DrmMode>,
    selected: DrmMode,
)
    requires
        call_ensures(connector_mode, (allowed, modes, preference), mode),
        call_ensures(modes::select_output_mode, (modes, preference), selected),
    ensures
        !allowed ==> mode is None,
        allowed ==> mode == Some(selected),
{
    if allowed {
        let i = choose|i: int|
            modes::is_selected(modes@, *preference, i) && mode->0 == #[trigger] modes@[i];
        let j = choose|j: int|
            modes::is_selected(modes@, *preference, j) && selected == #[trigger] modes@[j];
        modes::law_selection_is_unique(modes@, *preference, i, j);
    }
}

/// A connected output has its surface, with its first redraw queued, and what follows is done:
/// the configuration is applied, others are told, and a redraw is scheduled. Other outputs stay.
pub proof fn law_connected_outputs(
    session: &mut TtySession,
    node: u64,
    crtc: u32,
    output: String,
    modes: Vec<DrmMode>,
    frame_duration: Nanos,
    supports_async_flip: bool,
    actions: Vec<TtyAction>,
    other: (u64, u32),
)
    requires
        call_ensures(
            connector_connected,
            (session, node, crtc, output, modes, frame_duration, supports_async_flip),
            actions,
        ),
    ensures
        final(session).surfaces().contains_key((node, crtc)),
        ({
            let surface = final(session).surfaces()[(node, crtc)];
            &&& surface.crtc == crtc
            &&& surface.output == output
            &&& surface.available_modes == modes
            &&& surface.frame_duration == frame_duration
            &&& surface.supports_async_flip == supports_async_flip
            &&& surface.redraw_state == TtyRedrawState::Queued
            &&& !surface.frame_pending
        }),
        other != (node, crtc) ==> final(session).surfaces().contains_key(other) == old(
            session).surfaces().contains_key(other) && final(session).surfaces()[other] == old(
            session).surfaces()[other],
        actions@.contains(TtyAction::ApplyDisplayConfiguration),
        actions@.contains(TtyAction::NotifyOutputsChanged),
        actions@.contains(TtyAction::ScheduleRedraw),
{
    assert(actions@[0] == TtyAction::ApplyDisplayConfiguration);
    assert(actions@[1] == TtyAction::NotifyOutputsChanged);
    assert(actions@[2] == TtyAction::ScheduleRedraw);
}

/// A disconnected output is gone, and with it what is kept under the name of its connector and
/// the damage of decorations. Other outputs, what is kept of them, and other damage stay. Where
/// there was no output nothing changes.
pub proof fn law_disconnected_outputs<C>(
    session: &mut TtySession,
    damage: &mut DamageState,
    records: &mut OutputRecords<C>,
    node: u64,
    crtc: u32,
    connector: &ConnectorId,
    removed: Option<DisconnectedOutput>,
    other: (u64, u32),
    name: Seq<char>,
)
    requires
        call_ensures(
            connector_disconnected::<C>,
            (session, damage, records, node, crtc, connector),
            removed,
        ),
    ensures
        removed is Some <==> old(session).surfaces().contains_key((node, crtc)),
        !final(session).surfaces().contains_key((node, crtc)),
        removed is Some ==> {
            &&& removed->0.surface == old(session).surfaces()[(node, crtc)]
            &&& removed->0.name@ == connector.interface@ + seq!['-'] + text::decimal(
                connector.interface_id as int,
            )
            &&& !final(records)@.knows(removed->0.name@)
            &&& final(damage).pending_decoration@.len() == 0
            &&& removed->0.actions@.contains(TtyAction::ApplyDisplayConfiguration)
            &&& removed->0.actions@.contains(TtyAction::NotifyOutputsChanged)
            &&& name != removed->0.name@ ==> final(records)@.knows(name) == old(records)@.knows(
                name,
            )
        },
        removed is None ==> *final(damage) == *old(damage) && *final(records) == *old(records),
        final(damage).window_source == old(damage).window_source,
        final(damage).lower_layer_source == old(damage).lower_layer_source,
        final(damage).upper_layer_source == old(damage).upper_layer_source,
        other != (node, crtc) ==> final(session).surfaces().contains_key(other) == old(
            session).surfaces().contains_key(other) && final(session).surfaces()[other] == old(
            session).surfaces()[other],
{
    if removed is Some {
        assert(removed->0.actions@[0] == TtyAction::ApplyDisplayConfiguration);
        assert(removed->0.actions@[1] == TtyAction::NotifyOutputsChanged);
        if name != removed->0.name@ {
            crate::records::law_forgetting_concerns_one_output(
                old(records)@,
                removed->0.name@,
                name,
            );
        }
    }
}

/// What is done about a connector: what the scan says of it, unless nothing drives it.
pub proof fn law_steps_of_a_scan(event: ScanEvent, step: ScanStep, crtc: u32)
    requires
        call_ensures(scan_step, (event,), step),
    ensures
        event == (ScanEvent::Connected { crtc: Some(crtc) }) ==> step == (ScanStep::Connect {
            crtc,
        }),
        event == (ScanEvent::Disconnected { crtc: Some(crtc) }) ==> step == (ScanStep::Disconnect {
            crtc,
        }),
        event == (ScanEvent::Changed { crtc: Some(crtc) }) ==> step == (ScanStep::UpdateModes {
            crtc,
        }),
        event == (ScanEvent::Connected { crtc: None }) || event == (ScanEvent::Disconnected {
            crtc: None,
        }) || event == (ScanEvent::Changed { crtc: None }) ==> step == ScanStep::Ignore,
{
}

/// When a device is added, every connector that is found connected and can be driven is
/// connected, in order, and no other.
pub proof fn law_connectors_of_new_devices(
    events: &[ScanEvent],
    longer: &[ScanEvent],
    event: ScanEvent,
    crtcs: Vec<u32>,
    longer_crtcs: Vec<u32>,
    crtc: u32,
)
    requires
        call_ensures(device_added, (events,), crtcs),
        call_ensures(device_added, (longer,), longer_crtcs),
        longer@ == events@.push(event),
    ensures
        events@.len() == 0 ==> crtcs@.len() == 0,
        event == (ScanEvent::Connected { crtc: Some(crtc) }) ==> longer_crtcs@ == crtcs@.push(crtc),
        !(event is Connected) || event == (ScanEvent::Connected { crtc: None }) ==> longer_crtcs@
            == crtcs@,
{
    assert(longer@.drop_last() =~= events@);
}

/// When the connectors of a device have changed, there is a step for each, in order, and others
/// are told exactly if something is to be done.
pub proof fn law_changes_of_devices(events: &[ScanEvent], change: DeviceChange, i: int, crtc: u32)
    requires
        call_ensures(device_changed, (events,), change),
    ensures
        change.steps@.len() == events@.len(),
        0 <= i < events@.len() && events@[i] == (ScanEvent::Connected { crtc: Some(crtc) })
            ==> change.steps@[i] == (ScanStep::Connect { crtc }) && change.notify,
        0 <= i < events@.len() && events@[i] == (ScanEvent::Disconnected { crtc: Some(crtc) })
            ==> change.steps@[i] == (ScanStep::Disconnect { crtc }) && change.notify,
        0 <= i < events@.len() && events@[i] == (ScanEvent::Changed { crtc: Some(crtc) })
            ==> change.steps@[i] == (ScanStep::UpdateModes { crtc }) && change.notify,
        (forall|k: int| 0 <= k < change.steps@.len() ==> #[trigger] change.steps@[k] is Ignore)
            ==> !change.notify,
{
    if 0 <= i < events@.len() {
        assert(change.steps@[i] == step_of(events@[i]));
    }
    if change.notify {
        let k = choose|k: int|
            0 <= k < events@.len() && step_of(#[trigger] events@[k]) != ScanStep::Ignore;
        assert(change.steps@[k] == step_of(events@[k]));
    }
}

/// The modes of an output are replaced and nothing else of it; other outputs stay.
pub proof fn law_updated_modes(
    session: &mut TtySession,
    node: u64,
    crtc: u32,
    modes: Vec<DrmMode>,
    known: bool,
    other: (u64, u32),
)
    requires
        call_ensures(update_available_modes, (session, node, crtc, modes), known),
    ensures
        known <==> old(session).surfaces().contains_key((node, crtc)),
        known ==> {
            let before = old(session).surfaces()[(node, crtc)];
            let after = final(session).surfaces()[(node, crtc)];
            &&& after.available_modes == modes
            &&& after == (SurfaceData { available_modes: modes, ..before })
        },
        !known ==> final(session).surfaces() == old(session).surfaces(),
        other != (node, crtc) ==> final(session).surfaces().contains_key(other) == old(
            session).surfaces().contains_key(other) && final(session).surfaces()[other] == old(
            session).surfaces()[other],
{
}

/// A device that joins drives nothing yet, and one that leaves takes all of its outputs with it;
/// other devices keep theirs.
pub proof fn law_devices_come_and_go(
    added: &mut TtySession,
    removed: &mut TtySession,
    node: u64,
    gone: Option<BackendData>,
    other: u64,
    crtc: u32,
)
    requires
        call_ensures(add_backend, (added, node), ()),
        call_ensures(remove_backend, (removed, node), gone),
    ensures
        final(added).has_node(node),
        !final(added).surfaces().contains_key((node, crtc)),
        other != node ==> (final(added).has_node(other) <==> old(added).has_node(other)),
        other != node ==> final(added).surfaces().contains_key((other, crtc)) == old(
            added).surfaces().contains_key((other, crtc)),
        other != node && old(added).surfaces().contains_key((other, crtc)) ==> final(
            added).surfaces()[(other, crtc)] == old(added).surfaces()[(other, crtc)],
        !final(removed).has_node(node),
        !final(removed).surfaces().contains_key((node, crtc)),
        gone is Some <==> old(removed).has_node(node),
        gone is Some ==> gone->0.node == node,
        other != node ==> (final(removed).has_node(other) <==> old(removed).has_node(other)),
        other != node ==> final(removed).surfaces().contains_key((other, crtc)) == old(
            removed).surfaces().contains_key((other, crtc)),
        other != node && old(removed).surfaces().contains_key((other, crtc)) ==> final(
            removed).surfaces()[(other, crtc)] == old(removed).surfaces()[(other, crtc)],
{
}

proof fn lemma_disconnected_names_are_forgotten(
    surfaces: Map<(u64, u32), SurfaceData>,
    node: u64,
    connectors: Seq<DrivenConnector>,
    j: int,
)
    requires
        0 <= j < connectors.len(),
        surfaces.contains_key((node, connectors[j].crtc)),
        forall|k: int| 0 <= k < j ==> (#[trigger] connectors[k]).crtc != connectors[j].crtc,
    ensures
        forgotten(surfaces, node, connectors).contains(connectors[j].id.name()),
        disconnected_names(surfaces, node, connectors).contains(connectors[j].id.name()),
        disconnected(surfaces, node, crtcs_of(connectors)).contains(
            surfaces[(node, connectors[j].crtc)],
        ),
    decreases connectors.len(),
{
    let init = connectors.drop_last();
    let last = connectors.last();
    let crtcs = crtcs_of(connectors);
    assert(crtcs.drop_last() =~= crtcs_of(init));
    assert(crtcs.last() == last.crtc);
    let names = disconnected_names(surfaces, node, connectors);
    let rest_names = disconnected_names(surfaces, node, init);
    let gone = disconnected(surfaces, node, crtcs);
    let rest_gone = disconnected(surfaces, node, crtcs_of(init));
    if j == connectors.len() - 1 {
        if crtcs_of(init).contains(last.crtc) {
            let k = choose|k: int| 0 <= k < crtcs_of(init).len() && crtcs_of(init)[k] == last.crtc;
            assert(connectors[k].crtc == connectors[j].crtc);
        }
        assert(names == rest_names.push(last.id.name()));
        assert(names[rest_names.len() as int] == last.id.name());
        assert(gone == rest_gone.push(surfaces[(node, last.crtc)]));
        assert(gone[rest_gone.len() as int] == surfaces[(node, last.crtc)]);
    } else {
        assert(init[j] == connectors[j]);
        assert forall|k: int| 0 <= k < j implies (#[trigger] init[k]).crtc != init[j].crtc by {
            assert(connectors[k].crtc != connectors[j].crtc);
        }
        lemma_disconnected_names_are_forgotten(surfaces, node, init, j);
        let p = choose|p: int| 0 <= p < rest_names.len() && rest_names[p]
            == connectors[j].id.name();
        assert(names[p] == connectors[j].id.name());
        let q = choose|q: int| 0 <= q < rest_gone.len() && rest_gone[q] == surfaces[(
            node,
            connectors[j].crtc,
        )];
        assert(gone[q] == surfaces[(node, connectors[j].crtc)]);
    }
}

proof fn lemma_only_driven_outputs_are_forgotten(
    surfaces: Map<(u64, u32), SurfaceData>,
    node: u64,
    connectors: Seq<DrivenConnector>,
    name: Seq<char>,
)
    requires
        forall|k: int|
            0 <= k < connectors.len() && surfaces.contains_key(
                (node, (#[trigger] connectors[k]).crtc),
            ) ==> connectors[k].id.name() != name,
    ensures
        !forgotten(surfaces, node, connectors).contains(name),
    decreases connectors.len(),
{
    if connectors.len() > 0 {
        let init = connectors.drop_last();
        assert forall|k: int|
            0 <= k < init.len() && surfaces.contains_key(
                (node, (#[trigger] init[k]).crtc),
            ) implies init[k].id.name() != name by {
            assert(init[k] == connectors[k]);
        }
        lemma_only_driven_outputs_are_forgotten(surfaces, node, init, name);
        assert(connectors.last() == connectors[connectors.len() - 1]);
    }
}

/// When a device is gone, every connector of it that drove an output is reported with its
/// surface, under its name, and nothing is kept under that name; what is kept of other outputs
/// stays. Nothing of the device is left, and other devices keep their outputs.
pub proof fn law_removed_devices<C>(
    session: &mut TtySession,
    damage: &mut DamageState,
    records: &mut OutputRecords<C>,
    node: u64,
    connectors: &[DrivenConnector],
    removed: Option<Vec<DisconnectedOutput>>,
    j: int,
    other: u64,
    crtc: u32,
    name: Seq<char>,
)
    requires
        call_ensures(
            device_removed::<C>,
            (session, damage, records, node, connectors),
            removed,
        ),
        old(session).wf(),
    ensures
        removed is Some <==> old(session).has_node(node),
        removed is None ==> *final(session) == *old(session) && *final(damage) == *old(damage)
            && *final(records) == *old(records),
        !final(session).has_node(node),
        !final(session).surfaces().contains_key((node, crtc)),
        other != node ==> (final(session).has_node(other) <==> old(session).has_node(other))
            && final(session).surfaces().contains_key((other, crtc)) == old(
            session).surfaces().contains_key((other, crtc)),
        other != node && old(session).surfaces().contains_key((other, crtc)) ==> final(
            session).surfaces()[(other, crtc)] == old(session).surfaces()[(other, crtc)],
        removed is Some && 0 <= j < connectors@.len() && old(session).surfaces().contains_key(
            (node, connectors@[j].crtc),
        ) && (forall|k: int|
            0 <= k < j ==> (#[trigger] connectors@[k]).crtc != connectors@[j].crtc) ==> {
            &&& exists|i: int|
                0 <= i < removed->0@.len() && (#[trigger] removed->0@[i]).name@
                    == connectors@[j].id.name()
            &&& exists|i: int|
                0 <= i < removed->0@.len() && (#[trigger] removed->0@[i]).surface == old(
                    session).surfaces()[(node, connectors@[j].crtc)]
            &&& !final(records)@.knows(connectors@[j].id.name())
            &&& final(damage).pending_decoration@.len() == 0
        },
        (forall|k: int|
            0 <= k < connectors@.len() && old(session).surfaces().contains_key(
                (node, (#[trigger] connectors@[k]).crtc),
            ) ==> connectors@[k].id.name() != name) ==> final(records)@.knows(name) == old(
            records)@.knows(name),
        final(damage).window_source == old(damage).window_source,
{
    let before = old(session).surfaces();
    if removed is Some && 0 <= j < connectors@.len() && before.contains_key(
        (node, connectors@[j].crtc),
    ) && (forall|k: int| 0 <= k < j ==> (#[trigger] connectors@[k]).crtc != connectors@[j].crtc) {
        lemma_disconnected_names_are_forgotten(before, node, connectors@, j);
        let names = names_of(removed->0@);
        let gone = surfaces_of(removed->0@);
        let p = choose|p: int| 0 <= p < names.len() && names[p] == connectors@[j].id.name();
        assert(removed->0@[p].name@ == connectors@[j].id.name());
        let q = choose|q: int|
            0 <= q < gone.len() && gone[q] == before[(node, connectors@[j].crtc)];
        assert(removed->0@[q].surface == before[(node, connectors@[j].crtc)]);
    }
    if forall|k: int|
        0 <= k < connectors@.len() && before.contains_key(
            (node, (#[trigger] connectors@[k]).crtc),
        ) ==> connectors@[k].id.name() != name {
        lemma_only_driven_outputs_are_forgotten(before, node, connectors@, name);
    }
}

/// An output is found by its name exactly if there is one; of several the first is taken.
pub proof fn law_outputs_are_found_by_name(
    session: &TtySession,
    name: &str,
    place: Option<(usize, usize)>,
    b: int,
    s: int,
)
    requires
        call_ensures(find_output, (session, name), place),
    ensures
        session.in_range(b, s) && session.backends@[b].surfaces@[s].output@ == name@ ==> place
            is Some && ((place->0).0 < b || (place->0).0 == b && (place->0).1 <= s),
        place is Some ==> session.in_range((place->0).0 as int, (place->0).1 as int)
            && session.backends@[(place->0).0 as int].surfaces@[(place->0).1 as int].output@
            == name@,
{
    if session.in_range(b, s) && session.backends@[b].surfaces@[s].output@ == name@ {
        assert(session.names(b, s, name@));
        assert(session.has_output(name@));
    }
}

/// Clients see every mode of an output, in order; of an output that is not there they see none.
pub proof fn law_modes_clients_see(
    session: &TtySession,
    name: &str,
    modes: Option<Vec<WlMode>>,
    b: int,
    s: int,
    i: int,
)
    requires
        call_ensures(tty_output_available_modes, (session, name), modes),
        session.in_range(b, s),
        session.backends@[b].surfaces@[s].output@ == name@,
        forall|c: int, t: int|
            (c < b || c == b && t < s) ==> !#[trigger] session.names(c, t, name@),
    ensures
        modes is Some,
        modes->0@.len() == session.backends@[b].surfaces@[s].available_modes@.len(),
        0 <= i < modes->0@.len() ==> modes->0@[i]
            == session.backends@[b].surfaces@[s].available_modes@[i].as_wl_mode(),
{
    assert(session.names(b, s, name@));
    assert(session.names_first(b, s, name@));
    assert(session.has_output(name@));
    let (c, t) = choose|c: int, t: int| #[trigger]
        session.names_first(c, t, name@) && modes->0@ == wl_modes(
            session.backends@[c].surfaces@[t].available_modes@,
        );
    assert(session.names_first(c, t, name@));
    if c < b || c == b && t < s {
        assert(!session.names(c, t, name@));
    }
    if b < c || b == c && s < t {
        assert(!session.names(b, s, name@));
    }
}

proof fn lemma_surfaces_are_listed(backends: Seq<BackendData>, surface: SurfaceData)
    ensures
        surfaces_in_order(backends).contains(surface) <==> exists|b: int, s: int|
            0 <= b < backends.len() && 0 <= s < backends[b].surfaces@.len()
                && #[trigger] backends[b].surfaces@[s] == surface,
    decreases backends.len(),
{
    if backends.len() > 0 {
        let init = backends.drop_last();
        let last = backends.last().surfaces@;
        let rest = surfaces_in_order(init);
        let all = surfaces_in_order(backends);
        lemma_surfaces_are_listed(init, surface);
        if all.contains(surface) {
            let i = choose|i: int| 0 <= i < all.len() && all[i] == surface;
            if i < rest.len() {
                assert(rest[i] == surface);
                let (b, s) = choose|b: int, s: int|
                    0 <= b < init.len() && 0 <= s < init[b].surfaces@.len()
                        && #[trigger] init[b].surfaces@[s] == surface;
                assert(backends[b].surfaces@[s] == surface);
            } else {
                assert(backends[backends.len() - 1].surfaces@[i - rest.len()] == surface);
            }
        }
        if exists|b: int, s: int|
            0 <= b < backends.len() && 0 <= s < backends[b].surfaces@.len()
                && #[trigger] backends[b].surfaces@[s] == surface {
            let (b, s) = choose|b: int, s: int|
                0 <= b < backends.len() && 0 <= s < backends[b].surfaces@.len()
                    && #[trigger] backends[b].surfaces@[s] == surface;
            if b < init.len() {
                assert(init[b].surfaces@[s] == surface);
                let i = choose|i: int| 0 <= i < rest.len() && rest[i] == surface;
                assert(all[i] == surface);
            } else {
                assert(last[s] == surface);
                assert(all[rest.len() + s] == surface);
            }
        }
    }
}

/// The connected outputs are those of all devices: none is left out, and no other is named.
pub proof fn law_connected_outputs_are_named(
    session: &TtySession,
    outputs: Vec<String>,
    b: int,
    s: int,
    i: int,
)
    requires
        call_ensures(tty_connected_outputs, (session,), outputs),
    ensures
        session.in_range(b, s) ==> outputs@.contains(session.backends@[b].surfaces@[s].output),
        0 <= i < outputs@.len() ==> exists|c: int, t: int|
            session.in_range(c, t) && (#[trigger] session.backends@[c].surfaces@[t]).output
                == outputs@[i],
{
    let all = surfaces_in_order(session.backends@);
    if session.in_range(b, s) {
        let surface = session.backends@[b].surfaces@[s];
        lemma_surfaces_are_listed(session.backends@, surface);
        let k = choose|k: int| 0 <= k < all.len() && all[k] == surface;
        assert(outputs@[k] == surface.output);
    }
    if 0 <= i < outputs@.len() {
        lemma_surfaces_are_listed(session.backends@, all[i]);
        assert(all.contains(all[i]));
        let (c, t) = choose|c: int, t: int|
            0 <= c < session.backends@.len() && 0 <= t < session.backends@[c].surfaces@.len()
                && #[trigger] session.backends@[c].surfaces@[t] == all[i];
        assert(session.backends@[c].surfaces@[t].output == outputs@[i]);
    }
}

/// An output is switched to a mode exactly if it offers one that clients see so; the first such
/// mode is taken.
pub proof fn law_planned_mode_switches(
    session: &TtySession,
    name: &str,
    mode: WlMode,
    plan: Option<ModeSwitch>,
    b: int,
    s: int,
    i: int,
)
    requires
        call_ensures(plan_tty_output_mode, (session, name, mode), plan),
        session.in_range(b, s),
        session.backends@[b].surfaces@[s].output@ == name@,
        forall|c: int, t: int|
            (c < b || c == b && t < s) ==> !#[trigger] session.names(c, t, name@),
    ensures
        0 <= i < session.backends@[b].surfaces@[s].available_modes@.len()
            && session.backends@[b].surfaces@[s].available_modes@[i].as_wl_mode() == mode && (
        forall|j: int|
            0 <= j < i ==> (
            #[trigger] session.backends@[b].surfaces@[s].available_modes@[j]).as_wl_mode() != mode)
            ==> plan == Some(
            (ModeSwitch {
                backend: b as usize,
                surface: s as usize,
                mode: session.backends@[b].surfaces@[s].available_modes@[i],
            }),
        ),
        (forall|j: int|
            0 <= j < session.backends@[b].surfaces@[s].available_modes@.len() ==> (
            #[trigger] session.backends@[b].surfaces@[s].available_modes@[j]).as_wl_mode() != mode)
            ==> plan is None,
{
    assert(session.names(b, s, name@));
    assert(session.names_first(b, s, name@));
    let modes = session.backends@[b].surfaces@[s].available_modes@;
    if 0 <= i < modes.len() && modes[i].as_wl_mode() == mode {
        assert(offers(modes, mode));
        assert(session.offers_mode(name@, mode));
    }
    if plan is Some {
        let c = plan->0.backend as int;
        let t = plan->0.surface as int;
        assert(session.names_first(c, t, name@));
        if c < b || c == b && t < s {
            assert(!session.names(c, t, name@));
        }
        if b < c || b == c && s < t {
            assert(!session.names(b, s, name@));
        }
        assert(c == b && t == s);
        let k = choose|k: int|
            is_first_match(modes, mode, k) && plan->0.mode == #[trigger] modes[k];
        assert(modes[k].as_wl_mode() == mode);
        if 0 <= i < modes.len() && modes[i].as_wl_mode() == mode && (forall|j: int|
            0 <= j < i ==> (#[trigger] modes[j]).as_wl_mode() != mode) {
            if k < i {
                assert(modes[k].as_wl_mode() != mode);
            }
            if i < k {
                assert(modes[i].as_wl_mode() != mode);
            }
        }
    }
}

/// An output that was switched to another mode is redrawn, at the rate of the mode; nothing else
/// of it changes.
pub proof fn law_switched_modes(surface: &mut SurfaceData, frame_duration: Nanos)
    requires
        call_ensures(apply_tty_output_mode, (surface, frame_duration), ()),
    ensures
        final(surface).redraw_state == TtyRedrawState::Queued,
        final(surface).frame_duration == frame_duration,
        *final(surface) == (SurfaceData {
            redraw_state: final(surface).redraw_state,
            frame_duration,
            ..*old(surface)
        }),
{
}

/// All outputs are gone through exactly if a redraw is wanted and the session is active; each of
/// them then has a redraw queued or pending, and the wish is met.
pub proof fn law_passes_over_all_outputs(session: &mut TtySession, render: bool, b: int, s: int)
    requires
        call_ensures(render_if_needed, (session,), render),
    ensures
        render <==> old(session).needs_redraw && old(session).session_active,
        !render ==> *final(session) == *old(session),
        render ==> !final(session).needs_redraw && final(session).session_active,
        render && old(session).in_range(b, s) ==> final(session).in_range(b, s) && final(
            session).backends@[b].surfaces@[s].wants_redraw() && final(
            session).backends@[b].surfaces@[s].output == old(
            session).backends@[b].surfaces@[s].output,
        render && old(session).in_range(b, s) && old(
            session).backends@[b].surfaces@[s].redraw_state is Idle ==> final(
            session).backends@[b].surfaces@[s].redraw_state == TtyRedrawState::Queued,
{
    if render && old(session).in_range(b, s) {
        assert(final(session).backends@[b].node == old(session).backends@[b].node);
        assert(final(session).backends@[b].surfaces@[s] == old(
            session).backends@[b].surfaces@[s].changed(redraw::SurfaceChange::QueueRedraw));
    }
}

/// A pass over all outputs comes to every surface of every device.
pub proof fn law_surfaces_of_a_pass(
    session: &TtySession,
    keys: Vec<(u64, u32)>,
    b: int,
    s: int,
    i: int,
)
    requires
        call_ensures(surfaces_to_render, (session,), keys),
    ensures
        session.in_range(b, s) ==> keys@.contains(
            (session.backends@[b].node, session.backends@[b].surfaces@[s].crtc),
        ),
        0 <= i < keys@.len() ==> exists|c: int, t: int|
            session.in_range(c, t) && keys@[i].0 == session.backends@[c].node && keys@[i].1 == (
            #[trigger] session.backends@[c].surfaces@[t]).crtc,
{
    if session.in_range(b, s) {
        let key = (session.backends@[b].node, session.backends@[b].surfaces@[s].crtc);
        lemma_keys_are_places(session.backends@, key);
        assert(is_key_at(session.backends@, key, b, s));
    }
    if 0 <= i < keys@.len() {
        lemma_keys_are_places(session.backends@, keys@[i]);
        assert(all_keys(session.backends@).contains(keys@[i]));
        let (c, t) = choose|c: int, t: int| #[trigger]
            is_key_at(session.backends@, keys@[i], c, t);
        assert(is_key_at(session.backends@, keys@[i], c, t));
        assert(session.backends@[c].surfaces@[t].crtc == keys@[i].1);
    }
}

/// Exactly the outputs that were processed are noted, in the order of the pass.
pub proof fn law_noted_outcomes(
    processed: &mut Vec<String>,
    session: &TtySession,
    node: u64,
    crtc: u32,
    outcome: RenderSurfaceOutcome,
)
    requires
        call_ensures(note_outcome, (processed, session, node, crtc, outcome), ()),
    ensures
        outcome == RenderSurfaceOutcome::Skipped ==> final(processed)@ == old(processed)@,
        outcome == RenderSurfaceOutcome::Processed ==> final(processed)@.len() == old(
            processed)@.len() + 1 && final(processed)@.take(old(processed)@.len() as int) == old(
            processed)@ && final(processed)@.last() == session.surfaces()[(node, crtc)].output,
{
    if outcome == RenderSurfaceOutcome::Processed {
        assert(final(processed)@.take(old(processed)@.len() as int) =~= old(processed)@);
    }
}

/// After a render that a finished frame has started, an output that was processed is finished,
/// one that was skipped is left alone, and a failure is tried again with all outputs.
pub proof fn law_renders_after_a_frame(
    outcome: Result<RenderSurfaceOutcome, ()>,
    next: FollowUpRender,
)
    requires
        call_ensures(render_queued_surface_after_frame_finish, (outcome,), next),
    ensures
        outcome is Ok && outcome->Ok_0 == RenderSurfaceOutcome::Processed ==> next
            == FollowUpRender::Finish,
        outcome is Ok && outcome->Ok_0 == RenderSurfaceOutcome::Skipped ==> next
            == FollowUpRender::Nothing,
        outcome is Err ==> next == FollowUpRender::ScheduleRedraw,
{
}

} // verus!
