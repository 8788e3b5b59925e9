//! The pass over the windows of an output, from top to bottom.
//!
//! For every window the pass first says what is to be done with it. Its parts are then drawn,
//! and handed back to be put in order.

use crate::geometry::LogicalRect;
use crate::scene::{self, TtyElementKind, TtyRenderElement};
use crate::slots;
use crate::table::NameSet;
use crate::windows::{self, PassTotals, SnapshotSets, WindowFacts, WindowVisit};
use vstd::prelude::*;

verus! {

/// How a window is shown in this frame.
#[derive(Clone, Copy, Debug, PartialEq, Eq, Structural)]
pub struct WindowChange {
    /// The window is scaled, so it is drawn from a picture.
    pub scaled: bool,
    /// It has been drawn from a picture on this output before.
    pub known_before: bool,
    /// Its position or size is not that of the last time it was.
    pub differs: bool,
    /// The area that it covers.
    pub area: LogicalRect,
}

/// What is to be done with a window.
#[derive(Clone, Copy, Debug, PartialEq, Eq, Structural)]
pub enum WindowStep {
    Skip,
    /// The window alone makes up the frame: its popups and surfaces are shown as they are.
    Bare,
    /// Until a window has been drawn once, its decoration is left out.
    Draw { visit: WindowVisit, decoration_ready: bool },
}

/// What is done with a window. Where one window alone makes up the frame, the others are
/// hidden by it.
pub open spec fn step_of(
    sole: Option<usize>,
    index: usize,
    facts: WindowFacts,
    visit: WindowVisit,
    decoration_ready: bool,
) -> WindowStep {
    match sole {
        Some(sole) => if index == sole && facts.in_layout {
            WindowStep::Bare
        } else {
            WindowStep::Skip
        },
        None => if facts.is_drawn() {
            WindowStep::Draw { visit, decoration_ready }
        } else {
            WindowStep::Skip
        },
    }
}

/// The parts of a window, each from front to back. What was not asked for or could not be
/// drawn is `None`.
pub struct DrawnWindow<T> {
    pub use_full_snapshot: bool,
    pub in_front: Option<Vec<T>>,
    /// See `windows::window_popups`.
    pub popups: Vec<T>,
    /// The surfaces other than the root; they are used only where no other part has them.
    pub non_root: Vec<T>,
    /// See `windows::window_body`.
    pub body: Vec<T>,
    pub replacement: Option<Vec<T>>,
    pub behind_root_surface: Option<Vec<T>>,
    pub behind: Option<Vec<T>>,
}

impl<T> DrawnWindow<T> {
    /// The window among its effects.
    pub open spec fn elements(self) -> Seq<T> {
        slots::listed(self.in_front) + windows::window_current(
            self.popups@,
            self.non_root@,
            self.body@,
            windows::view_list(self.replacement),
            self.use_full_snapshot,
        ) + slots::listed(self.behind_root_surface) + slots::listed(self.behind)
    }
}

fn list_or_empty<T>(list: Option<Vec<T>>) -> (r: Vec<T>)
    ensures
        r@ == slots::listed(list),
{
    match list {
        Some(list) => list,
        None => Vec::new(),
    }
}

/// What a pass has come to.
pub struct WindowPass<E> {
    pub totals: PassTotals,
    /// What the windows so far consist of, from front to back.
    pub elements: Vec<TtyRenderElement<E>>,
    /// Areas that are painted again whatever the elements say.
    pub damage: Vec<LogicalRect>,
    /// The windows that were drawn for the first time.
    pub newly_ready: Vec<String>,
}

impl<E> WindowPass<E> {
    /// A pass that has not come to any window; `damage` is painted again in any case.
    pub fn new(damage: Vec<LogicalRect>) -> (pass: Self)
        ensures
            pass.totals == (PassTotals {
                snapshot_windows: 0,
                damaged_windows: 0,
                had_snapshot_damage: false,
            }),
            pass.elements@.len() == 0,
            pass.damage == damage,
            pass.newly_ready@.len() == 0,
    {
        WindowPass {
            totals: PassTotals {
                snapshot_windows: 0,
                damaged_windows: 0,
                had_snapshot_damage: false,
            },
            elements: Vec::new(),
            damage,
            newly_ready: Vec::new(),
        }
    }

    /// Comes to the window at `index` and says what is to be done with it. `sole` is the
    /// window that alone makes up the frame, if there is one.
    pub fn begin(
        &mut self,
        sets: &mut SnapshotSets,
        ready: &NameSet,
        sole: Option<usize>,
        index: usize,
        facts: &WindowFacts,
        id: &str,
        change: WindowChange,
    ) -> (step: WindowStep)
        ensures
            step == step_of(
                sole,
                index,
                *facts,
                windows::visit_of(
                    change.scaled,
                    old(sets).transform@.contains(id@),
                    old(sets).dirty@.contains(id@),
                ),
                ready@.contains(id@),
            ),
            !(step is Draw) ==> *final(self) == *old(self) && *final(sets) == *old(sets),
            step matches WindowStep::Draw { visit, .. } ==> {
                &&& final(self).elements == old(self).elements
                &&& final(self).newly_ready == old(self).newly_ready
                &&& final(self).damage@ == (if visit.repaint {
                    old(self).damage@.push(change.area)
                } else {
                    old(self).damage@
                })
                &&& final(self).totals == windows::counted(
                    old(self).totals,
                    change.scaled,
                    visit.dirty,
                )
                &&& final(sets).transform@ == (if change.scaled {
                    old(sets).transform@.insert(id@)
                } else {
                    old(sets).transform@.remove(id@)
                })
                &&& final(sets).dirty@ == old(sets).dirty@
                &&& final(sets).changed@ == (if change.scaled && (!change.known_before
                    || change.differs) {
                    old(sets).changed@.insert(id@)
                } else {
                    old(sets).changed@
                })
            },
    {
        match sole {
            Some(sole) => {
                if index == sole && facts.in_layout {
                    WindowStep::Bare
                } else {
                    WindowStep::Skip
                }
            },
            None => {
                if !windows::window_is_drawn(facts) {
                    return WindowStep::Skip;
                }
                let visit: WindowVisit = windows::begin_window(
                    sets,
                    &mut self.totals,
                    id,
                    change.scaled,
                    windows::snapshot_moved(change.known_before, change.differs),
                );
                if visit.repaint {
                    self.damage.push(change.area);
                }
                WindowStep::Draw { visit, decoration_ready: ready.contains(id) }
            },
        }
    }

    /// Adds the window that alone makes up the frame.
    pub fn finish_bare(&mut self, popups: Vec<E>, surfaces: Vec<E>)
        ensures
            final(self).elements@ == old(self).elements@ + scene::all_as(
                popups@,
                TtyElementKind::Window,
            ) + scene::all_as(surfaces@, TtyElementKind::Window),
            final(self).totals == old(self).totals,
            final(self).damage == old(self).damage,
            final(self).newly_ready == old(self).newly_ready,
    {
        let mut elements: Vec<TtyRenderElement<E>> = windows::fullscreen_window_elements(
            popups,
            surfaces,
        );
        self.elements.append(&mut elements);
    }

    /// Adds a window that has been drawn.
    pub fn finish(
        &mut self,
        sets: &mut SnapshotSets,
        ready: &mut NameSet,
        id: &str,
        drawn: DrawnWindow<TtyRenderElement<E>>,
    )
        ensures
            final(self).elements@ == old(self).elements@ + drawn.elements(),
            final(self).totals == old(self).totals,
            final(self).damage == old(self).damage,
            old(ready)@.contains(id@) ==> final(self).newly_ready == old(self).newly_ready,
            !old(ready)@.contains(id@) ==> {
                &&& final(self).newly_ready@.len() == old(self).newly_ready@.len() + 1
                &&& final(self).newly_ready@.drop_last() == old(self).newly_ready@
                &&& final(self).newly_ready@.last()@ == id@
            },
            final(ready)@ == old(ready)@.insert(id@),
            final(sets).transform@ == old(sets).transform@,
            final(sets).changed@ == old(sets).changed@,
            final(sets).dirty@ == old(sets).dirty@.remove(id@),
    {
        let current: Vec<TtyRenderElement<E>> = windows::current_window_elements(
            drawn.popups,
            drawn.non_root,
            drawn.body,
            drawn.replacement,
            drawn.use_full_snapshot,
        );
        let mut elements: Vec<TtyRenderElement<E>> = windows::window_with_effects(
            list_or_empty(drawn.in_front),
            current,
            list_or_empty(drawn.behind_root_surface),
            list_or_empty(drawn.behind),
        );
        self.elements.append(&mut elements);
        if windows::finish_window(sets, ready, id) {
            self.newly_ready.push(id.to_owned());
        }
    }
}

/// Where one window alone makes up the frame, it is the only one that is shown, and it is
/// shown without its decoration and effects.
pub proof fn law_sole_window_is_shown_alone(
    sole: usize,
    index: usize,
    facts: WindowFacts,
    visit: WindowVisit,
    decoration_ready: bool,
)
    ensures
        !(step_of(Some(sole), index, facts, visit, decoration_ready) is Draw),
        index != sole ==> step_of(Some(sole), index, facts, visit, decoration_ready)
            == WindowStep::Skip,
{
}

/// A window that has been drawn and that is shown the same way in the next frame is drawn
/// with its decoration from then on, and causes no painting of its own. The sets are those
/// before the window was drawn.
pub proof fn law_drawn_windows_settle(
    index: usize,
    facts: WindowFacts,
    scaled: bool,
    id: Seq<char>,
    transform: Set<Seq<char>>,
    dirty: Set<Seq<char>>,
    ready: Set<Seq<char>>,
)
    requires
        facts.is_drawn(),
    ensures
        ({
            let drawn_so = if scaled {
                transform.insert(id)
            } else {
                transform.remove(id)
            };
            let visit = windows::visit_of(
                scaled,
                drawn_so.contains(id),
                dirty.remove(id).contains(id),
            );
            &&& !visit.repaint
            &&& step_of(None, index, facts, visit, ready.insert(id).contains(id))
                == (WindowStep::Draw { visit, decoration_ready: true })
        }),
{
}

/// A pass begins with nothing counted, nothing shown, and the damage that it was given.
pub proof fn law_passes_begin_empty<E>(damage: Vec<LogicalRect>, pass: WindowPass<E>)
    requires
        call_ensures(WindowPass::<E>::new, (damage,), pass),
    ensures
        pass.damage@ == damage@,
        pass.elements@.len() == 0,
        pass.newly_ready@.len() == 0,
        pass.totals.snapshot_windows == 0,
        pass.totals.damaged_windows == 0,
        !pass.totals.had_snapshot_damage,
{
}

/// What is done with a window: with a window that alone makes up the frame, that one is shown
/// bare if it is in the layout, and every other is skipped; else a window is drawn exactly if it
/// is in the layout, decorated, allowed here, not closing and not empty. A window that is drawn
/// anew as a whole adds its area to the damage; nothing else changes the pass.
pub proof fn law_steps_of_a_pass<E>(
    pass: &mut WindowPass<E>,
    sets: &mut SnapshotSets,
    ready: &NameSet,
    sole: Option<usize>,
    index: usize,
    facts: &WindowFacts,
    id: &str,
    change: WindowChange,
    step: WindowStep,
)
    requires
        call_ensures(
            WindowPass::<E>::begin,
            (pass, sets, ready, sole, index, facts, id, change),
            step,
        ),
    ensures
        ({
            let drawn = facts.in_layout && facts.has_decoration && facts.render_allowed
                && !facts.closing && facts.surface_count > 0;
            &&& sole is Some && sole->0 == index && facts.in_layout ==> step == WindowStep::Bare
            &&& sole is Some && sole->0 == index && !facts.in_layout ==> step == WindowStep::Skip
            &&& sole is Some && sole->0 != index ==> step == WindowStep::Skip
            &&& sole is None && !drawn ==> step == WindowStep::Skip
            &&& sole is None && drawn ==> step is Draw
            &&& step is Draw ==> step->decoration_ready == ready@.contains(id@)
            &&& step is Draw ==> step->visit.use_full_snapshot == change.scaled
            &&& step is Draw ==> step->visit.dirty == old(sets).dirty@.contains(id@)
            &&& step is Draw ==> (step->visit.repaint <==> change.scaled != old(
                sets).transform@.contains(id@) || change.scaled && old(sets).dirty@.contains(id@))
            &&& step is Draw && step->visit.repaint ==> final(pass).damage@ == old(
                pass).damage@.push(change.area)
            &&& !(step is Draw && step->visit.repaint) ==> final(pass).damage@ == old(pass).damage@
            &&& step is Draw ==> final(sets).transform@.contains(id@) == change.scaled
            &&& step is Draw && change.scaled && (!change.known_before || change.differs) ==> final(
                sets).changed@.contains(id@)
            &&& !(step is Draw && change.scaled && (!change.known_before || change.differs))
                ==> final(sets).changed@ == old(sets).changed@
            &&& !(step is Draw) ==> final(sets).transform@ == old(sets).transform@ && final(
                pass).totals == old(pass).totals
            &&& step is Draw && !change.scaled ==> final(pass).totals == old(pass).totals
            &&& step is Draw && change.scaled && old(pass).totals.snapshot_windows < usize::MAX
                ==> final(pass).totals.snapshot_windows == old(pass).totals.snapshot_windows + 1
            &&& step is Draw && change.scaled && old(sets).dirty@.contains(id@) ==> final(
                pass).totals.had_snapshot_damage
        }),
        final(pass).elements@ == old(pass).elements@,
        final(pass).newly_ready@ == old(pass).newly_ready@,
        final(sets).dirty@ == old(sets).dirty@,
{
}

/// A bare window adds its popups and then its surfaces behind what is there.
pub proof fn law_bare_windows_are_added<E>(
    pass: &mut WindowPass<E>,
    popups: Vec<E>,
    surfaces: Vec<E>,
    i: int,
)
    requires
        call_ensures(WindowPass::<E>::finish_bare, (pass, popups, surfaces), ()),
    ensures
        final(pass).elements@.len() == old(pass).elements@.len() + popups@.len() + surfaces@.len(),
        final(pass).elements@.take(old(pass).elements@.len() as int) == old(pass).elements@,
        0 <= i < popups@.len() ==> final(pass).elements@[old(pass).elements@.len() + i] == (
        TtyRenderElement { kind: TtyElementKind::Window, element: popups@[i] }),
        0 <= i < surfaces@.len() ==> final(pass).elements@[old(pass).elements@.len()
            + popups@.len() + i] == (TtyRenderElement {
            kind: TtyElementKind::Window,
            element: surfaces@[i],
        }),
        final(pass).damage@ == old(pass).damage@,
        final(pass).totals == old(pass).totals,
        final(pass).newly_ready@ == old(pass).newly_ready@,
{
    assert(final(pass).elements@.take(old(pass).elements@.len() as int) =~= old(pass).elements@);
}

/// A drawn window is added behind what is there: its effects in front, its popups, what it
/// shows, and the effects behind it. It is up to date and ready from then on, and it is named
/// the first time.
pub proof fn law_drawn_windows_are_added<E>(
    pass: &mut WindowPass<E>,
    sets: &mut SnapshotSets,
    ready: &mut NameSet,
    id: &str,
    drawn: DrawnWindow<TtyRenderElement<E>>,
    i: int,
    other: Seq<char>,
)
    requires
        call_ensures(WindowPass::<E>::finish, (pass, sets, ready, id, drawn), ()),
    ensures
        ({
            let before = old(pass).elements@.len();
            let front = slots::listed(drawn.in_front);
            let root = slots::listed(drawn.behind_root_surface);
            let behind = slots::listed(drawn.behind);
            let apart: int = if drawn.use_full_snapshot || drawn.replacement is Some {
                drawn.non_root@.len() as int
            } else {
                0
            };
            let shown = if drawn.replacement is Some {
                drawn.replacement->0@
            } else {
                drawn.body@
            };
            let start = before + front.len() + drawn.popups@.len() + apart;
            let after = final(pass).elements@;
            &&& after.len() == start + shown.len() + root.len() + behind.len()
            &&& after.take(before as int) == old(pass).elements@
            &&& 0 <= i < front.len() ==> after[before + i] == front[i]
            &&& 0 <= i < drawn.popups@.len() ==> after[before + front.len() + i] == drawn.popups@[i]
            &&& 0 <= i < shown.len() ==> after[start + i] == shown[i]
            &&& 0 <= i < root.len() ==> after[start + shown.len() + i] == root[i]
            &&& 0 <= i < behind.len() ==> after[start + shown.len() + root.len() + i] == behind[i]
        }),
        final(ready)@.contains(id@),
        !final(sets).dirty@.contains(id@),
        old(ready)@.contains(id@) ==> final(pass).newly_ready@ == old(pass).newly_ready@,
        !old(ready)@.contains(id@) ==> final(pass).newly_ready@.len() == old(
            pass).newly_ready@.len() + 1 && final(pass).newly_ready@.last()@ == id@ && final(
            pass).newly_ready@.drop_last() == old(pass).newly_ready@,
        final(pass).damage@ == old(pass).damage@,
        final(pass).totals == old(pass).totals,
        final(sets).transform@ == old(sets).transform@,
        final(sets).changed@ == old(sets).changed@,
        other != id@ ==> final(ready)@.contains(other) == old(ready)@.contains(other) && final(
            sets).dirty@.contains(other) == old(sets).dirty@.contains(other),
{
    assert(final(pass).elements@.take(old(pass).elements@.len() as int) =~= old(pass).elements@);
}

} // verus!
