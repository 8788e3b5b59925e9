//! What is kept of each output by its name.

use crate::geometry::LogicalRect;
use crate::scanout::OutputCaptureMirror;
use crate::table::{NameSet, NameTable};
use vstd::prelude::*;

verus! {

/// What is kept of the outputs. `C` is the configuration that was made at run time.
#[verifier::reject_recursive_types(C)]
pub struct OutputRecords<C> {
    pub mirrors: NameTable<OutputCaptureMirror>,
    pub configs: NameTable<C>,
    /// The outputs on which something is animated.
    pub animated: NameSet,
    /// The painted areas that are marked now.
    pub blink_visible: NameTable<Vec<LogicalRect>>,
    /// The painted areas that are going to be marked.
    pub blink_pending: NameTable<Vec<LogicalRect>>,
}

/// What is kept of the outputs, as maps from their names.
#[verifier::ext_equal]
#[verifier::reject_recursive_types(C)]
pub struct RecordsView<C> {
    pub mirrors: Map<Seq<char>, OutputCaptureMirror>,
    pub configs: Map<Seq<char>, C>,
    pub animated: Set<Seq<char>>,
    pub blink_visible: Map<Seq<char>, Vec<LogicalRect>>,
    pub blink_pending: Map<Seq<char>, Vec<LogicalRect>>,
}

impl<C> View for OutputRecords<C> {
    type V = RecordsView<C>;

    open spec fn view(&self) -> RecordsView<C> {
        RecordsView {
            mirrors: self.mirrors@,
            configs: self.configs@,
            animated: self.animated@,
            blink_visible: self.blink_visible@,
            blink_pending: self.blink_pending@,
        }
    }
}

impl<C> RecordsView<C> {
    /// Nothing is kept of the outputs of these names.
    pub open spec fn without(self, names: Set<Seq<char>>) -> RecordsView<C> {
        RecordsView {
            mirrors: self.mirrors.remove_keys(names),
            configs: self.configs.remove_keys(names),
            animated: self.animated.difference(names),
            blink_visible: self.blink_visible.remove_keys(names),
            blink_pending: self.blink_pending.remove_keys(names),
        }
    }

    /// Something is kept of the output of this name.
    pub open spec fn knows(self, name: Seq<char>) -> bool {
        ||| self.mirrors.contains_key(name)
        ||| self.configs.contains_key(name)
        ||| self.animated.contains(name)
        ||| self.blink_visible.contains_key(name)
        ||| self.blink_pending.contains_key(name)
    }
}

impl<C> OutputRecords<C> {
    pub fn new() -> (records: Self)
        ensures
            forall|name: Seq<char>| !#[trigger] records@.knows(name),
    {
        OutputRecords {
            mirrors: NameTable::new(),
            configs: NameTable::new(),
            animated: NameSet::new(),
            blink_visible: NameTable::new(),
            blink_pending: NameTable::new(),
        }
    }

    /// Gives up everything that is kept of the output of this name.
    pub fn forget(&mut self, name: &str)
        ensures
            final(self)@ == old(self)@.without(Set::empty().insert(name@)),
    {
        let ghost before = self@;
        self.mirrors.remove(name);
        self.configs.remove(name);
        self.animated.remove(name);
        self.blink_visible.remove(name);
        self.blink_pending.remove(name);
        proof {
            let names = Set::empty().insert(name@);
            assert(self@.mirrors =~= before.mirrors.remove_keys(names));
            assert(self@.configs =~= before.configs.remove_keys(names));
            assert(self@.animated =~= before.animated.difference(names));
            assert(self@.blink_visible =~= before.blink_visible.remove_keys(names));
            assert(self@.blink_pending =~= before.blink_pending.remove_keys(names));
        }
    }
}

/// Nothing is left of an output that was forgotten, and what is kept of the others stays.
pub proof fn law_forgetting_concerns_one_output<C>(
    records: RecordsView<C>,
    name: Seq<char>,
    other: Seq<char>,
)
    requires
        other != name,
    ensures
        ({
            let left = records.without(Set::empty().insert(name));
            &&& !left.knows(name)
            &&& left.knows(other) == records.knows(other)
            &&& records.mirrors.contains_key(other) ==> left.mirrors[other]
                == records.mirrors[other]
            &&& records.configs.contains_key(other) ==> left.configs[other]
                == records.configs[other]
            &&& records.blink_visible.contains_key(other) ==> left.blink_visible[other]
                == records.blink_visible[other]
            &&& records.blink_pending.contains_key(other) ==> left.blink_pending[other]
                == records.blink_pending[other]
        }),
{
}

/// Forgetting outputs one after the other is forgetting all of them.
pub proof fn lemma_without_twice<C>(
    records: RecordsView<C>,
    first: Set<Seq<char>>,
    second: Set<Seq<char>>,
)
    ensures
        records.without(first).without(second) == records.without(first.union(second)),
{
    let names = first.union(second);
    let left = records.without(first).without(second);
    assert(left.mirrors =~= records.mirrors.remove_keys(names));
    assert(left.configs =~= records.configs.remove_keys(names));
    assert(left.animated =~= records.animated.difference(names));
    assert(left.blink_visible =~= records.blink_visible.remove_keys(names));
    assert(left.blink_pending =~= records.blink_pending.remove_keys(names));
}

pub proof fn lemma_without_none<C>(records: RecordsView<C>)
    ensures
        records.without(Set::empty()) == records,
{
    let names = Set::<Seq<char>>::empty();
    assert(records.mirrors.remove_keys(names) =~= records.mirrors);
    assert(records.configs.remove_keys(names) =~= records.configs);
    assert(records.animated.difference(names) =~= records.animated);
    assert(records.blink_visible.remove_keys(names) =~= records.blink_visible);
    assert(records.blink_pending.remove_keys(names) =~= records.blink_pending);
}

/// New records know no output. Forgetting an output leaves nothing of it, and all of every
/// other.
pub proof fn law_forgotten_outputs<C>(
    fresh: OutputRecords<C>,
    records: &mut OutputRecords<C>,
    name: &str,
    other: Seq<char>,
)
    requires
        call_ensures(OutputRecords::<C>::new, (), fresh),
        call_ensures(OutputRecords::<C>::forget, (records, name), ()),
    ensures
        !fresh@.knows(other),
        !final(records)@.mirrors.contains_key(name@),
        !final(records)@.configs.contains_key(name@),
        !final(records)@.animated.contains(name@),
        !final(records)@.blink_visible.contains_key(name@),
        !final(records)@.blink_pending.contains_key(name@),
        other != name@ ==> {
            &&& final(records)@.mirrors.contains_key(other) == old(records)@.mirrors.contains_key(
                other,
            )
            &&& final(records)@.configs.contains_key(other) == old(records)@.configs.contains_key(
                other,
            )
            &&& final(records)@.animated.contains(other) == old(records)@.animated.contains(other)
            &&& final(records)@.blink_visible.contains_key(other) == old(
                records)@.blink_visible.contains_key(other)
            &&& final(records)@.blink_pending.contains_key(other) == old(
                records)@.blink_pending.contains_key(other)
            &&& old(records)@.configs.contains_key(other) ==> final(records)@.configs[other] == old(
                records)@.configs[other]
        },
{
}

} // verus!
