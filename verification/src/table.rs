//! Tables keyed by name, and the strings that serve as keys.

use vstd::hash_map::StringHashMap;
use vstd::prelude::*;
use vstd::string::*;

verus! {

/// A map from names to values.
#[verifier::reject_recursive_types(V)]
pub struct NameTable<V> {
    entries: StringHashMap<V>,
}

impl<V> View for NameTable<V> {
    type V = Map<Seq<char>, V>;

    closed spec fn view(&self) -> Map<Seq<char>, V> {
        self.entries@
    }
}

/// The value stored under `key`, if there is one.
pub open spec fn lookup<V>(entries: Map<Seq<char>, V>, key: Seq<char>) -> Option<V> {
    if entries.contains_key(key) {
        Some(entries[key])
    } else {
        None
    }
}

impl<V> NameTable<V> {
    pub fn new() -> (table: NameTable<V>)
        ensures
            table@ == Map::<Seq<char>, V>::empty(),
    {
        NameTable { entries: StringHashMap::new() }
    }

    pub fn contains(&self, key: &str) -> (r: bool)
        ensures
            r == self@.contains_key(key@),
    {
        self.entries.contains_key(key)
    }

    pub fn get_ref(&self, key: &str) -> (r: Option<&V>)
        ensures
            match r {
                Some(value) => self@.contains_key(key@) && *value == self@[key@],
                None => !self@.contains_key(key@),
            },
    {
        self.entries.get(key)
    }

    /// Stores `value` under `key`.
    pub fn set(&mut self, key: &str, value: V)
        ensures
            final(self)@ == old(self)@.insert(key@, value),
    {
        self.entries.insert(key.to_owned(), value);
    }

    pub fn remove(&mut self, key: &str)
        ensures
            final(self)@ == old(self)@.remove(key@),
    {
        self.entries.remove(key);
    }
}

impl<V: Copy> NameTable<V> {
    pub fn get(&self, key: &str) -> (r: Option<V>)
        ensures
            r == lookup(self@, key@),
    {
        match self.entries.get(key) {
            Some(value) => Some(*value),
            None => None,
        }
    }

    /// Stores `value` under `key` and returns what stood there before.
    pub fn insert(&mut self, key: &str, value: V) -> (previous: Option<V>)
        ensures
            final(self)@ == old(self)@.insert(key@, value),
            previous == lookup(old(self)@, key@),
    {
        let previous: Option<V> = self.get(key);
        self.entries.insert(key.to_owned(), value);
        previous
    }
}

/// A set of names.
pub struct NameSet {
    entries: NameTable<()>,
}

impl View for NameSet {
    type V = Set<Seq<char>>;

    closed spec fn view(&self) -> Set<Seq<char>> {
        self.entries@.dom()
    }
}

impl NameSet {
    pub fn new() -> (set: NameSet)
        ensures
            set@ == Set::<Seq<char>>::empty(),
    {
        let set: NameSet = NameSet { entries: NameTable::new() };
        assert(set@ =~= Set::<Seq<char>>::empty());
        set
    }

    pub fn contains(&self, name: &str) -> (r: bool)
        ensures
            r == self@.contains(name@),
    {
        self.entries.contains(name)
    }

    /// Adds a name and tells whether it is new.
    pub fn insert(&mut self, name: &str) -> (is_new: bool)
        ensures
            final(self)@ == old(self)@.insert(name@),
            is_new == !old(self)@.contains(name@),
    {
        let is_new: bool = !self.entries.contains(name);
        self.entries.set(name, ());
        assert(self@ =~= old(self)@.insert(name@));
        is_new
    }

    pub fn remove(&mut self, name: &str)
        ensures
            final(self)@ == old(self)@.remove(name@),
    {
        self.entries.remove(name);
        assert(self@ =~= old(self)@.remove(name@));
    }
}

/// Two strings hold the same characters.
pub fn str_eq(a: &str, b: &str) -> (r: bool)
    ensures
        r == (a@ == b@),
{
    a.to_owned() == b.to_owned()
}

pub open spec fn colon() -> Seq<char> {
    seq![':']
}

/// `left`, a colon and `right`.
pub fn colon_key(left: &str, right: &str) -> (key: String)
    ensures
        key@ == left@ + colon() + right@,
{
    proof {
        reveal_strlit(":");
    }
    let mut key: String = left.to_owned();
    key.append(":");
    key.append(right);
    assert(":"@ =~= colon());
    key
}

/// Two keys built from parts of which the first holds no colon are equal only when
/// both parts are.
pub proof fn law_colon_key_injective(a: Seq<char>, b: Seq<char>, c: Seq<char>, d: Seq<char>)
    requires
        !a.contains(':'),
        !c.contains(':'),
        a + colon() + b == c + colon() + d,
    ensures
        a == c,
        b == d,
{
    let left = a + colon() + b;
    let right = c + colon() + d;
    if a.len() < c.len() {
        assert(left[a.len() as int] == ':');
        assert(right[a.len() as int] == c[a.len() as int]);
        assert(c.contains(':'));
    }
    if c.len() < a.len() {
        assert(right[c.len() as int] == ':');
        assert(left[c.len() as int] == a[c.len() as int]);
        assert(a.contains(':'));
    }
    assert(a =~= left.subrange(0, a.len() as int));
    assert(c =~= right.subrange(0, c.len() as int));
    assert(b =~= left.subrange(a.len() as int + 1, left.len() as int));
    assert(d =~= right.subrange(c.len() as int + 1, right.len() as int));
}

/// Two keys built from parts of which the second holds no colon are equal only when both
/// parts are.
pub proof fn law_colon_key_injective_by_second(
    a: Seq<char>,
    b: Seq<char>,
    c: Seq<char>,
    d: Seq<char>,
)
    requires
        !b.contains(':'),
        !d.contains(':'),
        a + colon() + b == c + colon() + d,
    ensures
        a == c,
        b == d,
{
    let left = a + colon() + b;
    let right = c + colon() + d;
    assert(b =~= left.subrange(a.len() as int + 1, left.len() as int));
    assert(d =~= right.subrange(c.len() as int + 1, right.len() as int));
    assert(left[a.len() as int] == ':' && right[c.len() as int] == ':');
    if a.len() < c.len() {
        let k = c.len() - a.len() - 1;
        assert(b[k] == left[c.len() as int]);
        assert(b.contains(':'));
    }
    if c.len() < a.len() {
        let k = a.len() - c.len() - 1;
        assert(d[k] == right[a.len() as int]);
        assert(d.contains(':'));
    }
    assert(a =~= left.subrange(0, a.len() as int));
    assert(c =~= right.subrange(0, c.len() as int));
}

/// What is stored under a name is found under it, and what stands under other names stays; the
/// value before is handed back.
pub proof fn law_stored_values_are_found<V: Copy>(
    stored: &mut NameTable<V>,
    found: &NameTable<V>,
    key: &str,
    other: &str,
    value: V,
    previous: Option<V>,
    before: &NameTable<V>,
    was: Option<V>,
    other_was: Option<V>,
    now: Option<V>,
    other_now: Option<V>,
)
    requires
        call_ensures(NameTable::<V>::insert, (stored, key, value), previous),
        call_ensures(NameTable::<V>::get, (before, key), was),
        call_ensures(NameTable::<V>::get, (before, other), other_was),
        call_ensures(NameTable::<V>::get, (found, key), now),
        call_ensures(NameTable::<V>::get, (found, other), other_now),
    ensures
        before@ == old(stored)@ && found@ == final(stored)@ ==> {
            &&& now == Some(value)
            &&& previous == was
            &&& other@ != key@ ==> other_now == other_was
        },
{
}

/// What was removed is gone, and what stands under other names stays.
pub proof fn law_removed_values_are_gone<V>(
    table: &mut NameTable<V>,
    after: &NameTable<V>,
    key: &str,
    found: bool,
    other: Seq<char>,
)
    requires
        call_ensures(NameTable::<V>::remove, (table, key), ()),
        call_ensures(NameTable::<V>::contains, (after, key), found),
    ensures
        after@ == final(table)@ ==> !found,
        other != key@ ==> final(table)@.contains_key(other) == old(table)@.contains_key(other),
        other != key@ && old(table)@.contains_key(other) ==> final(table)@[other] == old(
            table)@[other],
{
}

/// A name that was added is in the set and was new exactly if it was not; one that was removed
/// is not.
pub proof fn law_names_come_and_go(
    added: &mut NameSet,
    removed: &mut NameSet,
    name: &str,
    is_new: bool,
    other: Seq<char>,
)
    requires
        call_ensures(NameSet::insert, (added, name), is_new),
        call_ensures(NameSet::remove, (removed, name), ()),
    ensures
        final(added)@.contains(name@),
        is_new <==> !old(added)@.contains(name@),
        !final(removed)@.contains(name@),
        other != name@ ==> final(added)@.contains(other) == old(added)@.contains(other) && final(
            removed)@.contains(other) == old(removed)@.contains(other),
{
}

/// What is set under a name is found there, and nowhere else.
pub proof fn law_set_values_are_found<V>(
    table: &mut NameTable<V>,
    after: &NameTable<V>,
    key: &str,
    other: &str,
    value: V,
    found: Option<&V>,
    elsewhere: Option<&V>,
)
    requires
        call_ensures(NameTable::<V>::set, (table, key, value), ()),
        call_ensures(NameTable::<V>::get_ref, (after, key), found),
        call_ensures(NameTable::<V>::get_ref, (after, other), elsewhere),
    ensures
        after@ == final(table)@ ==> found is Some && *found->0 == value,
        after@ == final(table)@ && other@ != key@ ==> (elsewhere is Some <==> old(
            table)@.contains_key(other@)),
        after@ == final(table)@ && other@ != key@ && elsewhere is Some ==> *elsewhere->0 == old(
            table)@[other@],
{
}

/// Texts are equal exactly if they hold the same characters, and joined by a colon they hold
/// both.
pub proof fn law_texts_are_compared_and_joined(a: &str, b: &str, r: bool, key: String)
    requires
        call_ensures(str_eq, (a, b), r),
        call_ensures(colon_key, (a, b), key),
    ensures
        r <==> a@ == b@,
        key@.len() == a@.len() + 1 + b@.len(),
        key@.take(a@.len() as int) == a@,
        key@[a@.len() as int] == ':',
        key@.skip((a@.len() + 1) as int) == b@,
{
    assert(key@.take(a@.len() as int) =~= a@);
    assert(key@.skip((a@.len() + 1) as int) =~= b@);
}

} // verus!
