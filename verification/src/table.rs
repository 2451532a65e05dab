//! Tables from names to values, in the order in which the names first came.
//!
//! A style sheet is read into two kinds of table: the properties of one block,
//! from property name to raw value, and the styles of a sheet, from selector
//! name to style. In both a name occurs once, a later entry for a name that is
//! already there replaces the value and keeps the place, and the entries stay
//! in the order in which their names were first seen.
use vstd::prelude::*;
use vstd::string::StringExecFns;

verus! {

/// The value that the first entry named `name` holds, if there is one.
pub open spec fn lookup<T>(entries: Seq<(Seq<char>, T)>, name: Seq<char>) -> Option<T>
    decreases entries.len(),
{
    if entries.len() == 0 {
        None
    } else if entries[0].0 == name {
        Some(entries[0].1)
    } else {
        lookup(entries.drop_first(), name)
    }
}

/// `entries` with `value` under `name`: in the place of the first entry of
/// that name if there is one, else as a new last entry.
pub open spec fn upsert<T>(entries: Seq<(Seq<char>, T)>, name: Seq<char>, value: T) -> Seq<
    (Seq<char>, T),
>
    decreases entries.len(),
{
    if entries.len() == 0 {
        seq![(name, value)]
    } else if entries[0].0 == name {
        seq![(name, value)] + entries.drop_first()
    } else {
        seq![entries[0]] + upsert(entries.drop_first(), name, value)
    }
}

/// Whether no two entries have the same name.
pub open spec fn distinct_names<T>(entries: Seq<(Seq<char>, T)>) -> bool {
    forall|i: int, j: int|
        0 <= i < j < entries.len() ==> (#[trigger] entries[i]).0 != (#[trigger] entries[j]).0
}

/// Where no entry before `at` is named `name` and the entry at `at` is, a
/// lookup of `name` finds that entry.
pub proof fn lemma_lookup_at<T>(entries: Seq<(Seq<char>, T)>, name: Seq<char>, at: int)
    requires
        0 <= at < entries.len(),
        entries[at].0 == name,
        forall|k: int| 0 <= k < at ==> (#[trigger] entries[k]).0 != name,
    ensures
        lookup(entries, name) == Some(entries[at].1),
    decreases at,
{
    if at > 0 {
        assert(entries[0].0 != name);
        let rest = entries.drop_first();
        assert forall|k: int| 0 <= k < at - 1 implies (#[trigger] rest[k]).0 != name by {
            assert(rest[k] == entries[k + 1]);
        }
        lemma_lookup_at(rest, name, at - 1);
    }
}

/// Where no entry is named `name`, a lookup of `name` finds nothing.
pub proof fn lemma_lookup_absent<T>(entries: Seq<(Seq<char>, T)>, name: Seq<char>)
    requires
        forall|k: int| 0 <= k < entries.len() ==> (#[trigger] entries[k]).0 != name,
    ensures
        lookup(entries, name) is None,
    decreases entries.len(),
{
    if entries.len() > 0 {
        assert(entries[0].0 != name);
        let rest = entries.drop_first();
        assert forall|k: int| 0 <= k < rest.len() implies (#[trigger] rest[k]).0 != name by {
            assert(rest[k] == entries[k + 1]);
        }
        lemma_lookup_absent(rest, name);
    }
}

/// Where no entry before `at` is named `name` and the entry at `at` is, an
/// upsert under `name` replaces that entry.
pub proof fn lemma_upsert_at<T>(entries: Seq<(Seq<char>, T)>, name: Seq<char>, value: T, at: int)
    requires
        0 <= at < entries.len(),
        entries[at].0 == name,
        forall|k: int| 0 <= k < at ==> (#[trigger] entries[k]).0 != name,
    ensures
        upsert(entries, name, value) == entries.update(at, (name, value)),
    decreases at,
{
    if at > 0 {
        assert(entries[0].0 != name);
        let rest = entries.drop_first();
        assert forall|k: int| 0 <= k < at - 1 implies (#[trigger] rest[k]).0 != name by {
            assert(rest[k] == entries[k + 1]);
        }
        lemma_upsert_at(rest, name, value, at - 1);
        assert(seq![entries[0]] + rest.update(at - 1, (name, value)) =~= entries.update(
            at,
            (name, value),
        ));
    } else {
        assert(seq![(name, value)] + entries.drop_first() =~= entries.update(0, (name, value)));
    }
}

/// Where no entry is named `name`, an upsert under `name` adds a last entry.
pub proof fn lemma_upsert_absent<T>(entries: Seq<(Seq<char>, T)>, name: Seq<char>, value: T)
    requires
        forall|k: int| 0 <= k < entries.len() ==> (#[trigger] entries[k]).0 != name,
    ensures
        upsert(entries, name, value) == entries.push((name, value)),
    decreases entries.len(),
{
    if entries.len() > 0 {
        assert(entries[0].0 != name);
        let rest = entries.drop_first();
        assert forall|k: int| 0 <= k < rest.len() implies (#[trigger] rest[k]).0 != name by {
            assert(rest[k] == entries[k + 1]);
        }
        lemma_upsert_absent(rest, name, value);
        assert(seq![entries[0]] + rest.push((name, value)) =~= entries.push((name, value)));
    } else {
        assert(seq![(name, value)] =~= entries.push((name, value)));
    }
}

/// After an upsert under `name`, a lookup of `name` finds the new value and a
/// lookup of any other name finds what it found before.
pub proof fn lemma_lookup_upsert<T>(
    entries: Seq<(Seq<char>, T)>,
    name: Seq<char>,
    value: T,
    other: Seq<char>,
)
    ensures
        lookup(upsert(entries, name, value), other) == if other == name {
            Some(value)
        } else {
            lookup(entries, other)
        },
    decreases entries.len(),
{
    let after = upsert(entries, name, value);
    if entries.len() == 0 {
        assert(after[0] == (name, value));
        assert(after.drop_first() =~= Seq::<(Seq<char>, T)>::empty());
        assert(lookup(after.drop_first(), other) is None);
    } else if entries[0].0 == name {
        assert(after[0] == (name, value));
        assert(after.drop_first() =~= entries.drop_first());
    } else {
        assert(after[0] == entries[0]);
        assert(after.drop_first() =~= upsert(entries.drop_first(), name, value));
        lemma_lookup_upsert(entries.drop_first(), name, value, other);
    }
}

/// Distinct names stay distinct under an upsert.
pub proof fn lemma_upsert_distinct<T>(entries: Seq<(Seq<char>, T)>, name: Seq<char>, value: T)
    requires
        distinct_names(entries),
    ensures
        distinct_names(upsert(entries, name, value)),
        upsert(entries, name, value).len() == if lookup(entries, name) is Some {
            entries.len()
        } else {
            entries.len() + 1
        },
{
    if exists|at: int| 0 <= at < entries.len() && (#[trigger] entries[at]).0 == name {
        let at = choose|at: int| 0 <= at < entries.len() && (#[trigger] entries[at]).0 == name;
        assert forall|k: int| 0 <= k < at implies (#[trigger] entries[k]).0 != name by {
            assert(entries[k].0 != entries[at].0);
        }
        lemma_upsert_at(entries, name, value, at);
        lemma_lookup_at(entries, name, at);
        let after = entries.update(at, (name, value));
        assert forall|i: int, j: int| 0 <= i < j < after.len() implies (#[trigger] after[i]).0 != (
        #[trigger] after[j]).0 by {
            assert(after[i].0 == entries[i].0);
            assert(after[j].0 == entries[j].0);
        }
    } else {
        assert forall|k: int| 0 <= k < entries.len() implies (#[trigger] entries[k]).0 != name by {}
        lemma_upsert_absent(entries, name, value);
        lemma_lookup_absent(entries, name);
        let after = entries.push((name, value));
        assert forall|i: int, j: int| 0 <= i < j < after.len() implies (#[trigger] after[i]).0 != (
        #[trigger] after[j]).0 by {
            if j < entries.len() {
                assert(after[i] == entries[i]);
                assert(after[j] == entries[j]);
            } else {
                assert(after[i] == entries[i]);
            }
        }
    }
}

/// A table from names to values.
#[derive(Clone, Debug)]
pub struct Table<V> {
    entries: Vec<(String, V)>,
}

impl<V: View> View for Table<V> {
    type V = Seq<(Seq<char>, V::V)>;

    closed spec fn view(&self) -> Seq<(Seq<char>, V::V)> {
        Seq::new(self.entries@.len(), |i: int| (self.entries@[i].0@, self.entries@[i].1@))
    }
}

impl<V: View> Table<V> {
    /// Whether no two entries have the same name. It holds of the empty
    /// table, and `insert` keeps it.
    pub open spec fn well_formed(self) -> bool {
        distinct_names(self@)
    }

    /// The table without entries.
    pub fn new() -> (out: Self)
        ensures
            out@ == Seq::<(Seq<char>, V::V)>::empty(),
            out.well_formed(),
    {
        let out = Table { entries: Vec::new() };
        assert(out@ =~= Seq::<(Seq<char>, V::V)>::empty());
        out
    }

    /// The number of entries.
    pub fn len(&self) -> (out: usize)
        ensures
            out == self@.len(),
    {
        self.entries.len()
    }

    /// Whether the table has no entry.
    pub fn is_empty(&self) -> (out: bool)
        ensures
            out == (self@.len() == 0),
    {
        self.entries.len() == 0
    }

    /// The place of the first entry named `name`, or the number of entries if
    /// there is none.
    fn find(&self, name: &String) -> (at: usize)
        ensures
            at <= self@.len() == self.entries@.len(),
            at < self@.len() ==> self@[at as int].0 == name@,
            forall|k: int| 0 <= k < at ==> (#[trigger] self@[k]).0 != name@,
    {
        let mut i: usize = 0;
        while i < self.entries.len()
            invariant
                i <= self.entries@.len() == self@.len(),
                forall|k: int| 0 <= k < i ==> (#[trigger] self@[k]).0 != name@,
            decreases self.entries@.len() - i,
        {
            if self.entries[i].0 == *name {
                return i;
            }
            i = i + 1;
        }
        i
    }

    /// The value under `name`, if the table has an entry of that name.
    pub fn get(&self, name: &str) -> (out: Option<&V>)
        ensures
            match out {
                Some(value) => lookup(self@, name@) == Some(value@),
                None => lookup(self@, name@) is None,
            },
    {
        let key = String::from_str(name);
        let at = self.find(&key);
        if at < self.entries.len() {
            proof {
                lemma_lookup_at(self@, name@, at as int);
            }
            Some(&self.entries[at].1)
        } else {
            proof {
                lemma_lookup_absent(self@, name@);
            }
            None
        }
    }

    /// Whether the table has an entry named `name`.
    pub fn contains(&self, name: &str) -> (out: bool)
        ensures
            out == lookup(self@, name@) is Some,
    {
        self.get(name).is_some()
    }

    /// Puts `value` under `name`: in the place of the entry of that name if
    /// there is one, else as a new last entry.
    pub fn insert(&mut self, name: String, value: V)
        ensures
            final(self)@ == upsert(old(self)@, name@, value@),
            old(self).well_formed() ==> final(self).well_formed(),
    {
        let at = self.find(&name);
        let ghost before = self@;
        let ghost key = name@;
        let ghost held = value@;
        proof {
            if distinct_names(before) {
                lemma_upsert_distinct(before, key, held);
            }
        }
        if at < self.entries.len() {
            proof {
                lemma_upsert_at(before, key, held, at as int);
            }
            self.entries.set(at, (name, value));
            proof {
                assert(self@ =~= before.update(at as int, (key, held)));
            }
        } else {
            proof {
                lemma_upsert_absent(before, key, held);
            }
            self.entries.push((name, value));
            proof {
                assert(self@ =~= before.push((key, held)));
            }
        }
    }

    /// The name and the value of the entry at place `at`.
    pub(crate) fn entry(&self, at: usize) -> (out: (&String, &V))
        requires
            at < self@.len(),
        ensures
            out.0@ == self@[at as int].0,
            out.1@ == self@[at as int].1,
    {
        (&self.entries[at].0, &self.entries[at].1)
    }

    /// The name of the entry at place `at`, counted from zero in the order of
    /// the entries.
    pub fn name_at(&self, at: usize) -> (out: Option<&String>)
        ensures
            out is Some <==> at < self@.len(),
            out matches Some(name) ==> name@ == self@[at as int].0,
    {
        if at < self.entries.len() {
            Some(&self.entries[at].0)
        } else {
            None
        }
    }

    /// The value of the entry at place `at`, counted from zero in the order
    /// of the entries.
    pub fn value_at(&self, at: usize) -> (out: Option<&V>)
        ensures
            out is Some <==> at < self@.len(),
            out matches Some(value) ==> value@ == self@[at as int].1,
    {
        if at < self.entries.len() {
            Some(&self.entries[at].1)
        } else {
            None
        }
    }
}

/// Values of which a copy with the same model can be made.
pub trait Replicate: View + Sized {
    /// A copy of this value.
    fn replicate(&self) -> (out: Self)
        ensures
            out@ == self@,
    ;
}

impl<V: Replicate> Table<V> {
    /// A copy of this table: the same names with copies of their values, in
    /// the same order.
    pub fn replicate(&self) -> (out: Self)
        ensures
            out@ == self@,
    {
        let mut entries: Vec<(String, V)> = Vec::new();
        let mut i: usize = 0;
        while i < self.entries.len()
            invariant
                i <= self.entries@.len(),
                entries@.len() == i,
                forall|k: int|
                    0 <= k < i ==> (#[trigger] entries@[k]).0@ == self.entries@[k].0@
                        && entries@[k].1@ == self.entries@[k].1@,
            decreases self.entries@.len() - i,
        {
            let name = self.entries[i].0.clone();
            let value = self.entries[i].1.replicate();
            entries.push((name, value));
            i = i + 1;
        }
        let out = Table { entries };
        proof {
            assert(out@ =~= self@);
        }
        out
    }
}

impl<'a, V: Replicate> Table<&'a V> {
    /// A table that owns copies of the values that this table borrows: the
    /// same names with copies of their values, in the same order.
    pub fn replicate_borrowed(&self) -> (out: Table<V>)
        ensures
            out@ == self@,
    {
        let mut entries: Vec<(String, V)> = Vec::new();
        let mut i: usize = 0;
        while i < self.entries.len()
            invariant
                i <= self.entries@.len(),
                entries@.len() == i,
                forall|k: int|
                    0 <= k < i ==> (#[trigger] entries@[k]).0@ == self.entries@[k].0@
                        && entries@[k].1@ == self.entries@[k].1@,
            decreases self.entries@.len() - i,
        {
            let name = self.entries[i].0.clone();
            let value = self.entries[i].1.replicate();
            entries.push((name, value));
            i = i + 1;
        }
        let out = Table { entries };
        proof {
            assert(out@ =~= self@);
        }
        out
    }
}

} // verus!
