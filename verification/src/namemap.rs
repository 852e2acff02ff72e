//! A map from names to values that keeps its names in order.
//!
//! The names stand in the order of their characters, so that walking the
//! map gives them sorted, and no name occurs twice.

use crate::chars;
use vstd::prelude::*;

verus! {

/// Whether `a` comes before `b` in the order of texts: at the first place
/// where they differ `a` has the lesser character, or `a` ends there.
pub open spec fn lex_lt(a: Seq<char>, b: Seq<char>) -> bool
    decreases a.len(),
{
    if b.len() == 0 {
        false
    } else if a.len() == 0 {
        true
    } else if a[0] != b[0] {
        a[0] < b[0]
    } else {
        lex_lt(a.skip(1), b.skip(1))
    }
}

/// Of two different texts exactly one comes before the other, and no text
/// before itself.
pub proof fn lemma_lex_total(a: Seq<char>, b: Seq<char>)
    ensures
        lex_lt(a, b) || lex_lt(b, a) || a == b,
        !(lex_lt(a, b) && lex_lt(b, a)),
        !lex_lt(a, a),
    decreases a.len(),
{
    lemma_lex_irreflexive(a);
    if a.len() == 0 || b.len() == 0 {
        if a.len() == 0 && b.len() == 0 {
            assert(a =~= b);
        }
    } else if a[0] == b[0] {
        lemma_lex_total(a.skip(1), b.skip(1));
        if a.skip(1) == b.skip(1) {
            assert(a =~= seq![a[0]] + a.skip(1));
            assert(b =~= seq![b[0]] + b.skip(1));
        }
        lemma_lex_irreflexive(a);
    } else {
        lemma_lex_irreflexive(a);
    }
}

/// No text comes before itself.
pub proof fn lemma_lex_irreflexive(a: Seq<char>)
    ensures
        !lex_lt(a, a),
    decreases a.len(),
{
    if a.len() > 0 {
        lemma_lex_irreflexive(a.skip(1));
    }
}

/// The order of texts is transitive.
pub proof fn lemma_lex_trans(a: Seq<char>, b: Seq<char>, c: Seq<char>)
    requires
        lex_lt(a, b),
        lex_lt(b, c),
    ensures
        lex_lt(a, c),
    decreases a.len(),
{
    if a.len() > 0 && a[0] == b[0] && b[0] == c[0] {
        lemma_lex_trans(a.skip(1), b.skip(1), c.skip(1));
    }
}

/// Whether the text `a` comes before `b`, looked at from index `i` on, the
/// texts being the same before `i`.
pub open spec fn lex_lt_from(a: Seq<char>, b: Seq<char>, i: int) -> bool
    decreases a.len() - i,
{
    if i < 0 || i >= b.len() {
        false
    } else if i >= a.len() {
        true
    } else if a[i] != b[i] {
        a[i] < b[i]
    } else {
        lex_lt_from(a, b, i + 1)
    }
}

/// Comparing from an index on is comparing the rests of the two texts.
pub proof fn lemma_lex_from(a: Seq<char>, b: Seq<char>, i: int)
    requires
        0 <= i <= a.len(),
        i <= b.len(),
    ensures
        lex_lt_from(a, b, i) == lex_lt(a.skip(i), b.skip(i)),
    decreases a.len() - i,
{
    if i < b.len() && i < a.len() && a[i] == b[i] {
        lemma_lex_from(a, b, i + 1);
        assert(a.skip(i).skip(1) =~= a.skip(i + 1));
        assert(b.skip(i).skip(1) =~= b.skip(i + 1));
    }
}

/// Whether `a` comes before `b` in the order of texts.
pub fn less(a: &Vec<char>, b: &Vec<char>) -> (r: bool)
    ensures
        r == lex_lt(a@, b@),
{
    proof {
        lemma_lex_from(a@, b@, 0);
        assert(a@.skip(0) =~= a@);
        assert(b@.skip(0) =~= b@);
    }
    let mut i: usize = 0;
    while i < a.len() && i < b.len()
        invariant
            i <= a.len(),
            i <= b.len(),
            lex_lt_from(a@, b@, 0) == lex_lt(a@, b@),
            lex_lt_from(a@, b@, 0) == lex_lt_from(a@, b@, i as int),
        decreases a.len() - i,
    {
        if a[i] != b[i] {
            return a[i] < b[i];
        }
        i += 1;
    }
    i < b.len()
}

fn name_before(s: &String, key: &Vec<char>) -> (r: bool)
    ensures
        r == lex_lt(s@, key@),
{
    let here = chars::from_str(s.as_str());
    less(&here, key)
}

/// A map from names to values, walked in the order of the names.
#[derive(Debug)]
pub struct NameMap<T> {
    entries: Vec<(String, T)>,
}

/// The index of the first of the names from `from` on that equals `name`,
/// or the number of names.
pub open spec fn name_index(names: Seq<Seq<char>>, name: Seq<char>, from: int) -> int
    decreases names.len() - from,
{
    if 0 <= from < names.len() && names[from] != name {
        name_index(names, name, from + 1)
    } else {
        from
    }
}

/// `name_index` is the first index from `from` on that holds the name, or
/// the number of names.
pub proof fn lemma_name_index(names: Seq<Seq<char>>, name: Seq<char>, from: int)
    requires
        0 <= from <= names.len(),
    ensures
        from <= name_index(names, name, from) <= names.len(),
        name_index(names, name, from) < names.len() ==> names[name_index(names, name, from)]
            == name,
        forall|j: int| from <= j < name_index(names, name, from) ==> names[j] != name,
    decreases names.len() - from,
{
    if from < names.len() && names[from] != name {
        lemma_name_index(names, name, from + 1);
    }
}

/// The first index from `from` on whose name does not come before `name`,
/// or the number of entries.
pub open spec fn place_of<V>(entries: Seq<(Seq<char>, V)>, name: Seq<char>, from: int) -> int
    decreases entries.len() - from,
{
    if 0 <= from < entries.len() && lex_lt(entries[from].0, name) {
        place_of(entries, name, from + 1)
    } else {
        from
    }
}

/// The entries with a value put under a name: in place of the value that
/// stood under the name, or else at the name's place in the order.
pub open spec fn put<V>(entries: Seq<(Seq<char>, V)>, name: Seq<char>, value: V) -> Seq<
    (Seq<char>, V),
> {
    let p = place_of(entries, name, 0);
    if 0 <= p < entries.len() && entries[p].0 == name {
        entries.update(p, (name, value))
    } else if 0 <= p <= entries.len() {
        entries.insert(p, (name, value))
    } else {
        entries
    }
}

/// The entries with each value replaced by what `f` makes of it.
pub open spec fn map_entries<V, W>(entries: Seq<(Seq<char>, V)>, f: spec_fn(V) -> W) -> Seq<
    (Seq<char>, W),
> {
    Seq::new(entries.len(), |i: int| (entries[i].0, f(entries[i].1)))
}

/// The place of a name does not depend on the values of the entries.
pub proof fn lemma_place_of_map<V, W>(
    entries: Seq<(Seq<char>, V)>,
    f: spec_fn(V) -> W,
    name: Seq<char>,
    from: int,
)
    requires
        0 <= from <= entries.len(),
    ensures
        place_of(map_entries(entries, f), name, from) == place_of(entries, name, from),
        from <= place_of(entries, name, from) <= entries.len(),
    decreases entries.len() - from,
{
    if from < entries.len() && lex_lt(entries[from].0, name) {
        lemma_place_of_map(entries, f, name, from + 1);
    }
}

/// Putting a value and then mapping the values is mapping them and then
/// putting the mapped value.
pub proof fn lemma_put_map<V, W>(
    entries: Seq<(Seq<char>, V)>,
    f: spec_fn(V) -> W,
    name: Seq<char>,
    value: V,
)
    ensures
        map_entries(put(entries, name, value), f) == put(map_entries(entries, f), name, f(value)),
{
    lemma_place_of_map(entries, f, name, 0);
    assert(map_entries(put(entries, name, value), f) =~= put(
        map_entries(entries, f),
        name,
        f(value),
    ));
}

/// The names are in strictly rising order.
pub open spec fn sorted(names: Seq<Seq<char>>) -> bool {
    forall|i: int, j: int| 0 <= i < j < names.len() ==> lex_lt(names[i], names[j])
}

spec fn entry_names<T>(entries: Seq<(String, T)>) -> Seq<Seq<char>> {
    entries.map_values(|e: (String, T)| e.0@)
}

spec fn entry_values<T>(entries: Seq<(String, T)>) -> Seq<T> {
    entries.map_values(|e: (String, T)| e.1)
}

impl<T> NameMap<T> {
    /// The names, in the order of the map.
    pub closed spec fn names(&self) -> Seq<Seq<char>> {
        entry_names(self.entries@)
    }

    /// The values, in the order of the names.
    pub closed spec fn values(&self) -> Seq<T> {
        entry_values(self.entries@)
    }

    #[verifier::type_invariant]
    spec fn ordered(&self) -> bool {
        sorted(self.names())
    }

    /// The entries, in the order of the names.
    pub open spec fn pairs(&self) -> Seq<(Seq<char>, T)> {
        Seq::new(self.names().len(), |i: int| (self.names()[i], self.values()[i]))
    }

    /// Whether the map holds the name.
    pub open spec fn has(&self, name: Seq<char>) -> bool {
        self.names().contains(name)
    }

    /// The value under a name.
    pub open spec fn value_of(&self, name: Seq<char>) -> Option<T> {
        let i = name_index(self.names(), name, 0);
        if 0 <= i < self.values().len() {
            Some(self.values()[i])
        } else {
            None
        }
    }

    /// A map has as many names as values.
    pub proof fn lemma_lengths(&self)
        ensures
            self.names().len() == self.values().len(),
    {
    }

    /// A map has a value under a name exactly where it holds the name.
    pub proof fn lemma_has(&self, name: Seq<char>)
        ensures
            self.has(name) <==> self.value_of(name) is Some,
    {
        lemma_name_index(self.names(), name, 0);
        if self.has(name) {
            let k = choose|k: int| 0 <= k < self.names().len() && self.names()[k] == name;
            assert(name_index(self.names(), name, 0) <= k);
        }
    }

    /// Recalls that the names of a map are in strictly rising order, so
    /// that none occurs twice.
    pub fn recall_sorted(&self)
        ensures
            sorted(self.names()),
    {
        proof {
            use_type_invariant(self);
        }
    }

    /// The map without entries.
    pub fn new() -> (m: Self)
        ensures
            m.names() == Seq::<Seq<char>>::empty(),
            m.values() == Seq::<T>::empty(),
    {
        let m = NameMap { entries: Vec::new() };
        assert(m.names() =~= Seq::<Seq<char>>::empty());
        assert(m.values() =~= Seq::<T>::empty());
        m
    }

    /// The number of entries.
    pub fn len(&self) -> (n: usize)
        ensures
            n == self.names().len(),
            n == self.values().len(),
    {
        self.entries.len()
    }

    /// Whether the map has no entry.
    pub fn is_empty(&self) -> (b: bool)
        ensures
            b == (self.names().len() == 0),
    {
        self.entries.len() == 0
    }

    /// The name at a place of the map.
    pub fn name_at(&self, i: usize) -> (name: &String)
        requires
            i < self.names().len(),
        ensures
            name@ == self.names()[i as int],
    {
        &self.entries[i].0
    }

    /// The value at a place of the map.
    pub fn value_at(&self, i: usize) -> (value: &T)
        requires
            i < self.values().len(),
        ensures
            *value == self.values()[i as int],
    {
        &self.entries[i].1
    }

    /// The place of a name.
    pub fn index_of(&self, name: &str) -> (r: Option<usize>)
        ensures
            match r {
                Some(i) => i == name_index(self.names(), name@, 0) && i < self.names().len(),
                None => name_index(self.names(), name@, 0) >= self.names().len(),
            },
            r is Some <==> self.has(name@),
    {
        let key = chars::from_str(name);
        let mut i: usize = 0;
        while i < self.entries.len()
            invariant
                i <= self.entries.len(),
                key@ == name@,
                name_index(self.names(), name@, 0) == name_index(self.names(), name@, i as int),
                forall|j: int| 0 <= j < i ==> self.names()[j] != name@,
            decreases self.entries.len() - i,
        {
            if chars::eq_str(&key, self.entries[i].0.as_str()) {
                assert(self.names()[i as int] == name@);
                return Some(i);
            }
            i += 1;
        }
        None
    }

    /// Whether the map has an entry under the name.
    pub fn contains_key(&self, name: &str) -> (b: bool)
        ensures
            b == self.has(name@),
    {
        self.index_of(name).is_some()
    }

    /// The value under a name.
    pub fn get(&self, name: &str) -> (r: Option<&T>)
        ensures
            match r {
                Some(v) => self.value_of(name@) == Some(*v),
                None => self.value_of(name@) is None,
            },
            r is Some <==> self.has(name@),
    {
        match self.index_of(name) {
            Some(i) => Some(&self.entries[i].1),
            None => None,
        }
    }

    /// Puts a value under a name. A value that stood under the name is
    /// replaced and handed back; a new name takes its place in the order.
    pub fn insert(&mut self, name: String, value: T) -> (old_value: Option<T>)
        ensures
            old_value == old(self).value_of(name@),
            final(self).value_of(name@) == Some(value),
            final(self).has(name@),
            forall|other: Seq<char>|
                other != name@ ==> final(self).value_of(other) == old(self).value_of(other)
                    && final(self).has(other) == old(self).has(other),
            old(self).has(name@) ==> final(self).names() == old(self).names(),
            !old(self).has(name@) ==> final(self).names().len() == old(self).names().len() + 1,
            final(self).pairs() == put(old(self).pairs(), name@, value),
    {
        proof {
            use_type_invariant(&*self);
            lemma_name_index(self.names(), name@, 0);
        }
        let key = chars::from_str(name.as_str());
        let ghost names0 = self.names();
        let ghost values0 = self.values();
        let ghost pairs0 = self.pairs();
        let mut entries: Vec<(String, T)> = Vec::new();
        assert(entry_names(entries@) =~= Seq::<Seq<char>>::empty());
        core::mem::swap(&mut self.entries, &mut entries);
        let mut p: usize = 0;
        while p < entries.len() && name_before(&entries[p].0, &key)
            invariant
                p <= entries.len(),
                key@ == name@,
                names0 == entry_names(entries@),
                names0.len() == values0.len(),
                pairs0 == Seq::new(names0.len(), |i: int| (names0[i], values0[i])),
                forall|j: int| 0 <= j < p ==> lex_lt(names0[j], name@),
                place_of(pairs0, name@, 0) == place_of(pairs0, name@, p as int),
            decreases entries.len() - p,
        {
            assert(names0[p as int] == entries@[p as int].0@);
            assert(pairs0[p as int].0 == names0[p as int]);
            p += 1;
        }
        proof {
            if p < entries.len() {
                assert(pairs0[p as int].0 == names0[p as int]);
                assert(names0[p as int] == entries@[p as int].0@);
            }
            assert(place_of(pairs0, name@, 0) == p);
        }
        proof {
            if p < entries.len() {
                assert(names0[p as int] == entries@[p as int].0@);
            }
            assert forall|j: int| 0 <= j < p implies names0[j] != name@ by {
                lemma_lex_irreflexive(name@);
            }
        }
        let found = if p < entries.len() {
            chars::eq_str(&key, entries[p].0.as_str())
        } else {
            false
        };
        if found {
            assert(names0[p as int] == name@);
            proof {
                lemma_name_index_at(names0, name@, 0, p as int);
            }
            let (n, v) = entries.remove(p);
            entries.insert(p, (n, value));
            proof {
                assert(entry_names(entries@) =~= names0);
                assert(entry_values(entries@) =~= values0.update(p as int, value));
            }
            self.entries = entries;
            proof {
                assert forall|other: Seq<char>| other != name@ implies self.value_of(other)
                    == old(self).value_of(other) by {
                    lemma_name_index(names0, other, 0);
                }
                assert(self.pairs() =~= put(pairs0, name@, value));
            }
            Some(v)
        } else {
            proof {
                if p < names0.len() {
                    let here = names0[p as int];
                    lemma_lex_total(here, name@);
                    assert(lex_lt(name@, here));
                    assert forall|k: int| p <= k < names0.len() implies lex_lt(
                        name@,
                        names0[k],
                    ) by {
                        if k > p {
                            lemma_lex_trans(name@, here, names0[k]);
                        }
                    }
                }
                assert forall|k: int| 0 <= k < names0.len() implies names0[k] != name@ by {
                    lemma_lex_irreflexive(name@);
                }
                lemma_name_index_absent(names0, name@, 0);
            }
            entries.insert(p, (name, value));
            let ghost names1 = entry_names(entries@);
            proof {
                assert(names1 =~= names0.insert(p as int, name@));
                assert(entry_values(entries@) =~= values0.insert(p as int, value));
                assert forall|i: int, j: int| 0 <= i < j < names1.len() implies lex_lt(
                    names1[i],
                    names1[j],
                ) by {
                    let a = if i < p { i } else { i - 1 };
                    let b = if j < p { j } else { j - 1 };
                    if i != p && j != p {
                        assert(names1[i] == names0[a]);
                        assert(names1[j] == names0[b]);
                    }
                }
            }
            self.entries = entries;
            proof {
                lemma_name_index_at(names1, name@, 0, p as int);
                assert(names1[p as int] == name@);
                assert forall|other: Seq<char>| other != name@ implies self.value_of(other)
                    == old(self).value_of(other) && self.has(other) == old(self).has(other) by {
                    lemma_name_index_insert(names0, name@, other, p as int, 0);
                    lemma_name_index(names0, other, 0);
                    lemma_name_index(names1, other, 0);
                    if old(self).has(other) {
                        let k = choose|k: int| 0 <= k < names0.len() && names0[k] == other;
                        let k1 = if k < p { k } else { k + 1 };
                        assert(names1[k1] == other);
                    }
                    if self.has(other) {
                        let k = choose|k: int| 0 <= k < names1.len() && names1[k] == other;
                        let k0 = if k < p { k } else { k - 1 };
                        assert(names0[k0] == other);
                    }
                }
                assert(self.pairs() =~= put(pairs0, name@, value));
            }
            None
        }
    }
}

impl NameMap<String> {
    /// A copy of a map of texts.
    pub fn duplicate(&self) -> (r: Self)
        ensures
            r.names() == self.names(),
            r.values() == self.values(),
    {
        proof {
            use_type_invariant(self);
        }
        let mut entries: Vec<(String, String)> = Vec::new();
        let mut i: usize = 0;
        while i < self.entries.len()
            invariant
                i <= self.entries.len(),
                entries@ == self.entries@.take(i as int),
            decreases self.entries.len() - i,
        {
            let k = self.entries[i].0.clone();
            let v = self.entries[i].1.clone();
            entries.push((k, v));
            assert(entries@ =~= self.entries@.take(i + 1));
            i += 1;
        }
        assert(self.entries@.take(self.entries.len() as int) =~= self.entries@);
        NameMap { entries }
    }
}

/// Where no name before `at` equals `name` and the one at `at` does, the
/// search from `from` stops at `at`.
pub proof fn lemma_name_index_at(names: Seq<Seq<char>>, name: Seq<char>, from: int, at: int)
    requires
        0 <= from <= at < names.len(),
        names[at] == name,
        forall|j: int| from <= j < at ==> names[j] != name,
    ensures
        name_index(names, name, from) == at,
    decreases at - from,
{
    if from < at {
        lemma_name_index_at(names, name, from + 1, at);
    }
}

/// Where no index from `from` on holds the name, `name_index` is the number
/// of names.
pub proof fn lemma_name_index_absent(names: Seq<Seq<char>>, name: Seq<char>, from: int)
    requires
        0 <= from <= names.len(),
        forall|j: int| from <= j < names.len() ==> names[j] != name,
    ensures
        name_index(names, name, from) == names.len(),
    decreases names.len() - from,
{
    if from < names.len() {
        lemma_name_index_absent(names, name, from + 1);
    }
}

/// Putting a new name in at `p` moves the place of any other name by one
/// where it stood at or behind `p`, and not at all where it stood before.
pub proof fn lemma_name_index_insert(
    names: Seq<Seq<char>>,
    name: Seq<char>,
    other: Seq<char>,
    p: int,
    from: int,
)
    requires
        0 <= p <= names.len(),
        0 <= from <= names.len(),
        other != name,
    ensures
        ({
            let i0 = name_index(names, other, from);
            let i1 = name_index(names.insert(p, name), other, if from < p { from } else { from + 1 });
            i1 == if i0 < p { i0 } else { i0 + 1 }
        }),
    decreases names.len() - from,
{
    let names1 = names.insert(p, name);
    assert(names1.len() == names.len() + 1);
    lemma_name_index(names, other, from);
    if from < names.len() {
        if from < p {
            assert(names1[from] == names[from]);
            if names[from] != other {
                lemma_name_index_insert(names, name, other, p, from + 1);
                if from + 1 == p {
                    assert(names1[p] == name);
                    assert(name_index(names1, other, p) == name_index(names1, other, p + 1));
                }
                assert(name_index(names1, other, from) == name_index(names1, other, from + 1));
            }
        } else {
            assert(names1[from + 1] == names[from]);
            if names[from] != other {
                lemma_name_index_insert(names, name, other, p, from + 1);
                assert(name_index(names1, other, from + 1) == name_index(names1, other, from + 2));
            }
        }
    } else {
        assert(from >= p);
        assert(name_index(names1, other, from + 1) == from + 1);
    }
}

} // verus!
