//! A map from names to values that remembers the order in which names last
//! arrived.

use vstd::prelude::*;

verus! {

/// One named slot of a [`NameMap`].
pub struct Entry<V> {
    pub name: String,
    pub value: V,
}

/// The names of `entries`, in order.
pub open spec fn entry_names<V>(entries: Seq<Entry<V>>) -> Seq<Seq<char>> {
    Seq::new(entries.len(), |i: int| entries[i].name@)
}

/// The position of `name` among `names`, or `names.len()` when it is absent.
pub open spec fn position(names: Seq<Seq<char>>, name: Seq<char>) -> int
    decreases names.len(),
{
    if names.len() == 0 {
        0
    } else if names[0] == name {
        0
    } else {
        1 + position(names.drop_first(), name)
    }
}

/// `position` is the first index that holds `name`.
pub proof fn lemma_position(names: Seq<Seq<char>>, name: Seq<char>)
    ensures
        0 <= position(names, name) <= names.len(),
        position(names, name) < names.len() ==> names[position(names, name)] == name,
        forall|i: int| 0 <= i < position(names, name) ==> names[i] != name,
        names.contains(name) <==> position(names, name) < names.len(),
    decreases names.len(),
{
    if names.len() == 0 {
    } else if names[0] == name {
        assert(names.contains(name));
    } else {
        let rest = names.drop_first();
        lemma_position(rest, name);
        let p = position(rest, name);
        assert forall|i: int| 0 <= i < 1 + p implies names[i] != name by {
            if i > 0 {
                assert(names[i] == rest[i - 1]);
            }
        }
        if p < rest.len() {
            assert(names[1 + p] == rest[p]);
            assert(names.contains(name));
        } else {
            if names.contains(name) {
                let j = choose|j: int| 0 <= j < names.len() && names[j] == name;
                assert(rest[j - 1] == name);
                assert(rest.contains(name));
            }
        }
    }
}

/// `names` without `name`.
pub open spec fn without_name(names: Seq<Seq<char>>, name: Seq<char>) -> Seq<Seq<char>> {
    if names.contains(name) {
        names.remove(position(names, name))
    } else {
        names
    }
}

/// `values` without the value at the place that `name` has among `names`.
pub open spec fn without_value<V>(names: Seq<Seq<char>>, values: Seq<V>, name: Seq<char>) -> Seq<
    V,
> {
    if names.contains(name) {
        values.remove(position(names, name))
    } else {
        values
    }
}

/// The names after `name` arrives: the name leaves its place, if it has
/// one, and goes to the end.
pub open spec fn with_name(names: Seq<Seq<char>>, name: Seq<char>) -> Seq<Seq<char>> {
    without_name(names, name).push(name)
}

/// The values after `value` arrives under `name`: the value that the name
/// had, if any, leaves, and `value` goes to the end.
pub open spec fn with_value<V>(names: Seq<Seq<char>>, values: Seq<V>, name: Seq<char>, value: V)
    -> Seq<V> {
    without_value(names, values, name).push(value)
}

/// The map that takes each of `names` to the value at its first place.
pub open spec fn map_of<V>(names: Seq<Seq<char>>, values: Seq<V>) -> Map<Seq<char>, V> {
    Map::new(|k: Seq<char>| names.contains(k), |k: Seq<char>| values[position(names, k)])
}

/// Taking a name out of names that differ, with its value, is removing the
/// name from the map; the names left still differ, and the name is not among
/// them.
pub proof fn lemma_remove<V>(names: Seq<Seq<char>>, values: Seq<V>, name: Seq<char>)
    requires
        names.len() == values.len(),
        names.no_duplicates(),
    ensures
        !without_name(names, name).contains(name),
        without_name(names, name).no_duplicates(),
        without_name(names, name).len() == without_value(names, values, name).len(),
        map_of(without_name(names, name), without_value(names, values, name)) == map_of(
            names,
            values,
        ).remove(name),
{
    lemma_position(names, name);
    if names.contains(name) {
        let p = position(names, name);
        let left = names.remove(p);
        let left_values = values.remove(p);
        assert forall|i: int| 0 <= i < left.len() implies left[i] == names[if i < p {
            i
        } else {
            i + 1
        }] by {}
        assert forall|i: int| 0 <= i < left.len() implies left[i] != name by {
            let j = if i < p {
                i
            } else {
                i + 1
            };
            assert(left[i] == names[j]);
            assert(j != p);
        }
        assert(left.no_duplicates()) by {
            assert forall|a: int, b: int|
                0 <= a < left.len() && 0 <= b < left.len() && a != b implies left[a]
                != left[b] by {
                let ja = if a < p {
                    a
                } else {
                    a + 1
                };
                let jb = if b < p {
                    b
                } else {
                    b + 1
                };
                assert(left[a] == names[ja]);
                assert(left[b] == names[jb]);
                assert(ja != jb);
            }
        }
        let after = map_of(left, left_values);
        let expected = map_of(names, values).remove(name);
        assert forall|k: Seq<char>| after.dom().contains(k) <==> expected.dom().contains(k) by {
            if left.contains(k) {
                let i = choose|i: int| 0 <= i < left.len() && left[i] == k;
                let j = if i < p {
                    i
                } else {
                    i + 1
                };
                assert(names[j] == k);
            }
            if names.contains(k) && k != name {
                let j = choose|j: int| 0 <= j < names.len() && names[j] == k;
                let i = if j < p {
                    j
                } else {
                    j - 1
                };
                assert(left[i] == k);
            }
        }
        assert forall|k: Seq<char>| after.dom().contains(k) implies after[k] == expected[k] by {
            lemma_position(left, k);
            lemma_position(names, k);
            let i = position(left, k);
            let q = position(names, k);
            let j = if i < p {
                i
            } else {
                i + 1
            };
            assert(left[i] == names[j]);
            assert(names[j] == names[q]);
            assert(j == q);
            assert(left_values[i] == values[j]);
        }
        assert(after =~= expected);
    } else {
        assert(map_of(names, values).remove(name) =~= map_of(names, values));
    }
}

/// Adding a name that is absent, with its value, at the end is inserting
/// under that name.
pub proof fn lemma_append<V>(names: Seq<Seq<char>>, values: Seq<V>, name: Seq<char>, value: V)
    requires
        names.len() == values.len(),
        !names.contains(name),
    ensures
        map_of(names.push(name), values.push(value)) == map_of(names, values).insert(name, value),
{
    let longer = names.push(name);
    let after = map_of(longer, values.push(value));
    let expected = map_of(names, values).insert(name, value);
    assert(longer[names.len() as int] == name);
    assert forall|k: Seq<char>| after.dom().contains(k) <==> expected.dom().contains(k) by {
        if longer.contains(k) {
            let j = choose|j: int| 0 <= j < longer.len() && longer[j] == k;
            if j < names.len() {
                assert(names[j] == k);
            }
        }
        if names.contains(k) {
            let j = choose|j: int| 0 <= j < names.len() && names[j] == k;
            assert(longer[j] == k);
        }
    }
    assert forall|k: Seq<char>| after.dom().contains(k) implies after[k] == expected[k] by {
        lemma_position(longer, k);
        lemma_position(names, k);
        let p = position(longer, k);
        if p < names.len() {
            assert(longer[p] == names[p]);
            let q = position(names, k);
            assert(longer[q] == names[q]);
        }
    }
    assert(after =~= expected);
}

/// A map keyed by name. A name occurs at most once; the names stand in the
/// order in which each was last inserted.
pub struct NameMap<V> {
    entries: Vec<Entry<V>>,
}

impl<V> NameMap<V> {
    #[verifier::type_invariant]
    spec fn distinct(self) -> bool {
        entry_names(self.entries@).no_duplicates()
    }

    /// The names held, in the order in which each was last inserted.
    pub closed spec fn names(&self) -> Seq<Seq<char>> {
        entry_names(self.entries@)
    }

    /// The values held, each at the place of its name.
    pub closed spec fn values(&self) -> Seq<V> {
        Seq::new(self.entries@.len(), |i: int| self.entries@[i].value)
    }

    /// Whether a value is held under `name`.
    pub open spec fn has(&self, name: Seq<char>) -> bool {
        self.names().contains(name)
    }

    /// The value held under `name`.
    pub open spec fn value_of(&self, name: Seq<char>) -> V
        recommends
            self.has(name),
    {
        self.values()[position(self.names(), name)]
    }

    /// The map from each name held to its value.
    pub open spec fn as_map(&self) -> Map<Seq<char>, V> {
        map_of(self.names(), self.values())
    }

    /// An empty map.
    pub fn new() -> (r: Self)
        ensures
            r.names() == Seq::<Seq<char>>::empty(),
            r.values() == Seq::<V>::empty(),
            r.as_map() == Map::<Seq<char>, V>::empty(),
    {
        let r = NameMap { entries: Vec::new() };
        assert(r.names() =~= Seq::<Seq<char>>::empty());
        assert(r.values() =~= Seq::<V>::empty());
        assert(r.as_map() =~= Map::<Seq<char>, V>::empty());
        r
    }

    /// How many names are held.
    pub fn len(&self) -> (r: usize)
        ensures
            r == self.names().len(),
            r == self.values().len(),
            self.names().no_duplicates(),
    {
        proof {
            use_type_invariant(self);
        }
        self.entries.len()
    }

    /// The place of `name`, or `None` when it is absent.
    pub fn find(&self, name: &String) -> (r: Option<usize>)
        ensures
            self.names().no_duplicates(),
            self.names().len() == self.values().len(),
            match r {
                Some(i) => i == position(self.names(), name@) && i < self.names().len()
                    && self.names()[i as int] == name@,
                None => !self.has(name@),
            },
    {
        proof {
            use_type_invariant(self);
            lemma_position(self.names(), name@);
        }
        let n = self.entries.len();
        let mut i: usize = 0;
        while i < n
            invariant
                n == self.entries@.len(),
                0 <= i <= n,
                self.names().no_duplicates(),
                forall|j: int| 0 <= j < i ==> self.names()[j] != name@,
            decreases n - i,
        {
            if self.entries[i].name == *name {
                proof {
                    assert(self.names()[i as int] == name@);
                    lemma_position(self.names(), name@);
                }
                return Some(i);
            }
            i += 1;
        }
        proof {
            lemma_position(self.names(), name@);
        }
        None
    }

    /// Whether a value is held under `name`.
    pub fn contains(&self, name: &String) -> (r: bool)
        ensures
            r == self.has(name@),
    {
        let found = self.find(name);
        proof {
            lemma_position(self.names(), name@);
        }
        found.is_some()
    }

    /// The value held under `name`, or `None` when the name is absent.
    pub fn get<'a>(&'a self, name: &String) -> (r: Option<&'a V>)
        ensures
            match r {
                Some(v) => self.has(name@) && *v == self.value_of(name@),
                None => !self.has(name@),
            },
    {
        proof {
            lemma_position(self.names(), name@);
        }
        match self.find(name) {
            Some(i) => Some(&self.entries[i].value),
            None => None,
        }
    }

    /// The names held, in order.
    pub fn names_vec(&self) -> (r: Vec<String>)
        ensures
            r.deep_view() == self.names(),
            self.names().no_duplicates(),
    {
        proof {
            use_type_invariant(self);
        }
        let mut r: Vec<String> = Vec::new();
        let n = self.entries.len();
        let mut i: usize = 0;
        while i < n
            invariant
                n == self.entries@.len(),
                0 <= i <= n,
                r@.len() == i,
                forall|j: int| 0 <= j < i ==> (#[trigger] r@[j])@ == self.names()[j],
            decreases n - i,
        {
            r.push(self.entries[i].name.clone());
            i += 1;
        }
        assert(r.deep_view() =~= self.names());
        r
    }

    /// The name at place `i`.
    pub fn name_at<'a>(&'a self, i: usize) -> (r: &'a String)
        requires
            i < self.names().len(),
        ensures
            r@ == self.names()[i as int],
    {
        &self.entries[i].name
    }

    /// The value at place `i`.
    pub fn value_at<'a>(&'a self, i: usize) -> (r: &'a V)
        requires
            i < self.values().len(),
        ensures
            *r == self.values()[i as int],
    {
        &self.entries[i].value
    }

    /// Puts `value` under `name`, as the last of all names. A value already
    /// held under that name is dropped.
    pub fn insert(&mut self, name: String, value: V)
        ensures
            final(self).names() == with_name(old(self).names(), name@),
            final(self).values() == with_value(old(self).names(), old(self).values(), name@, value),
            final(self).names().no_duplicates(),
            final(self).as_map() == old(self).as_map().insert(name@, value),
    {
        proof {
            use_type_invariant(&*self);
            lemma_position(self.names(), name@);
            lemma_remove(self.names(), self.values(), name@);
        }
        let ghost names = self.names();
        let ghost values = self.values();
        let found = self.find(&name);
        let mut entries: Vec<Entry<V>> = Vec::new();
        core::mem::swap(&mut self.entries, &mut entries);
        match found {
            Some(i) => {
                entries.remove(i);
            },
            None => {},
        }
        assert(entry_names(entries@) =~= without_name(names, name@));
        let ghost left = entries@;
        entries.push(Entry { name, value });
        proof {
            let ns = entry_names(entries@);
            assert(ns =~= with_name(names, name@));
            assert forall|a: int, b: int|
                0 <= a < ns.len() && 0 <= b < ns.len() && a != b implies ns[a] != ns[b] by {
                if a < left.len() && b < left.len() {
                    assert(entry_names(left)[a] != entry_names(left)[b]);
                } else if a < left.len() {
                    assert(entry_names(left)[a] == ns[a]);
                } else {
                    assert(entry_names(left)[b] == ns[b]);
                }
            }
        }
        self.entries = entries;
        proof {
            assert(self.values() =~= with_value(names, values, name@, value));
            lemma_append(
                without_name(names, name@),
                without_value(names, values, name@),
                name@,
                value,
            );
            assert(map_of(names, values).remove(name@).insert(name@, value) =~= map_of(
                names,
                values,
            ).insert(name@, value));
        }
    }
}

} // verus!
