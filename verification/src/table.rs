use vstd::prelude::*;

verus! {

/// No key occurs twice in `keys`.
spec fn distinct(keys: Seq<Seq<char>>) -> bool {
    forall|i: int, j: int| 0 <= i < j < keys.len() ==> keys[i] != keys[j]
}

/// The row of `keys` that bears `key`, where there is one.
spec fn row_of(keys: Seq<Seq<char>>, key: Seq<char>) -> int {
    choose|i: int| 0 <= i < keys.len() && keys[i] == key
}

/// The map that pairs each key with the value in its row.
spec fn paired<V>(keys: Seq<Seq<char>>, values: Seq<V>) -> Map<Seq<char>, V> {
    Map::new(|key: Seq<char>| keys.contains(key), |key: Seq<char>| values[row_of(keys, key)])
}

/// Among distinct keys the row of a key is the only row that bears it.
proof fn lemma_row<V>(keys: Seq<Seq<char>>, values: Seq<V>, i: int)
    requires
        distinct(keys),
        0 <= i < keys.len(),
    ensures
        keys.contains(keys[i]),
        row_of(keys, keys[i]) == i,
        paired(keys, values).contains_key(keys[i]),
        paired(keys, values)[keys[i]] == values[i],
{
    let j = row_of(keys, keys[i]);
    assert(0 <= j < keys.len() && keys[j] == keys[i]);
    if j < i {
        assert(keys[j] != keys[i]);
    } else if i < j {
        assert(keys[i] != keys[j]);
    }
}

/// A new key in a new last row enters the map and leaves the rest as it was.
proof fn lemma_push<V>(keys: Seq<Seq<char>>, values: Seq<V>, key: Seq<char>, value: V)
    requires
        distinct(keys),
        keys.len() == values.len(),
        !keys.contains(key),
    ensures
        distinct(keys.push(key)),
        paired(keys.push(key), values.push(value)) == paired(keys, values).insert(key, value),
{
    let more = keys.push(key);
    let last = keys.len() as int;
    assert forall|i: int, j: int| 0 <= i < j < more.len() implies more[i] != more[j] by {
        if j == last {
            assert(keys[i] == more[i]);
        }
    }
    assert forall|k: Seq<char>| more.contains(k) <==> (k == key || keys.contains(k)) by {
        if more.contains(k) {
            let i = row_of(more, k);
            if i != last {
                assert(keys[i] == k);
            }
        }
        if keys.contains(k) {
            assert(more[row_of(keys, k)] == k);
        }
        assert(more[last] == key);
    }
    assert forall|k: Seq<char>| more.contains(k) implies paired(more, values.push(value))[k]
        == paired(keys, values).insert(key, value)[k] by {
        let i = row_of(more, k);
        lemma_row(more, values.push(value), i);
        if i != last {
            lemma_row(keys, values, i);
        }
    }
    assert(paired(more, values.push(value)) =~= paired(keys, values).insert(key, value));
}

/// Moving the last row into row `i` takes the key of row `i` out of the map
/// and leaves the rest as it was.
proof fn lemma_swap_remove<V>(keys: Seq<Seq<char>>, values: Seq<V>, i: int)
    requires
        distinct(keys),
        keys.len() == values.len(),
        0 <= i < keys.len(),
    ensures
        distinct(keys.update(i, keys.last()).drop_last()),
        !keys.update(i, keys.last()).drop_last().contains(keys[i]),
        paired(keys.update(i, keys.last()).drop_last(), values.update(i, values.last()).drop_last())
            == paired(keys, values).remove(keys[i]),
{
    let last = keys.len() - 1;
    let fewer = keys.update(i, keys.last()).drop_last();
    let rest = values.update(i, values.last()).drop_last();
    let origin = |j: int| if j == i { last } else { j };
    assert forall|a: int, b: int| 0 <= a < b < fewer.len() implies fewer[a] != fewer[b] by {
        assert(fewer[a] == keys[origin(a)] && fewer[b] == keys[origin(b)]);
        if origin(a) < origin(b) {
            assert(keys[origin(a)] != keys[origin(b)]);
        } else {
            assert(keys[origin(b)] != keys[origin(a)]);
        }
    }
    assert forall|k: Seq<char>| fewer.contains(k) <==> (k != keys[i] && keys.contains(k)) by {
        if fewer.contains(k) {
            let j = row_of(fewer, k);
            assert(keys[origin(j)] == k);
            if origin(j) < i {
                assert(keys[origin(j)] != keys[i]);
            } else {
                assert(keys[i] != keys[origin(j)]);
            }
        }
        if k != keys[i] && keys.contains(k) {
            let j = row_of(keys, k);
            if j == last {
                assert(fewer[i] == k);
            } else {
                assert(fewer[j] == k);
            }
        }
    }
    assert forall|k: Seq<char>| fewer.contains(k) implies paired(fewer, rest)[k] == paired(
        keys,
        values,
    )[k] by {
        let j = row_of(fewer, k);
        lemma_row(fewer, rest, j);
        lemma_row(keys, values, origin(j));
    }
    assert(paired(fewer, rest) =~= paired(keys, values).remove(keys[i]));
}

/// A new value in row `i` is the new value of the key of row `i` and leaves
/// the rest as it was.
proof fn lemma_update<V>(keys: Seq<Seq<char>>, values: Seq<V>, i: int, value: V)
    requires
        distinct(keys),
        keys.len() == values.len(),
        0 <= i < keys.len(),
    ensures
        paired(keys, values.update(i, value)) == paired(keys, values).insert(keys[i], value),
{
    lemma_row(keys, values, i);
    assert forall|k: Seq<char>| keys.contains(k) implies paired(keys, values.update(i, value))[k]
        == paired(keys, values).insert(keys[i], value)[k] by {
        let j = row_of(keys, k);
        lemma_row(keys, values, j);
        lemma_row(keys, values.update(i, value), j);
    }
    assert(paired(keys, values.update(i, value)) =~= paired(keys, values).insert(keys[i], value));
}

/// Distinct keys are as many as the map has entries.
proof fn lemma_count<V>(keys: Seq<Seq<char>>, values: Seq<V>)
    requires
        distinct(keys),
    ensures
        paired(keys, values).dom().finite(),
        paired(keys, values).len() == keys.len(),
{
    assert(keys.no_duplicates());
    assert(paired(keys, values).dom() =~= keys.to_set());
    vstd::seq_lib::seq_to_set_is_finite(keys);
    keys.unique_seq_to_set();
}

/// An association table from names to values.
///
/// The table keeps at most one value per name, where two names are the same
/// when they hold the same characters. Its view is the map from each stored
/// name's characters to the value kept under it.
#[derive(Debug)]
pub struct Table<V> {
    names: Vec<String>,
    values: Vec<V>,
}

impl<V> Table<V> {
    /// The characters of each stored name, row by row.
    spec fn keys(self) -> Seq<Seq<char>> {
        self.names@.map_values(|name: String| name@)
    }

    /// The two columns have the same height and no name occurs twice.
    #[verifier::type_invariant]
    spec fn aligned(self) -> bool {
        &&& self.names@.len() == self.values@.len()
        &&& distinct(self.keys())
    }

    pub closed spec fn view(self) -> Map<Seq<char>, V> {
        paired(self.keys(), self.values@)
    }

    /// An empty table.
    pub fn new() -> (table: Self)
        ensures
            table@ == Map::<Seq<char>, V>::empty(),
    {
        let table = Table { names: Vec::new(), values: Vec::new() };
        assert(table@ =~= Map::<Seq<char>, V>::empty());
        table
    }

    /// The row that bears `name`, if there is one.
    fn position(&self, name: &String) -> (at: Option<usize>)
        ensures
            match at {
                Some(i) => i < self.keys().len() && self.keys()[i as int] == name@,
                None => !self.keys().contains(name@),
            },
    {
        let mut i: usize = 0;
        while i < self.names.len()
            invariant
                i <= self.names@.len(),
                forall|j: int| 0 <= j < i ==> self.keys()[j] != name@,
            decreases self.names@.len() - i,
        {
            if self.names[i] == *name {
                return Some(i);
            }
            i = i + 1;
        }
        None
    }

    /// The number of names that have a value.
    pub fn len(&self) -> (count: usize)
        ensures
            self@.dom().finite(),
            count == self@.len(),
    {
        proof {
            use_type_invariant(self);
            lemma_count(self.keys(), self.values@);
        }
        self.names.len()
    }

    /// Whether a value is kept under `name`.
    pub fn contains_key(&self, name: &String) -> (found: bool)
        ensures
            found == self@.contains_key(name@),
    {
        self.position(name).is_some()
    }

    /// The value kept under `name`, if there is one.
    pub fn get(&self, name: &String) -> (found: Option<&V>)
        ensures
            match found {
                Some(value) => self@.contains_key(name@) && *value == self@[name@],
                None => !self@.contains_key(name@),
            },
    {
        proof {
            use_type_invariant(self);
        }
        match self.position(name) {
            None => None,
            Some(i) => {
                proof {
                    lemma_row(self.keys(), self.values@, i as int);
                }
                Some(&self.values[i])
            },
        }
    }

    /// Keeps `value` under `name` and hands back what was kept there before.
    pub fn insert(&mut self, name: String, value: V) -> (previous: Option<V>)
        ensures
            final(self)@ == old(self)@.insert(name@, value),
            previous == if old(self)@.contains_key(name@) {
                Some(old(self)@[name@])
            } else {
                None::<V>
            },
    {
        proof {
            use_type_invariant(&*self);
        }
        let previous = self.remove(&name);
        let ghost rest = *self;
        proof {
            use_type_invariant(&*self);
        }
        let mut whole = Table { names: Vec::new(), values: Vec::new() };
        core::mem::swap(self, &mut whole);
        let Table { names, values } = whole;
        let mut names = names;
        let mut values = values;
        names.push(name);
        values.push(value);
        proof {
            assert(!rest@.contains_key(name@));
            lemma_push(rest.keys(), rest.values@, name@, value);
            assert(names@.map_values(|name: String| name@) =~= rest.keys().push(name@));
            assert(old(self)@.remove(name@).insert(name@, value) =~= old(self)@.insert(
                name@,
                value,
            ));
        }
        *self = Table { names, values };
        previous
    }

    /// Takes out the value kept under `name`, if there is one.
    pub fn remove(&mut self, name: &String) -> (taken: Option<V>)
        ensures
            final(self)@ == old(self)@.remove(name@),
            taken == if old(self)@.contains_key(name@) {
                Some(old(self)@[name@])
            } else {
                None::<V>
            },
    {
        proof {
            use_type_invariant(&*self);
        }
        let ghost before = *self;
        match self.position(name) {
            None => {
                assert(before@.remove(name@) =~= before@);
                None
            },
            Some(i) => {
                let mut whole = Table { names: Vec::new(), values: Vec::new() };
                core::mem::swap(self, &mut whole);
                let Table { names, values } = whole;
                let mut names = names;
                let mut values = values;
                let _ = names.swap_remove(i);
                let value = values.swap_remove(i);
                proof {
                    lemma_row(before.keys(), before.values@, i as int);
                    lemma_swap_remove(before.keys(), before.values@, i as int);
                    assert(names@.map_values(|name: String| name@) =~= before.keys().update(
                        i as int,
                        before.keys().last(),
                    ).drop_last());
                }
                *self = Table { names, values };
                Some(value)
            },
        }
    }

    /// Runs `change` on the value kept under `name`, in place, and hands back
    /// what it returned; does nothing where no value is kept under `name`.
    pub fn apply<F, R>(&mut self, name: &String, change: F) -> (outcome: Option<R>) where
        F: FnOnce(&mut V) -> R,

        requires
            old(self)@.contains_key(name@) ==> forall|slot: &mut V|
                *slot == old(self)@[name@] ==> call_requires(change, (slot,)),
        ensures
            !old(self)@.contains_key(name@) ==> outcome is None && final(self)@ == old(self)@,
            old(self)@.contains_key(name@) ==> outcome is Some && exists|slot: &mut V|
                {
                    &&& *slot == old(self)@[name@]
                    &&& final(self)@ == old(self)@.insert(name@, *final(slot))
                    &&& call_ensures(change, (slot,), outcome->0)
                },
    {
        proof {
            use_type_invariant(&*self);
        }
        let ghost before = *self;
        match self.position(name) {
            None => None,
            Some(i) => {
                proof {
                    lemma_row(before.keys(), before.values@, i as int);
                }
                let slot = &mut self.values[i];
                let ghost lent = slot;
                let result = change(slot);
                proof {
                    lemma_update(before.keys(), before.values@, i as int, *final(lent));
                    assert(self.keys() == before.keys());
                }
                Some(result)
            },
        }
    }
}

} // verus!
