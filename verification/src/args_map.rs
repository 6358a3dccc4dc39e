//! The multivalue argument map handed to a command's handler: one entry per
//! distinct bound key, each holding every value bound to that key in
//! encounter order. Entries keep the order in which keys first appeared.

use vstd::prelude::*;
use vstd::string::*;

use crate::text::str_eq;

verus! {

/// The view of an argument map: an ordered association list from key
/// characters to the ordered values bound under that key.
pub type MapEntries = Seq<(Seq<char>, Seq<Seq<char>>)>;

/// The index of the first entry carrying `key`, if any.
pub open spec fn first_key_index(m: MapEntries, key: Seq<char>) -> Option<int>
    decreases m.len(),
{
    if m.len() == 0 {
        None
    } else if m[0].0 == key {
        Some(0int)
    } else {
        match first_key_index(m.skip(1), key) {
            Some(j) => Some(j + 1),
            None => None,
        }
    }
}

/// The values bound under `key`, if the key is present.
pub open spec fn map_get(m: MapEntries, key: Seq<char>) -> Option<Seq<Seq<char>>> {
    match first_key_index(m, key) {
        Some(i) => Some(m[i].1),
        None => None,
    }
}

/// Whether `key` is present.
pub open spec fn map_contains_key(m: MapEntries, key: Seq<char>) -> bool {
    first_key_index(m, key) is Some
}

/// `m` with `value` appended under `key`: onto the existing entry when the
/// key is present, as a fresh last entry otherwise.
pub open spec fn spec_map_append(m: MapEntries, key: Seq<char>, value: Seq<char>) -> MapEntries {
    match first_key_index(m, key) {
        Some(i) => m.update(i, (m[i].0, m[i].1.push(value))),
        None => m.push((key, seq![value])),
    }
}

/// The map that folding the ordered bindings yields; a binding without a
/// value contributes the empty string.
pub open spec fn spec_fold_bindings_from(
    bindings: Seq<(Seq<char>, Option<Seq<char>>)>,
    acc: MapEntries,
) -> MapEntries
    decreases bindings.len(),
{
    if bindings.len() == 0 {
        acc
    } else {
        let value = match bindings[0].1 {
            Some(v) => v,
            None => Seq::<char>::empty(),
        };
        spec_fold_bindings_from(bindings.skip(1), spec_map_append(acc, bindings[0].0, value))
    }
}

/// The map built from a whole binding list.
pub open spec fn spec_fold_bindings(bindings: Seq<(Seq<char>, Option<Seq<char>>)>) -> MapEntries {
    spec_fold_bindings_from(bindings, Seq::empty())
}

/// The key-to-multivalue map handed to a handler. Keys appear in the order
/// first bound; each key's values keep encounter order, undeduplicated.
#[derive(Debug)]
pub struct ArgumentMap {
    pub entries: Vec<(String, Vec<String>)>,
}

impl View for ArgumentMap {
    type V = MapEntries;

    open spec fn view(&self) -> MapEntries {
        self.entries.deep_view()
    }
}

impl ArgumentMap {
    /// An empty map.
    pub fn new() -> (r: ArgumentMap)
        ensures
            r@ == Seq::<(Seq<char>, Seq<Seq<char>>)>::empty(),
    {
        let r = ArgumentMap { entries: Vec::new() };
        proof {
            assert(r@ =~= Seq::<(Seq<char>, Seq<Seq<char>>)>::empty());
        }
        r
    }

    /// The index of the first entry carrying `key`, if any.
    fn find_key(&self, key: &str) -> (r: Option<usize>)
        ensures
            match r {
                Some(i) => i < self.entries.len() && first_key_index(self@, key@) == Some(i as int),
                None => first_key_index(self@, key@) is None,
            },
    {
        let ghost m = self@;
        let n = self.entries.len();
        let mut i: usize = 0;
        proof {
            assert(m.skip(0) =~= m);
        }
        while i < n
            invariant
                n == self.entries.len(),
                m == self@,
                i <= n,
                first_key_index(m, key@) == (match first_key_index(m.skip(i as int), key@) {
                    Some(k) => Some(k + i),
                    None => None::<int>,
                }),
            decreases n - i,
        {
            proof {
                assert(m.skip(i as int)[0] == m[i as int]);
                assert(m.skip(i as int).skip(1) =~= m.skip(i as int + 1));
            }
            if str_eq(self.entries[i].0.as_str(), key) {
                proof {
                    assert(m[i as int].0 == key@);
                    assert(first_key_index(m.skip(i as int), key@) == Some(0int));
                }
                return Some(i);
            }
            i += 1;
        }
        proof {
            assert(m.skip(n as int).len() == 0);
        }
        None
    }

    /// Appends `value` under `key`, creating the entry on first use.
    pub fn append_value(&mut self, key: String, value: String)
        ensures
            final(self)@ == spec_map_append(old(self)@, key@, value@),
    {
        let ghost m = self@;
        match self.find_key(key.as_str()) {
            Some(i) => {
                let mut row = self.entries.remove(i);
                row.1.push(value);
                self.entries.insert(i, row);
                proof {
                    assert(self@ =~~= m.update(i as int, (m[i as int].0, m[i as int].1.push(
                        value@,
                    ))));
                }
            },
            None => {
                let mut values: Vec<String> = Vec::new();
                values.push(value);
                self.entries.push((key, values));
                proof {
                    assert(values.deep_view() =~= seq![value@]);
                    assert(self@ =~= m.push((key@, seq![value@])));
                }
            },
        }
    }

    /// The values bound under `key`, in encounter order.
    pub fn get(&self, key: &str) -> (r: Option<&Vec<String>>)
        ensures
            match r {
                Some(v) => map_get(self@, key@) == Some(v.deep_view()),
                None => map_get(self@, key@) is None,
            },
    {
        match self.find_key(key) {
            Some(i) => Some(&self.entries[i].1),
            None => None,
        }
    }

    /// Whether any value was bound under `key`.
    pub fn contains_key(&self, key: &str) -> (r: bool)
        ensures
            r == map_contains_key(self@, key@),
    {
        match self.find_key(key) {
            Some(_) => true,
            None => false,
        }
    }

    /// The number of distinct keys.
    pub fn len(&self) -> (r: usize)
        ensures
            r == self@.len(),
    {
        self.entries.len()
    }
}

/// Folds the ordered bindings into the argument map: for each binding its
/// value (the empty string when none was bound) is appended to the sequence
/// at its key, creating the sequence on first use.
pub fn get_arguments_map(arguments: Vec<(String, Option<String>)>) -> (r: ArgumentMap)
    ensures
        r@ == spec_fold_bindings(arguments.deep_view()),
{
    let ghost bs = arguments.deep_view();
    let mut map = ArgumentMap::new();
    let n = arguments.len();
    let mut i: usize = 0;
    proof {
        assert(bs.skip(0) =~= bs);
    }
    while i < n
        invariant
            n == arguments.len(),
            bs == arguments.deep_view(),
            i <= n,
            spec_fold_bindings(bs) == spec_fold_bindings_from(bs.skip(i as int), map@),
        decreases n - i,
    {
        proof {
            assert(bs.skip(i as int)[0] == bs[i as int]);
            assert(bs.skip(i as int).skip(1) =~= bs.skip(i as int + 1));
        }
        let key = arguments[i].0.clone();
        let value = match &arguments[i].1 {
            Some(v) => v.clone(),
            None => String::new(),
        };
        map.append_value(key, value);
        i += 1;
    }
    proof {
        assert(bs.skip(n as int).len() == 0);
    }
    map
}

} // verus!
