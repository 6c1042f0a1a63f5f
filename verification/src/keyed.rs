//! A small table of values keyed by text (a monitor id, for instance),
//! each key at most once, kept in the order the keys first came.

use vstd::prelude::*;
use crate::text::str_eq;

verus! {

/// The map a list of entries describes: for each key, its last entry.
pub open spec fn table_map<V>(s: Seq<(String, V)>) -> Map<Seq<char>, V>
    decreases s.len(),
{
    if s.len() == 0 {
        Map::empty()
    } else {
        table_map(s.drop_last()).insert(s.last().0@, s.last().1)
    }
}

/// No key occurs twice.
pub open spec fn keys_distinct<V>(s: Seq<(String, V)>) -> bool {
    forall|i: int, j: int| 0 <= i < j < s.len() ==> (#[trigger] s[i]).0@ != (#[trigger] s[j]).0@
}

/// The list without the entry of a key, the others in order.
pub open spec fn without_key<V>(s: Seq<(String, V)>, key: Seq<char>) -> Seq<(String, V)>
    decreases s.len(),
{
    if s.len() == 0 {
        s
    } else if s.last().0@ == key {
        without_key(s.drop_last(), key)
    } else {
        without_key(s.drop_last(), key).push(s.last())
    }
}

proof fn lemma_map_keys<V>(s: Seq<(String, V)>, key: Seq<char>)
    ensures
        table_map(s).contains_key(key) <==> exists|i: int| 0 <= i < s.len() && (#[trigger] s[i]).0@ == key,
    decreases s.len(),
{
    if s.len() > 0 {
        let u = s.drop_last();
        lemma_map_keys(u, key);
        if exists|i: int| 0 <= i < u.len() && (#[trigger] u[i]).0@ == key {
            let i = choose|i: int| 0 <= i < u.len() && (#[trigger] u[i]).0@ == key;
            assert(s[i] == u[i]);
        }
        if exists|i: int| 0 <= i < s.len() && (#[trigger] s[i]).0@ == key {
            let i = choose|i: int| 0 <= i < s.len() && (#[trigger] s[i]).0@ == key;
            if i < s.len() - 1 {
                assert(u[i] == s[i]);
            }
        }
    }
}

proof fn lemma_prefix_distinct<V>(s: Seq<(String, V)>)
    requires
        keys_distinct(s),
        s.len() > 0,
    ensures
        keys_distinct(s.drop_last()),
{
    let u = s.drop_last();
    assert forall|i: int, j: int| 0 <= i < j < u.len() implies (#[trigger] u[i]).0@ != (
    #[trigger] u[j]).0@ by {
        assert(u[i] == s[i] && u[j] == s[j]);
    }
}

/// Replacing the entry of a key in a list with distinct keys updates the
/// map at that key.
proof fn lemma_map_update<V>(s: Seq<(String, V)>, k: int, e: (String, V))
    requires
        keys_distinct(s),
        0 <= k < s.len(),
        e.0@ == s[k].0@,
    ensures
        table_map(s.update(k, e)) == table_map(s).insert(e.0@, e.1),
        keys_distinct(s.update(k, e)),
    decreases s.len(),
{
    let t = s.update(k, e);
    assert(keys_distinct(t)) by {
        assert forall|i: int, j: int| 0 <= i < j < t.len() implies (#[trigger] t[i]).0@ != (
        #[trigger] t[j]).0@ by {
            assert(s[i].0@ != s[j].0@);
        }
    }
    let u = s.drop_last();
    if k == s.len() - 1 {
        assert(t.drop_last() =~= u);
        assert(table_map(u).insert(s.last().0@, s.last().1).insert(e.0@, e.1) =~= table_map(
            u,
        ).insert(e.0@, e.1));
    } else {
        lemma_prefix_distinct(s);
        lemma_map_update(u, k, e);
        assert(t.drop_last() =~= u.update(k, e));
        assert(s[k].0@ != s.last().0@);
        assert(table_map(t) =~= table_map(s).insert(e.0@, e.1));
    }
}

/// Appending an entry for a new key keeps keys distinct.
proof fn lemma_push_new<V>(s: Seq<(String, V)>, e: (String, V))
    requires
        keys_distinct(s),
        !table_map(s).contains_key(e.0@),
    ensures
        keys_distinct(s.push(e)),
        table_map(s.push(e)) == table_map(s).insert(e.0@, e.1),
{
    lemma_map_keys(s, e.0@);
    let t = s.push(e);
    assert forall|i: int, j: int| 0 <= i < j < t.len() implies (#[trigger] t[i]).0@ != (
    #[trigger] t[j]).0@ by {
        if j == s.len() {
            assert(t[i] == s[i]);
        } else {
            assert(t[i] == s[i] && t[j] == s[j]);
        }
    }
    assert(t.drop_last() =~= s);
}

proof fn lemma_without_key<V>(s: Seq<(String, V)>, key: Seq<char>)
    requires
        keys_distinct(s),
    ensures
        table_map(without_key(s, key)) == table_map(s).remove(key),
        keys_distinct(without_key(s, key)),
    decreases s.len(),
{
    if s.len() > 0 {
        let u = s.drop_last();
        lemma_prefix_distinct(s);
        lemma_without_key(u, key);
        lemma_map_keys(u, s.last().0@);
        if exists|i: int| 0 <= i < u.len() && (#[trigger] u[i]).0@ == s.last().0@ {
            let i = choose|i: int| 0 <= i < u.len() && (#[trigger] u[i]).0@ == s.last().0@;
            assert(s[i].0@ == s[s.len() - 1].0@);
        }
        if s.last().0@ == key {
            assert(table_map(u).remove(key) =~= table_map(s).remove(key));
        } else {
            let w = without_key(u, key);
            assert(!table_map(w).contains_key(s.last().0@));
            lemma_push_new(w, s.last());
            assert(table_map(w.push(s.last())) =~= table_map(s).remove(key));
        }
    }
}

/// In a list with distinct keys, the map holds each entry's value.
proof fn lemma_at<V>(s: Seq<(String, V)>, k: int)
    requires
        keys_distinct(s),
        0 <= k < s.len(),
    ensures
        table_map(s).contains_key(s[k].0@),
        table_map(s)[s[k].0@] == s[k].1,
{
    lemma_map_update(s, k, s[k]);
    assert(s.update(k, s[k]) =~= s);
}

/// The position of a key's entry in a list.
fn find<V>(s: &[(String, V)], key: &str) -> (r: Option<usize>)
    ensures
        match r {
            Some(k) => k < s@.len() && s@[k as int].0@ == key@,
            None => !table_map(s@).contains_key(key@),
        },
{
    let mut i: usize = 0;
    while i < s.len()
        invariant
            i <= s@.len(),
            forall|j: int| 0 <= j < i ==> (#[trigger] s@[j]).0@ != key@,
        decreases s@.len() - i,
    {
        if str_eq(s[i].0.as_str(), key) {
            return Some(i);
        }
        i = i + 1;
    }
    proof {
        lemma_map_keys(s@, key@);
    }
    None
}

/// Values keyed by text, each key once.
#[derive(Debug, PartialEq)]
pub struct Table<V: Copy> {
    entries: Vec<(String, V)>,
}

impl<V: Copy> Table<V> {
    #[verifier::type_invariant]
    spec fn distinct(&self) -> bool {
        keys_distinct(self.entries@)
    }

    /// The value of each key.
    pub closed spec fn map(&self) -> Map<Seq<char>, V> {
        table_map(self.entries@)
    }

    /// An empty table.
    pub fn new() -> (r: Table<V>)
        ensures
            r.map() == Map::<Seq<char>, V>::empty(),
    {
        Table { entries: Vec::new() }
    }

    /// A table of the given entries (for a key given twice, the later
    /// entry).
    pub fn from_entries(entries: &[(String, V)]) -> (r: Table<V>)
        ensures
            r.map() == table_map(entries@),
    {
        let mut t = Table::new();
        let mut i: usize = 0;
        while i < entries.len()
            invariant
                i <= entries@.len(),
                t.map() == table_map(entries@.subrange(0, i as int)),
            decreases entries@.len() - i,
        {
            let ghost part = entries@.subrange(0, i as int + 1);
            assert(part.drop_last() =~= entries@.subrange(0, i as int));
            assert(part.last() == entries@[i as int]);
            t.set(entries[i].0.as_str(), entries[i].1);
            i = i + 1;
        }
        assert(entries@.subrange(0, entries@.len() as int) =~= entries@);
        t
    }

    /// The entries, each key once, in the order the keys first came.
    pub fn entries(&self) -> (r: Vec<(String, V)>)
        ensures
            table_map(r@) == self.map(),
            keys_distinct(r@),
    {
        proof {
            use_type_invariant(self);
        }
        let mut v: Vec<(String, V)> = Vec::new();
        let mut i: usize = 0;
        while i < self.entries.len()
            invariant
                i <= self.entries@.len(),
                keys_distinct(self.entries@),
                v@.len() == i,
                forall|j: int| 0 <= j < i ==> (#[trigger] v@[j]).0@ == self.entries@[j].0@ && v@[j].1
                    == self.entries@[j].1,
                table_map(v@) == table_map(self.entries@.subrange(0, i as int)),
            decreases self.entries@.len() - i,
        {
            let ghost part = self.entries@.subrange(0, i as int + 1);
            assert(part.drop_last() =~= self.entries@.subrange(0, i as int));
            let e = (self.entries[i].0.clone(), self.entries[i].1);
            let ghost before = v@;
            v.push(e);
            assert(v@.drop_last() =~= before);
            i = i + 1;
        }
        assert(self.entries@.subrange(0, self.entries@.len() as int) =~= self.entries@);
        assert(keys_distinct(v@)) by {
            assert forall|a: int, b: int| 0 <= a < b < v@.len() implies (#[trigger] v@[a]).0@ != (
            #[trigger] v@[b]).0@ by {
                assert(self.entries@[a].0@ != self.entries@[b].0@);
            }
        }
        v
    }

    /// The value of a key.
    pub fn get(&self, key: &str) -> (r: Option<V>)
        ensures
            r == (if self.map().contains_key(key@) {
                Some(self.map()[key@])
            } else {
                None
            }),
    {
        proof {
            use_type_invariant(self);
        }
        match find(self.entries.as_slice(), key) {
            Some(k) => {
                proof {
                    lemma_at(self.entries@, k as int);
                }
                Some(self.entries[k].1)
            },
            None => None,
        }
    }

    /// Sets the value of a key.
    pub fn set(&mut self, key: &str, value: V)
        ensures
            final(self).map() == old(self).map().insert(key@, value),
    {
        proof {
            use_type_invariant(&*self);
        }
        let e = (String::from_str(key), value);
        let mut v: Vec<(String, V)> = Vec::new();
        std::mem::swap(&mut v, &mut self.entries);
        match find(v.as_slice(), key) {
            Some(k) => {
                proof {
                    lemma_map_update(v@, k as int, e);
                }
                v.set(k, e);
            },
            None => {
                proof {
                    lemma_push_new(v@, e);
                }
                v.push(e);
            },
        }
        self.entries = v;
    }

    /// Removes a key and its value.
    pub fn remove(&mut self, key: &str)
        ensures
            final(self).map() == old(self).map().remove(key@),
    {
        proof {
            use_type_invariant(&*self);
        }
        let ghost s = self.entries@;
        let mut kept: Vec<(String, V)> = Vec::new();
        let mut i: usize = 0;
        while i < self.entries.len()
            invariant
                i <= self.entries@.len(),
                s == self.entries@,
                kept@ == without_key(s.subrange(0, i as int), key@),
            decreases self.entries@.len() - i,
        {
            let ghost part = s.subrange(0, i as int + 1);
            assert(part.drop_last() =~= s.subrange(0, i as int));
            if !str_eq(self.entries[i].0.as_str(), key) {
                let e = (self.entries[i].0.clone(), self.entries[i].1);
                kept.push(e);
                assert(e == s[i as int]);
            }
            i = i + 1;
        }
        assert(s.subrange(0, s.len() as int) =~= s);
        proof {
            lemma_without_key(s, key@);
        }
        self.entries = kept;
    }

    /// Removes every key.
    pub fn clear(&mut self)
        ensures
            final(self).map() == Map::<Seq<char>, V>::empty(),
    {
        self.entries = Vec::new();
    }
}

impl<V: Copy> Clone for Table<V> {
    fn clone(&self) -> (r: Table<V>)
        ensures
            r.map() == self.map(),
    {
        Table::from_entries(&self.entries())
    }
}

} // verus!
