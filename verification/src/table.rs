//! String-keyed tables used by the emitter: the symbol table, the
//! procedure table and the initialization set. They are association
//! lists with distinct keys, viewed as a `Map<Seq<char>, V>` or a
//! `Set<Seq<char>>`, so that every lookup and insertion has an exact
//! contract over the mathematical view.
use vstd::prelude::*;

verus! {

/// The map denoted by an entry list: later entries win, though under
/// `distinct_keys` there is nothing to win over.
pub open spec fn map_of<V>(s: Seq<(String, V)>) -> Map<Seq<char>, V>
    decreases s.len(),
{
    if s.len() == 0 {
        Map::empty()
    } else {
        map_of(s.drop_last()).insert(s.last().0@, s.last().1)
    }
}

/// No two entries share a key.
pub open spec fn distinct_keys<V>(s: Seq<(String, V)>) -> bool {
    forall|i: int, j: int| 0 <= i < j < s.len() ==> s[i].0@ != s[j].0@
}

/// A key that no entry holds is not in the map.
proof fn lemma_map_of_absent<V>(s: Seq<(String, V)>, k: Seq<char>)
    requires
        forall|i: int| 0 <= i < s.len() ==> #[trigger] s[i].0@ != k,
    ensures
        !map_of(s).contains_key(k),
    decreases s.len(),
{
    if s.len() > 0 {
        assert(s.last() == s[s.len() - 1]);
        lemma_map_of_absent(s.drop_last(), k);
    }
}

/// Under distinct keys, the map sends each entry's key to its value.
proof fn lemma_map_of_present<V>(s: Seq<(String, V)>, i: int)
    requires
        distinct_keys(s),
        0 <= i < s.len(),
    ensures
        map_of(s).contains_key(s[i].0@),
        map_of(s)[s[i].0@] == s[i].1,
    decreases s.len(),
{
    if i == s.len() - 1 {
        assert(s.last() == s[i]);
    } else {
        lemma_map_of_present(s.drop_last(), i);
        assert(s.drop_last()[i] == s[i]);
        assert(s.last() == s[s.len() - 1]);
    }
}

/// A string-keyed map with exact lookup and insertion contracts.
#[derive(Debug)]
pub struct StrMap<V> {
    entries: Vec<(String, V)>,
}

impl<V> View for StrMap<V> {
    type V = Map<Seq<char>, V>;

    closed spec fn view(&self) -> Map<Seq<char>, V> {
        map_of(self.entries@)
    }
}

impl<V> StrMap<V> {
    /// The entry list keeps its keys distinct.
    pub closed spec fn wf(&self) -> bool {
        distinct_keys(self.entries@)
    }

    /// How many entries the table holds.
    pub closed spec fn spec_len(&self) -> nat {
        self.entries@.len()
    }

    pub fn new() -> (r: StrMap<V>)
        ensures
            r@ == Map::<Seq<char>, V>::empty(),
            r.wf(),
            r.spec_len() == 0,
    {
        StrMap { entries: Vec::new() }
    }

    pub fn len(&self) -> (n: usize)
        ensures
            n == self.spec_len(),
    {
        self.entries.len()
    }

    pub fn get(&self, k: &String) -> (r: Option<&V>)
        requires
            self.wf(),
        ensures
            match r {
                Some(v) => self@.contains_key(k@) && *v == self@[k@],
                None => !self@.contains_key(k@),
            },
    {
        let n = self.entries.len();
        let mut i: usize = 0;
        while i < n
            invariant
                n == self.entries@.len(),
                0 <= i <= n,
                self.wf(),
                forall|j: int| 0 <= j < i ==> #[trigger] self.entries@[j].0@ != k@,
            decreases n - i,
        {
            if self.entries[i].0 == *k {
                proof {
                    lemma_map_of_present(self.entries@, i as int);
                }
                return Some(&self.entries[i].1);
            }
            i += 1;
        }
        proof {
            lemma_map_of_absent(self.entries@, k@);
        }
        None
    }

    pub fn contains_key(&self, k: &String) -> (r: bool)
        requires
            self.wf(),
        ensures
            r == self@.contains_key(k@),
    {
        self.get(k).is_some()
    }

    /// Installs or replaces the binding of `k`; reports whether a
    /// binding was already there, as the collection types of std do.
    pub fn insert(&mut self, k: String, v: V) -> (was_present: bool)
        requires
            old(self).wf(),
        ensures
            final(self).wf(),
            final(self)@ == old(self)@.insert(k@, v),
            was_present == old(self)@.contains_key(k@),
    {
        let ghost s0 = self.entries@;
        let n = self.entries.len();
        let mut i: usize = 0;
        while i < n
            invariant
                n == self.entries@.len(),
                0 <= i <= n,
                self.entries@ == s0,
                old(self)@ == map_of(s0),
                distinct_keys(s0),
                forall|j: int| 0 <= j < i ==> #[trigger] s0[j].0@ != k@,
            decreases n - i,
        {
            if self.entries[i].0 == k {
                proof {
                    lemma_map_of_present(s0, i as int);
                }
                self.entries[i] = (k, v);
                proof {
                    let s1 = self.entries@;
                    assert forall|a: int, b: int| 0 <= a < b < s1.len() implies s1[a].0@
                        != s1[b].0@ by {
                        assert(s0[a].0@ != s0[b].0@);
                    }
                    lemma_update_is_insert(s0, i as int, k, v);
                }
                return true;
            }
            i += 1;
        }
        proof {
            lemma_map_of_absent(s0, k@);
        }
        self.entries.push((k, v));
        proof {
            let s1 = self.entries@;
            assert(s1.drop_last() == s0);
            assert forall|a: int, b: int| 0 <= a < b < s1.len() implies s1[a].0@ != s1[b].0@ by {
                if b < s1.len() - 1 {
                    assert(s0[a].0@ != s0[b].0@);
                } else {
                    assert(s1[a] == s0[a]);
                }
            }
        }
        false
    }
}

/// Replacing the entry at `i` by a same-keyed pair is, on the map side,
/// an insertion of that key.
proof fn lemma_update_is_insert<V>(s: Seq<(String, V)>, i: int, k: String, v: V)
    requires
        distinct_keys(s),
        0 <= i < s.len(),
        s[i].0@ == k@,
    ensures
        map_of(s.update(i, (k, v))) == map_of(s).insert(k@, v),
    decreases s.len(),
{
    let t = s.update(i, (k, v));
    if i == s.len() - 1 {
        assert(t.drop_last() == s.drop_last());
        assert(t.last() == (k, v));
        assert(s.last() == s[i]);
        assert(map_of(t) == map_of(s.drop_last()).insert(k@, v));
        assert(map_of(s).insert(k@, v) == map_of(s.drop_last()).insert(s[i].0@, s[i].1).insert(
            k@,
            v,
        ));
        assert(map_of(s.drop_last()).insert(k@, v) =~= map_of(s.drop_last()).insert(
            s[i].0@,
            s[i].1,
        ).insert(k@, v));
    } else {
        assert(t.drop_last() == s.drop_last().update(i, (k, v)));
        assert(t.last() == s.last());
        assert(s.drop_last()[i] == s[i]);
        lemma_update_is_insert(s.drop_last(), i, k, v);
        assert(s.last() == s[s.len() - 1]);
        assert(s[s.len() - 1].0@ != k@);
        assert(map_of(t) == map_of(s.drop_last()).insert(k@, v).insert(s.last().0@, s.last().1));
        assert(map_of(s.drop_last()).insert(k@, v).insert(s.last().0@, s.last().1)
            =~= map_of(s.drop_last()).insert(s.last().0@, s.last().1).insert(k@, v));
    }
}

/// A set of strings, viewed as a `Set<Seq<char>>`.
#[derive(Debug)]
pub struct StrSet {
    items: StrMap<()>,
}

impl View for StrSet {
    type V = Set<Seq<char>>;

    closed spec fn view(&self) -> Set<Seq<char>> {
        self.items@.dom()
    }
}

impl StrSet {
    pub closed spec fn wf(&self) -> bool {
        self.items.wf()
    }

    pub fn new() -> (r: StrSet)
        ensures
            r@ == Set::<Seq<char>>::empty(),
            r.wf(),
    {
        let items = StrMap::new();
        proof {
            assert(items@.dom() =~= Set::<Seq<char>>::empty());
        }
        StrSet { items }
    }

    pub fn contains(&self, k: &String) -> (r: bool)
        requires
            self.wf(),
        ensures
            r == self@.contains(k@),
    {
        self.items.contains_key(k)
    }

    pub fn insert(&mut self, k: String)
        requires
            old(self).wf(),
        ensures
            final(self).wf(),
            final(self)@ == old(self)@.insert(k@),
    {
        let ghost d0 = self.items@.dom();
        self.items.insert(k, ());
        proof {
            assert(self.items@.dom() =~= d0.insert(k@));
        }
    }
}

} // verus!
