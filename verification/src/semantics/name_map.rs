use vstd::prelude::*;

verus! {

/// Whether `k` is the name of entry `i`.
pub open spec fn entry_at<V>(e: Seq<(String, V)>, i: int, k: Seq<char>) -> bool {
    0 <= i < e.len() && e[i].0@ == k
}

/// No name occurs twice among the entries.
pub open spec fn names_unique<V>(e: Seq<(String, V)>) -> bool {
    forall|i: int, j: int|
        0 <= i < e.len() && 0 <= j < e.len() && i != j ==> #[trigger] e[i].0@ != #[trigger] e[j].0@
}

/// The entries as a map from names to values.
pub open spec fn entries_map<V>(e: Seq<(String, V)>) -> Map<Seq<char>, V> {
    Map::new(
        |k: Seq<char>| exists|i: int| entry_at(e, i, k),
        |k: Seq<char>| e[choose|i: int| entry_at(e, i, k)].1,
    )
}

/// With unique names, the value of a name is that of its entry.
proof fn lemma_entry_value<V>(e: Seq<(String, V)>, i: int)
    requires
        names_unique(e),
        0 <= i < e.len(),
    ensures
        entries_map(e).dom().contains(e[i].0@),
        entries_map(e)[e[i].0@] == e[i].1,
{
    let k = e[i].0@;
    assert(entry_at(e, i, k));
    let j = choose|j: int| entry_at(e, j, k);
    assert(j == i);
}

/// A map from names to values: each name occurs at most once.
#[derive(Debug, PartialEq)]
pub struct NameMap<V> {
    entries: Vec<(String, V)>,
}

impl<V> View for NameMap<V> {
    type V = Map<Seq<char>, V>;

    closed spec fn view(&self) -> Map<Seq<char>, V> {
        entries_map(self.entries@)
    }
}

impl<V> NameMap<V> {
    /// No name occurs twice.
    #[verifier::type_invariant]
    closed spec fn keys_unique(self) -> bool {
        names_unique(self.entries@)
    }

    /// An empty map.
    pub fn new() -> (r: Self)
        ensures
            r@ == Map::<Seq<char>, V>::empty(),
    {
        let r = NameMap { entries: Vec::new() };
        assert(r@ =~= Map::<Seq<char>, V>::empty());
        r
    }

    /// Number of names.
    pub fn len(&self) -> (r: usize)
        ensures
            r == self@.len(),
            self@.dom().finite(),
    {
        proof {
            use_type_invariant(self);
            lemma_len(self.entries@);
        }
        self.entries.len()
    }

    /// Position of the entry for `k`, if there is one.
    fn find(&self, k: &str) -> (r: Option<usize>)
        ensures
            match r {
                Some(i) => entry_at(self.entries@, i as int, k@),
                None => !self@.dom().contains(k@),
            },
    {
        let key = k.to_owned();
        let mut i: usize = 0;
        while i < self.entries.len()
            invariant
                i <= self.entries@.len(),
                key@ == k@,
                forall|j: int| 0 <= j < i ==> !entry_at(self.entries@, j, k@),
            decreases self.entries@.len() - i,
        {
            if self.entries[i].0 == key {
                return Some(i);
            }
            i = i + 1;
        }
        None
    }

    /// Whether `k` is a name of the map.
    pub fn contains_key(&self, k: &str) -> (r: bool)
        ensures
            r == self@.dom().contains(k@),
    {
        match self.find(k) {
            Some(i) => true,
            None => false,
        }
    }

    /// The value of `k`, if `k` is a name of the map.
    pub fn get(&self, k: &str) -> (r: Option<&V>)
        ensures
            match r {
                Some(v) => self@.dom().contains(k@) && *v == self@[k@],
                None => !self@.dom().contains(k@),
            },
    {
        proof {
            use_type_invariant(self);
        }
        match self.find(k) {
            Some(i) => {
                proof {
                    lemma_entry_value(self.entries@, i as int);
                }
                Some(&self.entries[i].1)
            },
            None => None,
        }
    }

    /// Binds `k` to `v`, replacing any value it had.
    pub fn insert(&mut self, k: String, v: V)
        ensures
            final(self)@ == old(self)@.insert(k@, v),
    {
        proof {
            use_type_invariant(&*self);
        }
        let ghost old_entries = self.entries@;
        let ghost old_map = entries_map(old_entries);
        let ghost kv = k@;
        match self.find(k.as_str()) {
            Some(i) => {
                let mut ents: Vec<(String, V)> = Vec::new();
                std::mem::swap(&mut ents, &mut self.entries);
                ents.set(i, (k, v));
                proof {
                    let e = ents@;
                    assert(e == old_entries.update(i as int, (k, v)));
                    assert(names_unique(e)) by {
                        assert forall|a: int, b: int|
                            0 <= a < e.len() && 0 <= b < e.len() && a != b implies #[trigger] e[a].0@
                            != #[trigger] e[b].0@ by {
                            assert(old_entries[a].0@ != old_entries[b].0@);
                        }
                    }
                    assert forall|x: Seq<char>| #[trigger]
                        entries_map(e).dom().contains(x) == old_map.insert(kv, v).dom().contains(
                            x,
                        ) by {
                        if old_map.dom().contains(x) {
                            let j = choose|j: int| entry_at(old_entries, j, x);
                            assert(entry_at(e, j, x));
                        }
                        if entries_map(e).dom().contains(x) {
                            let j = choose|j: int| entry_at(e, j, x);
                            if j != i {
                                assert(entry_at(old_entries, j, x));
                            }
                        }
                        assert(entry_at(e, i as int, kv));
                    }
                    assert forall|x: Seq<char>| #[trigger]
                        entries_map(e).dom().contains(x) implies entries_map(e)[x] == old_map.insert(
                        kv,
                        v,
                    )[x] by {
                        let j = choose|j: int| entry_at(e, j, x);
                        lemma_entry_value(e, j);
                        if x != kv {
                            assert(j != i);
                            lemma_entry_value(old_entries, j);
                        }
                    }
                    assert(entries_map(e) =~= old_map.insert(kv, v));
                }
                self.entries = ents;
            },
            None => {
                let mut ents: Vec<(String, V)> = Vec::new();
                std::mem::swap(&mut ents, &mut self.entries);
                ents.push((k, v));
                proof {
                    let e = ents@;
                    let n = old_entries.len() as int;
                    assert(names_unique(e)) by {
                        assert forall|a: int, b: int|
                            0 <= a < e.len() && 0 <= b < e.len() && a != b implies #[trigger] e[a].0@
                            != #[trigger] e[b].0@ by {
                            if a < n && b < n {
                                assert(old_entries[a].0@ != old_entries[b].0@);
                            } else if a == n {
                                assert(!entry_at(old_entries, b, kv));
                            } else {
                                assert(!entry_at(old_entries, a, kv));
                            }
                        }
                    }
                    assert forall|x: Seq<char>| #[trigger]
                        entries_map(e).dom().contains(x) == old_map.insert(kv, v).dom().contains(
                            x,
                        ) by {
                        if old_map.dom().contains(x) {
                            let j = choose|j: int| entry_at(old_entries, j, x);
                            assert(entry_at(e, j, x));
                        }
                        if entries_map(e).dom().contains(x) {
                            let j = choose|j: int| entry_at(e, j, x);
                            if j < n {
                                assert(entry_at(old_entries, j, x));
                            }
                        }
                        assert(entry_at(e, n, kv));
                    }
                    assert forall|x: Seq<char>| #[trigger]
                        entries_map(e).dom().contains(x) implies entries_map(e)[x] == old_map.insert(
                        kv,
                        v,
                    )[x] by {
                        let j = choose|j: int| entry_at(e, j, x);
                        lemma_entry_value(e, j);
                        if x != kv {
                            assert(j != n);
                            lemma_entry_value(old_entries, j);
                        }
                    }
                    assert(entries_map(e) =~= old_map.insert(kv, v));
                }
                self.entries = ents;
            },
        }
    }
}

/// With unique names, the map has one name per entry.
proof fn lemma_len<V>(e: Seq<(String, V)>)
    requires
        names_unique(e),
    ensures
        entries_map(e).dom().finite(),
        entries_map(e).len() == e.len(),
{
    let keys = e.map_values(|p: (String, V)| p.0@);
    assert forall|i: int, j: int| 0 <= i < keys.len() && 0 <= j < keys.len() && i != j implies keys[i]
        != keys[j] by {
        assert(e[i].0@ != e[j].0@);
    }
    assert(keys.no_duplicates());
    keys.unique_seq_to_set();
    assert forall|k: Seq<char>| keys.to_set().contains(k) <==> entries_map(e).dom().contains(k) by {
        if keys.to_set().contains(k) {
            let i = choose|i: int| 0 <= i < keys.len() && keys[i] == k;
            assert(entry_at(e, i, k));
        }
        if entries_map(e).dom().contains(k) {
            let i = choose|i: int| entry_at(e, i, k);
            assert(keys[i] == k);
        }
    }
    assert(keys.to_set() =~= entries_map(e).dom());
}


/// After `insert(k, v)`, `get(k)` gives `v`, and every other name keeps what
/// it had; the number of names grows by one exactly when `k` was new.
pub proof fn insert_then_get<V>(m: Map<Seq<char>, V>, k: Seq<char>, v: V, j: Seq<char>)
    requires
        m.dom().finite(),
    ensures
        m.insert(k, v).dom().contains(k),
        m.insert(k, v)[k] == v,
        j != k ==> (m.insert(k, v).dom().contains(j) == m.dom().contains(j) && (m.dom().contains(j)
            ==> m.insert(k, v)[j] == m[j])),
        m.insert(k, v).len() == m.len() + (if m.dom().contains(k) {
            0int
        } else {
            1int
        }),
{
    if m.dom().contains(k) {
        assert(m.insert(k, v).dom() =~= m.dom());
    } else {
        assert(m.insert(k, v).dom() =~= m.dom().insert(k));
    }
}

} // verus!
