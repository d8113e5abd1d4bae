//! A small string-keyed table: the per-agent runtime records and beat rings
//! are kept in one, keyed by agent id. Each key occurs at most once.
use vstd::prelude::*;

use crate::text::str_eq;

verus! {

/// Values keyed by agent id; each id occurs at most once.
pub struct KeyedTable<T> {
    keys: Vec<String>,
    vals: Vec<T>,
}

/// A value with a yes/no flag that tables can count.
pub trait Flagged {
    spec fn flagged(&self) -> bool;

    fn is_flagged(&self) -> (r: bool)
        ensures
            r == self.flagged(),
    ;
}

impl<T> KeyedTable<T> {
    /// Keys and values line up, and no key occurs twice.
    #[verifier::type_invariant]
    pub closed spec fn wf(self) -> bool {
        &&& self.keys.len() == self.vals.len()
        &&& forall|i: int, j: int|
            0 <= i < j < self.keys.len() ==> #[trigger] self.keys@[i]@ != #[trigger] self.keys@[j]@
    }

    /// The keys, in insertion order.
    pub closed spec fn key_seq(&self) -> Seq<Seq<char>> {
        self.keys@.map_values(|k: String| k@)
    }

    /// The values, in the order of their keys.
    pub closed spec fn val_seq(&self) -> Seq<T> {
        self.vals@
    }

    proof fn lemma_index(&self, i: int)
        requires
            self.wf(),
            0 <= i < self.keys.len(),
        ensures
            self.key_seq().contains(self.keys@[i]@),
            self.key_seq().index_of(self.keys@[i]@) == i,
    {
        let k = self.keys@[i]@;
        assert(self.key_seq()[i] == k);
        let j = self.key_seq().index_of(k);
        if j != i {
            assert(self.key_seq()[j] == k);
            if j < i {
                assert(self.keys@[j]@ != self.keys@[i]@);
            } else {
                assert(self.keys@[i]@ != self.keys@[j]@);
            }
        }
    }

    /// The table's contents: value of each key.
    pub closed spec fn view(&self) -> Map<Seq<char>, T> {
        table_map(self.key_seq(), self.val_seq())
    }

    /// How the contents follow from the key and value sequences.
    pub proof fn lemma_view(&self)
        requires
            self.wf(),
        ensures
            self.key_seq().len() == self.val_seq().len(),
            self.key_seq().no_duplicates(),
            self.view().dom() == self.key_seq().to_set(),
            self.view().dom().finite(),
            forall|i: int|
                0 <= i < self.key_seq().len() ==> #[trigger] self.view()[self.key_seq()[i]]
                    == self.val_seq()[i],
    {
        assert forall|i: int| 0 <= i < self.key_seq().len() implies #[trigger] self.view()[self.key_seq()[i]]
            == self.val_seq()[i] by {
            self.lemma_index(i);
        }
        assert forall|i: int, j: int|
            0 <= i < self.key_seq().len() && 0 <= j < self.key_seq().len() && i != j implies self.key_seq()[i]
            != self.key_seq()[j] by {
            if i < j {
                assert(self.keys@[i]@ != self.keys@[j]@);
            } else {
                assert(self.keys@[j]@ != self.keys@[i]@);
            }
        }
        assert(self.view().dom() =~= self.key_seq().to_set());
        self.key_seq().unique_seq_to_set();
    }

    /// An empty table.
    pub fn new() -> (r: Self)
        ensures
            r.view() == Map::<Seq<char>, T>::empty(),
    {
        let r = KeyedTable { keys: Vec::new(), vals: Vec::new() };
        assert(r.view() =~= Map::<Seq<char>, T>::empty());
        r
    }

    /// Position of `id` among the keys.
    fn position(&self, id: &str) -> (r: Option<usize>)
        ensures
            match r {
                Some(i) => i < self.keys.len() && self.keys@[i as int]@ == id@ && self.view().dom().contains(id@)
                    && self.key_seq().index_of(id@) == i,
                None => !self.view().dom().contains(id@),
            },
    {
        proof {
            use_type_invariant(self);
        }
        let mut i: usize = 0;
        while i < self.keys.len()
            invariant
                self.wf(),
                i <= self.keys.len(),
                forall|j: int| 0 <= j < i ==> self.keys@[j]@ != id@,
            decreases self.keys.len() - i,
        {
            if str_eq(self.keys[i].as_str(), id) {
                proof {
                    self.lemma_index(i as int);
                }
                return Some(i);
            }
            i = i + 1;
        }
        proof {
            if self.key_seq().contains(id@) {
                let j = choose|j: int| 0 <= j < self.key_seq().len() && self.key_seq()[j] == id@;
                assert(self.keys@[j]@ == id@);
            }
        }
        None
    }

    /// Number of keys.
    pub fn len(&self) -> (r: usize)
        ensures
            r == self.view().dom().len(),
    {
        proof {
            use_type_invariant(self);
            self.lemma_view();
            self.key_seq().unique_seq_to_set();
        }
        self.keys.len()
    }

    /// The value of `id`, if any.
    pub fn get(&self, id: &str) -> (r: Option<&T>)
        ensures
            match r {
                Some(v) => self.view().dom().contains(id@) && *v == self.view()[id@],
                None => !self.view().dom().contains(id@),
            },
    {
        proof {
            use_type_invariant(self);
        }
        match self.position(id) {
            Some(i) => Some(&self.vals[i]),
            None => None,
        }
    }

    /// Whether `id` has a value.
    pub fn contains_key(&self, id: &str) -> (r: bool)
        ensures
            r == self.view().dom().contains(id@),
    {
        self.position(id).is_some()
    }

    /// The value of `id`, for update in place.
    pub fn get_mut(&mut self, id: &str) -> (r: Option<&mut T>)
        ensures
            match r {
                Some(v) => {
                    &&& old(self).view().dom().contains(id@)
                    &&& *v == old(self).view()[id@]
                    &&& final(self).view() == old(self).view().insert(id@, *final(v))
                },
                None => !old(self).view().dom().contains(id@) && final(self).view() == old(
                    self,
                ).view(),
            },
    {
        proof {
            use_type_invariant(&*self);
        }
        match self.position(id) {
            Some(i) => {
                let ghost old_t = *self;
                let r = &mut self.vals[i];
                proof {
                    lemma_unique_keys(old_t);
                    lemma_table_map_update(old_t.key_seq(), old_t.val_seq(), i as int, *final(r));
                }
                Some(r)
            },
            None => None,
        }
    }
    /// The value of `id`, inserting `default` first when `id` has none.
    pub fn get_or_insert(&mut self, id: &str, default: T) -> (r: &mut T)
        ensures
            *r == (if old(self).view().dom().contains(id@) {
                old(self).view()[id@]
            } else {
                default
            }),
            final(self).view() == old(self).view().insert(id@, *final(r)),
    {
        proof {
            use_type_invariant(&*self);
        }
        let ghost old_t = *self;
        match self.position(id) {
            Some(i) => {
                let r = &mut self.vals[i];
                proof {
                    lemma_unique_keys(old_t);
                    lemma_table_map_update(old_t.key_seq(), old_t.val_seq(), i as int, *final(r));
                }
                r
            },
            None => {
                let mut t = KeyedTable { keys: Vec::new(), vals: Vec::new() };
                std::mem::swap(self, &mut t);
                let KeyedTable { mut keys, mut vals } = t;
                keys.push(String::from_str(id));
                vals.push(default);
                proof {
                    lemma_unique_keys(old_t);
                    assert(keys@.map_values(|k: String| k@) =~= old_t.key_seq().push(id@));
                    assert forall|i: int, j: int|
                        0 <= i < j < keys.len() implies #[trigger] keys@[i]@ != #[trigger] keys@[j]@ by {
                        if j == keys.len() - 1 {
                            assert(old_t.key_seq()[i] == keys@[i]@);
                        } else {
                            assert(old_t.keys@[i]@ != old_t.keys@[j]@);
                        }
                    }
                }
                *self = KeyedTable { keys, vals };
                proof {
                    lemma_unique_keys(*self);
                }
                let n = self.vals.len() - 1;
                let r = &mut self.vals[n];
                proof {
                    lemma_table_map_push(old_t.key_seq(), old_t.val_seq(), id@, default);
                    lemma_table_map_update(
                        old_t.key_seq().push(id@),
                        old_t.val_seq().push(default),
                        n as int,
                        *final(r),
                    );
                    assert(old_t.val_seq().push(default).update(n as int, *final(r)) =~= old_t.val_seq().push(*final(r)));
                    lemma_table_map_push(old_t.key_seq(), old_t.val_seq(), id@, *final(r));
                }
                r
            },
        }
    }

    /// Removes `id` and hands back its value, if it had one.
    pub fn remove(&mut self, id: &str) -> (r: Option<T>)
        ensures
            final(self).view() == old(self).view().remove(id@),
            r == (if old(self).view().dom().contains(id@) {
                Some(old(self).view()[id@])
            } else {
                None
            }),
    {
        proof {
            use_type_invariant(&*self);
        }
        let ghost old_t = *self;
        match self.position(id) {
            Some(i) => {
                let mut t = KeyedTable { keys: Vec::new(), vals: Vec::new() };
                std::mem::swap(self, &mut t);
                let KeyedTable { mut keys, mut vals } = t;
                keys.remove(i);
                let gone = vals.remove(i);
                proof {
                    lemma_unique_keys(old_t);
                    assert(keys@.map_values(|k: String| k@) =~= old_t.key_seq().remove(i as int));
                    assert forall|a: int, b: int|
                        0 <= a < b < keys.len() implies #[trigger] keys@[a]@ != #[trigger] keys@[b]@ by {
                        let a0 = if a < i { a } else { a + 1 };
                        let b0 = if b < i { b } else { b + 1 };
                        assert(old_t.key_seq()[a0] != old_t.key_seq()[b0]);
                    }
                    lemma_table_map_remove(old_t.key_seq(), old_t.val_seq(), i as int);
                }
                *self = KeyedTable { keys, vals };
                proof {
                    assert(self.key_seq() =~= old_t.key_seq().remove(i as int));
                }
                Some(gone)
            },
            None => {
                proof {
                    assert(old_t.view().remove(id@) =~= old_t.view());
                }
                None
            },
        }
    }

    /// Sets the value of `id` to `v`, adding `id` when it has none.
    pub fn insert(&mut self, id: &str, v: T)
        ensures
            final(self).view() == old(self).view().insert(id@, v),
    {
        proof {
            use_type_invariant(&*self);
        }
        match self.position(id) {
            Some(i) => {
                let ghost old_t = *self;
                let r = &mut self.vals[i];
                *r = v;
                proof {
                    lemma_unique_keys(old_t);
                    lemma_table_map_update(old_t.key_seq(), old_t.val_seq(), i as int, v);
                }
            },
            None => {
                let r = self.get_or_insert(id, v);
            },
        }
    }

    /// The keys, in insertion order.
    pub fn keys(&self) -> (r: Vec<String>)
        ensures
            r@.map_values(|k: String| k@) == self.key_seq(),
    {
        let mut out: Vec<String> = Vec::new();
        let mut i: usize = 0;
        while i < self.keys.len()
            invariant
                i <= self.keys.len(),
                out@.map_values(|k: String| k@) == self.key_seq().take(i as int),
            decreases self.keys.len() - i,
        {
            let k = self.keys[i].clone();
            proof {
                assert(self.key_seq()[i as int] == k@);
                assert(self.key_seq().take(i + 1) =~= self.key_seq().take(i as int).push(k@));
                assert(out@.push(k).map_values(|k: String| k@) =~= out@.map_values(|k: String| k@).push(k@));
            }
            out.push(k);
            i = i + 1;
        }
        proof {
            assert(self.key_seq().take(i as int) =~= self.key_seq());
        }
        out
    }

    /// The values, in the order of their keys.
    pub fn into_values(self) -> (r: Vec<T>)
        ensures
            r@ == self.val_seq(),
    {
        let KeyedTable { keys, vals } = self;
        vals
    }
}

impl KeyedTable<String> {
    /// The table as (key, value) pairs, in key order.
    pub fn string_pairs(&self) -> (r: Vec<(String, String)>)
        ensures
            pairs_map(pairs_view(r@)) == text_map(self.view()),
            r@.len() == self.view().dom().len(),
            distinct_keys(pairs_view(r@)),
    {
        proof {
            use_type_invariant(self);
            lemma_unique_keys(*self);
            self.lemma_view();
            self.key_seq().unique_seq_to_set();
        }
        let ghost ks = self.key_seq();
        let ghost vs = self.val_seq();
        let mut out: Vec<(String, String)> = Vec::new();
        let mut i: usize = 0;
        while i < self.keys.len()
            invariant
                self.wf(),
                ks == self.key_seq(),
                vs == self.val_seq(),
                ks.no_duplicates(),
                ks.len() == vs.len(),
                i <= self.keys.len(),
                out@.len() == i,
                forall|a: int| 0 <= a < i ==> #[trigger] out@[a].0@ == ks[a],
                pairs_map(pairs_view(out@)) == text_map(table_map(ks.take(i as int), vs.take(i as int))),
            decreases self.keys.len() - i,
        {
            let k = self.keys[i].clone();
            let v = self.vals[i].clone();
            proof {
                let ghost p = (k@, v@);
                assert(pairs_view(out@.push((k, v))) =~= pairs_view(out@).push(p));
                assert(pairs_view(out@).push(p).drop_last() =~= pairs_view(out@));
                assert(ks.take(i + 1) =~= ks.take(i as int).push(ks[i as int]));
                assert(vs.take(i + 1) =~= vs.take(i as int).push(vs[i as int]));
                assert(ks[i as int] == k@);
                assert(!ks.take(i as int).contains(ks[i as int])) by {
                    if ks.take(i as int).contains(ks[i as int]) {
                        let j = choose|j: int| 0 <= j < i && ks.take(i as int)[j] == ks[i as int];
                        assert(ks[j] == ks[i as int]);
                    }
                }
                assert(ks.take(i as int).no_duplicates()) by {
                    assert forall|a: int, b: int|
                        0 <= a < ks.take(i as int).len() && 0 <= b < ks.take(i as int).len() && a != b implies ks.take(i as int)[a]
                        != ks.take(i as int)[b] by {
                        assert(ks.take(i as int)[a] == ks[a]);
                        assert(ks.take(i as int)[b] == ks[b]);
                    }
                }
                lemma_table_map_push(ks.take(i as int), vs.take(i as int), ks[i as int], vs[i as int]);
                assert(text_map(table_map(ks.take(i as int), vs.take(i as int)).insert(k@, v)) =~= text_map(
                    table_map(ks.take(i as int), vs.take(i as int)),
                ).insert(k@, v@));
            }
            out.push((k, v));
            i = i + 1;
        }
        proof {
            assert(ks.take(i as int) =~= ks);
            assert(vs.take(i as int) =~= vs);
            assert forall|a: int, b: int| 0 <= a < b < pairs_view(out@).len() implies pairs_view(out@)[a].0
                != pairs_view(out@)[b].0 by {
                assert(out@[a].0@ == ks[a]);
                assert(out@[b].0@ == ks[b]);
            }
        }
        out
    }
}

/// The pairs of strings `s`, as text.
pub open spec fn pairs_view(s: Seq<(String, String)>) -> Seq<(Seq<char>, Seq<char>)> {
    s.map_values(|p: (String, String)| (p.0@, p.1@))
}

/// The map that pairs `s` give, a later pair winning over an earlier one of the same key.
pub open spec fn pairs_map(s: Seq<(Seq<char>, Seq<char>)>) -> Map<Seq<char>, Seq<char>>
    decreases s.len(),
{
    if s.len() == 0 {
        Map::empty()
    } else {
        pairs_map(s.drop_last()).insert(s.last().0, s.last().1)
    }
}

/// No key occurs twice among `s`.
pub open spec fn distinct_keys(s: Seq<(Seq<char>, Seq<char>)>) -> bool {
    forall|i: int, j: int| 0 <= i < j < s.len() ==> s[i].0 != s[j].0
}

/// A map of strings, as text.
pub open spec fn text_map(m: Map<Seq<char>, String>) -> Map<Seq<char>, Seq<char>> {
    m.map_values(|s: String| s@)
}

impl<T: Flagged> KeyedTable<T> {
    /// Number of keys whose value is flagged.
    pub fn count_flagged(&self) -> (r: usize)
        ensures
            r == self.view().dom().filter(|k: Seq<char>| self.view()[k].flagged()).len(),
    {
        proof {
            use_type_invariant(self);
            lemma_unique_keys(*self);
        }
        let ghost m = self.view();
        let ghost ks = self.key_seq();
        let ghost mut seen: Set<Seq<char>> = Set::empty();
        let mut count: usize = 0;
        let mut i: usize = 0;
        while i < self.keys.len()
            invariant
                self.wf(),
                m == self.view(),
                ks == self.key_seq(),
                ks.no_duplicates(),
                ks.len() == self.val_seq().len(),
                i <= self.keys.len(),
                seen.finite(),
                seen.len() == count,
                count <= i,
                forall|k: Seq<char>| #[trigger] seen.contains(k) <==> (exists|j: int|
                    0 <= j < i && ks[j] == k && m[k].flagged()),
            decreases self.keys.len() - i,
        {
            proof {
                lemma_index_of_unique(ks, i as int);
            }
            if self.vals[i].is_flagged() {
                proof {
                    if seen.contains(ks[i as int]) {
                        let j = choose|j: int| 0 <= j < i && ks[j] == ks[i as int] && m[ks[i as int]].flagged();
                        assert(ks[j] != ks[i as int]);
                    }
                    seen = seen.insert(ks[i as int]);
                }
                count = count + 1;
            }
            proof {
                assert forall|k: Seq<char>| #[trigger] seen.contains(k) <==> (exists|j: int|
                    0 <= j < i + 1 && ks[j] == k && m[k].flagged()) by {
                    if (exists|j: int| 0 <= j < i + 1 && ks[j] == k && m[k].flagged()) {
                        let j = choose|j: int| 0 <= j < i + 1 && ks[j] == k && m[k].flagged();
                        if j < i {
                            assert(exists|j: int| 0 <= j < i && ks[j] == k && m[k].flagged());
                        }
                    }
                    if seen.contains(k) && k != ks[i as int] {
                        let j = choose|j: int| 0 <= j < i && ks[j] == k && m[k].flagged();
                        assert(0 <= j < i + 1 && ks[j] == k && m[k].flagged());
                    }
                }
            }
            i = i + 1;
        }
        proof {
            assert forall|k: Seq<char>| #[trigger] seen.contains(k) <==> m.dom().filter(|k: Seq<char>| m[k].flagged()).contains(k) by {
                if m.dom().contains(k) && m[k].flagged() {
                    let j = ks.index_of(k);
                    assert(ks[j] == k);
                }
            }
            assert(seen =~= m.dom().filter(|k: Seq<char>| m[k].flagged()));
        }
        count
    }
}


/// The map of unique keys `ks` to values `vs`.
pub open spec fn table_map<T>(ks: Seq<Seq<char>>, vs: Seq<T>) -> Map<Seq<char>, T> {
    Map::new(|k: Seq<char>| ks.contains(k), |k: Seq<char>| vs[ks.index_of(k)])
}

proof fn lemma_index_of_unique(ks: Seq<Seq<char>>, i: int)
    requires
        ks.no_duplicates(),
        0 <= i < ks.len(),
    ensures
        ks.contains(ks[i]),
        ks.index_of(ks[i]) == i,
{
    assert(ks[i] == ks[i]);
    let j = ks.index_of(ks[i]);
    assert(ks[j] == ks[i]);
}

proof fn lemma_unique_keys<T>(t: KeyedTable<T>)
    requires
        t.wf(),
    ensures
        t.key_seq().no_duplicates(),
        t.key_seq().len() == t.val_seq().len(),
{
    assert forall|i: int, j: int|
        0 <= i < t.key_seq().len() && 0 <= j < t.key_seq().len() && i != j implies t.key_seq()[i]
        != t.key_seq()[j] by {
        if i < j {
            assert(t.keys@[i]@ != t.keys@[j]@);
        } else {
            assert(t.keys@[j]@ != t.keys@[i]@);
        }
    }
}

/// Replacing the value at position `i` replaces the value of key `ks[i]`.
pub proof fn lemma_table_map_update<T>(ks: Seq<Seq<char>>, vs: Seq<T>, i: int, v: T)
    requires
        ks.no_duplicates(),
        ks.len() == vs.len(),
        0 <= i < ks.len(),
    ensures
        table_map(ks, vs.update(i, v)) == table_map(ks, vs).insert(ks[i], v),
{
    lemma_index_of_unique(ks, i);
    assert forall|k: Seq<char>| #[trigger] ks.contains(k) && k != ks[i] implies table_map(ks, vs.update(i, v))[k]
        == table_map(ks, vs)[k] by {
        let j = ks.index_of(k);
        assert(ks[j] == k);
    }
    assert(table_map(ks, vs.update(i, v)) =~= table_map(ks, vs).insert(ks[i], v));
}

/// Adding a new key with its value.
pub proof fn lemma_table_map_push<T>(ks: Seq<Seq<char>>, vs: Seq<T>, k: Seq<char>, v: T)
    requires
        ks.no_duplicates(),
        ks.len() == vs.len(),
        !ks.contains(k),
    ensures
        table_map(ks.push(k), vs.push(v)) == table_map(ks, vs).insert(k, v),
{
    let ks2 = ks.push(k);
    let vs2 = vs.push(v);
    assert(ks2[ks.len() as int] == k);
    let n = ks.len() as int;
    assert(ks2.contains(k));
    let jk = ks2.index_of(k);
    assert(ks2[jk] == k);
    assert(jk == n);
    assert forall|x: Seq<char>| #[trigger] ks.contains(x) implies table_map(ks2, vs2)[x] == table_map(ks, vs)[x] by {
        let j = ks.index_of(x);
        assert(ks[j] == x);
        assert(ks2[j] == x);
        let j2 = ks2.index_of(x);
        assert(ks2[j2] == x);
        if j2 == n {
            assert(x == k);
        } else {
            assert(ks[j2] == x);
        }
        if j != j2 {
            assert(ks[j] == ks[j2]);
        }
    }
    assert forall|x: Seq<char>| ks2.contains(x) <==> (ks.contains(x) || x == k) by {
        if ks2.contains(x) && x != k {
            let j = choose|j: int| 0 <= j < ks2.len() && ks2[j] == x;
            assert(ks[j] == x);
        }
        if ks.contains(x) {
            let j = choose|j: int| 0 <= j < ks.len() && ks[j] == x;
            assert(ks2[j] == x);
        }
    }
    assert(table_map(ks2, vs2) =~= table_map(ks, vs).insert(k, v));
}

/// Removing the key at position `i` together with its value.
pub proof fn lemma_table_map_remove<T>(ks: Seq<Seq<char>>, vs: Seq<T>, i: int)
    requires
        ks.no_duplicates(),
        ks.len() == vs.len(),
        0 <= i < ks.len(),
    ensures
        table_map(ks.remove(i), vs.remove(i)) == table_map(ks, vs).remove(ks[i]),
{
    let ks2 = ks.remove(i);
    let vs2 = vs.remove(i);
    lemma_index_of_unique(ks, i);
    assert forall|x: Seq<char>| ks2.contains(x) <==> (ks.contains(x) && x != ks[i]) by {
        if ks2.contains(x) {
            let j = choose|j: int| 0 <= j < ks2.len() && ks2[j] == x;
            let j0 = if j < i { j } else { j + 1 };
            assert(ks[j0] == x);
            assert(j0 != i);
        }
        if ks.contains(x) && x != ks[i] {
            let j = choose|j: int| 0 <= j < ks.len() && ks[j] == x;
            assert(j != i);
            let j2 = if j < i { j } else { j - 1 };
            assert(ks2[j2] == x);
        }
    }
    assert forall|x: Seq<char>| #[trigger] ks2.contains(x) implies table_map(ks2, vs2)[x] == table_map(ks, vs)[x] by {
        let j2 = ks2.index_of(x);
        assert(ks2[j2] == x);
        let j0 = if j2 < i { j2 } else { j2 + 1 };
        assert(ks[j0] == x);
        let j = ks.index_of(x);
        assert(ks[j] == x);
        if j != j0 {
            assert(ks[j] == ks[j0]);
        }
        assert(vs2[j2] == vs[j0]);
    }
    assert(table_map(ks2, vs2) =~= table_map(ks, vs).remove(ks[i]));
}

} // verus!
