//! A map from string keys to values, kept as two parallel vectors with no key twice.
use vstd::prelude::*;

use crate::keys::{insert_sorted, string_views, strictly_sorted};

verus! {

/// Map from `String` keys to values; its view is a `Map` over the keys' text.
pub struct StrMap<V> {
    keys: Vec<String>,
    vals: Vec<V>,
}

proof fn lemma_index_of_unique(s: Seq<Seq<char>>, i: int)
    requires
        s.no_duplicates(),
        0 <= i < s.len(),
    ensures
        s.index_of(s[i]) == i,
{
    assert(s.contains(s[i]));
}

impl<V> StrMap<V> {
    /// Keys and values line up and no key occurs twice.
    #[verifier::type_invariant]
    pub closed spec fn inv(self) -> bool {
        &&& self.keys@.len() == self.vals@.len()
        &&& string_views(self.keys@).no_duplicates()
    }

    /// The keys' text, in storage order.
    pub closed spec fn key_seq(self) -> Seq<Seq<char>> {
        string_views(self.keys@)
    }

    /// The values, in storage order.
    pub closed spec fn val_seq(self) -> Seq<V> {
        self.vals@
    }

    /// The map from each key's text to its value.
    pub closed spec fn as_map(self) -> Map<Seq<char>, V> {
        Map::new(
            |k: Seq<char>| self.key_seq().contains(k),
            |k: Seq<char>| self.vals@[self.key_seq().index_of(k)],
        )
    }

    /// What the storage order says of the map: each stored key maps to its stored value, the
    /// keys are exactly the map's domain, and the map has as many entries as are stored.
    pub proof fn lemma_storage(self)
        requires
            self.inv(),
        ensures
            self.key_seq().no_duplicates(),
            self.key_seq().len() == self.val_seq().len(),
            self@.dom() == self.key_seq().to_set(),
            self@.dom().finite(),
            self@.len() == self.key_seq().len(),
            forall|k: Seq<char>| #[trigger] self@.contains_key(k) <==> self.key_seq().contains(k),
            forall|i: int|
                0 <= i < self.key_seq().len() ==> #[trigger] self@[self.key_seq()[i]]
                    == self.val_seq()[i],
    {
        assert(self.as_map().dom() =~= self.key_seq().to_set());
        self.key_seq().unique_seq_to_set();
        assert forall|i: int| 0 <= i < self.key_seq().len() implies #[trigger] self.as_map()[self.key_seq()[i]]
            == self.val_seq()[i] by {
            lemma_index_of_unique(self.key_seq(), i);
        }
    }

    /// Returns an empty map.
    pub fn new() -> (m: Self)
        ensures
            m@ == Map::<Seq<char>, V>::empty(),
            m.key_seq().len() == 0,
    {
        let m = StrMap { keys: Vec::new(), vals: Vec::new() };
        assert(m.as_map() =~= Map::<Seq<char>, V>::empty());
        m
    }

    /// Returns the number of entries.
    pub fn len(&self) -> (n: usize)
        ensures
            n == self@.len(),
            n == self.key_seq().len(),
            self@.dom().finite(),
    {
        proof {
            use_type_invariant(self);
            self.lemma_storage();
        }
        self.keys.len()
    }

    fn find(&self, k: &String) -> (r: Option<usize>)
        ensures
            r matches Some(i) ==> i < self.key_seq().len() && self.key_seq()[i as int] == k@,
            r is None ==> !self.key_seq().contains(k@),
    {
        proof {
            use_type_invariant(self);
        }
        let mut i: usize = 0;
        while i < self.keys.len()
            invariant
                i <= self.keys@.len(),
                self.keys@.len() == self.key_seq().len(),
                forall|j: int| 0 <= j < i ==> self.key_seq()[j] != k@,
            decreases self.keys@.len() - i,
        {
            if self.keys[i] == *k {
                return Some(i);
            }
            i = i + 1;
        }
        None
    }

    /// Returns whether `k` has an entry.
    pub fn contains_key(&self, k: &String) -> (b: bool)
        ensures
            b == self@.contains_key(k@),
    {
        proof {
            use_type_invariant(self);
            self.lemma_storage();
        }
        self.find(k).is_some()
    }

    /// Returns the value of `k`, if it has one.
    pub fn get(&self, k: &String) -> (r: Option<&V>)
        ensures
            r == if self@.contains_key(k@) {
                Some(&self@[k@])
            } else {
                None
            },
    {
        proof {
            use_type_invariant(self);
            self.lemma_storage();
        }
        match self.find(k) {
            Some(i) => Some(&self.vals[i]),
            None => None,
        }
    }

    /// Returns the key stored at position `i`.
    pub fn key_at(&self, i: usize) -> (k: &String)
        requires
            i < self.key_seq().len(),
        ensures
            k@ == self.key_seq()[i as int],
    {
        proof {
            use_type_invariant(self);
        }
        &self.keys[i]
    }

    /// Returns the value stored at position `i`.
    pub fn value_at(&self, i: usize) -> (v: &V)
        requires
            i < self.key_seq().len(),
        ensures
            *v == self.val_seq()[i as int],
            *v == self@[self.key_seq()[i as int]],
    {
        proof {
            use_type_invariant(self);
            self.lemma_storage();
        }
        &self.vals[i]
    }

    /// Sets the value of `k`, adding an entry when `k` has none.
    pub fn insert(&mut self, k: String, v: V)
        ensures
            final(self)@ == old(self)@.insert(k@, v),
    {
        proof {
            use_type_invariant(&*self);
            self.lemma_storage();
        }
        let ghost kv = k@;
        let ghost old_map = self@;
        let ghost old_keys = self.key_seq();
        let ghost old_vals = self.val_seq();
        let found = self.find(&k);
        let mut taken = StrMap::new();
        std::mem::swap(&mut taken, self);
        let StrMap { mut keys, mut vals } = taken;
        match found {
            Some(i) => {
                vals.set(i, v);
                let rebuilt = StrMap { keys, vals };
                proof {
                    assert(rebuilt.key_seq() == old_keys);
                    rebuilt.lemma_storage();
                    assert forall|x: Seq<char>| #[trigger] rebuilt@.contains_key(x) implies rebuilt@[x]
                        == old_map.insert(kv, v)[x] by {
                        let j = rebuilt.key_seq().index_of(x);
                        lemma_index_of_unique(rebuilt.key_seq(), j);
                        if j != i {
                            assert(old_map[x] == old_vals[j]);
                        }
                    }
                    assert(rebuilt@ =~= old_map.insert(kv, v));
                }
                *self = rebuilt;
            },
            None => {
                keys.push(k);
                vals.push(v);
                proof {
                    assert(string_views(keys@) =~= old_keys.push(kv));
                    assert forall|a: int, b: int|
                        0 <= a < b < string_views(keys@).len() implies string_views(keys@)[a]
                        != string_views(keys@)[b] by {
                        if b == old_keys.len() {
                            assert(old_keys.contains(string_views(keys@)[a]));
                        }
                    }
                }
                let rebuilt = StrMap { keys, vals };
                proof {
                    rebuilt.lemma_storage();
                    assert forall|x: Seq<char>| #[trigger] rebuilt@.contains_key(x) implies rebuilt@[x]
                        == old_map.insert(kv, v)[x] by {
                        let j = rebuilt.key_seq().index_of(x);
                        lemma_index_of_unique(rebuilt.key_seq(), j);
                        if j < old_keys.len() {
                            assert(old_map[x] == old_vals[j]);
                        }
                    }
                    assert forall|x: Seq<char>| #[trigger] rebuilt@.contains_key(x) <==> old_map.insert(kv, v).contains_key(x) by {
                        if old_keys.contains(x) {
                            let j = choose|j: int| 0 <= j < old_keys.len() && old_keys[j] == x;
                            assert(rebuilt.key_seq()[j] == x);
                        }
                        if x == kv {
                            assert(rebuilt.key_seq()[old_keys.len() as int] == x);
                        }
                    }
                    assert(rebuilt@ =~= old_map.insert(kv, v));
                }
                *self = rebuilt;
            },
        }
    }

    /// Removes the entry stored at position `i` and returns its key and value.
    pub fn remove_at(&mut self, i: usize) -> (r: (String, V))
        requires
            i < old(self).key_seq().len(),
        ensures
            r.0@ == old(self).key_seq()[i as int],
            r.1 == old(self).val_seq()[i as int],
            r.1 == old(self)@[r.0@],
            final(self).key_seq() == old(self).key_seq().remove(i as int),
            final(self).val_seq() == old(self).val_seq().remove(i as int),
            final(self)@ == old(self)@.remove(r.0@),
    {
        proof {
            use_type_invariant(&*self);
            self.lemma_storage();
        }
        let ghost old_keys = self.key_seq();
        let ghost old_vals = self.val_seq();
        let ghost old_map = self@;
        let mut taken = StrMap::new();
        std::mem::swap(&mut taken, self);
        let StrMap { mut keys, mut vals } = taken;
        let k = keys.remove(i);
        let v = vals.remove(i);
        proof {
            assert(string_views(keys@) =~= old_keys.remove(i as int));
            assert forall|a: int, b: int|
                0 <= a < b < string_views(keys@).len() implies string_views(keys@)[a]
                != string_views(keys@)[b] by {
                let oa = if a < i { a } else { a + 1 };
                let ob = if b < i { b } else { b + 1 };
                assert(string_views(keys@)[a] == old_keys[oa]);
                assert(string_views(keys@)[b] == old_keys[ob]);
            }
        }
        let rebuilt = StrMap { keys, vals };
        proof {
            rebuilt.lemma_storage();
            assert(old_keys[i as int] == k@);
            assert forall|x: Seq<char>| #[trigger] rebuilt@.contains_key(x) <==> old_map.remove(k@).contains_key(x) by {
                if rebuilt.key_seq().contains(x) {
                    let j = choose|j: int| 0 <= j < rebuilt.key_seq().len() && rebuilt.key_seq()[j] == x;
                    let oj = if j < i { j } else { j + 1 };
                    assert(old_keys[oj] == x);
                }
                if old_keys.contains(x) && x != k@ {
                    let j = choose|j: int| 0 <= j < old_keys.len() && old_keys[j] == x;
                    if j < i {
                        assert(rebuilt.key_seq()[j] == x);
                    } else {
                        assert(j != i);
                        assert(rebuilt.key_seq()[j - 1] == x);
                    }
                }
            }
            assert forall|x: Seq<char>| #[trigger] rebuilt@.contains_key(x) implies rebuilt@[x]
                == old_map.remove(k@)[x] by {
                let j = rebuilt.key_seq().index_of(x);
                lemma_index_of_unique(rebuilt.key_seq(), j);
                let oj = if j < i { j } else { j + 1 };
                assert(old_keys[oj] == x);
                assert(old_map[x] == old_vals[oj]);
            }
            assert(rebuilt@ =~= old_map.remove(k@));
        }
        *self = rebuilt;
        (k, v)
    }

    /// Removes the entry of `k` and returns its value, if it had one.
    pub fn remove(&mut self, k: &String) -> (r: Option<V>)
        ensures
            final(self)@ == old(self)@.remove(k@),
            r == if old(self)@.contains_key(k@) {
                Some(old(self)@[k@])
            } else {
                None
            },
    {
        proof {
            use_type_invariant(&*self);
            self.lemma_storage();
        }
        match self.find(k) {
            Some(i) => {
                let (_, v) = self.remove_at(i);
                Some(v)
            },
            None => {
                assert(self@.remove(k@) =~= self@);
                None
            },
        }
    }
}

/// The keys at positions whose mark is set, among the positions before `upto`, together with
/// every key at a position from `upto` on.
pub open spec fn marked_keys_from(keys: Seq<Seq<char>>, marks: Seq<bool>, upto: int) -> Set<Seq<char>> {
    Set::new(
        |k: Seq<char>|
            exists|t: int| 0 <= t < keys.len() && keys[t] == k && (t >= upto || marks[t]),
    )
}

/// The keys at positions whose mark is set.
pub open spec fn marked_keys(keys: Seq<Seq<char>>, marks: Seq<bool>) -> Set<Seq<char>> {
    marked_keys_from(keys, marks, keys.len() as int)
}

impl<V> StrMap<V> {
    /// Keeps the entries at the marked positions and removes the others.
    pub fn retain_marked(&mut self, marks: &Vec<bool>)
        requires
            marks@.len() == old(self).key_seq().len(),
        ensures
            final(self)@ == old(self)@.restrict(marked_keys(old(self).key_seq(), marks@)),
    {
        proof {
            use_type_invariant(&*self);
            self.lemma_storage();
        }
        let ghost ok = self.key_seq();
        let ghost ov = self.val_seq();
        let ghost orig = self@;
        let n = marks.len();
        let mut i: usize = 0;
        let mut j: usize = 0;
        proof {
            assert(self.key_seq().subrange(0, self.key_seq().len() as int) =~= ok.subrange(0, n as int));
            assert(orig.restrict(marked_keys_from(ok, marks@, 0)) =~= orig);
        }
        while j < n
            invariant
                n == marks@.len(),
                n == ok.len(),
                ok.no_duplicates(),
                orig.dom() == ok.to_set(),
                i <= j <= n,
                self.key_seq().len() == i + (n - j),
                self.key_seq().subrange(i as int, self.key_seq().len() as int) == ok.subrange(j as int, n as int),
                self@ == orig.restrict(marked_keys_from(ok, marks@, j as int)),
            decreases n - j,
        {
            proof {
                use_type_invariant(&*self);
                assert(self.key_seq()[i as int] == self.key_seq().subrange(i as int, self.key_seq().len() as int)[0]);
            }
            let ghost cur = self.key_seq();
            if marks[j] {
                proof {
                    assert(marked_keys_from(ok, marks@, j + 1) =~= marked_keys_from(ok, marks@, j as int));
                    assert(self.key_seq().subrange(i + 1, self.key_seq().len() as int)
                        =~= ok.subrange(j + 1, n as int)) by {
                        assert forall|t: int| 0 <= t < n - j - 1 implies #[trigger] self.key_seq().subrange(i + 1, self.key_seq().len() as int)[t]
                            == ok.subrange(j + 1, n as int)[t] by {
                            assert(self.key_seq().subrange(i as int, self.key_seq().len() as int)[t + 1]
                                == ok.subrange(j as int, n as int)[t + 1]);
                        }
                    }
                }
                i = i + 1;
            } else {
                let ghost before = self@;
                let _ = self.remove_at(i);
                proof {
                    assert(cur[i as int] == ok[j as int]);
                    assert(marked_keys_from(ok, marks@, j + 1) =~= marked_keys_from(ok, marks@, j as int).remove(ok[j as int])) by {
                        assert forall|k: Seq<char>| marked_keys_from(ok, marks@, j + 1).contains(k) <==> marked_keys_from(ok, marks@, j as int).remove(ok[j as int]).contains(k) by {
                            if marked_keys_from(ok, marks@, j + 1).contains(k) {
                                let t = choose|t: int| 0 <= t < ok.len() && ok[t] == k && (t >= j + 1 || marks@[t]);
                                assert(t != j);
                            }
                            if marked_keys_from(ok, marks@, j as int).remove(ok[j as int]).contains(k) {
                                let t = choose|t: int| 0 <= t < ok.len() && ok[t] == k && (t >= j || marks@[t]);
                                assert(t != j);
                            }
                        }
                    }
                    assert(self@ =~= orig.restrict(marked_keys_from(ok, marks@, j + 1)));
                    assert(self.key_seq().subrange(i as int, self.key_seq().len() as int)
                        =~= ok.subrange(j + 1, n as int)) by {
                        assert forall|t: int| 0 <= t < n - j - 1 implies #[trigger] self.key_seq().subrange(i as int, self.key_seq().len() as int)[t]
                            == ok.subrange(j + 1, n as int)[t] by {
                            assert(cur.subrange(i as int, cur.len() as int)[t + 1]
                                == ok.subrange(j as int, n as int)[t + 1]);
                        }
                    }
                }
            }
            j = j + 1;
        }
    }

    /// Returns the keys in strictly ascending `String` order.
    pub fn sorted_keys(&self) -> (r: Vec<String>)
        ensures
            strictly_sorted(string_views(r@)),
            string_views(r@).to_set() == self@.dom(),
            r@.len() == self@.len(),
    {
        proof {
            use_type_invariant(self);
            self.lemma_storage();
        }
        let mut out: Vec<String> = Vec::new();
        let mut i: usize = 0;
        while i < self.keys.len()
            invariant
                i <= self.key_seq().len(),
                self.keys@.len() == self.key_seq().len(),
                self.key_seq().no_duplicates(),
                strictly_sorted(string_views(out@)),
                string_views(out@).to_set() == self.key_seq().subrange(0, i as int).to_set(),
                out@.len() == i,
            decreases self.key_seq().len() - i,
        {
            let k = self.keys[i].clone();
            proof {
                assert(k@ == self.key_seq()[i as int]);
                if string_views(out@).contains(k@) {
                    assert(string_views(out@).to_set().contains(k@));
                    let t = choose|t: int| 0 <= t < i && self.key_seq().subrange(0, i as int)[t] == k@;
                    assert(self.key_seq()[t] == self.key_seq()[i as int]);
                }
            }
            insert_sorted(&mut out, k);
            proof {
                assert(self.key_seq().subrange(0, i + 1).to_set() =~= self.key_seq().subrange(0, i as int).to_set().insert(self.key_seq()[i as int])) by {
                    assert(self.key_seq().subrange(0, i + 1) =~= self.key_seq().subrange(0, i as int).push(self.key_seq()[i as int]));
                    self.key_seq().subrange(0, i as int).lemma_push_to_set_commute(self.key_seq()[i as int]);
                }
            }
            i = i + 1;
        }
        proof {
            assert(self.key_seq().subrange(0, i as int) =~= self.key_seq());
        }
        out
    }
}

impl<V> View for StrMap<V> {
    type V = Map<Seq<char>, V>;

    closed spec fn view(&self) -> Map<Seq<char>, V> {
        self.as_map()
    }
}

} // verus!
