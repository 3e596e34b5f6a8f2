//! An insertion-ordered string map with unique keys, used for headers and
//! query parameters.
use vstd::prelude::*;

verus! {

/// Name/value pairs with unique names, kept in the order in which each name
/// was first inserted. Inserting an existing name replaces its value.
pub struct FieldMap {
    entries: Vec<(String, String)>,
}

impl View for FieldMap {
    type V = Map<Seq<char>, Seq<char>>;

    closed spec fn view(&self) -> Map<Seq<char>, Seq<char>> {
        Map::new(
            |k: Seq<char>| exists|i: int| 0 <= i < self.entries@.len() && self.entries@[i].0@ == k,
            |k: Seq<char>|
                self.entries@[choose|i: int|
                    0 <= i < self.entries@.len() && self.entries@[i].0@ == k].1@,
        )
    }
}

impl FieldMap {
    /// The pairs in iteration order.
    pub closed spec fn pairs(&self) -> Seq<(Seq<char>, Seq<char>)> {
        self.entries@.map_values(|e: (String, String)| (e.0@, e.1@))
    }

    /// No name occurs twice; every value of the type has this property.
    #[verifier::type_invariant]
    pub closed spec fn wf(&self) -> bool {
        forall|i: int, j: int|
            0 <= i < j < self.entries@.len() ==> self.entries@[i].0@ != self.entries@[j].0@
    }

    proof fn lemma_view_at(&self, i: int)
        requires
            self.wf(),
            0 <= i < self.entries@.len(),
        ensures
            self@.contains_key(self.entries@[i].0@),
            self@[self.entries@[i].0@] == self.entries@[i].1@,
    {
        let k = self.entries@[i].0@;
        assert(exists|j: int| 0 <= j < self.entries@.len() && self.entries@[j].0@ == k);
        let j = choose|j: int| 0 <= j < self.entries@.len() && self.entries@[j].0@ == k;
        assert(i == j);
    }

    /// Each name occurs once among the pairs, and the map holds exactly the
    /// pairs.
    pub proof fn lemma_pairs_view(&self)
        requires
            self.wf(),
        ensures
            forall|i: int, j: int|
                0 <= i < j < self.pairs().len() ==> #[trigger] self.pairs()[i].0
                    != #[trigger] self.pairs()[j].0,
            forall|i: int|
                0 <= i < self.pairs().len() ==> self@.contains_key(#[trigger] self.pairs()[i].0)
                    && self@[self.pairs()[i].0] == self.pairs()[i].1,
            forall|k: Seq<char>|
                self@.contains_key(k) ==> exists|i: int|
                    0 <= i < self.pairs().len() && #[trigger] self.pairs()[i].0 == k,
    {
        assert forall|i: int| 0 <= i < self.pairs().len() implies self@.contains_key(
            #[trigger] self.pairs()[i].0,
        ) && self@[self.pairs()[i].0] == self.pairs()[i].1 by {
            self.lemma_view_at(i);
        }
        assert forall|k: Seq<char>| self@.contains_key(k) implies exists|i: int|
            0 <= i < self.pairs().len() && #[trigger] self.pairs()[i].0 == k by {
            let i = choose|i: int| 0 <= i < self.entries@.len() && self.entries@[i].0@ == k;
            assert(self.pairs()[i].0 == k);
        }
    }

    /// An empty map.
    pub fn new() -> (r: FieldMap)
        ensures
            r.wf(),
            r@ == Map::<Seq<char>, Seq<char>>::empty(),
            r.pairs() == Seq::<(Seq<char>, Seq<char>)>::empty(),
    {
        let r = FieldMap { entries: Vec::new() };
        assert(r@ =~= Map::<Seq<char>, Seq<char>>::empty());
        assert(r.pairs() =~= Seq::<(Seq<char>, Seq<char>)>::empty());
        r
    }

    fn position(&self, key: &str) -> (r: Option<usize>)
        ensures
            self.wf(),
            match r {
                Some(i) => i < self.entries@.len() && self.entries@[i as int].0@ == key@,
                None => !self@.contains_key(key@),
            },
    {
        proof {
            use_type_invariant(self);
        }
        let k = key.to_string();
        assert(k@ == key@);
        let mut i: usize = 0;
        while i < self.entries.len()
            invariant
                i <= self.entries@.len(),
                self.wf(),
                k@ == key@,
                forall|j: int| 0 <= j < i ==> self.entries@[j].0@ != key@,
            decreases self.entries@.len() - i,
        {
            if self.entries[i].0 == k {
                return Some(i);
            }
            i = i + 1;
        }
        None
    }

    /// Whether `key` is present.
    pub fn contains_key(&self, key: &str) -> (r: bool)
        ensures
            r == self@.contains_key(key@),
    {
        match self.position(key) {
            Some(i) => {
                proof {
                    self.lemma_view_at(i as int);
                }
                true
            },
            None => false,
        }
    }

    /// The value under `key`, if present.
    pub fn get(&self, key: &str) -> (r: Option<String>)
        ensures
            match r {
                Some(v) => self@.contains_key(key@) && v@ == self@[key@],
                None => !self@.contains_key(key@),
            },
    {
        match self.position(key) {
            Some(i) => {
                proof {
                    self.lemma_view_at(i as int);
                }
                Some(self.entries[i].1.clone())
            },
            None => None,
        }
    }

    /// Sets `key` to `value`, replacing a previous value in place or adding
    /// the pair at the end.
    pub fn insert(&mut self, key: &str, value: &str)
        ensures
            final(self).wf(),
            final(self)@ == old(self)@.insert(key@, value@),
            !old(self)@.contains_key(key@) ==> final(self).pairs() == old(self).pairs().push(
                (key@, value@),
            ),
            old(self)@.contains_key(key@) ==> exists|i: int|
                0 <= i < old(self).pairs().len() && old(self).pairs()[i].0 == key@ && final(self).pairs()
                    == old(self).pairs().update(i, (key@, value@)),
    {
        proof {
            use_type_invariant(&*self);
        }
        let ghost old_entries = self.entries@;
        let k = key.to_string();
        let v = value.to_string();
        let pos = self.position(key);
        let mut entries: Vec<(String, String)> = Vec::new();
        std::mem::swap(&mut entries, &mut self.entries);
        match pos {
            Some(i) => {
                entries.set(i, (k, v));
                self.entries = entries;
                assert forall|kk: Seq<char>| #![auto]
                    self@.contains_key(kk) == old(self)@.insert(key@, value@).contains_key(kk) by {
                    if kk != key@ && old(self)@.contains_key(kk) {
                        let j = choose|j: int|
                            0 <= j < old_entries.len() && old_entries[j].0@ == kk;
                        assert(self.entries@[j].0@ == kk);
                    }
                    if kk != key@ && self@.contains_key(kk) {
                        let j = choose|j: int|
                            0 <= j < self.entries@.len() && self.entries@[j].0@ == kk;
                        assert(old_entries[j].0@ == kk);
                    }
                    if kk == key@ {
                        assert(self.entries@[i as int].0@ == kk);
                    }
                }
                assert forall|kk: Seq<char>| #![auto] self@.contains_key(kk) implies self@[kk]
                    == old(self)@.insert(key@, value@)[kk] by {
                    let j = choose|j: int|
                        0 <= j < self.entries@.len() && self.entries@[j].0@ == kk;
                    self.lemma_view_at(j);
                    if kk != key@ {
                        assert(old_entries[j].0@ == kk);
                        old(self).lemma_view_at(j);
                    }
                }
                assert(self@ =~= old(self)@.insert(key@, value@));
                assert(old(self).pairs()[i as int].0 == key@);
                assert(self.pairs() =~= old(self).pairs().update(i as int, (key@, value@)));
            },
            None => {
                entries.push((k, v));
                self.entries = entries;
                let ghost n = old_entries.len() as int;
                assert forall|kk: Seq<char>| #![auto]
                    self@.contains_key(kk) == old(self)@.insert(key@, value@).contains_key(kk) by {
                    if kk != key@ && old(self)@.contains_key(kk) {
                        let j = choose|j: int|
                            0 <= j < old_entries.len() && old_entries[j].0@ == kk;
                        assert(self.entries@[j].0@ == kk);
                    }
                    if kk != key@ && self@.contains_key(kk) {
                        let j = choose|j: int|
                            0 <= j < self.entries@.len() && self.entries@[j].0@ == kk;
                        assert(old_entries[j].0@ == kk);
                    }
                    if kk == key@ {
                        assert(self.entries@[n].0@ == kk);
                    }
                }
                assert forall|kk: Seq<char>| #![auto] self@.contains_key(kk) implies self@[kk]
                    == old(self)@.insert(key@, value@)[kk] by {
                    let j = choose|j: int|
                        0 <= j < self.entries@.len() && self.entries@[j].0@ == kk;
                    self.lemma_view_at(j);
                    if kk != key@ {
                        assert(old_entries[j].0@ == kk);
                        old(self).lemma_view_at(j);
                    }
                }
                assert(self@ =~= old(self)@.insert(key@, value@));
                assert(self.pairs() =~= old(self).pairs().push((key@, value@)));
            },
        }
    }

    /// Removes every pair.
    pub fn clear(&mut self)
        ensures
            final(self).wf(),
            final(self)@ == Map::<Seq<char>, Seq<char>>::empty(),
            final(self).pairs() == Seq::<(Seq<char>, Seq<char>)>::empty(),
    {
        self.entries = Vec::new();
        assert(self@ =~= Map::<Seq<char>, Seq<char>>::empty());
        assert(self.pairs() =~= Seq::<(Seq<char>, Seq<char>)>::empty());
    }

    /// The number of pairs.
    pub fn len(&self) -> (r: usize)
        ensures
            r == self.pairs().len(),
    {
        self.entries.len()
    }

    /// The `i`-th pair in iteration order.
    pub fn entry(&self, i: usize) -> (r: (String, String))
        requires
            i < self.pairs().len(),
        ensures
            (r.0@, r.1@) == self.pairs()[i as int],
    {
        (self.entries[i].0.clone(), self.entries[i].1.clone())
    }

    /// A copy with the same pairs in the same order.
    pub fn copy(&self) -> (r: FieldMap)
        ensures
            r.wf(),
            r@ == self@,
            r.pairs() == self.pairs(),
    {
        proof {
            use_type_invariant(self);
        }
        let v = self.to_vec();
        assert(self.pairs().len() == self.entries@.len());
        assert forall|i: int| 0 <= i < v@.len() implies #[trigger] v@[i].0@
            == self.entries@[i].0@ && v@[i].1@ == self.entries@[i].1@ by {
            assert(v@.map_values(|e: (String, String)| (e.0@, e.1@))[i] == self.pairs()[i]);
            assert(self.pairs()[i] == (self.entries@[i].0@, self.entries@[i].1@));
        }
        assert forall|i: int, j: int| 0 <= i < j < v@.len() implies v@[i].0@ != v@[j].0@ by {
            assert(v@[i].0@ == self.entries@[i].0@);
            assert(v@[j].0@ == self.entries@[j].0@);
        }
        let r = FieldMap { entries: v };
        assert(r.pairs() =~= self.pairs());
        assert forall|k: Seq<char>| #![auto] r@.contains_key(k) == self@.contains_key(k) by {
            if r@.contains_key(k) {
                let j = choose|j: int| 0 <= j < r.entries@.len() && r.entries@[j].0@ == k;
                assert(self.entries@[j].0@ == k);
            }
            if self@.contains_key(k) {
                let j = choose|j: int| 0 <= j < self.entries@.len() && self.entries@[j].0@ == k;
                assert(r.entries@[j].0@ == k);
            }
        }
        assert forall|k: Seq<char>| #![auto] r@.contains_key(k) implies r@[k] == self@[k] by {
            let j = choose|j: int| 0 <= j < r.entries@.len() && r.entries@[j].0@ == k;
            r.lemma_view_at(j);
            self.lemma_view_at(j);
        }
        assert(r@ =~= self@);
        r
    }

    /// The pairs in iteration order, copied out.
    pub fn to_vec(&self) -> (r: Vec<(String, String)>)
        ensures
            r@.len() == self.pairs().len(),
            r@.map_values(|e: (String, String)| (e.0@, e.1@)) == self.pairs(),
    {
        let mut r: Vec<(String, String)> = Vec::new();
        let mut i: usize = 0;
        while i < self.entries.len()
            invariant
                i <= self.entries@.len(),
                r@.len() == i,
                r@.map_values(|e: (String, String)| (e.0@, e.1@)) == self.pairs().subrange(
                    0,
                    i as int,
                ),
            decreases self.entries@.len() - i,
        {
            let e = self.entry(i);
            let ghost pe = (e.0@, e.1@);
            let ghost prev = r@;
            r.push(e);
            assert(r@.map_values(|e: (String, String)| (e.0@, e.1@))[i as int] == pe);
            assert forall|j: int| 0 <= j < i implies #[trigger] r@[j] == prev[j] by {}
            assert(r@.map_values(|e: (String, String)| (e.0@, e.1@)) =~= self.pairs().subrange(
                0,
                i + 1,
            ));
            i = i + 1;
        }
        assert(self.pairs().subrange(0, i as int) =~= self.pairs());
        r
    }
}

} // verus!
