use vstd::prelude::*;
use vstd::string::*;

verus! {

/// A map keyed by text, kept in the order in which the keys came.
#[derive(Debug)]
pub struct StrMap<V> {
    pub keys: Vec<String>,
    pub vals: Vec<V>,
}

impl<V> StrMap<V> {
    /// The keys as mathematical texts, in order.
    pub open spec fn key_views(&self) -> Seq<Seq<char>> {
        Seq::new(self.keys@.len(), |i: int| self.keys@[i]@)
    }

    /// Every key has its value, and no key stands twice.
    pub open spec fn wf(&self) -> bool {
        &&& self.keys@.len() == self.vals@.len()
        &&& self.key_views().no_duplicates()
    }

    /// The map that the two lists stand for.
    pub open spec fn view(&self) -> Map<Seq<char>, V> {
        Map::new(
            |k: Seq<char>| self.key_views().contains(k),
            |k: Seq<char>| self.vals@[self.key_views().index_of(k)],
        )
    }

    /// Where a key stands is where its value stands.
    pub proof fn lemma_at(&self, i: int)
        requires
            self.wf(),
            0 <= i < self.keys@.len(),
        ensures
            self@.contains_key(self.keys@[i]@),
            self@[self.keys@[i]@] == self.vals@[i],
            self.key_views().index_of(self.keys@[i]@) == i,
    {
        let ks = self.key_views();
        let k = self.keys@[i]@;
        assert(ks[i] == k);
        assert(ks.contains(k));
        let j = ks.index_of(k);
        assert(0 <= j < ks.len() && ks[j] == k);
    }

    pub fn new() -> (m: Self)
        ensures
            m.wf(),
            m@ == Map::<Seq<char>, V>::empty(),
            m.keys@.len() == 0,
    {
        let m = StrMap { keys: Vec::new(), vals: Vec::new() };
        assert(m@ =~= Map::<Seq<char>, V>::empty());
        m
    }

    pub fn len(&self) -> (n: usize)
        requires
            self.wf(),
        ensures
            n == self.keys@.len(),
    {
        self.keys.len()
    }

    /// The place of `key`, if the map holds it.
    pub fn find(&self, key: &str) -> (r: Option<usize>)
        requires
            self.wf(),
        ensures
            match r {
                Some(i) => i < self.keys@.len() && self.keys@[i as int]@ == key@
                    && self@.contains_key(key@) && self@[key@] == self.vals@[i as int],
                None => !self@.contains_key(key@),
            },
    {
        let needle = String::from_str(key);
        let mut i: usize = 0;
        while i < self.keys.len()
            invariant
                self.wf(),
                needle@ == key@,
                i <= self.keys@.len(),
                forall|j: int| 0 <= j < i ==> self.keys@[j]@ != key@,
            decreases self.keys@.len() - i,
        {
            if self.keys[i] == needle {
                proof {
                    self.lemma_at(i as int);
                }
                return Some(i);
            }
            i = i + 1;
        }
        proof {
            let ks = self.key_views();
            if ks.contains(key@) {
                let j = ks.index_of(key@);
                assert(ks[j] == key@);
                assert(false);
            }
        }
        None
    }

    pub fn contains_key(&self, key: &str) -> (b: bool)
        requires
            self.wf(),
        ensures
            b == self@.contains_key(key@),
    {
        self.find(key).is_some()
    }

    pub fn get(&self, key: &str) -> (r: Option<&V>)
        requires
            self.wf(),
        ensures
            match r {
                Some(v) => self@.contains_key(key@) && *v == self@[key@],
                None => !self@.contains_key(key@),
            },
    {
        match self.find(key) {
            Some(i) => Some(&self.vals[i]),
            None => None,
        }
    }

    /// Sets the value of `key`, which joins the map at the end if it is new.
    /// Returns the place of the key.
    pub fn insert(&mut self, key: &str, val: V) -> (i: usize)
        requires
            old(self).wf(),
        ensures
            final(self).wf(),
            final(self)@ == old(self)@.insert(key@, val),
            i < final(self).keys@.len(),
            final(self).keys@[i as int]@ == key@,
            final(self).vals@[i as int] == val,
            old(self)@.contains_key(key@) ==> final(self).keys@ == old(self).keys@
                && final(self).vals@ == old(self).vals@.update(i as int, val),
            !old(self)@.contains_key(key@) ==> i == old(self).keys@.len()
                && final(self).keys@.len() == i + 1
                && final(self).keys@.subrange(0, i as int) == old(self).keys@
                && final(self).vals@ == old(self).vals@.push(val),
    {
        match self.find(key) {
            Some(i) => {
                self.vals[i] = val;
                proof {
                    assert(final(self).key_views() =~= old(self).key_views());
                    assert forall|k: Seq<char>| #[trigger]
                        final(self)@.contains_key(k) implies final(self)@[k] == old(self)@.insert(
                        key@,
                        val,
                    )[k] by {
                        let j = self.key_views().index_of(k);
                        assert(self.key_views()[j] == k);
                        if k == key@ {
                            assert(self.key_views()[i as int] == k);
                        }
                    }
                    assert(final(self)@ =~= old(self)@.insert(key@, val));
                }
                i
            },
            None => {
                let i = self.keys.len();
                let ghost old_ks = self.key_views();
                self.keys.push(String::from_str(key));
                self.vals.push(val);
                proof {
                    let ks = self.key_views();
                    assert(ks =~= old_ks.push(key@));
                    assert(!old_ks.contains(key@));
                    assert forall|a: int, b: int| 0 <= a < ks.len() && 0 <= b < ks.len() && a
                        != b implies ks[a] != ks[b] by {
                        if a < i && b < i {
                            assert(old_ks[a] != old_ks[b]);
                        } else if a < i {
                            assert(old_ks[a] == ks[a]);
                        } else if b < i {
                            assert(old_ks[b] == ks[b]);
                        }
                    }
                    assert(ks[i as int] == key@);
                    assert forall|k: Seq<char>| old(self)@.insert(key@, val).contains_key(
                        k,
                    ) implies #[trigger] final(self)@.contains_key(k) && final(self)@[k] == old(
                        self,
                    )@.insert(key@, val)[k] by {
                        if k == key@ {
                            assert(ks[i as int] == k);
                            let j = ks.index_of(k);
                            assert(ks[j] == k);
                        } else {
                            let j0 = old_ks.index_of(k);
                            assert(old_ks[j0] == k);
                            assert(ks[j0] == k);
                            let j = ks.index_of(k);
                            assert(ks[j] == k);
                        }
                    }
                    assert forall|k: Seq<char>| #[trigger]
                        final(self)@.contains_key(k) implies old(self)@.insert(
                        key@,
                        val,
                    ).contains_key(k) by {
                        let j = ks.index_of(k);
                        assert(ks[j] == k);
                        if j < i {
                            assert(old_ks[j] == k);
                        }
                    }
                    assert(final(self)@ =~= old(self)@.insert(key@, val));
                    assert(final(self).keys@.subrange(0, i as int) =~= old(self).keys@);
                }
                i
            },
        }
    }

    /// Takes `key` and its value out of the map.
    pub fn remove(&mut self, key: &str) -> (r: Option<V>)
        requires
            old(self).wf(),
        ensures
            final(self).wf(),
            final(self)@ == old(self)@.remove(key@),
            match r {
                Some(v) => old(self)@.contains_key(key@) && v == old(self)@[key@],
                None => !old(self)@.contains_key(key@),
            },
    {
        match self.find(key) {
            Some(i) => {
                let ghost old_ks = self.key_views();
                self.keys.remove(i);
                let v = self.vals.remove(i);
                proof {
                    let ks = self.key_views();
                    assert(ks =~= old_ks.remove(i as int));
                    assert forall|a: int, b: int| 0 <= a < ks.len() && 0 <= b < ks.len() && a
                        != b implies ks[a] != ks[b] by {
                        let a0 = if a < i { a } else { a + 1 };
                        let b0 = if b < i { b } else { b + 1 };
                        assert(old_ks[a0] != old_ks[b0]);
                    }
                    assert forall|k: Seq<char>| old(self)@.remove(key@).contains_key(
                        k,
                    ) implies #[trigger] final(self)@.contains_key(k) && final(self)@[k] == old(
                        self,
                    )@[k] by {
                        let j0 = old_ks.index_of(k);
                        assert(old_ks[j0] == k);
                        assert(j0 != i);
                        let j1 = if j0 < i { j0 } else { j0 - 1 };
                        assert(ks[j1] == k);
                        let j = ks.index_of(k);
                        assert(ks[j] == k);
                    }
                    assert forall|k: Seq<char>| #[trigger]
                        final(self)@.contains_key(k) implies old(self)@.remove(
                        key@,
                    ).contains_key(k) by {
                        let j = ks.index_of(k);
                        assert(ks[j] == k);
                        let j0 = if j < i { j } else { j + 1 };
                        assert(old_ks[j0] == k);
                        assert(old_ks[i as int] == key@);
                    }
                    assert(final(self)@ =~= old(self)@.remove(key@));
                }
                Some(v)
            },
            None => {
                assert(self@ =~= old(self)@.remove(key@));
                None
            },
        }
    }

    pub fn clear(&mut self)
        ensures
            final(self).wf(),
            final(self)@ == Map::<Seq<char>, V>::empty(),
            final(self).keys@.len() == 0,
    {
        self.keys.clear();
        self.vals.clear();
        assert(self@ =~= Map::<Seq<char>, V>::empty());
    }
}

} // verus!
