use vstd::prelude::*;

verus! {

/// One cached value: its key, the value, and the absolute time at
/// which it expires.
struct KvEntry<T> {
    key: String,
    val: T,
    expires_at: i64,
}

/// TTL-aware key-value cache, the session store of the core.
///
/// The abstraction is a map from key to `(value, expires_at)`, where
/// `expires_at` is an absolute timestamp in the same unit as the `now`
/// arguments of the lookup operations. An entry whose expiry is not in
/// the future is dead: `get_live` does not return it.
pub struct KvStore<T> {
    entries: Vec<KvEntry<T>>,
}

spec fn keys_distinct<T>(s: Seq<KvEntry<T>>) -> bool {
    forall|i: int, j: int|
        0 <= i < j < s.len() ==> (#[trigger] s[i]).key@ != (#[trigger] s[j]).key@
}

spec fn expiries_ok<T>(s: Seq<KvEntry<T>>) -> bool {
    forall|i: int| 0 <= i < s.len() ==> 0 <= (#[trigger] s[i]).expires_at
}

spec fn entry_map<T>(s: Seq<KvEntry<T>>) -> Map<Seq<char>, (T, i64)>
    decreases s.len(),
{
    if s.len() == 0 {
        Map::empty()
    } else {
        entry_map(s.drop_last()).insert(s.last().key@, (s.last().val, s.last().expires_at))
    }
}

proof fn lemma_entry_map_contains<T>(s: Seq<KvEntry<T>>, k: Seq<char>)
    ensures
        entry_map(s).contains_key(k) <==> exists|i: int|
            0 <= i < s.len() && (#[trigger] s[i]).key@ == k,
    decreases s.len(),
{
    if s.len() > 0 {
        lemma_entry_map_contains(s.drop_last(), k);
        if entry_map(s).contains_key(k) {
            if s.last().key@ == k {
                assert(s[s.len() - 1].key@ == k);
            } else {
                let i = choose|i: int| 0 <= i < s.drop_last().len() && (#[trigger] s.drop_last()[i]).key@
                    == k;
                assert(s[i].key@ == k);
            }
        }
        if exists|i: int| 0 <= i < s.len() && (#[trigger] s[i]).key@ == k {
            let i = choose|i: int| 0 <= i < s.len() && (#[trigger] s[i]).key@ == k;
            if i < s.len() - 1 {
                assert(s.drop_last()[i].key@ == k);
            }
        }
    }
}

proof fn lemma_entry_map_index<T>(s: Seq<KvEntry<T>>, i: int)
    requires
        keys_distinct(s),
        0 <= i < s.len(),
    ensures
        entry_map(s).contains_key(s[i].key@),
        entry_map(s)[s[i].key@] == (s[i].val, s[i].expires_at),
    decreases s.len(),
{
    if i == s.len() - 1 {
    } else {
        assert(s.drop_last()[i] == s[i]);
        lemma_entry_map_index(s.drop_last(), i);
    }
}

proof fn lemma_entry_map_remove<T>(s: Seq<KvEntry<T>>, i: int)
    requires
        keys_distinct(s),
        0 <= i < s.len(),
    ensures
        entry_map(s.remove(i)) == entry_map(s).remove(s[i].key@),
    decreases s.len(),
{
    let k = s[i].key@;
    if i == s.len() - 1 {
        assert(s.remove(i) =~= s.drop_last());
        lemma_entry_map_contains(s.drop_last(), k);
        assert(!entry_map(s.drop_last()).contains_key(k));
        assert(entry_map(s).remove(k) =~= entry_map(s.drop_last()));
    } else {
        let t = s.remove(i);
        assert(t.drop_last() =~= s.drop_last().remove(i));
        assert(t.last() == s.last());
        assert(s.drop_last()[i] == s[i]);
        lemma_entry_map_remove(s.drop_last(), i);
        assert(entry_map(t) == entry_map(s.drop_last()).remove(k).insert(
            s.last().key@,
            (s.last().val, s.last().expires_at),
        ));
        assert(s.last().key@ != k);
        assert(entry_map(s.drop_last()).remove(k).insert(
            s.last().key@,
            (s.last().val, s.last().expires_at),
        ) =~= entry_map(s).remove(k));
    }
}

impl<T> View for KvStore<T> {
    type V = Map<Seq<char>, (T, i64)>;

    closed spec fn view(&self) -> Map<Seq<char>, (T, i64)> {
        entry_map(self.entries@)
    }
}

impl<T> KvStore<T> {
    /// Internal well-formedness: one entry per key, expiries not
    /// negative.
    pub closed spec fn wf(&self) -> bool {
        keys_distinct(self.entries@) && expiries_ok(self.entries@)
    }

    /// An empty cache.
    pub fn new() -> (r: KvStore<T>)
        ensures
            r.wf(),
            r@ == Map::<Seq<char>, (T, i64)>::empty(),
    {
        KvStore { entries: Vec::new() }
    }

    fn find_index(&self, key: &String) -> (r: Option<usize>)
        ensures
            match r {
                Some(i) => i < self.entries@.len() && self.entries@[i as int].key@ == key@,
                None => forall|i: int|
                    0 <= i < self.entries@.len() ==> (#[trigger] self.entries@[i]).key@ != key@,
            },
    {
        let mut i: usize = 0;
        while i < self.entries.len()
            invariant
                i <= self.entries@.len(),
                forall|j: int| 0 <= j < i ==> (#[trigger] self.entries@[j]).key@ != key@,
            decreases self.entries@.len() - i,
        {
            if self.entries[i].key == *key {
                return Some(i);
            }
            i += 1;
        }
        None
    }

    /// Stores `val` under `key` with the given absolute expiry,
    /// replacing any earlier entry for the key.
    pub fn set_with_expiry(&mut self, key: String, val: T, expires_at: i64)
        requires
            old(self).wf(),
            0 <= expires_at,
        ensures
            final(self).wf(),
            final(self)@ == old(self)@.insert(key@, (val, expires_at)),
    {
        let ghost pre = self@;
        self.delete(&key);
        proof {
            lemma_entry_map_contains(self.entries@, key@);
        }
        let ghost mid = self.entries@;
        self.entries.push(KvEntry { key, val, expires_at });
        proof {
            assert(self.entries@.drop_last() =~= mid);
            assert(self@ =~= pre.insert(key@, (val, expires_at)));
        }
    }

    /// Removes the entry for `key`; removing a missing key changes
    /// nothing and is not an error.
    pub fn delete(&mut self, key: &String)
        requires
            old(self).wf(),
        ensures
            final(self).wf(),
            final(self)@ == old(self)@.remove(key@),
    {
        match self.find_index(key) {
            Some(i) => {
                proof {
                    lemma_entry_map_remove(self.entries@, i as int);
                }
                let ghost pre = self.entries@;
                self.entries.remove(i);
                proof {
                    assert(forall|a: int|
                        0 <= a < self.entries@.len() ==> #[trigger] self.entries@[a] == if a < i {
                            pre[a]
                        } else {
                            pre[a + 1]
                        });
                }
            },
            None => {
                proof {
                    lemma_entry_map_contains(self.entries@, key@);
                    assert(self@ =~= old(self)@.remove(key@));
                }
            },
        }
    }

    /// Absolute expiry of the entry under `key`, if the entry exists
    /// (whether or not it has already expired).
    pub fn expiry_of(&self, key: &String) -> (r: Option<i64>)
        requires
            self.wf(),
        ensures
            match r {
                Some(e) => self@.contains_key(key@) && self@[key@].1 == e && 0 <= e,
                None => !self@.contains_key(key@),
            },
    {
        proof {
            lemma_entry_map_contains(self.entries@, key@);
        }
        match self.find_index(key) {
            Some(i) => {
                proof {
                    lemma_entry_map_index(self.entries@, i as int);
                }
                Some(self.entries[i].expires_at)
            },
            None => None,
        }
    }

    /// The live value under `key`: the entry exists and its expiry is
    /// still in the future at `now`.
    pub fn get_live(&self, key: &String, now: i64) -> (r: Option<&T>)
        requires
            self.wf(),
        ensures
            match r {
                Some(v) => self@.contains_key(key@) && self@[key@].1 > now && *v == self@[key@].0,
                None => !self@.contains_key(key@) || self@[key@].1 <= now,
            },
    {
        proof {
            lemma_entry_map_contains(self.entries@, key@);
        }
        match self.find_index(key) {
            Some(i) => {
                proof {
                    lemma_entry_map_index(self.entries@, i as int);
                }
                if self.entries[i].expires_at > now {
                    Some(&self.entries[i].val)
                } else {
                    None
                }
            },
            None => None,
        }
    }

    /// Resets the expiry of the entry under `key`, if it exists;
    /// returns whether it did. The value is kept unchanged.
    pub fn expire_at(&mut self, key: &String, expires_at: i64) -> (r: bool)
        requires
            old(self).wf(),
            0 <= expires_at,
        ensures
            final(self).wf(),
            r == old(self)@.contains_key(key@),
            r ==> final(self)@ == old(self)@.insert(key@, (old(self)@[key@].0, expires_at)),
            !r ==> final(self)@ == old(self)@,
    {
        proof {
            lemma_entry_map_contains(self.entries@, key@);
        }
        match self.find_index(key) {
            Some(i) => {
                proof {
                    lemma_entry_map_index(self.entries@, i as int);
                    lemma_entry_map_remove(self.entries@, i as int);
                }
                let ghost pre = self.entries@;
                let e = self.entries.remove(i);
                proof {
                    assert(forall|a: int|
                        0 <= a < self.entries@.len() ==> #[trigger] self.entries@[a] == if a < i {
                            pre[a]
                        } else {
                            pre[a + 1]
                        });
                    lemma_entry_map_contains(self.entries@, e.key@);
                }
                let ghost mid = self.entries@;
                self.entries.push(KvEntry { key: e.key, val: e.val, expires_at });
                proof {
                    assert(self.entries@.drop_last() =~= mid);
                    assert(self@ =~= old(self)@.insert(key@, (old(self)@[key@].0, expires_at)));
                }
                true
            },
            None => false,
        }
    }
}

} // verus!
