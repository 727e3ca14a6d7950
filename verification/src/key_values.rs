//! Values that middlewares attach to a request under a key, for the handlers
//! after them.
use vstd::prelude::*;
use crate::text::str_equals;

verus! {

/// The map a list of key-value pairs describes, later pairs winning.
pub open spec fn pairs_map(s: Seq<(String, Vec<u8>)>) -> Map<Seq<char>, Seq<u8>>
    decreases s.len(),
{
    if s.len() == 0 {
        Map::empty()
    } else {
        pairs_map(s.drop_last()).insert(s.last().0@, s.last().1@)
    }
}

/// No key occurs twice.
pub open spec fn keys_unique(s: Seq<(String, Vec<u8>)>) -> bool {
    forall|i: int, j: int| 0 <= i < j < s.len() ==> #[trigger] s[i].0@ != #[trigger] s[j].0@
}

proof fn lemma_pairs_map_has(s: Seq<(String, Vec<u8>)>, i: int)
    requires
        keys_unique(s),
        0 <= i < s.len(),
    ensures
        pairs_map(s).contains_key(s[i].0@),
        pairs_map(s)[s[i].0@] == s[i].1@,
    decreases s.len(),
{
    if i < s.len() - 1 {
        let p = s.drop_last();
        assert(p[i] == s[i]);
        assert(s.last().0@ != s[i].0@) by {
            assert(s[i].0@ != s[s.len() - 1].0@);
        }
        lemma_pairs_map_has(p, i);
    }
}

proof fn lemma_pairs_map_lacks(s: Seq<(String, Vec<u8>)>, k: Seq<char>)
    requires
        forall|i: int| 0 <= i < s.len() ==> #[trigger] s[i].0@ != k,
    ensures
        !pairs_map(s).contains_key(k),
    decreases s.len(),
{
    if s.len() > 0 {
        let p = s.drop_last();
        assert forall|i: int| 0 <= i < p.len() implies #[trigger] p[i].0@ != k by {
            assert(p[i] == s[i]);
        }
        lemma_pairs_map_lacks(p, k);
        assert(s[s.len() - 1].0@ != k);
    }
}

proof fn lemma_pairs_map_update(s: Seq<(String, Vec<u8>)>, i: int, kv: (String, Vec<u8>))
    requires
        keys_unique(s),
        0 <= i < s.len(),
        kv.0@ == s[i].0@,
    ensures
        pairs_map(s.update(i, kv)) == pairs_map(s).insert(kv.0@, kv.1@),
        keys_unique(s.update(i, kv)),
    decreases s.len(),
{
    let t = s.update(i, kv);
    if i == s.len() - 1 {
        assert(t.drop_last() =~= s.drop_last());
        assert(pairs_map(s).insert(kv.0@, kv.1@) =~= pairs_map(s.drop_last()).insert(kv.0@, kv.1@));
    } else {
        let p = s.drop_last();
        assert(keys_unique(p)) by {
            assert forall|a: int, b: int| 0 <= a < b < p.len() implies #[trigger] p[a].0@ != #[trigger] p[b].0@ by {
                assert(p[a] == s[a] && p[b] == s[b]);
            }
        }
        lemma_pairs_map_update(p, i, kv);
        assert(t.drop_last() =~= p.update(i, kv));
        assert(t.last() == s.last());
        assert(s.last().0@ != kv.0@) by {
            assert(s[i].0@ != s[s.len() - 1].0@);
        }
        assert(pairs_map(t) =~= pairs_map(s).insert(kv.0@, kv.1@));
    }
    assert forall|a: int, b: int| 0 <= a < b < t.len() implies #[trigger] t[a].0@ != #[trigger] t[b].0@ by {
        assert(s[a].0@ != s[b].0@);
    }
}

/// Values kept under keys.
pub struct KeyValues {
    data: Vec<(String, Vec<u8>)>,
}

impl View for KeyValues {
    type V = Map<Seq<char>, Seq<u8>>;

    closed spec fn view(&self) -> Map<Seq<char>, Seq<u8>> {
        pairs_map(self.data@)
    }
}

impl KeyValues {
    /// Each key is kept once.
    pub closed spec fn wf(&self) -> bool {
        keys_unique(self.data@)
    }

    pub fn new() -> (r: Self)
        ensures
            r.wf(),
            r@ == Map::<Seq<char>, Seq<u8>>::empty(),
    {
        KeyValues { data: Vec::new() }
    }

    fn find(&self, key: &str) -> (r: Option<usize>)
        requires
            self.wf(),
        ensures
            match r {
                Some(i) => i < self.data@.len() && self.data@[i as int].0@ == key@,
                None => forall|i: int| 0 <= i < self.data@.len() ==> #[trigger] self.data@[i].0@ != key@,
            },
    {
        let mut i: usize = 0;
        while i < self.data.len()
            invariant
                i <= self.data@.len(),
                forall|j: int| 0 <= j < i ==> #[trigger] self.data@[j].0@ != key@,
            decreases self.data@.len() - i,
        {
            if str_equals(self.data[i].0.as_str(), key) {
                return Some(i);
            }
            i = i + 1;
        }
        None
    }

    /// Keeps `value` under `key`, handing back what was kept there before.
    pub fn set_key_value(&mut self, key: String, value: Vec<u8>) -> (r: Option<Vec<u8>>)
        requires
            old(self).wf(),
        ensures
            final(self).wf(),
            final(self)@ == old(self)@.insert(key@, value@),
            match r {
                Some(v) => old(self)@.contains_key(key@) && old(self)@[key@] == v@,
                None => !old(self)@.contains_key(key@),
            },
    {
        match self.find(key.as_str()) {
            Some(i) => {
                proof {
                    lemma_pairs_map_has(self.data@, i as int);
                    lemma_pairs_map_update(self.data@, i as int, (key, value));
                }
                let ghost before = self.data@;
                let ghost kv = (key, value);
                let old_entry = self.data.remove(i);
                self.data.insert(i, (key, value));
                assert(self.data@ =~= before.update(i as int, kv));
                Some(old_entry.1)
            },
            None => {
                proof {
                    lemma_pairs_map_lacks(self.data@, key@);
                }
                let ghost before = self.data@;
                self.data.push((key, value));
                proof {
                    assert(self.data@.drop_last() =~= before);
                    assert forall|a: int, b: int|
                        0 <= a < b < self.data@.len() implies #[trigger] self.data@[a].0@
                        != #[trigger] self.data@[b].0@ by {
                        if b < before.len() {
                            assert(before[a].0@ != before[b].0@);
                        }
                    }
                }
                None
            },
        }
    }

    /// The value kept under `key`.
    pub fn get_key_value(&self, key: &str) -> (r: Option<&[u8]>)
        requires
            self.wf(),
        ensures
            match r {
                Some(v) => self@.contains_key(key@) && self@[key@] == v@,
                None => !self@.contains_key(key@),
            },
    {
        match self.find(key) {
            Some(i) => {
                proof {
                    lemma_pairs_map_has(self.data@, i as int);
                }
                Some(self.data[i].1.as_slice())
            },
            None => {
                proof {
                    lemma_pairs_map_lacks(self.data@, key@);
                }
                None
            },
        }
    }
}

} // verus!
