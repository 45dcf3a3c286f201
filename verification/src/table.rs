//! A map keyed by text, as the pricing tables and the per-result price
//! lookup need it: inserting a key again replaces its value.
use vstd::prelude::*;

verus! {

/// A map from text keys to values; no key is held twice.
pub struct StrMap<T> {
    entries: Vec<(String, T)>,
}

/// No key occurs at two positions of `s`.
pub open spec fn unique_keys<T>(s: Seq<(String, T)>) -> bool {
    forall|i: int, j: int|
        0 <= i < s.len() && 0 <= j < s.len() && i != j ==> #[trigger] s[i].0@ != #[trigger] s[j].0@
}

impl<T> StrMap<T> {
    /// No key occurs at two positions.
    #[verifier::type_invariant]
    spec fn keys_unique(self) -> bool {
        unique_keys(self.entries@)
    }

    spec fn has_key_at(self, k: Seq<char>, i: int) -> bool {
        0 <= i < self.entries@.len() && self.entries@[i].0@ == k
    }
}

impl<T: DeepView> StrMap<T> {

    /// The map's contents: each key with the deep view of its value.
    pub closed spec fn contents(self) -> Map<Seq<char>, T::V> {
        Map::new(
            |k: Seq<char>| exists|i: int| self.has_key_at(k, i),
            |k: Seq<char>| self.entries@[choose|i: int| self.has_key_at(k, i)].1.deep_view(),
        )
    }

    proof fn lemma_value_at(self, k: Seq<char>, i: int)
        requires
            self.keys_unique(),
            self.has_key_at(k, i),
        ensures
            self.contents().contains_key(k),
            self.contents()[k] == self.entries@[i].1.deep_view(),
    {
        let j = choose|j: int| self.has_key_at(k, j);
        assert(self.has_key_at(k, j));
        if i != j {
            assert(self.entries@[i].0@ != self.entries@[j].0@);
        }
    }

    /// An empty map.
    pub fn new() -> (m: Self)
        ensures
            m.contents() == Map::<Seq<char>, T::V>::empty(),
    {
        let m = StrMap { entries: Vec::new() };
        assert(m.contents() =~= Map::<Seq<char>, T::V>::empty());
        m
    }

    /// The number of keys.
    pub fn len(&self) -> (n: usize)
        ensures
            n == self.contents().dom().len(),
    {
        proof {
            use_type_invariant(self);
            self.lemma_dom_len();
        }
        self.entries.len()
    }

    #[verifier::rlimit(40)]
    proof fn lemma_dom_len(self)
        requires
            self.keys_unique(),
        ensures
            self.contents().dom().len() == self.entries@.len(),
            self.contents().dom().finite(),
    {
        let keys = self.entries@.map_values(|e: (String, T)| e.0@);
        assert forall|i: int, j: int| 0 <= i < keys.len() && 0 <= j < keys.len() && i != j implies keys[i]
            != keys[j] by {
            assert(self.entries@[i].0@ != self.entries@[j].0@);
        }
        assert(keys.no_duplicates());
        keys.unique_seq_to_set();
        assert forall|k: Seq<char>| self.contents().dom().contains(k) <==> keys.to_set().contains(k) by {
            if self.contents().dom().contains(k) {
                let i = choose|i: int| self.has_key_at(k, i);
                assert(keys[i] == k);
            }
            if keys.to_set().contains(k) {
                let i = choose|i: int| 0 <= i < keys.len() && keys[i] == k;
                assert(self.has_key_at(k, i));
            }
        }
        assert(self.contents().dom() =~= keys.to_set());
    }

    /// The value of `key`, if the map holds it.
    pub fn get(&self, key: &str) -> (r: Option<&T>)
        ensures
            match r {
                Some(v) => self.contents().contains_key(key@) && self.contents()[key@]
                    == v.deep_view(),
                None => !self.contents().contains_key(key@),
            },
    {
        proof {
            use_type_invariant(self);
        }
        let k = key.to_owned();
        let n = self.entries.len();
        let mut i: usize = 0;
        while i < n
            invariant
                n == self.entries@.len(),
                self.keys_unique(),
                k@ == key@,
                i <= n,
                forall|j: int| 0 <= j < i ==> self.entries@[j].0@ != key@,
            decreases n - i,
        {
            if self.entries[i].0 == k {
                proof {
                    self.lemma_value_at(key@, i as int);
                }
                return Some(&self.entries[i].1);
            }
            i = i + 1;
        }
        None
    }

    /// Sets the value of `key`, replacing the value it had.
    #[verifier::rlimit(40)]
    pub fn insert(&mut self, key: String, value: T)
        ensures
            final(self).contents() == old(self).contents().insert(key@, value.deep_view()),
    {
        proof {
            use_type_invariant(&*self);
        }
        let ghost pre = *self;
        let mut entries: Vec<(String, T)> = Vec::new();
        std::mem::swap(&mut entries, &mut self.entries);
        let n = entries.len();
        let mut i: usize = 0;
        while i < n
            invariant
                n == entries@.len(),
                entries@ == pre.entries@,
                i <= n,
                forall|j: int| 0 <= j < i ==> entries@[j].0@ != key@,
            ensures
                i <= n,
                i < n ==> entries@[i as int].0@ == key@,
                forall|j: int| 0 <= j < i ==> entries@[j].0@ != key@,
            decreases n - i,
        {
            if entries[i].0 == key {
                break;
            }
            i = i + 1;
        }
        let ghost kv = key@;
        let ghost vv = value.deep_view();
        if i < n {
            entries.set(i, (key, value));
        } else {
            entries.push((key, value));
        }
        assert(forall|a: int| 0 <= a < n && a != i ==> entries@[a] == pre.entries@[a]);
        assert(entries@[i as int].0@ == kv && entries@[i as int].1.deep_view() == vv);
        assert(entries@.len() == if i < n { n as int } else { n + 1 });
        proof {
            assert forall|a: int, b: int|
                0 <= a < entries@.len() && 0 <= b < entries@.len() && a != b
                    implies #[trigger] entries@[a].0@ != #[trigger] entries@[b].0@ by {
                if a < pre.entries@.len() && b < pre.entries@.len() && a != i && b != i {
                    assert(pre.entries@[a].0@ != pre.entries@[b].0@);
                }
            }
        }
        self.entries = entries;
        proof {
            let post = *self;
            assert forall|k: Seq<char>| #[trigger]
                post.contents().contains_key(k) == pre.contents().insert(kv, vv).contains_key(
                    k,
                ) by {
                if post.contents().contains_key(k) {
                    let a = choose|a: int| post.has_key_at(k, a);
                    if k != kv {
                        assert(pre.has_key_at(k, a));
                    }
                }
                if pre.contents().contains_key(k) && k != kv {
                    let a = choose|a: int| pre.has_key_at(k, a);
                    assert(post.has_key_at(k, a));
                }
                if k == kv {
                    assert(post.has_key_at(k, i as int));
                }
            }
            assert forall|k: Seq<char>| post.contents().contains_key(k) implies post.contents()[k]
                == pre.contents().insert(kv, vv)[k] by {
                if k == kv {
                    post.lemma_value_at(k, i as int);
                } else {
                    let a = choose|a: int| pre.has_key_at(k, a);
                    pre.lemma_value_at(k, a);
                    assert(post.has_key_at(k, a));
                    post.lemma_value_at(k, a);
                }
            }
            assert(post.contents() =~= pre.contents().insert(kv, vv));
        }
    }
}

} // verus!
