//! A small counting table keyed by strings: each distinct key once, with a
//! positive count.
use vstd::prelude::*;

verus! {

/// The last position of `t` in `keys`, or -1 when it is absent.
pub open spec fn find_key(keys: Seq<Seq<char>>, t: Seq<char>) -> int
    decreases keys.len(),
{
    if keys.len() == 0 {
        -1
    } else if keys.last() == t {
        keys.len() - 1
    } else {
        find_key(keys.drop_last(), t)
    }
}

pub proof fn lemma_find_key(keys: Seq<Seq<char>>, t: Seq<char>)
    ensures
        -1 <= find_key(keys, t) < keys.len(),
        find_key(keys, t) >= 0 ==> keys[find_key(keys, t)] == t,
        find_key(keys, t) == -1 <==> forall|k: int| 0 <= k < keys.len() ==> keys[k] != t,
    decreases keys.len(),
{
    if keys.len() > 0 {
        lemma_find_key(keys.drop_last(), t);
        if keys.last() != t {
            assert forall|k: int| 0 <= k < keys.len() && find_key(keys, t) == -1 implies keys[k]
                != t by {
                if k < keys.len() - 1 {
                    assert(keys.drop_last()[k] == keys[k]);
                }
            }
        }
    }
}

pub proof fn lemma_find_key_distinct(keys: Seq<Seq<char>>, t: Seq<char>, k: int)
    requires
        0 <= k < keys.len(),
        keys[k] == t,
        forall|a: int, b: int| 0 <= a < b < keys.len() ==> keys[a] != keys[b],
    ensures
        find_key(keys, t) == k,
    decreases keys.len(),
{
    if k < keys.len() - 1 {
        assert(keys.last() != t);
        assert(keys.drop_last()[k] == t);
        lemma_find_key_distinct(keys.drop_last(), t, k);
    }
}

/// How many times `t` occurs in `s`.
pub open spec fn occurrences(s: Seq<Seq<char>>, t: Seq<char>) -> nat
    decreases s.len(),
{
    if s.len() == 0 {
        0
    } else {
        occurrences(s.drop_last(), t) + (if s.last() == t {
            1nat
        } else {
            0nat
        })
    }
}

pub proof fn lemma_occurrences_bound(s: Seq<Seq<char>>, t: Seq<char>)
    ensures
        occurrences(s, t) <= s.len(),
        occurrences(s, t) > 0 <==> s.contains(t),
    decreases s.len(),
{
    if s.len() > 0 {
        lemma_occurrences_bound(s.drop_last(), t);
        if s.last() == t {
            assert(s.contains(t)) by {
                assert(s[s.len() - 1] == t);
            }
        } else {
            if s.contains(t) {
                let k = choose|k: int| 0 <= k < s.len() && s[k] == t;
                assert(s.drop_last()[k] == t);
            }
            if s.drop_last().contains(t) {
                let k = choose|k: int| 0 <= k < s.len() - 1 && s.drop_last()[k] == t;
                assert(s[k] == t);
            }
        }
    }
}

proof fn lemma_keys_of(keys: Seq<Seq<char>>)
    ensures
        forall|t: Seq<char>| #![auto] keys.contains(t) <==> find_key(keys, t) >= 0,
{
    assert forall|t: Seq<char>| #![auto] keys.contains(t) <==> find_key(keys, t) >= 0 by {
        lemma_find_key(keys, t);
        if keys.contains(t) {
            let k = choose|k: int| 0 <= k < keys.len() && keys[k] == t;
            assert(keys[k] == t);
        }
        let k = find_key(keys, t);
        if k >= 0 {
            assert(keys[k] == t);
        }
    }
}

/// Counts of string keys; a key that was never added has count 0.
pub struct TermCounts {
    keys: Vec<String>,
    counts: Vec<usize>,
}

impl TermCounts {
    /// Each key once, every count positive, one count per key.
    pub closed spec fn wf(self) -> bool {
        &&& self.keys@.len() == self.counts@.len()
        &&& forall|a: int, b: int|
            0 <= a < b < self.keys@.len() ==> self.keys.deep_view()[a] != self.keys.deep_view()[b]
        &&& forall|k: int| 0 <= k < self.counts@.len() ==> self.counts@[k] > 0
    }

    /// The count of `t`.
    pub closed spec fn count(self, t: Seq<char>) -> nat {
        let k = find_key(self.keys.deep_view(), t);
        if k >= 0 {
            self.counts@[k] as nat
        } else {
            0
        }
    }

    /// The keys, each once, in the order they were first added.
    pub closed spec fn key_list(self) -> Seq<Seq<char>> {
        self.keys.deep_view()
    }

    /// An empty table.
    pub fn new() -> (r: Self)
        ensures
            r.wf(),
            forall|t: Seq<char>| r.count(t) == 0,
            r.key_list().len() == 0,
    {
        TermCounts { keys: Vec::new(), counts: Vec::new() }
    }

    /// The position of `t` among the keys.
    fn position(&self, t: &String) -> (r: Option<usize>)
        requires
            self.wf(),
        ensures
            match r {
                Some(k) => k < self.keys@.len() && find_key(self.keys.deep_view(), t@) == k,
                None => find_key(self.keys.deep_view(), t@) == -1,
            },
    {
        let ghost keys = self.keys.deep_view();
        let mut k: usize = 0;
        while k < self.keys.len()
            invariant
                k <= self.keys@.len(),
                keys == self.keys.deep_view(),
                self.wf(),
                forall|j: int| 0 <= j < k ==> keys[j] != t@,
            decreases self.keys@.len() - k,
        {
            if self.keys[k] == *t {
                proof {
                    lemma_find_key_distinct(keys, t@, k as int);
                }
                return Some(k);
            }
            k += 1;
        }
        proof {
            lemma_find_key(keys, t@);
        }
        None
    }

    /// The count of `t`.
    pub fn get(&self, t: &str) -> (r: usize)
        requires
            self.wf(),
        ensures
            r == self.count(t@),
    {
        let tt = t.to_owned();
        match self.position(&tt) {
            Some(k) => self.counts[k],
            None => 0,
        }
    }

    /// Adds one to the count of `t`.
    pub fn add(&mut self, t: &String)
        requires
            old(self).wf(),
            old(self).count(t@) < usize::MAX,
        ensures
            final(self).wf(),
            forall|u: Seq<char>|
                final(self).count(u) == old(self).count(u) + (if u == t@ {
                    1nat
                } else {
                    0nat
                }),
            forall|u: Seq<char>| final(self).key_list().contains(u) <==> (old(self).key_list().contains(u)
                || u == t@),
    {
        let ghost keys0 = self.keys.deep_view();
        proof {
            lemma_keys_of(keys0);
        }
        match self.position(t) {
            Some(k) => {
                let c = self.counts[k];
                self.counts.set(k, c + 1);
                proof {
                    assert(self.keys.deep_view() == keys0);
                    lemma_find_key(keys0, t@);
                    assert forall|u: Seq<char>| u != t@ implies find_key(keys0, u) != k by {
                        lemma_find_key(keys0, u);
                    }
                    assert forall|u: Seq<char>|
                        self.count(u) == old(self).count(u) + (if u == t@ {
                            1nat
                        } else {
                            0nat
                        }) by {
                        lemma_find_key(keys0, u);
                    }
                }
            },
            None => {
                self.keys.push(t.clone());
                self.counts.push(1);
                proof {
                    let keys1 = self.keys.deep_view();
                    assert(keys1 =~= keys0.push(t@));
                    assert(keys1.drop_last() =~= keys0);
                    lemma_find_key(keys0, t@);
                    assert forall|u: Seq<char>| u != t@ implies find_key(keys1, u) == find_key(
                        keys0,
                        u,
                    ) by {}
                    assert forall|u: Seq<char>|
                        self.count(u) == old(self).count(u) + (if u == t@ {
                            1nat
                        } else {
                            0nat
                        }) by {
                        lemma_find_key(keys0, u);
                    }
                    lemma_keys_of(keys1);
                }
            },
        }
    }

    /// The keys, each once.
    pub fn keys(&self) -> (r: &Vec<String>)
        requires
            self.wf(),
        ensures
            r.deep_view() == self.key_list(),
            forall|t: Seq<char>| self.key_list().contains(t) <==> self.count(t) > 0,
            forall|a: int, b: int|
                0 <= a < b < self.key_list().len() ==> self.key_list()[a] != self.key_list()[b],
    {
        proof {
            lemma_keys_of(self.keys.deep_view());
            assert forall|t: Seq<char>| self.key_list().contains(t) implies self.count(t) > 0 by {
                lemma_find_key(self.keys.deep_view(), t);
            }
        }
        &self.keys
    }
}

} // verus!
