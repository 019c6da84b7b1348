//! A small storage map keyed by `u64`: the entries are kept in a vector and
//! the first entry with a key is the one that counts.
use vstd::prelude::*;

verus! {

/// Entries keyed by `u64`; the first entry with a key is its value.
#[derive(Debug)]
pub struct KeyedU64<V> {
    pub entries: Vec<(u64, V)>,
}

/// Index of the first entry with key `k`.
pub open spec fn kindex<V>(es: Seq<(u64, V)>, k: u64) -> Option<int>
    decreases es.len(),
{
    if es.len() == 0 {
        None
    } else {
        match kindex(es.drop_last(), k) {
            Some(i) => Some(i),
            None => if es.last().0 == k {
                Some(es.len() - 1)
            } else {
                None
            },
        }
    }
}

/// The value stored under `k`.
pub open spec fn kget<V>(es: Seq<(u64, V)>, k: u64) -> Option<V> {
    match kindex(es, k) {
        Some(i) => Some(es[i].1),
        None => None,
    }
}

pub(crate) proof fn lemma_kindex_char<V>(es: Seq<(u64, V)>, k: u64)
    ensures
        kindex(es, k) matches Some(i) ==> 0 <= i < es.len() && es[i].0 == k && forall|j: int|
            0 <= j < i ==> (#[trigger] es[j]).0 != k,
        kindex(es, k) is None ==> forall|j: int| 0 <= j < es.len() ==> (#[trigger] es[j]).0 != k,
    decreases es.len(),
{
    if es.len() > 0 {
        let p = es.drop_last();
        lemma_kindex_char(p, k);
        if kindex(p, k) is Some {
            let i = kindex(p, k)->0;
            assert(p[i] == es[i]);
            assert forall|j: int| 0 <= j < i implies (#[trigger] es[j]).0 != k by {
                assert(p[j] == es[j]);
            }
        } else {
            assert forall|j: int| 0 <= j < es.len() - 1 implies (#[trigger] es[j]).0 != k by {
                assert(p[j] == es[j]);
            }
        }
    }
}

pub(crate) proof fn lemma_kindex_is<V>(es: Seq<(u64, V)>, k: u64, i: int)
    requires
        0 <= i < es.len(),
        es[i].0 == k,
        forall|j: int| 0 <= j < i ==> (#[trigger] es[j]).0 != k,
    ensures
        kindex(es, k) == Some(i),
{
    lemma_kindex_char(es, k);
    match kindex(es, k) {
        Some(m) => {
            if m < i {
                assert(es[m].0 != k);
            }
            if i < m {
                assert(es[i].0 != k);
            }
        },
        None => {
            assert(es[i].0 != k);
        },
    }
}

/// The entries of `es` whose key is not `k`, in order.
pub open spec fn kfilter<V>(es: Seq<(u64, V)>, k: u64) -> Seq<(u64, V)>
    decreases es.len(),
{
    if es.len() == 0 {
        Seq::empty()
    } else if es.last().0 == k {
        kfilter(es.drop_last(), k)
    } else {
        kfilter(es.drop_last(), k).push(es.last())
    }
}

/// Looking a key up after appending: the old entry if there was one, else
/// the appended entry if it has the key.
proof fn lemma_kget_push<V>(es: Seq<(u64, V)>, e: (u64, V), o: u64)
    ensures
        kget(es.push(e), o) == (match kget(es, o) {
            Some(v) => Some(v),
            None => if e.0 == o {
                Some(e.1)
            } else {
                None
            },
        }),
{
    assert(es.push(e).drop_last() =~= es);
    lemma_kindex_char(es, o);
    if kindex(es, o) is Some {
        let i = kindex(es, o)->0;
        assert(es.push(e)[i] == es[i]);
    }
}

/// Dropping the entries of `k` removes `k` and keeps every other key.
proof fn lemma_kfilter<V>(es: Seq<(u64, V)>, k: u64, o: u64)
    ensures
        o == k ==> kget(kfilter(es, k), o) is None,
        o != k ==> kget(kfilter(es, k), o) == kget(es, o),
    decreases es.len(),
{
    if es.len() > 0 {
        let d = es.drop_last();
        lemma_kfilter(d, k, o);
        assert(d.push(es.last()) =~= es);
        lemma_kget_push(d, es.last(), o);
        if es.last().0 != k {
            lemma_kget_push(kfilter(d, k), es.last(), o);
        }
    }
}

impl<V: Copy> KeyedU64<V> {
    /// No entries.
    pub fn new() -> (m: Self)
        ensures
            m.entries@.len() == 0,
            forall|k: u64| kget(#[trigger] m.entries@, k) is None,
    {
        KeyedU64 { entries: Vec::new() }
    }

    /// The value stored under `k`.
    pub fn get(&self, k: u64) -> (r: Option<V>)
        ensures
            r == kget(self.entries@, k),
    {
        let mut i: usize = 0;
        while i < self.entries.len()
            invariant
                0 <= i <= self.entries.len(),
                forall|j: int| 0 <= j < i ==> (#[trigger] self.entries@[j]).0 != k,
            decreases self.entries.len() - i,
        {
            if self.entries[i].0 == k {
                proof {
                    lemma_kindex_is(self.entries@, k, i as int);
                }
                return Some(self.entries[i].1);
            }
            i = i + 1;
        }
        proof {
            lemma_kindex_char(self.entries@, k);
            if kindex(self.entries@, k) is Some {
                let m = kindex(self.entries@, k)->0;
                assert(self.entries@[m].0 != k);
            }
        }
        None
    }

    /// Stores `v` under `k`: overwrites the first entry with key `k`, or
    /// appends one.
    pub fn set(&mut self, k: u64, v: V)
        ensures
            kget(final(self).entries@, k) == Some(v),
            forall|o: u64| o != k ==> #[trigger] kget(final(self).entries@, o) == kget(old(self).entries@, o),
    {
        let ghost before = self.entries@;
        let mut i: usize = 0;
        while i < self.entries.len()
            invariant
                0 <= i <= self.entries.len(),
                self.entries@ == before,
                before == old(self).entries@,
                forall|j: int| 0 <= j < i ==> (#[trigger] self.entries@[j]).0 != k,
            decreases self.entries.len() - i,
        {
            if self.entries[i].0 == k {
                proof {
                    lemma_kindex_is(before, k, i as int);
                }
                self.entries.set(i, (k, v));
                proof {
                    lemma_kindex_is(self.entries@, k, i as int);
                    assert forall|o: u64| o != k implies #[trigger] kget(self.entries@, o) == kget(before, o) by {
                        lemma_kindex_char(before, o);
                        lemma_kindex_char(self.entries@, o);
                        if kindex(before, o) is Some {
                            let m = kindex(before, o)->0;
                            assert(self.entries@[m] == before[m]);
                            assert forall|j: int| 0 <= j < m implies (#[trigger] self.entries@[j]).0 != o by {
                                if j != i {
                                    assert(self.entries@[j] == before[j]);
                                }
                            }
                            lemma_kindex_is(self.entries@, o, m);
                        } else if kindex(self.entries@, o) is Some {
                            let m = kindex(self.entries@, o)->0;
                            if m != i {
                                assert(self.entries@[m] == before[m]);
                            }
                            assert(before[m].0 != o);
                        }
                    }
                }
                return;
            }
            i = i + 1;
        }
        proof {
            lemma_kindex_char(before, k);
            if kindex(before, k) is Some {
                let m = kindex(before, k)->0;
                assert(before[m].0 != k);
            }
        }
        self.entries.push((k, v));
        proof {
            assert forall|o: u64| true implies #[trigger] kget(self.entries@, o) == (match kget(before, o) {
                Some(x) => Some(x),
                None => if k == o {
                    Some(v)
                } else {
                    None
                },
            }) by {
                lemma_kget_push(before, (k, v), o);
            }
        }
    }

    /// Removes every entry with key `k`.
    pub fn remove(&mut self, k: u64)
        ensures
            kget(final(self).entries@, k) is None,
            forall|o: u64| o != k ==> #[trigger] kget(final(self).entries@, o) == kget(old(self).entries@, o),
    {
        let mut kept: Vec<(u64, V)> = Vec::new();
        let mut i: usize = 0;
        while i < self.entries.len()
            invariant
                0 <= i <= self.entries.len(),
                self.entries@ == old(self).entries@,
                kept@ == kfilter(self.entries@.take(i as int), k),
            decreases self.entries.len() - i,
        {
            let e = self.entries[i];
            proof {
                assert(self.entries@.take(i as int + 1).drop_last() =~= self.entries@.take(i as int));
            }
            if e.0 != k {
                kept.push(e);
            }
            i = i + 1;
        }
        proof {
            assert(self.entries@.take(i as int) =~= self.entries@);
            lemma_kfilter(self.entries@, k, k);
            assert forall|o: u64| o != k implies #[trigger] kget(kept@, o) == kget(old(self).entries@, o) by {
                lemma_kfilter(old(self).entries@, k, o);
            }
        }
        self.entries = kept;
    }
}

} // verus!
