//! A table with one value per session.
use vstd::prelude::*;

use crate::session::{same_key, KeyView, SessionKey};

verus! {

/// Values by session key. No key occurs twice.
pub struct KeyedMap<V> {
    entries: Vec<(SessionKey, V)>,
}

/// Whether an entry of the list has a key.
spec fn at<V>(entries: Seq<(SessionKey, V)>, i: int, k: KeyView) -> bool {
    0 <= i < entries.len() && entries[i].0@ == k
}

impl<V> View for KeyedMap<V> {
    type V = Map<KeyView, V>;

    closed spec fn view(&self) -> Map<KeyView, V> {
        let e = self.entries@;
        Map::new(|k: KeyView| exists|i: int| at(e, i, k), |k: KeyView| e[choose|i: int| at(e, i, k)].1)
    }
}

impl<V> KeyedMap<V> {
    /// No key occurs twice.
    pub closed spec fn wf(&self) -> bool {
        forall|i: int, j: int|
            0 <= i < j < self.entries@.len() ==> (#[trigger] self.entries@[i]).0@ != (
            #[trigger] self.entries@[j]).0@
    }

    proof fn entry(&self, i: int)
        requires
            self.wf(),
            0 <= i < self.entries@.len(),
        ensures
            self@.contains_key(self.entries@[i].0@),
            self@[self.entries@[i].0@] == self.entries@[i].1,
    {
        let e = self.entries@;
        let k = e[i].0@;
        assert(at(e, i, k));
        let j = choose|j: int| at(e, j, k);
        assert(at(e, j, k));
        assert(i == j);
    }

    /// An empty table.
    pub fn new() -> (r: Self)
        ensures
            r.wf(),
            r@ == Map::<KeyView, V>::empty(),
    {
        let r = KeyedMap { entries: Vec::new() };
        assert(r@ =~= Map::<KeyView, V>::empty());
        r
    }

    fn position(&self, key: &SessionKey) -> (r: Option<usize>)
        requires
            self.wf(),
        ensures
            match r {
                Some(i) => i < self.entries@.len() && self.entries@[i as int].0@ == key@
                    && self@.contains_key(key@) && self@[key@] == self.entries@[i as int].1,
                None => !self@.contains_key(key@),
            },
    {
        for i in 0..self.entries.len()
            invariant
                self.wf(),
                forall|j: int| 0 <= j < i ==> !#[trigger] at(self.entries@, j, key@),
        {
            if same_key(&self.entries[i].0, key) {
                proof {
                    self.entry(i as int);
                }
                return Some(i);
            }
        }
        None
    }

    /// The value of a key.
    pub fn get(&self, key: &SessionKey) -> (r: Option<&V>)
        requires
            self.wf(),
        ensures
            match r {
                Some(v) => self@.contains_key(key@) && *v == self@[key@],
                None => !self@.contains_key(key@),
            },
    {
        match self.position(key) {
            Some(i) => Some(&self.entries[i].1),
            None => None,
        }
    }

    /// Whether a key has a value.
    pub fn contains(&self, key: &SessionKey) -> (r: bool)
        requires
            self.wf(),
        ensures
            r == self@.contains_key(key@),
    {
        self.position(key).is_some()
    }

    /// Removes a key and returns its value.
    pub fn remove(&mut self, key: &SessionKey) -> (r: Option<V>)
        requires
            old(self).wf(),
        ensures
            final(self).wf(),
            final(self)@ == old(self)@.remove(key@),
            r == (if old(self)@.contains_key(key@) {
                Some(old(self)@[key@])
            } else {
                None
            }),
    {
        let ghost before = *self;
        match self.position(key) {
            Some(i) => {
                let (k, v) = self.entries.remove(i);
                proof {
                    let a = before.entries@;
                    let b = self.entries@;
                    assert(b =~= a.remove(i as int));
                    assert forall|m: int, n: int| 0 <= m < n < b.len() implies (#[trigger] b[m]).0@
                        != (#[trigger] b[n]).0@ by {
                        let p = if m < i { m } else { m + 1 };
                        let q = if n < i { n } else { n + 1 };
                        assert(b[m] == a[p] && b[n] == a[q]);
                    }
                    assert(self.wf());
                    assert forall|k2: KeyView| self@.contains_key(k2) <==> before@.remove(
                        key@,
                    ).contains_key(k2) by {
                        if self@.contains_key(k2) {
                            let n = choose|n: int| at(b, n, k2);
                            assert(at(b, n, k2));
                            let q = if n < i { n } else { n + 1 };
                            assert(b[n] == a[q]);
                            assert(at(a, q, k2));
                            assert(k2 != key@);
                        }
                        if before@.remove(key@).contains_key(k2) {
                            let q = choose|q: int| at(a, q, k2);
                            assert(at(a, q, k2));
                            let n = if q < i { q } else { q - 1 };
                            assert(b[n] == a[q]);
                            assert(at(b, n, k2));
                        }
                    }
                    assert forall|k2: KeyView| self@.contains_key(k2) implies #[trigger] self@[k2]
                        == before@.remove(key@)[k2] by {
                        let n = choose|n: int| at(b, n, k2);
                        assert(at(b, n, k2));
                        let q = if n < i { n } else { n + 1 };
                        assert(b[n] == a[q]);
                        before.entry(q);
                        self.entry(n);
                    }
                    assert(self@ =~= before@.remove(key@));
                }
                Some(v)
            },
            None => {
                assert(self@ =~= before@.remove(key@));
                None
            },
        }
    }

    /// Sets the value of a key.
    pub fn insert(&mut self, key: SessionKey, value: V)
        requires
            old(self).wf(),
        ensures
            final(self).wf(),
            final(self)@ == old(self)@.insert(key@, value),
    {
        let ghost start = self@;
        let ghost k = key@;
        self.remove(&key);
        let ghost before = *self;
        self.entries.push((key, value));
        proof {
            let a = before.entries@;
            let b = self.entries@;
            assert forall|m: int| 0 <= m < a.len() implies (#[trigger] a[m]).0@ != k by {
                before.entry(m);
            }
            assert forall|m: int, n: int| 0 <= m < n < b.len() implies (#[trigger] b[m]).0@ != (
            #[trigger] b[n]).0@ by {
                assert(b[m] == a[m]);
                if n < a.len() {
                    assert(b[n] == a[n]);
                }
            }
            assert(self.wf());
            let goal = start.insert(k, value);
            assert forall|k2: KeyView| self@.contains_key(k2) <==> goal.contains_key(k2) by {
                if self@.contains_key(k2) {
                    let n = choose|n: int| at(b, n, k2);
                    assert(at(b, n, k2));
                    if n < a.len() {
                        before.entry(n);
                    }
                }
                if goal.contains_key(k2) {
                    if k2 == k {
                        assert(at(b, a.len() as int, k2));
                    } else {
                        assert(before@.contains_key(k2));
                        let n = choose|n: int| at(a, n, k2);
                        assert(at(a, n, k2));
                        assert(at(b, n, k2));
                    }
                }
            }
            assert forall|k2: KeyView| self@.contains_key(k2) implies #[trigger] self@[k2] == goal[
            k2] by {
                let n = choose|n: int| at(b, n, k2);
                assert(at(b, n, k2));
                self.entry(n);
                if n < a.len() {
                    before.entry(n);
                }
            }
            assert(self@ =~= goal);
        }
    }

    /// The keys, each once.
    pub fn keys(&self) -> (r: Vec<SessionKey>)
        requires
            self.wf(),
        ensures
            forall|k: KeyView|
                self@.contains_key(k) <==> exists|i: int|
                    0 <= i < r@.len() && (#[trigger] r@[i])@ == k,
            forall|i: int, j: int|
                0 <= i < j < r@.len() ==> (#[trigger] r@[i])@ != (#[trigger] r@[j])@,
    {
        let mut out: Vec<SessionKey> = Vec::new();
        for i in 0..self.entries.len()
            invariant
                self.wf(),
                out@.len() == i,
                forall|j: int| 0 <= j < i ==> (#[trigger] out@[j]) == self.entries@[j].0,
        {
            out.push(self.entries[i].0.clone());
        }
        proof {
            assert forall|k: KeyView|
                self@.contains_key(k) <==> exists|i: int|
                    0 <= i < out@.len() && (#[trigger] out@[i])@ == k by {
                if self@.contains_key(k) {
                    let i = choose|i: int| at(self.entries@, i, k);
                    assert(at(self.entries@, i, k));
                    assert(out@[i]@ == k);
                }
                if exists|i: int| 0 <= i < out@.len() && (#[trigger] out@[i])@ == k {
                    let i = choose|i: int| 0 <= i < out@.len() && (#[trigger] out@[i])@ == k;
                    self.entry(i);
                }
            }
        }
        out
    }
}

} // verus!
