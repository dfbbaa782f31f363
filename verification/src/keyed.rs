//! A list of values kept under distinct names.

use vstd::prelude::*;

use crate::text;

verus! {

/// Values kept under names, at most one under each.
pub struct Keyed<T> {
    entries: Vec<(String, T)>,
}

spec fn has_key<T>(entries: Seq<(String, T)>, key: Seq<char>) -> bool {
    exists|i: int| 0 <= i < entries.len() && (#[trigger] entries[i]).0@ == key
}

spec fn key_index<T>(entries: Seq<(String, T)>, key: Seq<char>) -> int {
    choose|i: int| 0 <= i < entries.len() && (#[trigger] entries[i]).0@ == key
}

impl<T> View for Keyed<T> {
    type V = Map<Seq<char>, T>;

    closed spec fn view(&self) -> Map<Seq<char>, T> {
        Map::new(
            |k: Seq<char>| has_key(self.entries@, k),
            |k: Seq<char>| self.entries@[key_index(self.entries@, k)].1,
        )
    }
}

impl<T: Copy> Keyed<T> {
    /// No name occurs twice.
    pub closed spec fn wf(&self) -> bool {
        forall|i: int, j: int|
            0 <= i < self.entries@.len() && 0 <= j < self.entries@.len() && (
            #[trigger] self.entries@[i]).0@ == (#[trigger] self.entries@[j]).0@ ==> i == j
    }

    pub fn new() -> (r: Self)
        ensures
            r.wf(),
            r@ == Map::<Seq<char>, T>::empty(),
    {
        let r = Keyed { entries: Vec::new() };
        assert(r@ =~= Map::empty());
        r
    }

    fn find(&self, key: &str) -> (r: Option<usize>)
        requires
            self.wf(),
        ensures
            match r {
                Some(i) => i < self.entries@.len() && self.entries@[i as int].0@ == key@
                    && self@.contains_key(key@) && self@[key@] == self.entries@[i as int].1,
                None => !self@.contains_key(key@),
            },
    {
        let mut i: usize = 0;
        while i < self.entries.len()
            invariant
                self.wf(),
                i <= self.entries@.len(),
                forall|j: int| 0 <= j < i ==> (#[trigger] self.entries@[j]).0@ != key@,
            decreases self.entries@.len() - i,
        {
            if text::same_text(self.entries[i].0.as_str(), key) {
                assert(has_key(self.entries@, key@));
                return Some(i);
            }
            i += 1;
        }
        None
    }

    /// The value kept under a name.
    pub fn get(&self, key: &str) -> (r: Option<T>)
        requires
            self.wf(),
        ensures
            r == (if self@.contains_key(key@) {
                Some(self@[key@])
            } else {
                None
            }),
    {
        match self.find(key) {
            Some(i) => Some(self.entries[i].1),
            None => None,
        }
    }

    /// Keeps a value under a name.
    pub fn set(&mut self, key: &str, value: T)
        requires
            old(self).wf(),
        ensures
            final(self).wf(),
            final(self)@ == old(self)@.insert(key@, value),
    {
        let ghost before = self.entries@;
        match self.find(key) {
            Some(i) => {
                let name = self.entries[i].0.clone();
                self.entries[i] = (name, value);
                let ghost after = self.entries@;
                proof {
                    assert(after[i as int].0@ == key@ && after[i as int].1 == value);
                    assert forall|j: int| 0 <= j < after.len() implies (#[trigger] after[j]).0@
                        == before[j].0@ by {}
                    assert forall|j: int, k: int|
                        0 <= j < after.len() && 0 <= k < after.len() && (#[trigger] after[j]).0@
                            == (#[trigger] after[k]).0@ implies j == k by {
                        assert(before[j].0@ == before[k].0@);
                    }
                    assert forall|k: Seq<char>| has_key(after, k) == has_key(before, k) by {
                        if has_key(after, k) {
                            assert(before[key_index(after, k)].0@ == k);
                        }
                        if has_key(before, k) {
                            assert(after[key_index(before, k)].0@ == k);
                        }
                    }
                    assert(has_key(after, key@));
                    assert forall|k: Seq<char>| #[trigger]
                        old(self)@.contains_key(k) && k != key@ implies self@[k] == old(
                        self,
                    )@[k] by {
                        assert(has_key(before, k));
                        let j = key_index(before, k);
                        assert(after[j].0@ == k);
                        assert(has_key(after, k));
                        assert(key_index(after, k) == j);
                    }
                    assert(self@ =~= old(self)@.insert(key@, value));
                }
            },
            None => {
                self.entries.push((key.to_string(), value));
                let ghost after = self.entries@;
                proof {
                    let n = before.len() as int;
                    assert(after[n].0@ == key@ && after[n].1 == value);
                    assert(!has_key(before, key@));
                    assert forall|j: int| 0 <= j < n implies (#[trigger] after[j]).0@ != key@ by {
                        assert(before[j].0@ != key@);
                    }
                    assert forall|j: int, k: int|
                        0 <= j < after.len() && 0 <= k < after.len() && (#[trigger] after[j]).0@
                            == (#[trigger] after[k]).0@ implies j == k by {
                        if j < n && k < n {
                            assert(before[j].0@ == before[k].0@);
                        }
                    }
                    assert forall|k: Seq<char>|
                        has_key(after, k) == (has_key(before, k) || k == key@) by {
                        if has_key(after, k) {
                            let j = key_index(after, k);
                            assert(after[j].0@ == k);
                            if j < n {
                                assert(before[j].0@ == k);
                            }
                        }
                        if has_key(before, k) {
                            assert(after[key_index(before, k)].0@ == k);
                        }
                        if k == key@ {
                            assert(after[n].0@ == k);
                        }
                    }
                    assert(key_index(after, key@) == n) by {
                        assert(has_key(after, key@));
                    }
                    assert forall|k: Seq<char>| #[trigger]
                        old(self)@.contains_key(k) && k != key@ implies self@[k] == old(
                        self,
                    )@[k] by {
                        assert(has_key(before, k));
                        let j = key_index(before, k);
                        assert(after[j].0@ == k);
                        assert(has_key(after, k));
                        assert(key_index(after, k) == j);
                    }
                    assert(self@ =~= old(self)@.insert(key@, value));
                }
            },
        }
    }
}

} // verus!
