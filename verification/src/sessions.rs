//! The set of client sessions that have been admitted with the PIN.

use vstd::prelude::*;

verus! {

/// Session identifiers, each held once, in the order they were admitted.
pub struct SessionSet {
    ids: Vec<String>,
}

impl SessionSet {
    /// Whether some held identifier reads `key`.
    pub closed spec fn holds(&self, key: Seq<char>) -> bool {
        exists|i: int| 0 <= i < self.ids.len() && #[trigger] self.ids@[i]@ == key
    }

    /// No identifier is held twice.
    pub closed spec fn wf(&self) -> bool {
        forall|i: int, j: int|
            0 <= i < j < self.ids.len() ==> #[trigger] self.ids@[i]@ != #[trigger] self.ids@[j]@
    }

    /// Where `key` stands, if it is held.
    fn position(&self, key: &String) -> (r: Option<usize>)
        ensures
            match r {
                Some(i) => i < self.ids.len() && self.ids@[i as int]@ == key@,
                None => !self.holds(key@),
            },
    {
        let n = self.ids.len();
        let mut i: usize = 0;
        while i < n
            invariant
                n == self.ids.len(),
                i <= n,
                forall|j: int| 0 <= j < i ==> #[trigger] self.ids@[j]@ != key@,
            decreases n - i,
        {
            if self.ids[i] == *key {
                return Some(i);
            }
            i = i + 1;
        }
        None
    }
}

impl View for SessionSet {
    type V = Set<Seq<char>>;

    closed spec fn view(&self) -> Set<Seq<char>> {
        Set::new(|k: Seq<char>| self.holds(k))
    }
}

impl SessionSet {
    /// An empty set.
    pub fn new() -> (s: SessionSet)
        ensures
            s.wf(),
            s@ == Set::<Seq<char>>::empty(),
    {
        let s = SessionSet { ids: Vec::new() };
        assert(s@ =~= Set::<Seq<char>>::empty());
        s
    }

    /// Whether `sid` is in the set.
    pub fn contains(&self, sid: &str) -> (r: bool)
        ensures
            r == self@.contains(sid@),
    {
        let key = sid.to_owned();
        match self.position(&key) {
            Some(_) => true,
            None => false,
        }
    }

    /// Adds `sid`; nothing changes if it is already there.
    pub fn insert(&mut self, sid: &str)
        requires
            old(self).wf(),
        ensures
            final(self).wf(),
            final(self)@ == old(self)@.insert(sid@),
    {
        let key = sid.to_owned();
        match self.position(&key) {
            Some(_) => {
                assert(self@ =~= old(self)@.insert(sid@));
            },
            None => {
                let ghost before = self.ids@;
                self.ids.push(key);
                assert forall|i: int, j: int| 0 <= i < j < self.ids.len() implies
                    #[trigger] self.ids@[i]@ != #[trigger] self.ids@[j]@ by {
                    if j == before.len() {
                        assert(before[i] == self.ids@[i]);
                    } else {
                        assert(before[i] == self.ids@[i] && before[j] == self.ids@[j]);
                    }
                }
                assert forall|k: Seq<char>| #[trigger] self@.contains(k) == old(self)@.insert(sid@).contains(k) by {
                    if old(self).holds(k) {
                        let i = choose|i: int| 0 <= i < before.len() && #[trigger] before[i]@ == k;
                        assert(self.ids@[i] == before[i]);
                    }
                    if self.holds(k) && k != sid@ {
                        let i = choose|i: int| 0 <= i < self.ids.len() && #[trigger] self.ids@[i]@ == k;
                        assert(self.ids@[i] == before[i]);
                    }
                    if k == sid@ {
                        assert(self.ids@[before.len() as int]@ == k);
                    }
                }
                assert(self@ =~= old(self)@.insert(sid@));
            },
        }
    }

    /// Removes `sid`; nothing changes if it is not there.
    pub fn remove(&mut self, sid: &str)
        requires
            old(self).wf(),
        ensures
            final(self).wf(),
            final(self)@ == old(self)@.remove(sid@),
    {
        let key = sid.to_owned();
        match self.position(&key) {
            None => {
                assert(self@ =~= old(self)@.remove(sid@));
            },
            Some(p) => {
                let ghost before = self.ids@;
                self.ids.remove(p);
                assert forall|i: int| 0 <= i < self.ids.len() implies
                    #[trigger] self.ids@[i] == (if i < p { before[i] } else { before[i + 1] }) by {}
                assert forall|i: int, j: int| 0 <= i < j < self.ids.len() implies
                    #[trigger] self.ids@[i]@ != #[trigger] self.ids@[j]@ by {
                    let bi = if i < p { i } else { i + 1 };
                    let bj = if j < p { j } else { j + 1 };
                    assert(self.ids@[i] == before[bi] && self.ids@[j] == before[bj]);
                    assert(before[bi]@ != before[bj]@);
                }
                assert forall|k: Seq<char>| #[trigger] self@.contains(k) == old(self)@.remove(sid@).contains(k) by {
                    if old(self).holds(k) && k != sid@ {
                        let i = choose|i: int| 0 <= i < before.len() && #[trigger] before[i]@ == k;
                        assert(i != p);
                        let ni = if i < p { i } else { i - 1 };
                        assert(self.ids@[ni] == before[i]);
                    }
                    if self.holds(k) {
                        let i = choose|i: int| 0 <= i < self.ids.len() && #[trigger] self.ids@[i]@ == k;
                        let bi = if i < p { i } else { i + 1 };
                        assert(self.ids@[i] == before[bi]);
                        assert(bi != p as int);
                        assert(before[bi]@ != before[p as int]@);
                    }
                }
                assert(self@ =~= old(self)@.remove(sid@));
            },
        }
    }
}

} // verus!
