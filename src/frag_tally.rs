//! Net frag count per player name.
use vstd::prelude::*;

verus! {

/// Net frags per player: each name at most once, in the order in which the
/// names first came.
pub struct FragTally {
    names: Vec<Vec<u8>>,
    scores: Vec<isize>,
    model: Ghost<Map<Seq<u8>, int>>,
}

impl View for FragTally {
    type V = Map<Seq<u8>, int>;

    closed spec fn view(&self) -> Map<Seq<u8>, int> {
        self.model@
    }
}

impl FragTally {
    /// The names in the order in which they are stored.
    pub closed spec fn keys(&self) -> Seq<Seq<u8>> {
        self.names@.map_values(|n: Vec<u8>| n@)
    }

    pub closed spec fn wf(&self) -> bool {
        &&& self.names@.len() == self.scores@.len()
        &&& forall|i: int|
            0 <= i < self.names@.len() ==> self.model@.contains_key(#[trigger] self.names@[i]@)
                && self.model@[self.names@[i]@] == self.scores@[i] as int
        &&& forall|i: int, j: int|
            0 <= i < j < self.names@.len() ==> #[trigger] self.names@[i]@ != #[trigger] self.names@[j]@
        &&& forall|k: Seq<u8>|
            #[trigger] self.model@.contains_key(k) ==> exists|i: int|
                0 <= i < self.names@.len() && self.names@[i]@ == k
    }

    /// The score of `name`, zero for a name not yet seen.
    pub open spec fn score_of(&self, name: Seq<u8>) -> int {
        if self@.contains_key(name) {
            self@[name]
        } else {
            0
        }
    }

    /// An empty tally.
    pub fn new() -> (r: FragTally)
        ensures
            r.wf(),
            r@ == Map::<Seq<u8>, int>::empty(),
    {
        FragTally { names: Vec::new(), scores: Vec::new(), model: Ghost(Map::empty()) }
    }

    /// How many players the tally holds. The stored names are the keys of
    /// the map, each once.
    pub fn len(&self) -> (r: usize)
        requires
            self.wf(),
        ensures
            r == self.keys().len(),
            self.keys().no_duplicates(),
            forall|i: int| 0 <= i < self.keys().len() ==> self@.contains_key(#[trigger] self.keys()[i]),
            forall|k: Seq<u8>| #[trigger] self@.contains_key(k) ==> self.keys().contains(k),
    {
        proof {
            assert forall|k: Seq<u8>| #[trigger] self@.contains_key(k) implies self.keys().contains(k) by {
                let i = choose|i: int| 0 <= i < self.names@.len() && self.names@[i]@ == k;
                assert(self.keys()[i] == k);
            }
        }
        self.names.len()
    }

    /// The `i`-th stored name.
    pub fn name(&self, i: usize) -> (r: &[u8])
        requires
            self.wf(),
            i < self.keys().len(),
        ensures
            r@ == self.keys()[i as int],
    {
        self.names[i].as_slice()
    }

    fn position(&self, name: &[u8]) -> (r: Option<usize>)
        requires
            self.wf(),
        ensures
            match r {
                Some(i) => i < self.names@.len() && self.names@[i as int]@ == name@,
                None => !self@.contains_key(name@),
            },
    {
        let mut i: usize = 0;
        while i < self.names.len()
            invariant
                self.wf(),
                i <= self.names@.len(),
                forall|j: int| 0 <= j < i ==> self.names@[j]@ != name@,
            decreases self.names@.len() - i,
        {
            if crate::scan::bytes_eq(self.names[i].as_slice(), name) {
                return Some(i);
            }
            i = i + 1;
        }
        None
    }

    /// The score of `name`, zero for a name not yet seen.
    pub fn get(&self, name: &[u8]) -> (r: isize)
        requires
            self.wf(),
        ensures
            r == self.score_of(name@),
    {
        match self.position(name) {
            Some(i) => self.scores[i],
            None => 0,
        }
    }

    /// Adds `delta` to the score of `name`, which starts at zero.
    pub fn add(&mut self, name: &[u8], delta: isize)
        requires
            old(self).wf(),
            isize::MIN <= old(self).score_of(name@) + delta <= isize::MAX,
        ensures
            final(self).wf(),
            final(self)@ == old(self)@.insert(name@, old(self).score_of(name@) + delta),
    {
        match self.position(name) {
            Some(i) => {
                let v = self.scores[i] + delta;
                self.scores.set(i, v);
                proof {
                    self.model@ = self.model@.insert(name@, v as int);
                }
                assert forall|k: Seq<u8>| #[trigger] self.model@.contains_key(k) implies exists|j: int|
                    0 <= j < self.names@.len() && self.names@[j]@ == k by {
                    if k != name@ {
                        assert(old(self).model@.contains_key(k));
                        let j = choose|j: int| 0 <= j < old(self).names@.len() && old(self).names@[j]@ == k;
                        assert(self.names@[j]@ == k);
                    } else {
                        assert(self.names@[i as int]@ == k);
                    }
                }
            },
            None => {
                let owned = vstd::slice::slice_to_vec(name);
                self.names.push(owned);
                self.scores.push(delta);
                proof {
                    self.model@ = self.model@.insert(name@, delta as int);
                    let last = self.names@.len() - 1;
                    assert(self.names@[last]@ == name@);
                    assert forall|k: Seq<u8>| #[trigger] self.model@.contains_key(k) implies exists|j: int|
                        0 <= j < self.names@.len() && self.names@[j]@ == k by {
                        if k != name@ {
                            assert(old(self).model@.contains_key(k));
                            let j = choose|j: int| 0 <= j < old(self).names@.len() && old(self).names@[j]@ == k;
                            assert(self.names@[j]@ == k);
                        }
                    }
                }
            },
        }
    }
}

} // verus!
