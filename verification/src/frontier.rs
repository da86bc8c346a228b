use vstd::prelude::*;

verus! {

/// The deduplication authority of the crawl: the set of Normalized Keys
/// already scheduled, append-only for the lifetime of one run. Its view is
/// the sequence of keys in the order they were admitted.
pub struct Frontier {
    keys: Vec<String>,
}

impl View for Frontier {
    type V = Seq<Seq<char>>;

    closed spec fn view(&self) -> Seq<Seq<char>> {
        self.keys@.map_values(|k: String| k@)
    }
}

impl Frontier {
    /// The admitted keys are pairwise distinct: a key, once inserted, is
    /// never inserted again.
    pub closed spec fn inv(&self) -> bool {
        self@.no_duplicates()
    }

    /// An empty frontier, as at crawl start.
    pub fn new() -> (r: Frontier)
        ensures
            r@ == Seq::<Seq<char>>::empty(),
            r.inv(),
    {
        let r = Frontier { keys: Vec::new() };
        proof {
            assert(r@ =~= Seq::<Seq<char>>::empty());
        }
        r
    }

    /// How many distinct keys have been admitted so far.
    pub fn len(&self) -> (n: usize)
        ensures
            n == self@.len(),
    {
        self.keys.len()
    }

    /// Is this key already scheduled?
    pub fn contains(&self, key: &String) -> (r: bool)
        ensures
            r == self@.contains(key@),
    {
        let mut i: usize = 0;
        while i < self.keys.len()
            invariant
                i <= self.keys.len(),
                self@.len() == self.keys@.len(),
                forall|j: int| 0 <= j < i ==> self@[j] != key@,
            decreases self.keys.len() - i,
        {
            let ki: &String = &self.keys[i];
            proof {
                assert(self@[i as int] == ki@);
            }
            if *ki == *key {
                return true;
            }
            i += 1;
        }
        false
    }

    /// The check-then-insert step, atomic because the frontier has a single
    /// owner: admit the key when it is absent and say whether it was.
    pub fn try_insert(&mut self, key: String) -> (fresh: bool)
        requires
            old(self).inv(),
        ensures
            final(self).inv(),
            fresh == !old(self)@.contains(key@),
            fresh ==> final(self)@ == old(self)@.push(key@),
            !fresh ==> final(self)@ == old(self)@,
    {
        if self.contains(&key) {
            false
        } else {
            let ghost prev = self@;
            self.keys.push(key);
            proof {
                assert(self@ =~= prev.push(key@));
            }
            true
        }
    }
}

} // verus!
