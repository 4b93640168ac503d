//! A shuffled-index source: it hands out indexes `1..=count` in a random
//! order, regenerating the shuffled list after a fixed number of draws, so
//! that a quote store can serve random quotes without early repeats.

use vstd::prelude::*;

verus! {

/// How many draws are taken from one shuffled list before a fresh one is
/// generated.
pub const RANDOM_INDEX_SIZE: usize = 64;

/// The indexes `1..=count`, in order; empty when `count` is not positive.
pub open spec fn spec_range_list(count: i32) -> Seq<i32> {
    Seq::new(
        if count >= 0 {
            count as nat
        } else {
            0
        },
        |i: int| (i + 1) as i32,
    )
}

/// Relies on rand's SliceRandom::shuffle with rand::thread_rng: it permutes
/// the slice in place, so whatever order comes back, the result holds
/// exactly the same values.
#[verifier::external_body]
fn shuffle(v: Vec<i32>) -> (r: Vec<i32>)
    ensures
        r@.len() == v@.len(),
        r@.to_multiset() == v@.to_multiset(),
{
    let mut v = v;
    rand::prelude::SliceRandom::shuffle(v.as_mut_slice(), &mut rand::thread_rng());
    v
}

/// A source of random indexes `1..=count`: one shuffled list at a time, one
/// draw per call, a fresh shuffle after `RANDOM_INDEX_SIZE` draws.
pub struct RandomIndex {
    count: i32,
    list: Vec<i32>,
    local_index: usize,
    __initialized: bool,
}

impl RandomIndex {
    /// How many indexes are drawn from.
    pub closed spec fn spec_count(self) -> i32 {
        self.count
    }

    /// The current shuffled list.
    pub closed spec fn spec_list(self) -> Seq<i32> {
        self.list@
    }

    /// The position of the current draw within the list.
    pub closed spec fn spec_local_index(self) -> usize {
        self.local_index
    }

    /// Whether the source was marked initialised.
    pub closed spec fn spec_initialized(self) -> bool {
        self.__initialized
    }

    /// The count stays below the largest value, so a fresh list can always
    /// be generated.
    pub open spec fn wf(self) -> bool {
        self.spec_count() < i32::MAX
    }

    /// An empty source; `init` gives it its count and its first list.
    pub fn new() -> (r: RandomIndex)
        ensures
            r.wf(),
            r.spec_count() == 0,
            r.spec_list() == Seq::<i32>::empty(),
            r.spec_local_index() == 0,
            !r.spec_initialized(),
    {
        let r = RandomIndex { count: 0, list: Vec::new(), local_index: 0, __initialized: false };
        proof {
            assert(r.spec_list() =~= Seq::<i32>::empty());
        }
        r
    }

    /// Gives an unmarked source its count and a first shuffled list of the
    /// indexes `1..=count`; a source marked initialised is left unchanged.
    pub fn init(&mut self, count: i32)
        requires
            old(self).wf(),
            count < i32::MAX,
        ensures
            final(self).wf(),
            final(self).spec_local_index() == old(self).spec_local_index(),
            final(self).spec_initialized() == old(self).spec_initialized(),
            !old(self).spec_initialized() ==> final(self).spec_count() == count && final(self).spec_list().len() == spec_range_list(count).len() && final(self).spec_list().to_multiset() == spec_range_list(count).to_multiset(),
            old(self).spec_initialized() ==> *final(self) == *old(self),
    {
        if !self.__initialized {
            let list = Self::generate_list(count);
            self.count = count;
            self.list = list;
        }
    }

    /// Draws the next index: after `RANDOM_INDEX_SIZE` draws the list is
    /// regenerated and the position stays put, otherwise the position moves
    /// one ahead.  `None` when the position has run past the list.
    pub fn get(&mut self) -> (r: Option<&i32>)
        requires
            old(self).wf(),
        ensures
            final(self).wf(),
            final(self).spec_count() == old(self).spec_count(),
            final(self).spec_initialized() == old(self).spec_initialized(),
            old(self).spec_local_index() >= RANDOM_INDEX_SIZE ==> final(self).spec_local_index()
                == old(self).spec_local_index() && final(self).spec_list().len()
                == spec_range_list(old(self).spec_count()).len() && final(self).spec_list().to_multiset() == spec_range_list(old(self).spec_count()).to_multiset(),
            old(self).spec_local_index() < RANDOM_INDEX_SIZE ==> final(self).spec_local_index()
                == old(self).spec_local_index() + 1 && final(self).spec_list() == old(self).spec_list(),
            r is Some <==> final(self).spec_local_index() < final(self).spec_list().len(),
            r is Some ==> *r->0 == final(self).spec_list()[final(self).spec_local_index() as int],
    {
        if self.local_index >= RANDOM_INDEX_SIZE {
            self.list = Self::generate_list(self.count);
            self.local_index = self.local_index + 0;
        } else {
            self.local_index = self.local_index + 1;
        }
        if self.local_index < self.list.len() {
            Some(&self.list[self.local_index])
        } else {
            None
        }
    }

    /// Replaces the count alone; the list is only regenerated by the next
    /// overrunning draw.
    pub fn _update_count(&mut self, new_count: i32)
        requires
            new_count < i32::MAX,
        ensures
            final(self).wf(),
            final(self).spec_count() == new_count,
            final(self).spec_list() == old(self).spec_list(),
            final(self).spec_local_index() == old(self).spec_local_index(),
            final(self).spec_initialized() == old(self).spec_initialized(),
    {
        self.count = new_count;
    }

    /// Regenerates the shuffled list at once.
    pub fn _force_shuffle(&mut self)
        requires
            old(self).wf(),
        ensures
            final(self).wf(),
            final(self).spec_count() == old(self).spec_count(),
            final(self).spec_local_index() == old(self).spec_local_index(),
            final(self).spec_initialized() == old(self).spec_initialized(),
            final(self).spec_list().len() == spec_range_list(old(self).spec_count()).len(),
            final(self).spec_list().to_multiset() == spec_range_list(
                old(self).spec_count(),
            ).to_multiset(),
    {
        self.list = Self::generate_list(self.count);
    }

    /// A shuffled permutation of the indexes `1..=count`.
    fn generate_list(count: i32) -> (r: Vec<i32>)
        requires
            count < i32::MAX,
        ensures
            r@.len() == spec_range_list(count).len(),
            r@.to_multiset() == spec_range_list(count).to_multiset(),
    {
        let mut numbers: Vec<i32> = Vec::new();
        if count >= 1 {
            let mut i: i32 = 1;
            proof {
                assert(numbers@ =~= spec_range_list(count).take(0));
            }
            while i <= count
                invariant
                    count < i32::MAX,
                    1 <= i <= count + 1,
                    numbers@ == spec_range_list(count).take(i - 1),
                decreases count + 1 - i,
            {
                numbers.push(i);
                proof {
                    assert(spec_range_list(count).take(i - 1).push(i) =~= spec_range_list(count).take(
                        i as int,
                    ));
                }
                i = i + 1;
            }
            proof {
                assert(spec_range_list(count).take(count as int) =~= spec_range_list(count));
            }
        } else {
            proof {
                assert(numbers@ =~= spec_range_list(count));
            }
        }
        shuffle(numbers)
    }
}

} // verus!
