//! The bounded-concurrency fetch, as a state machine. The store of ids
//! still to launch, ids in flight and collected outcomes lives here,
//! fully verified; an outside driver performs the actual transfers and
//! feeds each settled outcome back in. No more than `window` fetches
//! are ever in flight, however many ids were requested; a failed fetch
//! settles without a result and is simply absent from the output.

use vstd::prelude::*;
use crate::constants::PARALLEL_REQUESTS;

verus! {

/// The in-flight id list with its first occurrence of `id` taken out.
pub open spec fn without_first(s: Seq<u32>, id: u32) -> Seq<u32>
    decreases s.len(),
{
    if s.len() == 0 {
        s
    } else if s.first() == id {
        s.drop_first()
    } else {
        seq![s.first()] + without_first(s.drop_first(), id)
    }
}

/// Removing the element at the index of the first occurrence is the
/// same as `without_first`.
proof fn lemma_remove_first_occurrence(s: Seq<u32>, id: u32, i: int)
    requires
        0 <= i < s.len(),
        s[i] == id,
        forall|j: int| 0 <= j < i ==> s[j] != id,
    ensures
        without_first(s, id) == s.remove(i),
    decreases i,
{
    if i == 0 {
        assert(s.first() == id);
        assert(s.drop_first() =~= s.remove(0));
    } else {
        assert(s.first() != id);
        lemma_remove_first_occurrence(s.drop_first(), id, i - 1);
        assert(s.drop_first().remove(i - 1) =~= s.remove(i).drop_first());
        assert(seq![s.first()] + s.drop_first().remove(i - 1) =~= s.remove(i));
    }
}

/// One bounded fetch of many ids in progress. `pending` ids wait for a
/// free slot, `outstanding` ids are in flight, and each success lands
/// in `results` in completion order.
pub struct Dispatcher<T> {
    pending: Vec<u32>,
    outstanding: Vec<u32>,
    window: usize,
    results: Vec<T>,
    dropped: Vec<u32>,
}

impl<T> Dispatcher<T> {
    /// Ids not yet handed to the driver, in request order.
    pub closed spec fn spec_pending(self) -> Seq<u32> {
        self.pending@
    }

    /// Ids handed to the driver and not yet settled.
    pub closed spec fn spec_outstanding(self) -> Seq<u32> {
        self.outstanding@
    }

    /// The concurrency window.
    pub closed spec fn spec_window(self) -> int {
        self.window as int
    }

    /// The successful outcomes collected so far, in completion order.
    pub closed spec fn spec_results(self) -> Seq<T> {
        self.results@
    }

    /// The ids whose fetches settled without a result, in completion
    /// order, so a consumer can show a degraded-load indicator.
    pub closed spec fn spec_dropped(self) -> Seq<u32> {
        self.dropped@
    }

    /// At most `window` fetches are in flight, and the window is positive.
    pub open spec fn wf(self) -> bool {
        &&& self.spec_outstanding().len() <= self.spec_window()
        &&& self.spec_window() >= 1
    }

    /// A fetch of `ids` with a window of `window` slots; nothing is in
    /// flight yet and nothing has been collected.
    pub fn new(ids: Vec<u32>, window: usize) -> (d: Dispatcher<T>)
        requires
            window >= 1,
        ensures
            d.wf(),
            d.spec_pending() == ids@,
            d.spec_outstanding() == Seq::<u32>::empty(),
            d.spec_results() == Seq::<T>::empty(),
            d.spec_dropped() == Seq::<u32>::empty(),
            d.spec_window() == window,
    {
        Dispatcher {
            pending: ids,
            outstanding: Vec::new(),
            window,
            results: Vec::new(),
            dropped: Vec::new(),
        }
    }

    /// A fetch of `ids` with the standing window.
    pub fn with_default_window(ids: Vec<u32>) -> (d: Dispatcher<T>)
        ensures
            d.wf(),
            d.spec_pending() == ids@,
            d.spec_outstanding() == Seq::<u32>::empty(),
            d.spec_results() == Seq::<T>::empty(),
            d.spec_dropped() == Seq::<u32>::empty(),
            d.spec_window() == PARALLEL_REQUESTS,
    {
        Dispatcher::new(ids, PARALLEL_REQUESTS)
    }

    /// Whether a fetch may be launched now: an id is waiting and a slot
    /// is free.
    pub fn can_launch(&self) -> (r: bool)
        ensures
            r == (self.spec_pending().len() > 0 && self.spec_outstanding().len()
                < self.spec_window()),
    {
        self.pending.len() > 0 && self.outstanding.len() < self.window
    }

    /// Hand the next pending id to the driver, filling one slot. The
    /// window bound still holds afterwards.
    pub fn launch(&mut self) -> (id: u32)
        requires
            old(self).wf(),
            old(self).spec_pending().len() > 0,
            old(self).spec_outstanding().len() < old(self).spec_window(),
        ensures
            final(self).wf(),
            id == old(self).spec_pending().first(),
            final(self).spec_pending() == old(self).spec_pending().drop_first(),
            final(self).spec_outstanding() == old(self).spec_outstanding().push(id),
            final(self).spec_results() == old(self).spec_results(),
            final(self).spec_dropped() == old(self).spec_dropped(),
            final(self).spec_window() == old(self).spec_window(),
    {
        let id = self.pending.remove(0);
        self.outstanding.push(id);
        proof {
            assert(old(self).pending@.remove(0) =~= old(self).pending@.drop_first());
        }
        id
    }

    /// Record the driver's outcome for an in-flight id, freeing its
    /// slot. A success is appended to the results; a failure leaves no
    /// trace there and raises no error.
    pub fn settle(&mut self, id: u32, outcome: Option<T>)
        requires
            old(self).wf(),
            old(self).spec_outstanding().contains(id),
        ensures
            final(self).wf(),
            final(self).spec_outstanding() == without_first(old(self).spec_outstanding(), id),
            final(self).spec_outstanding().len() == old(self).spec_outstanding().len() - 1,
            final(self).spec_pending() == old(self).spec_pending(),
            final(self).spec_window() == old(self).spec_window(),
            match outcome {
                Some(v) => final(self).spec_results() == old(self).spec_results().push(v)
                    && final(self).spec_dropped() == old(self).spec_dropped(),
                None => final(self).spec_results() == old(self).spec_results()
                    && final(self).spec_dropped() == old(self).spec_dropped().push(id),
            },
    {
        let mut i: usize = 0;
        while i < self.outstanding.len()
            invariant
                0 <= i <= self.outstanding@.len(),
                forall|j: int| 0 <= j < i ==> self.outstanding@[j] != id,
                self == old(self),
                old(self).wf(),
                old(self).spec_outstanding().contains(id),
            decreases self.outstanding@.len() - i,
        {
            if self.outstanding[i] == id {
                proof {
                    lemma_remove_first_occurrence(self.outstanding@, id, i as int);
                }
                self.outstanding.remove(i);
                match outcome {
                    Some(v) => self.results.push(v),
                    None => self.dropped.push(id),
                }
                proof {
                    assert(self.window == old(self).window);
                    assert(self.outstanding@.len() == old(self).outstanding@.len() - 1);
                    assert(self.outstanding@.len() <= self.window);
                }
                return ;
            }
            i = i + 1;
        }
        proof {
            let w = choose|w: int|
                0 <= w < old(self).outstanding@.len() && old(self).outstanding@[w] == id;
            assert(old(self).outstanding@[w] != id);  // contradicts the requires
        }
    }

    /// Whether the id is in flight right now.
    pub fn is_outstanding(&self, id: &u32) -> (r: bool)
        ensures
            r == self.spec_outstanding().contains(*id),
    {
        let mut i: usize = 0;
        while i < self.outstanding.len()
            invariant
                0 <= i <= self.outstanding@.len(),
                forall|j: int| 0 <= j < i ==> self.outstanding@[j] != *id,
            decreases self.outstanding@.len() - i,
        {
            if self.outstanding[i] == *id {
                return true;
            }
            i = i + 1;
        }
        false
    }

    /// How many fetches are in flight.
    pub fn in_flight(&self) -> (r: usize)
        ensures
            r == self.spec_outstanding().len(),
    {
        self.outstanding.len()
    }

    /// Whether every requested id has been launched and settled.
    pub fn is_done(&self) -> (r: bool)
        ensures
            r == (self.spec_pending().len() == 0 && self.spec_outstanding().len() == 0),
    {
        self.pending.len() == 0 && self.outstanding.len() == 0
    }

    /// Give up the collected successes, in completion order.
    pub fn into_results(self) -> (r: Vec<T>)
        ensures
            r@ == self.spec_results(),
    {
        self.results
    }

    /// The ids dropped so far: settled, but without a result.
    pub fn dropped_ids(&self) -> (r: &[u32])
        ensures
            r@ == self.spec_dropped(),
    {
        self.dropped.as_slice()
    }
}

/// Law: a well-formed dispatcher never has more fetches in flight than
/// its window allows; every operation above keeps it well-formed, so
/// the bound holds through any launch/settle schedule.
pub proof fn lemma_bounded_concurrency<T>(d: Dispatcher<T>)
    requires
        d.wf(),
    ensures
        d.spec_outstanding().len() <= d.spec_window(),
{
}

} // verus!
