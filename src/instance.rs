//! Which engine instance belongs to which thread.
//!
//! An engine instance may only be used on the thread that made it, and each thread has
//! at most one. Instances are numbered in the order in which they are made.
use vstd::prelude::*;

verus! {

/// The owning thread of each engine instance: instance `i` belongs to thread `threads[i]`.
pub struct InstanceRegistry {
    threads: Vec<u64>,
}

impl View for InstanceRegistry {
    type V = Seq<u64>;

    closed spec fn view(&self) -> Seq<u64> {
        self.threads@
    }
}

/// Whether a request for the instance of `thread` turns the owners `before` into `after`
/// and answers `r`: the instance the thread already has, unchanged; else a new instance,
/// numbered next, that the thread now owns.
pub open spec fn serves_request(before: Seq<u64>, thread: u64, after: Seq<u64>, r: nat) -> bool {
    if before.contains(thread) {
        after == before && r < before.len() && before[r as int] == thread
    } else {
        after == before.push(thread) && r == before.len()
    }
}

impl InstanceRegistry {
    /// Each thread owns at most one instance.
    pub open spec fn wf(&self) -> bool {
        self@.no_duplicates()
    }

    /// A registry in which no thread has an instance yet.
    pub fn new() -> (r: Self)
        ensures
            r.wf(),
            r@ == Seq::<u64>::empty(),
    {
        InstanceRegistry { threads: Vec::new() }
    }

    /// The number of instances made so far.
    pub fn len(&self) -> (r: usize)
        ensures
            r == self@.len(),
    {
        self.threads.len()
    }

    /// The instance of `thread`, made on its first request and the same one on every
    /// later request.
    pub fn get_or_create_instance(&mut self, thread: u64) -> (r: u64)
        requires
            old(self).wf(),
        ensures
            final(self).wf(),
            serves_request(old(self)@, thread, final(self)@, r as nat),
    {
        let mut i: usize = 0;
        while i < self.threads.len()
            invariant
                self@ == old(self)@,
                old(self).wf(),
                i <= self.threads.len(),
                forall|j: int| 0 <= j < i ==> self.threads@[j] != thread,
            decreases self.threads.len() - i,
        {
            if self.threads[i] == thread {
                return i as u64;
            }
            i = i + 1;
        }
        let r = self.threads.len() as u64;
        self.threads.push(thread);
        proof {
            assert(!old(self)@.contains(thread));
            assert forall|a: int, b: int|
                0 <= a < b < self@.len() implies self@[a] != self@[b] by {
                if b == old(self)@.len() {
                    assert(old(self)@[a] == self@[a]);
                }
            }
        }
        r
    }

    /// Whether `instance` exists and belongs to `thread`.
    pub fn is_owned_by(&self, instance: u64, thread: u64) -> (r: bool)
        ensures
            r == (instance < self@.len() && self@[instance as int] == thread),
    {
        if instance >= self.threads.len() as u64 {
            return false;
        }
        self.threads[instance as usize] == thread
    }
}

/// A second request for the instance of a thread answers the same instance as the first,
/// and makes none.
pub proof fn lemma_second_request_same_instance(
    s0: Seq<u64>,
    s1: Seq<u64>,
    s2: Seq<u64>,
    thread: u64,
    r1: nat,
    r2: nat,
)
    requires
        s0.no_duplicates(),
        serves_request(s0, thread, s1, r1),
        serves_request(s1, thread, s2, r2),
    ensures
        r2 == r1,
        s2 == s1,
{
    assert(s1[r1 as int] == thread);
    assert(s1.contains(thread));
    if !s0.contains(thread) {
        assert forall|a: int, b: int| 0 <= a < b < s1.len() implies s1[a] != s1[b] by {
            if b == s0.len() {
                assert(s0[a] == s1[a]);
            }
        }
    }
}

} // verus!
