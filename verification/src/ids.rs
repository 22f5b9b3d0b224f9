//! Stable network identifiers and the counter that hands them out.

use vstd::prelude::*;

verus! {

/// A stable identifier that the server assigns to every networked object.
pub type NetIDType = u128;

/// Hands out identifiers in increasing order, starting at zero. An identifier
/// is never handed out twice, also not after its object is gone.
pub struct IDCounter(pub NetIDType);

impl IDCounter {
    /// The identifier that the next call of `allocate` returns.
    pub open spec fn next_id(&self) -> nat {
        self.0 as nat
    }

    /// The identifiers that the next `count` calls of `allocate` return, in
    /// the order of the calls.
    pub open spec fn upcoming(&self, count: nat) -> Seq<nat> {
        Seq::new(count, |k: int| (self.next_id() + k) as nat)
    }

    /// The counter after `count` more calls of `allocate`.
    pub open spec fn after(&self, count: nat) -> IDCounter {
        IDCounter((self.0 + count) as u128)
    }

    /// A counter that has handed out nothing yet.
    pub fn new() -> (counter: Self)
        ensures
            counter.next_id() == 0,
    {
        IDCounter(0)
    }

    /// Whether another identifier can be handed out: the counter has not
    /// reached the last value of its type.
    pub fn has_next(&self) -> (yes: bool)
        ensures
            yes == (self.next_id() < u128::MAX),
    {
        self.0 < u128::MAX
    }

    /// Hands out the next identifier and moves the counter past it.
    pub fn allocate(&mut self) -> (id: NetIDType)
        requires
            old(self).next_id() < u128::MAX,
        ensures
            id == old(self).next_id(),
            id == old(self).upcoming(1)[0],
            *final(self) == old(self).after(1),
            final(self).next_id() == old(self).next_id() + 1,
    {
        let id: NetIDType = self.0;
        self.0 = self.0 + 1;
        id
    }
}

/// Identifiers handed out one after the other are strictly increasing, hence
/// pairwise distinct: of any two allocations the later one gives the larger
/// identifier. Allocating `first` times and then `more` times is the same as
/// allocating `first + more` times.
pub proof fn lemma_allocations_strictly_increase(counter: IDCounter, first: nat, more: nat)
    requires
        counter.next_id() + first + more <= u128::MAX,
    ensures
        ({
            let ids = counter.upcoming(first + more);
            forall|i: int, j: int| 0 <= i < j < ids.len() ==> #[trigger] ids[i] < #[trigger] ids[j]
        }),
        counter.upcoming(first + more) == counter.upcoming(first) + counter.after(first).upcoming(
            more,
        ),
        counter.after(first).after(more) == counter.after(first + more),
{
    assert(counter.upcoming(first + more) =~= counter.upcoming(first) + counter.after(
        first,
    ).upcoming(more));
}

} // verus!
