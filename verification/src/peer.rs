//! Peer identifiers and their allocation.

use vstd::prelude::*;

verus! {

/// The identifier of one connection. It is chosen when the connection is
/// accepted and stays the same for as long as the connection lives.
#[derive(Clone, Copy, Debug, PartialEq, Eq, Structural, Hash)]
pub struct PeerId(pub u64);

/// Hands out identifiers in increasing order, each one once.
pub struct PeerIdAllocator {
    next: u64,
}

impl PeerIdAllocator {
    /// How many identifiers have been handed out so far.
    pub closed spec fn count(&self) -> nat {
        self.next as nat
    }

    /// The identifiers handed out so far.
    pub open spec fn issued(&self) -> Set<PeerId> {
        Set::new(|p: PeerId| (p.0 as nat) < self.count())
    }

    /// An allocator that has handed out nothing yet.
    pub fn new() -> (fresh: Self)
        ensures
            fresh.count() == 0,
    {
        PeerIdAllocator { next: 0 }
    }

    /// An allocator that counts the identifiers below `first` as handed out
    /// and goes on from there.
    pub fn starting_at(first: u64) -> (allocator: Self)
        ensures
            allocator.count() == first,
    {
        PeerIdAllocator { next: first }
    }

    /// The next identifier, or `None` when the numbers have run out, which
    /// they have when only the largest is left. An identifier that comes
    /// out was never handed out before.
    pub fn allocate(&mut self) -> (id: Option<PeerId>)
        ensures
            old(self).count() < u64::MAX ==> id == Some(PeerId(old(self).count() as u64))
                && final(self).count() == old(self).count() + 1,
            old(self).count() >= u64::MAX ==> id is None && final(self).count() == old(
                self,
            ).count(),
            id matches Some(p) ==> !old(self).issued().contains(p) && final(self).issued()
                == old(self).issued().insert(p),
    {
        if self.next < u64::MAX {
            let id = PeerId(self.next);
            self.next = self.next + 1;
            assert(self.issued() =~= old(self).issued().insert(id));
            Some(id)
        } else {
            None
        }
    }
}

} // verus!
