//! The ordered, single-consumer update channel that carries network and
//! ledger events into the engine.

use vstd::prelude::*;

use crate::types::Update;

verus! {

/// An ordered, single-consumer source of updates.  The essential contract is
/// FIFO order: `next_update` hands out exactly the pending updates, oldest
/// first, and reports exhaustion only when none are left.
pub trait UpdateSource: Sized {
    /// The updates still to be delivered, oldest first.
    spec fn pending(&self) -> Seq<Update>;

    /// Removes and returns the oldest pending update, or `None` once the
    /// source is exhausted.
    fn next_update(&mut self) -> (r: Option<Update>)
        ensures
            match r {
                Some(u) => {
                    &&& old(self).pending().len() > 0
                    &&& u == old(self).pending()[0]
                    &&& final(self).pending() == old(self).pending().drop_first()
                },
                None => {
                    &&& old(self).pending().len() == 0
                    &&& final(self).pending().len() == 0
                },
            },
    ;
}

/// The update channel itself: an unbounded FIFO queue of updates.  The host
/// enqueues on one end with `send`; the engine drains the other end through
/// the `UpdateSource` it implements.  Capacity is unbounded from the
/// producer's perspective, so `send` never blocks or fails.
pub struct UpdateChannel {
    updates: Vec<Update>,
}

impl UpdateChannel {
    /// A channel with nothing pending.
    pub fn new() -> (r: Self)
        ensures
            r.pending() == Seq::<Update>::empty(),
    {
        let r = UpdateChannel { updates: Vec::new() };
        proof {
            assert(r.pending() =~= Seq::<Update>::empty());
        }
        r
    }

    /// Enqueues one update at the back, after everything already pending.
    pub fn send(&mut self, update: Update)
        ensures
            final(self).pending() == old(self).pending().push(update),
    {
        self.updates.push(update);
    }
}

impl UpdateSource for UpdateChannel {
    closed spec fn pending(&self) -> Seq<Update> {
        self.updates@
    }

    fn next_update(&mut self) -> (r: Option<Update>) {
        if self.updates.len() == 0 {
            None
        } else {
            let u = self.updates.remove(0);
            proof {
                assert(self.updates@ =~= old(self).updates@.drop_first());
            }
            Some(u)
        }
    }
}

} // verus!
