//! First-in first-out queue of events between the compositor and its users.

use vstd::prelude::*;
use std::collections::VecDeque;

verus! {

/// Event queue: `send` appends, `read` takes the oldest event. It has a single
/// owner: senders and readers in different places share it behind their own
/// lock.
pub struct SyncEventQueue<DataType> {
    queue: VecDeque<DataType>,
}

impl<DataType> SyncEventQueue<DataType> {
    /// The pending events, oldest first.
    pub closed spec fn pending(&self) -> Seq<DataType> {
        self.queue@
    }

    pub fn new() -> (q: Self)
        ensures
            q.pending() == Seq::<DataType>::empty(),
    {
        SyncEventQueue { queue: VecDeque::new() }
    }

    pub fn send(&mut self, message: DataType)
        ensures
            final(self).pending() == old(self).pending().push(message),
    {
        self.queue.push_back(message);
    }

    pub fn read(&mut self) -> (r: Option<DataType>)
        ensures
            old(self).pending().len() == 0 ==> r is None && final(self).pending() == old(self).pending(),
            old(self).pending().len() > 0 ==> r == Some(old(self).pending()[0])
                && final(self).pending() == old(self).pending().drop_first(),
    {
        self.queue.pop_front()
    }
}

/// Events are read back in the order they were sent: sending `a` then `b` to an
/// empty queue and reading twice gives `a` and then `b`.
pub proof fn law_fifo<DataType>(a: DataType, b: DataType)
    ensures
        ({
            let q = Seq::<DataType>::empty().push(a).push(b);
            &&& q[0] == a
            &&& q.drop_first()[0] == b
            &&& q.drop_first().drop_first().len() == 0
        }),
{
}

/// Reading never reorders: what remains after a read is the rest of what was
/// pending, and sending appends behind everything already pending.
pub proof fn law_send_read_commute<DataType>(pending: Seq<DataType>, m: DataType)
    requires
        pending.len() > 0,
    ensures
        pending.push(m)[0] == pending[0],
        pending.push(m).drop_first() == pending.drop_first().push(m),
{
    assert(pending.push(m).drop_first() =~= pending.drop_first().push(m));
}

} // verus!
