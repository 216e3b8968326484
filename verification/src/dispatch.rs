use vstd::prelude::*;

verus! {

/// One message owed to a subscriber channel.
pub struct OutboundMessage {
    pub chat: i64,
    pub text: String,
}

impl OutboundMessage {
    pub open spec fn view(self) -> (i64, Seq<char>) {
        (self.chat, self.text@)
    }
}

/// The send queue of the dispatcher. A message is pending while queued, in
/// flight once taken, sent once its delivery is reported accepted, and
/// pending again — requeued at the back — when its delivery is reported
/// failed. There is no retry bound: a failing message circulates until it is
/// accepted.
pub struct Dispatcher {
    queue: Vec<OutboundMessage>,
}

impl Dispatcher {
    /// The pending messages, in queue order.
    pub closed spec fn view(&self) -> Seq<(i64, Seq<char>)> {
        self.queue@.map_values(|m: OutboundMessage| m@)
    }

    /// An empty send queue.
    pub fn new() -> (r: Dispatcher)
        ensures
            r@ == Seq::<(i64, Seq<char>)>::empty(),
    {
        let r = Dispatcher { queue: Vec::new() };
        proof {
            assert(r@ =~= Seq::<(i64, Seq<char>)>::empty());
        }
        r
    }

    /// How many messages are pending.
    pub fn len(&self) -> (n: usize)
        ensures
            n == self@.len(),
    {
        self.queue.len()
    }

    /// Appends a newly produced message at the back of the queue.
    pub fn enqueue(&mut self, message: OutboundMessage)
        ensures
            final(self)@ == old(self)@.push(message@),
    {
        let ghost before = self@;
        self.queue.push(message);
        proof {
            assert(self@ =~= before.push(message@));
        }
    }

    /// Takes the frontmost pending message, now in flight; nothing when the
    /// queue is empty.
    pub fn take_next(&mut self) -> (m: Option<OutboundMessage>)
        ensures
            old(self)@.len() == 0 ==> m is None && final(self)@ == old(self)@,
            old(self)@.len() > 0 ==> (m matches Some(taken) && taken@ == old(self)@[0]
                && final(self)@ == old(self)@.drop_first()),
    {
        if self.queue.len() == 0 {
            Option::None
        } else {
            let ghost before = self@;
            let taken = self.queue.remove(0);
            proof {
                assert(self@ =~= before.drop_first());
            }
            Option::Some(taken)
        }
    }

    /// Puts a message whose delivery failed back at the end of the queue, to
    /// be retried on a later cycle.
    pub fn requeue(&mut self, message: OutboundMessage)
        ensures
            final(self)@ == old(self)@.push(message@),
    {
        self.enqueue(message);
    }
}

/// How often `m` occurs among the pending messages `q`.
pub open spec fn occurrences(q: Seq<(i64, Seq<char>)>, m: (i64, Seq<char>)) -> nat
    decreases q.len(),
{
    if q.len() == 0 {
        0
    } else {
        occurrences(q.drop_first(), m) + if q[0] == m {
            1nat
        } else {
            0nat
        }
    }
}

/// A queue in which a message does not occur does not contain it.
pub proof fn lemma_no_occurrence_not_pending(q: Seq<(i64, Seq<char>)>, m: (i64, Seq<char>))
    requires
        occurrences(q, m) == 0,
    ensures
        !q.contains(m),
    decreases q.len(),
{
    if q.len() > 0 {
        lemma_no_occurrence_not_pending(q.drop_first(), m);
        if q.contains(m) {
            let i = choose|i: int| 0 <= i < q.len() && q[i] == m;
            if i > 0 {
                assert(q.drop_first()[i - 1] == m);
            }
        }
    }
}

/// A message that fails delivery is retried on a later cycle, and once
/// accepted it is never retried again: with `m` at the front of the queue,
/// taking it and requeuing it (delivery failed) leaves it pending, while
/// taking it and dropping it (delivery accepted) — when it was pending just
/// once — leaves the queue without it.
pub proof fn lemma_failed_is_retried_accepted_is_done(q: Seq<(i64, Seq<char>)>)
    requires
        q.len() > 0,
    ensures
        q.drop_first().push(q[0]).contains(q[0]),
        occurrences(q, q[0]) == 1 ==> !q.drop_first().contains(q[0]),
{
    let requeued = q.drop_first().push(q[0]);
    assert(requeued[requeued.len() - 1] == q[0]);
    if occurrences(q, q[0]) == 1 {
        lemma_no_occurrence_not_pending(q.drop_first(), q[0]);
    }
}

} // verus!
