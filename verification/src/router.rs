//! The result router: the ordered channel that funnels every asynchronous
//! job event of one connection to its single writer.
//!
//! Events are taken in exactly the order they were sent, so the events of
//! one job are delivered in their emission order however the sends of
//! concurrent jobs interleave, and no two jobs' writes can mix.

use crate::pipeline::JobEvent;
use vstd::prelude::*;

verus! {

/// One event tagged with the job it belongs to.
pub struct RoutedEvent {
    /// Id of the job that emitted the event.
    pub job_id: Vec<u8>,
    /// The event itself.
    pub event: JobEvent,
}

/// The single-consumer ordered channel of one connection.
pub struct Router {
    /// The events sent and not yet taken, oldest first.
    pub queue: Vec<RoutedEvent>,
    /// Every event ever sent, in send order.
    pub history: Ghost<Seq<RoutedEvent>>,
    /// How many events have been taken.
    pub taken: Ghost<int>,
}

/// The events of the job `id` among `s`, in order.
pub open spec fn events_for(s: Seq<RoutedEvent>, id: Seq<u8>) -> Seq<JobEvent>
    decreases s.len(),
{
    if s.len() == 0 {
        Seq::empty()
    } else {
        let rest = events_for(s.drop_last(), id);
        if s.last().job_id@ == id {
            rest.push(s.last().event)
        } else {
            rest
        }
    }
}

/// A job's events in a concatenation are its events in the first part
/// followed by its events in the second: however sends interleave, each
/// job's own order is preserved.
pub proof fn lemma_events_for_append(a: Seq<RoutedEvent>, b: Seq<RoutedEvent>, id: Seq<u8>)
    ensures
        events_for(a + b, id) == events_for(a, id) + events_for(b, id),
    decreases b.len(),
{
    if b.len() == 0 {
        assert(a + b =~= a);
        assert(events_for(a, id) + events_for(b, id) =~= events_for(a, id));
    } else {
        lemma_events_for_append(a, b.drop_last(), id);
        assert((a + b).drop_last() =~= a + b.drop_last());
        assert((a + b).last() == b.last());
        if b.last().job_id@ == id {
            assert(events_for(a, id) + events_for(b, id) =~= (events_for(a, id) + events_for(
                b.drop_last(),
                id,
            )).push(b.last().event));
        }
    }
}

impl Router {
    /// What was sent, in order.
    pub open spec fn sent(self) -> Seq<RoutedEvent> {
        self.history@
    }

    /// The queue holds exactly what was sent and not yet taken, in order.
    pub open spec fn wf(self) -> bool {
        &&& 0 <= self.taken@ <= self.sent().len()
        &&& self.queue@ == self.sent().subrange(self.taken@, self.sent().len() as int)
    }

    /// An empty router.
    pub fn new() -> (r: Router)
        ensures
            r.wf(),
            r.sent().len() == 0,
            r.taken@ == 0,
    {
        let r = Router { queue: Vec::new(), history: Ghost(Seq::empty()), taken: Ghost(0) };
        proof {
            assert(r.queue@ =~= r.sent().subrange(0, 0));
        }
        r
    }

    /// Send one event: it joins the back of the queue.
    pub fn send(&mut self, ev: RoutedEvent)
        requires
            old(self).wf(),
        ensures
            final(self).wf(),
            final(self).sent() == old(self).sent().push(ev),
            final(self).taken@ == old(self).taken@,
    {
        self.queue.push(ev);
        proof {
            self.history@ = self.history@.push(self.queue@.last());
            assert(self.queue@ =~= self.sent().subrange(self.taken@, self.sent().len() as int));
        }
    }

    /// Take the oldest event not yet taken, if any.  Events come out in
    /// exactly the order they were sent.
    pub fn next(&mut self) -> (ev: Option<RoutedEvent>)
        requires
            old(self).wf(),
        ensures
            final(self).wf(),
            final(self).sent() == old(self).sent(),
            old(self).taken@ == old(self).sent().len() ==> (ev is None && final(self).taken@
                == old(self).taken@),
            old(self).taken@ < old(self).sent().len() ==> (final(self).taken@ == old(self).taken@
                + 1 && (ev matches Some(e) && e == old(self).sent()[old(self).taken@])),
    {
        if self.queue.len() == 0 {
            None
        } else {
            let e = self.queue.remove(0);
            proof {
                self.taken@ = self.taken@ + 1;
                assert(self.queue@ =~= self.sent().subrange(
                    self.taken@,
                    self.sent().len() as int,
                ));
            }
            Some(e)
        }
    }

    /// How many events wait in the queue.
    pub fn pending(&self) -> (n: usize)
        requires
            self.wf(),
        ensures
            n == self.sent().len() - self.taken@,
    {
        self.queue.len()
    }
}

} // verus!
