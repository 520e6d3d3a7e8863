//! Input events the editor makes up itself (such as "pointer gone" when the
//! window loses focus) and hands to the GUI before the frame's own events.
use vstd::prelude::*;

verus! {

/// Events waiting for the start of the next GUI frame.
pub struct PendingEvents<T> {
    events: Vec<T>,
}

impl<T> View for PendingEvents<T> {
    type V = Seq<T>;

    closed spec fn view(&self) -> Seq<T> {
        self.events@
    }
}

impl<T> PendingEvents<T> {
    /// No event waiting.
    pub fn new() -> (r: Self)
        ensures
            r@.len() == 0,
    {
        PendingEvents { events: Vec::new() }
    }

    /// Queues an event for the next frame.
    pub fn inject_event(&mut self, event: T)
        ensures
            final(self)@ == old(self)@.push(event),
    {
        self.events.push(event);
    }

    /// The events for the next frame: the queued ones first, in the order
    /// they were queued, then the frame's own `input`. The queue is emptied.
    pub fn take_with(&mut self, input: Vec<T>) -> (r: Vec<T>)
        ensures
            r@ == old(self)@ + input@,
            final(self)@.len() == 0,
    {
        let mut out: Vec<T> = Vec::new();
        std::mem::swap(&mut out, &mut self.events);
        let mut rest = input;
        let ghost first = out@;
        let ghost all = rest@;
        assert(all.len() == rest.len());
        let mut i: usize = 0;
        while rest.len() > 0
            invariant
                i <= all.len(),
                rest@ == all.skip(i as int),
                out@ == first + all.take(i as int),
                all.len() == i + rest@.len(),
                all.len() <= usize::MAX,
            decreases rest.len(),
        {
            let e = rest.remove(0);
            assert(all.take(i + 1) =~= all.take(i as int).push(e));
            out.push(e);
            assert(rest@ =~= all.skip(i + 1));
            i = i + 1;
        }
        assert(all.take(i as int) =~= all);
        out
    }
}

} // verus!
