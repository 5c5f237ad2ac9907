//! The control queue from the interface thread to the audio callback.

use vstd::prelude::*;

verus! {

/// The update that survives a full drain of a queue: the most recently sent
/// value, or nothing when the queue was empty.
pub open spec fn last_message<T>(s: Seq<T>) -> Option<T> {
    if s.len() == 0 {
        None
    } else {
        Some(s.last())
    }
}

/// A single-producer/single-consumer queue for one control kind (playback
/// position, a loop bound, pitch).
///
/// The producer only pushes; the consumer only pops, without blocking, and
/// drains the queue to exhaustion on every audio callback, so of the values
/// pending at a callback boundary only the most recent one has a lasting
/// effect. Each control kind gets a queue of its own, so that draining one
/// never stalls on another.
pub struct ControlChannel<T> {
    pending: Vec<T>,
}

impl<T> View for ControlChannel<T> {
    type V = Seq<T>;

    closed spec fn view(&self) -> Seq<T> {
        self.pending@
    }
}

impl<T: Copy> ControlChannel<T> {
    /// An empty queue.
    pub fn new() -> (c: ControlChannel<T>)
        ensures
            c@ == Seq::<T>::empty(),
    {
        ControlChannel { pending: Vec::new() }
    }

    /// Enqueues one control value; never blocks and never fails.
    pub fn send(&mut self, value: T)
        ensures
            final(self)@ == old(self)@.push(value),
    {
        self.pending.push(value);
    }

    /// Removes and returns the oldest pending value, or nothing when the
    /// queue is empty; never blocks.
    pub fn try_receive(&mut self) -> (r: Option<T>)
        ensures
            old(self)@.len() == 0 ==> r is None && final(self)@ == old(self)@,
            old(self)@.len() > 0 ==> r == Some(old(self)@[0]) && final(self)@ == old(self)@.skip(1),
    {
        if self.pending.len() == 0 {
            None
        } else {
            Some(self.pending.remove(0))
        }
    }

    /// Drains the queue to exhaustion and hands back the value that wins:
    /// the most recently sent one, or nothing when no update was pending.
    pub fn recv_last(&mut self) -> (r: Option<T>)
        ensures
            final(self)@ == Seq::<T>::empty(),
            r == last_message(old(self)@),
    {
        let ghost orig: Seq<T> = self@;
        let mut result: Option<T> = None;
        let mut done = false;
        while !done
            invariant
                done ==> self@.len() == 0,
                self@.len() > 0 ==> self@.last() == orig.last() && orig.len() > 0,
                self@.len() == 0 ==> result == last_message(orig),
            decreases self@.len() + (if done { 0int } else { 1int }),
        {
            match self.try_receive() {
                Some(value) => {
                    result = Some(value);
                }
                None => {
                    done = true;
                }
            }
        }
        result
    }
}

/// Law: sending the same value twice leaves the same winning update as
/// sending it once; a repeated send has no cumulative effect.
pub proof fn lemma_resend_is_idempotent<T>(s: Seq<T>, value: T)
    ensures
        last_message(s.push(value).push(value)) == last_message(s.push(value)),
{
}

} // verus!
