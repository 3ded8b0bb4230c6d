use vstd::prelude::*;

verus! {

/// A channel of depth one: a send replaces whatever was buffered and not yet
/// taken, so the sender never waits on a slow receiver and the receiver
/// always gets the latest value.
#[derive(Debug)]
pub struct OverwriteChannel<T> {
    pub pending: Option<T>,
}

impl<T> OverwriteChannel<T> {
    /// An empty channel.
    pub fn new() -> (r: OverwriteChannel<T>)
        ensures
            r.pending is None,
    {
        OverwriteChannel { pending: None }
    }

    /// Buffers `t`, and returns the value it replaced, which is dropped
    /// undelivered.
    pub fn send(&mut self, t: T) -> (r: Option<T>)
        ensures
            final(self).pending == Some(t),
            r == old(self).pending,
    {
        let replaced = self.pending.take();
        self.pending = Some(t);
        replaced
    }

    /// Takes the buffered value, if any, for delivery.
    pub fn take(&mut self) -> (r: Option<T>)
        ensures
            final(self).pending is None,
            r == old(self).pending,
    {
        self.pending.take()
    }

    /// Whether a value waits for delivery.
    pub fn is_pending(&self) -> (r: bool)
        ensures
            r == self.pending is Some,
    {
        self.pending.is_some()
    }
}

} // verus!
