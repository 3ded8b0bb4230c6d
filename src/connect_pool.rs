use vstd::prelude::*;

verus! {

/// Retry decisions of a friend's connect pool: attempts cycle through the
/// most recently configured relays, and each failure doubles the wait
/// before the next attempt, up to a bound.
#[derive(Debug)]
pub struct ConnectPool<B> {
    pub addresses: Vec<B>,
    /// Position of the relay the next attempt goes to.
    pub next_index: usize,
    /// Wait after the next failure, in ticks.
    pub backoff_ticks: u64,
    pub max_backoff_ticks: u64,
    /// Ticks left before the next attempt.
    pub ticks_left: u64,
}

/// The wait after one more failure: doubled, at most `max`.
pub open spec fn next_backoff(backoff: u64, max: u64) -> u64 {
    if backoff >= max / 2 {
        max
    } else {
        (2 * backoff) as u64
    }
}

impl<B> ConnectPool<B> {
    /// The wait is at least one tick and at most the bound, and the next
    /// relay is one of the configured ones.
    pub open spec fn wf(&self) -> bool {
        &&& 1 <= self.backoff_ticks <= self.max_backoff_ticks
        &&& self.ticks_left <= self.max_backoff_ticks
        &&& (self.addresses@.len() == 0 || self.next_index < self.addresses@.len())
    }

    /// A pool with no relays yet; the first wait after a failure is one tick.
    pub fn new(max_backoff_ticks: u64) -> (r: ConnectPool<B>)
        requires
            max_backoff_ticks >= 1,
        ensures
            r.wf(),
            r.addresses@.len() == 0,
            r.backoff_ticks == 1,
            r.max_backoff_ticks == max_backoff_ticks,
            r.ticks_left == 0,
    {
        ConnectPool { addresses: Vec::new(), next_index: 0, backoff_ticks: 1, max_backoff_ticks, ticks_left: 0 }
    }

    /// New relays replace the old ones; the next attempt goes to the first
    /// of them, at once.
    pub fn config(&mut self, addresses: Vec<B>)
        requires
            old(self).wf(),
        ensures
            final(self).wf(),
            final(self).addresses == addresses,
            final(self).next_index == 0,
            final(self).ticks_left == 0,
            final(self).backoff_ticks == old(self).backoff_ticks,
            final(self).max_backoff_ticks == old(self).max_backoff_ticks,
    {
        self.addresses = addresses;
        self.next_index = 0;
        self.ticks_left = 0;
    }

    /// One tick: the wait goes down; once it is over and a relay is known,
    /// returns the position of the relay to try now and moves on to the
    /// next one, cyclically.
    pub fn on_tick(&mut self) -> (r: Option<usize>)
        requires
            old(self).wf(),
        ensures
            final(self).wf(),
            final(self).addresses == old(self).addresses,
            final(self).backoff_ticks == old(self).backoff_ticks,
            final(self).max_backoff_ticks == old(self).max_backoff_ticks,
            old(self).ticks_left > 0 ==> r is None && final(self).ticks_left == old(self).ticks_left - 1
                && final(self).next_index == old(self).next_index,
            old(self).ticks_left == 0 && old(self).addresses@.len() == 0 ==> r is None
                && final(self).ticks_left == 0,
            old(self).ticks_left == 0 && old(self).addresses@.len() > 0 ==> {
                &&& r == Some(old(self).next_index)
                &&& final(self).next_index == (old(self).next_index + 1) % (old(self).addresses@.len() as int)
                &&& final(self).ticks_left == old(self).backoff_ticks
            },
    {
        if self.ticks_left > 0 {
            self.ticks_left = self.ticks_left - 1;
            return None;
        }
        let n = self.addresses.len();
        if n == 0 {
            return None;
        }
        let i = self.next_index;
        self.next_index = if i + 1 == n {
            proof {
                vstd::arithmetic::div_mod::lemma_mod_self_0(n as int);
            }
            0
        } else {
            proof {
                vstd::arithmetic::div_mod::lemma_small_mod((i + 1) as nat, n as nat);
            }
            i + 1
        };
        // An attempt is in flight: wait for its outcome before the next.
        self.ticks_left = self.backoff_ticks;
        Some(i)
    }

    /// The attempt failed: the wait doubles, up to the bound, and the next
    /// attempt comes after it.
    pub fn attempt_failed(&mut self)
        requires
            old(self).wf(),
        ensures
            final(self).wf(),
            final(self).addresses == old(self).addresses,
            final(self).next_index == old(self).next_index,
            final(self).backoff_ticks == next_backoff(old(self).backoff_ticks, old(self).max_backoff_ticks),
            final(self).ticks_left == old(self).backoff_ticks,
            final(self).max_backoff_ticks == old(self).max_backoff_ticks,
    {
        self.ticks_left = self.backoff_ticks;
        self.backoff_ticks = if self.backoff_ticks >= self.max_backoff_ticks / 2 {
            self.max_backoff_ticks
        } else {
            2 * self.backoff_ticks
        };
    }

    /// The attempt succeeded: the wait starts over at one tick.
    pub fn attempt_succeeded(&mut self)
        requires
            old(self).wf(),
        ensures
            final(self).wf(),
            final(self).addresses == old(self).addresses,
            final(self).next_index == old(self).next_index,
            final(self).backoff_ticks == 1,
            final(self).ticks_left == 0,
            final(self).max_backoff_ticks == old(self).max_backoff_ticks,
    {
        self.backoff_ticks = 1;
        self.ticks_left = 0;
    }
}

/// The wait never exceeds its bound and never shrinks on failure.
pub proof fn lemma_backoff_bounded(backoff: u64, max: u64)
    requires
        1 <= backoff <= max,
    ensures
        backoff <= next_backoff(backoff, max) <= max,
{
}

} // verus!
