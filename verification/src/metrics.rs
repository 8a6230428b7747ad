use vstd::prelude::*;

verus! {

/// A counter one step up; it wraps to zero after `u64::MAX`.
pub open spec fn incremented(count: u64) -> u64 {
    if count == u64::MAX {
        0
    } else {
        (count + 1) as u64
    }
}

/// A counter one step down; it wraps to `u64::MAX` below zero.
pub open spec fn decremented(count: u64) -> u64 {
    if count == 0 {
        u64::MAX
    } else {
        (count - 1) as u64
    }
}

/// Counters of the live sessions and of the frames sent to clients.
#[derive(Clone, Copy, Debug, PartialEq, Eq)]
pub struct Metrics {
    active_connections: u64,
    messages_sent: u64,
}

impl Metrics {
    /// The number of sessions that were admitted and have not ended.
    pub closed spec fn connections(&self) -> u64 {
        self.active_connections
    }

    /// The number of notification frames sent so far.
    pub closed spec fn messages(&self) -> u64 {
        self.messages_sent
    }

    /// Counters at zero.
    pub fn new() -> (metrics: Metrics)
        ensures
            metrics.connections() == 0,
            metrics.messages() == 0,
    {
        Metrics { active_connections: 0, messages_sent: 0 }
    }

    /// Counts a session that was admitted.
    pub fn add_connection(&mut self)
        ensures
            final(self).connections() == incremented(old(self).connections()),
            final(self).messages() == old(self).messages(),
    {
        self.active_connections = if self.active_connections == u64::MAX {
            0
        } else {
            self.active_connections + 1
        };
    }

    /// Counts a session that ended.
    pub fn remove_connection(&mut self)
        ensures
            final(self).connections() == decremented(old(self).connections()),
            final(self).messages() == old(self).messages(),
    {
        self.active_connections = if self.active_connections == 0 {
            u64::MAX
        } else {
            self.active_connections - 1
        };
    }

    /// Counts a notification frame that was sent.
    pub fn add_message(&mut self)
        ensures
            final(self).messages() == incremented(old(self).messages()),
            final(self).connections() == old(self).connections(),
    {
        self.messages_sent = if self.messages_sent == u64::MAX {
            0
        } else {
            self.messages_sent + 1
        };
    }

    /// The number of sessions that were admitted and have not ended.
    pub fn active_connection_count(&self) -> (count: u64)
        ensures
            count == self.connections(),
    {
        self.active_connections
    }

    /// The number of notification frames sent so far.
    pub fn message_count(&self) -> (count: u64)
        ensures
            count == self.messages(),
    {
        self.messages_sent
    }
}

impl Default for Metrics {
    fn default() -> (metrics: Self)
        ensures
            metrics.connections() == 0,
            metrics.messages() == 0,
    {
        Metrics::new()
    }
}

/// Counting a session in and out again leaves the counter where it was.
pub proof fn lemma_connection_count_balances(count: u64)
    ensures
        decremented(incremented(count)) == count,
        incremented(decremented(count)) == count,
{
}

} // verus!
