//! Counters the service keeps about its own activity. The library only
//! counts; publishing the values to a metrics backend, like every other kind
//! of emission, is the embedding program's concern. Time again arrives as a
//! tick count.

use vstd::prelude::*;

use crate::rate_limit::spec_elapsed;

verus! {

/// Process-level metrics: when the process started, for uptime.
#[derive(Debug, Clone, Copy, PartialEq, Eq, Structural)]
pub struct SystemMetrics {
    pub start_time: u64,
}

impl SystemMetrics {
    /// A collector for a process started at `now`.
    pub fn new(now: u64) -> (r: Self)
        ensures
            r.start_time == now,
    {
        SystemMetrics { start_time: now }
    }

    /// Ticks the process has been up at `now`.
    pub fn uptime(&self, now: u64) -> (r: u64)
        ensures
            r == spec_elapsed(now, self.start_time),
    {
        if now >= self.start_time {
            now - self.start_time
        } else {
            0
        }
    }
}

/// Activity counters for the bot.
#[derive(Debug, Clone, Copy, PartialEq, Eq, Structural)]
pub struct LineBotMetrics {
    pub total_users: u64,
    pub total_messages_sent: u64,
    pub total_messages_received: u64,
    pub api_errors: u64,
}

impl LineBotMetrics {
    /// All counters at zero.
    pub fn new() -> (r: Self)
        ensures
            r == (LineBotMetrics {
                total_users: 0,
                total_messages_sent: 0,
                total_messages_received: 0,
                api_errors: 0,
            }),
    {
        LineBotMetrics {
            total_users: 0,
            total_messages_sent: 0,
            total_messages_received: 0,
            api_errors: 0,
        }
    }

    /// Count one more user; the other counters are untouched.
    pub fn increment_users(&mut self)
        requires
            old(self).total_users < u64::MAX,
        ensures
            *final(self) == (LineBotMetrics { total_users: (old(self).total_users + 1) as u64, ..*old(self) }),
    {
        self.total_users = self.total_users + 1;
    }

    /// Count one more sent message; the other counters are untouched.
    pub fn increment_messages_sent(&mut self)
        requires
            old(self).total_messages_sent < u64::MAX,
        ensures
            *final(self) == (LineBotMetrics {
                total_messages_sent: (old(self).total_messages_sent + 1) as u64,
                ..*old(self)
            }),
    {
        self.total_messages_sent = self.total_messages_sent + 1;
    }

    /// Count one more received message; the other counters are untouched.
    pub fn increment_messages_received(&mut self)
        requires
            old(self).total_messages_received < u64::MAX,
        ensures
            *final(self) == (LineBotMetrics {
                total_messages_received: (old(self).total_messages_received + 1) as u64,
                ..*old(self)
            }),
    {
        self.total_messages_received = self.total_messages_received + 1;
    }

    /// Count one more API error; the other counters are untouched.
    pub fn increment_api_errors(&mut self)
        requires
            old(self).api_errors < u64::MAX,
        ensures
            *final(self) == (LineBotMetrics { api_errors: (old(self).api_errors + 1) as u64, ..*old(self) }),
    {
        self.api_errors = self.api_errors + 1;
    }

    /// The gauge values to publish: the user total and the error total.
    pub fn update_gauges(&self) -> (r: (u64, u64))
        ensures
            r.0 == self.total_users,
            r.1 == self.api_errors,
    {
        (self.total_users, self.api_errors)
    }
}

impl Default for LineBotMetrics {
    /// All counters at zero.
    fn default() -> (r: Self)
        ensures
            r == (LineBotMetrics {
                total_users: 0,
                total_messages_sent: 0,
                total_messages_received: 0,
                api_errors: 0,
            }),
    {
        LineBotMetrics::new()
    }
}

} // verus!
