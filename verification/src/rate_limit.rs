//! Fixed-window rate limiting keyed by caller identity. Each key owns one
//! entry holding a request count and the start of its current window; a call
//! within an open window is admitted until the count reaches the configured
//! maximum, and a call after the window closes starts a fresh window. A sweep
//! removes entries that have been idle past the window, so the table does not
//! grow without bound. Time is supplied by the caller as a tick count, so
//! every decision here is a pure function of its arguments.

use vstd::prelude::*;

use crate::text::str_eq;
use crate::text::trim;
use crate::text::trim_of;
use crate::text::chars_vec;
use crate::text::index_of_char;

verus! {

/// One caller's counter within its current window.
#[derive(Debug, Clone, Copy, PartialEq, Eq, Structural)]
pub struct RateLimitEntry {
    pub count: u32,
    pub last_reset: u64,
    pub last_request: u64,
}

/// The entry created for a first request observed at `now`.
pub open spec fn spec_fresh_entry(now: u64) -> RateLimitEntry {
    RateLimitEntry { count: 1, last_reset: now, last_request: now }
}

/// Ticks elapsed from `since` to `now`, zero when the clock moved backwards.
pub open spec fn spec_elapsed(now: u64, since: u64) -> int {
    if now >= since {
        now - since
    } else {
        0
    }
}

/// What `increment` leaves in the entry: a fresh window when the current one
/// has closed, otherwise one more request counted.
pub open spec fn spec_entry_increment(e: RateLimitEntry, window: u64, now: u64) -> RateLimitEntry {
    if spec_elapsed(now, e.last_reset) >= window {
        spec_fresh_entry(now)
    } else {
        RateLimitEntry { count: (e.count + 1) as u32, last_reset: e.last_reset, last_request: now }
    }
}

/// Ticks remaining until the entry's window closes, zero once it has.
pub open spec fn spec_time_until_reset(e: RateLimitEntry, window: u64, now: u64) -> int {
    let elapsed = spec_elapsed(now, e.last_reset);
    if elapsed >= window {
        0
    } else {
        window - elapsed
    }
}

impl RateLimitEntry {
    /// A fresh entry for a first request observed at `now`.
    pub fn new(now: u64) -> (r: RateLimitEntry)
        ensures
            r == spec_fresh_entry(now),
    {
        RateLimitEntry { count: 1, last_reset: now, last_request: now }
    }

    /// Count one more request at `now`, starting a new window if the current
    /// one has closed. Always reports that the request was counted.
    pub fn increment(&mut self, window_duration: u64, now: u64) -> (r: bool)
        requires
            old(self).count < u32::MAX,
        ensures
            r,
            *final(self) == spec_entry_increment(*old(self), window_duration, now),
    {
        let elapsed: u64 = if now >= self.last_reset {
            now - self.last_reset
        } else {
            0
        };
        if elapsed >= window_duration {
            self.count = 1;
            self.last_reset = now;
            self.last_request = now;
            return true;
        }
        self.count = self.count + 1;
        self.last_request = now;
        true
    }

    /// Ticks remaining until this entry's window closes.
    pub fn time_until_reset(&self, window_duration: u64, now: u64) -> (r: u64)
        ensures
            r == spec_time_until_reset(*self, window_duration, now),
    {
        let elapsed: u64 = if now >= self.last_reset {
            now - self.last_reset
        } else {
            0
        };
        if elapsed >= window_duration {
            0
        } else {
            window_duration - elapsed
        }
    }
}

/// Limits and sweep cadence for a limiter, fixed at construction. Durations
/// are in the same ticks as the `now` arguments.
#[derive(Debug, Clone, Copy, PartialEq, Eq, Structural)]
pub struct RateLimitConfig {
    pub max_requests: u32,
    pub window_duration: u64,
    pub cleanup_interval: u64,
}

impl RateLimitConfig {
    /// The quota and both durations are positive.
    pub open spec fn valid(&self) -> bool {
        self.max_requests >= 1 && self.window_duration >= 1 && self.cleanup_interval >= 1
    }
}

impl Default for RateLimitConfig {
    /// Ten requests per sixty-tick window, swept every three hundred ticks.
    fn default() -> (r: Self)
        ensures
            r == (RateLimitConfig { max_requests: 10, window_duration: 60, cleanup_interval: 300 }),
            r.valid(),
    {
        RateLimitConfig { max_requests: 10, window_duration: 60, cleanup_interval: 300 }
    }
}

/// The decision for one request.
#[derive(Debug, Clone, Copy, PartialEq, Eq, Structural)]
pub enum RateLimitResult {
    Allowed { remaining: u32, reset_after: u64 },
    Exceeded { retry_after: u64 },
}

/// The decision `check_rate_limit` returns, as a function of the entry the
/// key had before the call (if any).
pub open spec fn spec_check_result(
    prev: Option<RateLimitEntry>,
    cfg: RateLimitConfig,
    now: u64,
) -> RateLimitResult {
    match prev {
        None => RateLimitResult::Allowed {
            remaining: (cfg.max_requests - 1) as u32,
            reset_after: cfg.window_duration,
        },
        Some(e) => {
            if spec_elapsed(now, e.last_reset) >= cfg.window_duration {
                RateLimitResult::Allowed {
                    remaining: (cfg.max_requests - 1) as u32,
                    reset_after: cfg.window_duration,
                }
            } else if e.count >= cfg.max_requests {
                RateLimitResult::Exceeded {
                    retry_after: spec_time_until_reset(e, cfg.window_duration, now) as u64,
                }
            } else {
                RateLimitResult::Allowed {
                    remaining: (cfg.max_requests - (e.count + 1)) as u32,
                    reset_after: spec_time_until_reset(e, cfg.window_duration, now) as u64,
                }
            }
        },
    }
}

/// The entry stored for the key after `check_rate_limit`, as a function of
/// the entry it had before the call (if any).
pub open spec fn spec_check_entry(
    prev: Option<RateLimitEntry>,
    cfg: RateLimitConfig,
    now: u64,
) -> RateLimitEntry {
    match prev {
        None => spec_fresh_entry(now),
        Some(e) => {
            if spec_elapsed(now, e.last_reset) >= cfg.window_duration {
                spec_fresh_entry(now)
            } else if e.count >= cfg.max_requests {
                e
            } else {
                RateLimitEntry {
                    count: (e.count + 1) as u32,
                    last_reset: e.last_reset,
                    last_request: now,
                }
            }
        },
    }
}

/// Whether the sweep keeps an entry: it is removed only when its window has
/// closed and it has also been idle for longer than one window.
pub open spec fn spec_keep_entry(e: RateLimitEntry, window: u64, now: u64) -> bool {
    spec_elapsed(now, e.last_reset) <= window || spec_elapsed(now, e.last_request) <= window
}

/// What the sweep leaves for one key, as a function of what it had before.
pub open spec fn spec_cleanup_find(
    prev: Option<RateLimitEntry>,
    window: u64,
    now: u64,
) -> Option<RateLimitEntry> {
    match prev {
        Some(e) => if spec_keep_entry(e, window, now) {
            Some(e)
        } else {
            None
        },
        None => None,
    }
}

/// Association-list lookup: the entry stored beside the first occurrence of
/// the key.
pub open spec fn spec_find(s: Seq<(String, RateLimitEntry)>, k: Seq<char>) -> Option<RateLimitEntry>
    decreases s.len(),
{
    if s.len() == 0 {
        None
    } else if s[0].0@ == k {
        Some(s[0].1)
    } else {
        spec_find(s.drop_first(), k)
    }
}

/// No two entries share a key.
pub open spec fn spec_keys_unique(s: Seq<(String, RateLimitEntry)>) -> bool {
    forall|i: int, j: int|
        0 <= i < j < s.len() ==> (#[trigger] s[i]).0@ != (#[trigger] s[j]).0@
}

proof fn lemma_find_at_index(s: Seq<(String, RateLimitEntry)>, k: Seq<char>, i: int)
    requires
        spec_keys_unique(s),
        0 <= i < s.len(),
        s[i].0@ == k,
    ensures
        spec_find(s, k) == Some(s[i].1),
    decreases s.len(),
{
    if i == 0 {
    } else {
        assert(s[0].0@ != k);
        lemma_find_at_index(s.drop_first(), k, i - 1);
    }
}

proof fn lemma_find_absent(s: Seq<(String, RateLimitEntry)>, k: Seq<char>)
    requires
        forall|i: int| 0 <= i < s.len() ==> (#[trigger] s[i]).0@ != k,
    ensures
        spec_find(s, k) is None,
    decreases s.len(),
{
    if s.len() > 0 {
        lemma_find_absent(s.drop_first(), k);
    }
}

proof fn lemma_find_update_other(
    s: Seq<(String, RateLimitEntry)>,
    i: int,
    p: (String, RateLimitEntry),
    k: Seq<char>,
)
    requires
        0 <= i < s.len(),
        k != p.0@,
        k != s[i].0@,
    ensures
        spec_find(s.update(i, p), k) == spec_find(s, k),
    decreases s.len(),
{
    let su = s.update(i, p);
    if i == 0 {
        assert(su.drop_first() =~= s.drop_first());
    } else {
        assert(su[0] == s[0]);
        if s[0].0@ == k {
        } else {
            assert(su.drop_first() =~= s.drop_first().update(i - 1, p));
            lemma_find_update_other(s.drop_first(), i - 1, p, k);
        }
    }
}

proof fn lemma_find_push(s: Seq<(String, RateLimitEntry)>, p: (String, RateLimitEntry), k: Seq<char>)
    requires
        spec_find(s, k) is None,
    ensures
        spec_find(s.push(p), k) == if k == p.0@ {
            Some(p.1)
        } else {
            spec_find(s, k)
        },
    decreases s.len(),
{
    if s.len() == 0 {
        assert(s.push(p)[0] == p);
        assert(s.push(p).drop_first() =~= Seq::<(String, RateLimitEntry)>::empty());
        if k == p.0@ {
            assert(spec_find(s.push(p), k) == Some(p.1));
        } else {
            assert(spec_find(s.push(p), k) == spec_find(s.push(p).drop_first(), k));
            assert(spec_find(s.push(p), k) is None);
        }
    } else {
        assert(s.push(p)[0] == s[0]);
        assert(s[0].0@ != k);
        assert(s.push(p).drop_first() =~= s.drop_first().push(p));
        lemma_find_push(s.drop_first(), p, k);
    }
}

proof fn lemma_find_index_some(s: Seq<(String, RateLimitEntry)>, k: Seq<char>, i: int)
    requires
        0 <= i < s.len(),
        s[i].0@ == k,
    ensures
        spec_find(s, k) is Some,
    decreases s.len(),
{
    if i > 0 && s[0].0@ != k {
        lemma_find_index_some(s.drop_first(), k, i - 1);
    }
}

proof fn lemma_find_push_existing(
    s: Seq<(String, RateLimitEntry)>,
    p: (String, RateLimitEntry),
    k: Seq<char>,
)
    requires
        spec_find(s, k) is Some,
    ensures
        spec_find(s.push(p), k) == spec_find(s, k),
    decreases s.len(),
{
    assert(s.len() > 0);
    assert(s.push(p)[0] == s[0]);
    if s[0].0@ != k {
        assert(s.push(p).drop_first() =~= s.drop_first().push(p));
        lemma_find_push_existing(s.drop_first(), p, k);
    }
}

/// A concurrent-map rate limiter in miniature: one entry per key, looked up
/// and updated atomically with respect to the surrounding server by whoever
/// holds the limiter.
#[derive(Debug, Clone)]
pub struct RateLimiter {
    entries: Vec<(String, RateLimitEntry)>,
    pub config: RateLimitConfig,
}

impl RateLimiter {
    /// The configuration the limiter was built with.
    pub closed spec fn spec_config(&self) -> RateLimitConfig {
        self.config
    }

    /// The entry currently stored for a key.
    pub closed spec fn find(&self, k: Seq<char>) -> Option<RateLimitEntry> {
        spec_find(self.entries@, k)
    }

    /// How many keys currently have an entry.
    pub closed spec fn spec_len(&self) -> nat {
        self.entries@.len()
    }

    /// Keys are unique, and no stored count exceeds the configured quota.
    pub closed spec fn wf(&self) -> bool {
        &&& spec_keys_unique(self.entries@)
        &&& forall|i: int|
            0 <= i < self.entries@.len() ==> (#[trigger] self.entries@[i]).1.count
                <= self.config.max_requests
    }

    /// An empty limiter with the given configuration. The periodic sweep is
    /// the owner's concern: call `cleanup_expired_entries` on the configured
    /// interval.
    pub fn new(config: RateLimitConfig) -> (r: RateLimiter)
        requires
            config.valid(),
        ensures
            r.wf(),
            r.spec_config() == config,
            forall|k: Seq<char>| r.find(k) is None,
    {
        let r = RateLimiter { entries: Vec::new(), config };
        proof {
            assert forall|k: Seq<char>| r.find(k) is None by {
                lemma_find_absent(r.entries@, k);
            }
        }
        r
    }

    /// Whether a key currently has an entry.
    pub fn contains_key(&self, key: &str) -> (r: bool)
        requires
            self.wf(),
        ensures
            r == (self.find(key@) is Some),
    {
        match self.find_index(key) {
            Some(_) => true,
            None => false,
        }
    }

    fn find_index(&self, key: &str) -> (r: Option<usize>)
        requires
            self.wf(),
        ensures
            match r {
                Some(i) => i < self.entries@.len() && self.entries@[i as int].0@ == key@
                    && self.find(key@) == Some(self.entries@[i as int].1),
                None => self.find(key@) is None,
            },
    {
        let n: usize = self.entries.len();
        let mut i: usize = 0;
        while i < n
            invariant
                i <= n,
                n == self.entries@.len(),
                self.wf(),
                forall|j: int| 0 <= j < i ==> (#[trigger] self.entries@[j]).0@ != key@,
            decreases n - i,
        {
            if str_eq(self.entries[i].0.as_str(), key) {
                proof {
                    lemma_find_at_index(self.entries@, key@, i as int);
                }
                return Some(i);
            }
            i += 1;
        }
        proof {
            lemma_find_absent(self.entries@, key@);
        }
        None
    }

    /// Decide one request from `key` at time `now`: admitted with the
    /// remaining quota and the time until the window resets, or rejected with
    /// the time to wait. Exactly the fixed-window rules of
    /// `spec_check_result`, and the key's entry advances by
    /// `spec_check_entry`; no other key's entry changes.
    pub fn check_rate_limit(&mut self, key: &str, now: u64) -> (r: RateLimitResult)
        requires
            old(self).wf(),
            old(self).spec_config().valid(),
        ensures
            final(self).wf(),
            final(self).spec_config() == old(self).spec_config(),
            r == spec_check_result(old(self).find(key@), old(self).spec_config(), now),
            final(self).find(key@) == Some(
                spec_check_entry(old(self).find(key@), old(self).spec_config(), now),
            ),
            forall|k: Seq<char>| k != key@ ==> final(self).find(k) == old(self).find(k),
    {
        match self.find_index(key) {
            Some(i) => {
                let ghost s0 = self.entries@;
                let e: RateLimitEntry = self.entries[i].1;
                let elapsed: u64 = if now >= e.last_reset {
                    now - e.last_reset
                } else {
                    0
                };
                if elapsed >= self.config.window_duration {
                    let fresh = RateLimitEntry::new(now);
                    self.entries[i].1 = fresh;
                    proof {
                        self.lemma_after_update(s0, i as int, key@, fresh);
                    }
                    RateLimitResult::Allowed {
                        remaining: self.config.max_requests - 1,
                        reset_after: self.config.window_duration,
                    }
                } else if e.count >= self.config.max_requests {
                    let retry_after = e.time_until_reset(self.config.window_duration, now);
                    RateLimitResult::Exceeded { retry_after }
                } else {
                    let bumped = RateLimitEntry {
                        count: e.count + 1,
                        last_reset: e.last_reset,
                        last_request: now,
                    };
                    self.entries[i].1 = bumped;
                    proof {
                        self.lemma_after_update(s0, i as int, key@, bumped);
                    }
                    let reset_after = bumped.time_until_reset(self.config.window_duration, now);
                    RateLimitResult::Allowed {
                        remaining: self.config.max_requests - bumped.count,
                        reset_after,
                    }
                }
            },
            None => {
                let ghost s0 = self.entries@;
                let fresh = RateLimitEntry::new(now);
                self.entries.push((String::from_str(key), fresh));
                proof {
                    let p = self.entries@.last();
                    assert(self.entries@ =~= s0.push(p));
                    assert(p.0@ == key@);
                    assert forall|k: Seq<char>| true implies #[trigger] self.find(k) == (if k
                        == key@ {
                        Some(fresh)
                    } else {
                        spec_find(s0, k)
                    }) by {
                        if spec_find(s0, k) is Some {
                            lemma_find_push_existing(s0, p, k);
                        } else {
                            lemma_find_push(s0, p, k);
                        }
                    }
                    assert(spec_keys_unique(self.entries@)) by {
                        assert forall|a: int, b: int| 0 <= a < b < self.entries@.len() implies (
                        #[trigger] self.entries@[a]).0@ != (#[trigger] self.entries@[b]).0@ by {
                            if b == s0.len() && s0[a].0@ == key@ {
                                lemma_find_index_some(s0, key@, a);
                            }
                        }
                    }
                }
                RateLimitResult::Allowed {
                    remaining: self.config.max_requests - 1,
                    reset_after: self.config.window_duration,
                }
            },
        }
    }

    proof fn lemma_after_update(
        &self,
        s0: Seq<(String, RateLimitEntry)>,
        i: int,
        k: Seq<char>,
        e: RateLimitEntry,
    )
        requires
            spec_keys_unique(s0),
            0 <= i < s0.len(),
            s0[i].0@ == k,
            self.entries@ == s0.update(i, (s0[i].0, e)),
        ensures
            spec_keys_unique(self.entries@),
            self.find(k) == Some(e),
            forall|k2: Seq<char>| k2 != k ==> self.find(k2) == spec_find(s0, k2),
            forall|j: int|
                0 <= j < self.entries@.len() ==> (#[trigger] self.entries@[j]) == (if j == i {
                    (s0[i].0, e)
                } else {
                    s0[j]
                }),
    {
        let su = self.entries@;
        assert(su[i].0@ == k);
        assert forall|a: int, b: int| 0 <= a < b < su.len() implies (#[trigger] su[a]).0@ != (
        #[trigger] su[b]).0@ by {
            assert(s0[a].0@ != s0[b].0@);
        }
        lemma_find_at_index(su, k, i);
        assert forall|k2: Seq<char>| k2 != k implies self.find(k2) == spec_find(s0, k2) by {
            lemma_find_update_other(s0, i, (s0[i].0, e), k2);
        }
    }

    /// Remove every entry whose window has closed and that has also been idle
    /// longer than one window; every other entry survives unchanged. Applied
    /// pointwise this is `spec_cleanup_find`, so a second sweep at the same
    /// time removes nothing further.
    pub fn cleanup_expired_entries(&mut self, now: u64) -> (removed: usize)
        requires
            old(self).wf(),
        ensures
            final(self).wf(),
            final(self).spec_config() == old(self).spec_config(),
            final(self).spec_len() + removed == old(self).spec_len(),
            forall|k: Seq<char>|
                #[trigger] final(self).find(k) == spec_cleanup_find(
                    old(self).find(k),
                    old(self).spec_config().window_duration,
                    now,
                ),
    {
        let window: u64 = self.config.window_duration;
        let n: usize = self.entries.len();
        let mut kept: Vec<(String, RateLimitEntry)> = Vec::new();
        let mut i: usize = 0;
        while i < n
            invariant
                i <= n,
                n == self.entries@.len(),
                self.wf(),
                window == self.config.window_duration,
                kept@.len() <= i,
                spec_keys_unique(kept@),
                forall|m: int|
                    0 <= m < kept@.len() ==> (#[trigger] kept@[m]).1.count
                        <= self.config.max_requests,
                forall|k: Seq<char>|
                    #[trigger] spec_find(kept@, k) == spec_cleanup_find(
                        spec_find(self.entries@.take(i as int), k),
                        window,
                        now,
                    ),
            decreases n - i,
        {
            let e: RateLimitEntry = self.entries[i].1;
            let since_reset: u64 = if now >= e.last_reset {
                now - e.last_reset
            } else {
                0
            };
            let since_request: u64 = if now >= e.last_request {
                now - e.last_request
            } else {
                0
            };
            let keep: bool = since_reset <= window || since_request <= window;
            let ghost kept0 = kept@;
            let ghost s = self.entries@;
            proof {
                assert(s.take(i + 1) =~= s.take(i as int).push(s[i as int]));
                assert forall|j: int| 0 <= j < i implies (#[trigger] s.take(i as int)[j]).0@
                    != s[i as int].0@ by {
                    assert(s[j] == s.take(i as int)[j]);
                }
                lemma_find_absent(s.take(i as int), s[i as int].0@);
            }
            if keep {
                let pair: (String, RateLimitEntry) = (
                    String::from_str(self.entries[i].0.as_str()),
                    e,
                );
                kept.push(pair);
                proof {
                    let p = kept@.last();
                    assert(kept@ =~= kept0.push(p));
                    assert(p.0@ == s[i as int].0@ && p.1 == s[i as int].1);
                    assert(spec_find(kept0, p.0@) is None);
                    assert forall|a: int, b: int| 0 <= a < b < kept@.len() implies (
                    #[trigger] kept@[a]).0@ != (#[trigger] kept@[b]).0@ by {
                        if b == kept0.len() && kept0[a].0@ == p.0@ {
                            lemma_find_index_some(kept0, p.0@, a);
                        }
                    }
                    assert forall|k: Seq<char>| true implies #[trigger] spec_find(kept@, k)
                        == spec_cleanup_find(spec_find(s.take(i + 1), k), window, now) by {
                        if spec_find(s.take(i as int), k) is Some {
                            lemma_find_push_existing(s.take(i as int), s[i as int], k);
                            if spec_find(kept0, k) is Some {
                                lemma_find_push_existing(kept0, p, k);
                            } else {
                                lemma_find_push(kept0, p, k);
                            }
                        } else {
                            lemma_find_push(s.take(i as int), s[i as int], k);
                            lemma_find_push(kept0, p, k);
                        }
                    }
                }
            } else {
                proof {
                    assert forall|k: Seq<char>| true implies #[trigger] spec_find(kept0, k)
                        == spec_cleanup_find(spec_find(s.take(i + 1), k), window, now) by {
                        if spec_find(s.take(i as int), k) is Some {
                            lemma_find_push_existing(s.take(i as int), s[i as int], k);
                        } else {
                            lemma_find_push(s.take(i as int), s[i as int], k);
                        }
                    }
                }
            }
            i += 1;
        }
        let removed: usize = n - kept.len();
        proof {
            assert(self.entries@.take(n as int) =~= self.entries@);
        }
        self.entries = kept;
        removed
    }
}

/// Sweep idempotence: what one sweep leaves for a key, a second sweep at the
/// same time leaves untouched, so no entry is ever removed twice.
pub proof fn lemma_cleanup_idempotent(prev: Option<RateLimitEntry>, window: u64, now: u64)
    ensures
        spec_cleanup_find(spec_cleanup_find(prev, window, now), window, now) == spec_cleanup_find(
            prev,
            window,
            now,
        ),
{
}

/// The sweep never removes an entry whose last request is within one window.
pub proof fn lemma_cleanup_keeps_recent(e: RateLimitEntry, window: u64, now: u64)
    requires
        spec_elapsed(now, e.last_request) <= window,
    ensures
        spec_cleanup_find(Some(e), window, now) == Some(e),
{
}

/// The entry a key holds after a sequence of further calls at the given times.
pub open spec fn spec_run_checks(
    prev: Option<RateLimitEntry>,
    cfg: RateLimitConfig,
    times: Seq<u64>,
) -> Option<RateLimitEntry>
    decreases times.len(),
{
    if times.len() == 0 {
        prev
    } else {
        spec_run_checks(Some(spec_check_entry(prev, cfg, times[0])), cfg, times.drop_first())
    }
}

/// Every call in the sequence is admitted.
pub open spec fn spec_all_allowed(
    prev: Option<RateLimitEntry>,
    cfg: RateLimitConfig,
    times: Seq<u64>,
) -> bool
    decreases times.len(),
{
    times.len() == 0 || {
        &&& spec_check_result(prev, cfg, times[0]) is Allowed
        &&& spec_all_allowed(Some(spec_check_entry(prev, cfg, times[0])), cfg, times.drop_first())
    }
}

proof fn lemma_run_within_window(e: RateLimitEntry, cfg: RateLimitConfig, times: Seq<u64>)
    requires
        cfg.valid(),
        1 <= e.count,
        e.count + times.len() <= cfg.max_requests,
        forall|i: int|
            0 <= i < times.len() ==> e.last_reset <= #[trigger] times[i] < e.last_reset
                + cfg.window_duration,
    ensures
        spec_all_allowed(Some(e), cfg, times),
        spec_run_checks(Some(e), cfg, times) == Some(
            RateLimitEntry {
                count: (e.count + times.len()) as u32,
                last_reset: e.last_reset,
                last_request: if times.len() == 0 {
                    e.last_request
                } else {
                    times[times.len() - 1]
                },
            },
        ),
    decreases times.len(),
{
    if times.len() == 0 {
        assert(e == RateLimitEntry {
            count: (e.count + times.len()) as u32,
            last_reset: e.last_reset,
            last_request: e.last_request,
        });
    } else {
        let t = times[0];
        assert(spec_elapsed(t, e.last_reset) < cfg.window_duration);
        assert(e.count < cfg.max_requests);
        let e2 = spec_check_entry(Some(e), cfg, t);
        let rest = times.drop_first();
        assert forall|i: int|
            0 <= i < rest.len() implies e2.last_reset <= #[trigger] rest[i] < e2.last_reset
            + cfg.window_duration by {
            assert(rest[i] == times[i + 1]);
        }
        lemma_run_within_window(e2, cfg, rest);
        if times.len() > 1 {
            assert(rest[rest.len() - 1] == times[times.len() - 1]);
        }
    }
}

/// Quota admission: for a key with no entry, a sequence of up to
/// `max_requests` calls whose times all lie within one window of the first
/// call are all admitted, and the stored count afterwards equals the number
/// of calls made.
pub proof fn lemma_window_admits_quota(cfg: RateLimitConfig, times: Seq<u64>)
    requires
        cfg.valid(),
        1 <= times.len() <= cfg.max_requests,
        forall|i: int|
            0 <= i < times.len() ==> times[0] <= #[trigger] times[i] < times[0]
                + cfg.window_duration,
    ensures
        spec_all_allowed(None, cfg, times),
        spec_run_checks(None, cfg, times) == Some(
            RateLimitEntry {
                count: times.len() as u32,
                last_reset: times[0],
                last_request: times[times.len() - 1],
            },
        ),
{
    let e1 = spec_check_entry(None, cfg, times[0]);
    assert(e1 == spec_fresh_entry(times[0]));
    let rest = times.drop_first();
    assert forall|i: int|
        0 <= i < rest.len() implies e1.last_reset <= #[trigger] rest[i] < e1.last_reset
        + cfg.window_duration by {
        assert(rest[i] == times[i + 1]);
    }
    lemma_run_within_window(e1, cfg, rest);
    if times.len() > 1 {
        assert(rest[rest.len() - 1] == times[times.len() - 1]);
    }
}

/// Quota exhaustion: after `max_requests` admitted calls in one window, one
/// more call within the same window is rejected, and the wait it reports is
/// positive.
pub proof fn lemma_quota_exhausted(cfg: RateLimitConfig, times: Seq<u64>, t: u64)
    requires
        cfg.valid(),
        times.len() == cfg.max_requests,
        forall|i: int|
            0 <= i < times.len() ==> times[0] <= #[trigger] times[i] < times[0]
                + cfg.window_duration,
        times[0] <= t < times[0] + cfg.window_duration,
    ensures
        spec_all_allowed(None, cfg, times),
        spec_check_result(spec_run_checks(None, cfg, times), cfg, t) matches
            RateLimitResult::Exceeded { retry_after } && retry_after >= 1,
{
    lemma_window_admits_quota(cfg, times);
}

/// Window reset: once a full window has passed since an entry's window
/// started, the next call is admitted and the entry starts over with a count
/// of one.
pub proof fn lemma_window_reset(e: RateLimitEntry, cfg: RateLimitConfig, t: u64)
    requires
        cfg.valid(),
        spec_elapsed(t, e.last_reset) >= cfg.window_duration,
    ensures
        spec_check_result(Some(e), cfg, t) is Allowed,
        spec_check_entry(Some(e), cfg, t) == spec_fresh_entry(t),
{
}

/// The part of `s` before its first comma (all of `s` when it has none).
pub open spec fn spec_before_comma(s: Seq<char>) -> Seq<char>
    decreases s.len(),
{
    if s.len() == 0 {
        s
    } else if s[0] == ',' {
        Seq::empty()
    } else {
        seq![s[0]] + spec_before_comma(s.drop_first())
    }
}

proof fn lemma_before_comma_prefix(s: Seq<char>, i: int)
    requires
        0 <= i <= s.len(),
        forall|j: int| 0 <= j < i ==> s[j] != ',',
        i == s.len() || s[i] == ',',
    ensures
        spec_before_comma(s) == s.subrange(0, i),
    decreases s.len(),
{
    if s.len() == 0 {
        assert(s.subrange(0, 0) =~= s);
    } else if s[0] == ',' {
        assert(i == 0);
        assert(s.subrange(0, 0) =~= Seq::<char>::empty());
    } else {
        let rest = s.drop_first();
        assert forall|j: int| 0 <= j < i - 1 implies rest[j] != ',' by {
            assert(rest[j] == s[j + 1]);
        }
        lemma_before_comma_prefix(rest, i - 1);
        assert(seq![s[0]] + rest.subrange(0, i - 1) =~= s.subrange(0, i));
    }
}

/// The caller key for a request: the trimmed first element of the forwarding
/// header when one is present, else the realness header, else the peer
/// address, else `"unknown"`.
pub open spec fn spec_client_key(
    forwarded_for: Option<Seq<char>>,
    real_ip: Option<Seq<char>>,
    peer: Option<Seq<char>>,
) -> Seq<char> {
    match forwarded_for {
        Some(f) => trim_of(spec_before_comma(f)),
        None => match real_ip {
            Some(r) => r,
            None => match peer {
                Some(p) => p,
                None => "unknown"@,
            },
        },
    }
}

/// Derive the rate-limit key for a request from its forwarded-address
/// headers, falling back to the connection's peer address and then to a
/// fixed marker.
pub fn extract_rate_limit_key(
    forwarded_for: Option<&str>,
    real_ip: Option<&str>,
    peer_addr: Option<&str>,
) -> (r: String)
    ensures
        r@ == spec_client_key(
            match forwarded_for {
                Some(f) => Some(f@),
                None => None,
            },
            match real_ip {
                Some(x) => Some(x@),
                None => None,
            },
            match peer_addr {
                Some(p) => Some(p@),
                None => None,
            },
        ),
{
    match forwarded_for {
        Some(f) => {
            let cv: Vec<char> = chars_vec(f);
            let n: usize = f.unicode_len();
            match index_of_char(&cv, ',') {
                Some(i) => {
                    let piece: &str = f.substring_char(0, i);
                    proof {
                        lemma_before_comma_prefix(f@, i as int);
                    }
                    String::from_str(trim(piece))
                },
                None => {
                    proof {
                        lemma_before_comma_prefix(f@, f@.len() as int);
                        assert(f@.subrange(0, f@.len() as int) =~= f@);
                    }
                    String::from_str(trim(f))
                },
            }
        },
        None => match real_ip {
            Some(x) => String::from_str(x),
            None => match peer_addr {
                Some(p) => String::from_str(p),
                None => String::from_str("unknown"),
            },
        },
    }
}

} // verus!
