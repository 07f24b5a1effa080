//! How well a store that follows a remote copy keeps up with it.
use vstd::prelude::*;

verus! {

/// The counters of a store that follows a remote copy.
#[derive(PartialEq, Eq, Structural, Clone, Copy, Debug)]
pub struct SyncHealth {
    /// When the store last caught up, in seconds since 1970; zero where it never did.
    pub last_success_at: i64,
    pub consecutive_failures: u64,
    pub fallback_events: u64,
}

/// The counters of a store at one moment.
#[derive(PartialEq, Eq, Structural, Clone, Copy, Debug)]
pub struct SyncHealthSnapshot {
    pub remote_configured: bool,
    /// When the store last caught up, if it ever did.
    pub last_success_at: Option<i64>,
    pub consecutive_failures: u64,
    /// How often the store had to go on with what it has itself. It never shrinks.
    pub fallback_events: u64,
}

/// The counters of a store at one moment.
pub open spec fn snapshot_of(h: SyncHealth, remote_configured: bool) -> SyncHealthSnapshot {
    SyncHealthSnapshot {
        remote_configured,
        last_success_at: if h.last_success_at == 0 {
            None
        } else {
            Some(h.last_success_at)
        },
        consecutive_failures: h.consecutive_failures,
        fallback_events: h.fallback_events,
    }
}

/// A counter after one more count; it starts over behind its largest value.
pub open spec fn counted_up(n: u64) -> u64 {
    if n == u64::MAX {
        0
    } else {
        (n + 1) as u64
    }
}

fn count_up(n: u64) -> (r: u64)
    ensures
        r == counted_up(n),
{
    if n == u64::MAX {
        0
    } else {
        n + 1
    }
}

impl SyncHealth {
    /// The counters of a store that was just opened.
    pub fn new() -> (r: Self)
        ensures
            r == (SyncHealth { last_success_at: 0, consecutive_failures: 0, fallback_events: 0 }),
    {
        SyncHealth { last_success_at: 0, consecutive_failures: 0, fallback_events: 0 }
    }

    /// Notes that the store caught up.
    pub fn record_success(&mut self, now: i64)
        ensures
            *final(self) == (SyncHealth {
                last_success_at: now,
                consecutive_failures: 0,
                ..*old(self)
            }),
    {
        self.last_success_at = now;
        self.consecutive_failures = 0;
    }

    /// Notes that the store could not catch up.
    pub fn record_failure(&mut self)
        ensures
            *final(self) == (SyncHealth {
                consecutive_failures: counted_up(old(self).consecutive_failures),
                fallback_events: counted_up(old(self).fallback_events),
                ..*old(self)
            }),
    {
        self.consecutive_failures = count_up(self.consecutive_failures);
        self.fallback_events = count_up(self.fallback_events);
    }

    /// The counters as they are.
    pub fn snapshot(&self, remote_configured: bool) -> (r: SyncHealthSnapshot)
        ensures
            r == snapshot_of(*self, remote_configured),
    {
        SyncHealthSnapshot {
            remote_configured,
            last_success_at: if self.last_success_at == 0 {
                None
            } else {
                Some(self.last_success_at)
            },
            consecutive_failures: self.consecutive_failures,
            fallback_events: self.fallback_events,
        }
    }
}

/// The counters after a number of failures.
pub open spec fn failed(h: SyncHealth, times: nat) -> SyncHealth
    decreases times,
{
    if times == 0 {
        h
    } else {
        let g = failed(h, (times - 1) as nat);
        SyncHealth {
            consecutive_failures: counted_up(g.consecutive_failures),
            fallback_events: counted_up(g.fallback_events),
            ..g
        }
    }
}

/// Failures count up both counters; a success sets back the one of failures in a row and
/// leaves the total.
pub proof fn success_keeps_the_total(h: SyncHealth, times: nat, now: i64)
    requires
        h.consecutive_failures + times <= u64::MAX,
        h.fallback_events + times <= u64::MAX,
    ensures
        failed(h, times).consecutive_failures == h.consecutive_failures + times,
        failed(h, times).fallback_events == h.fallback_events + times,
        ({
            let after = SyncHealth {
                last_success_at: now,
                consecutive_failures: 0,
                ..failed(h, times)
            };
            after.consecutive_failures == 0 && after.fallback_events == h.fallback_events + times
        }),
    decreases times,
{
    if times > 0 {
        success_keeps_the_total(h, (times - 1) as nat, now);
    }
}

/// Whether a store follows a remote copy: both its address and its token must be set.
pub open spec fn remote_of(url: Option<Seq<char>>, token: Option<Seq<char>>) -> Option<
    (Seq<char>, Seq<char>),
> {
    match (url, token) {
        (Some(u), Some(t)) => if u.len() > 0 && t.len() > 0 {
            Some((u, t))
        } else {
            None
        },
        _ => None,
    }
}

/// The address and the token of the remote copy that a store follows, if it follows one:
/// both must be set and not empty.
pub fn turso_config(url: Option<String>, token: Option<String>) -> (r: Option<(String, String)>)
    ensures
        match r {
            Some(x) => remote_of(crate::text::opt(url), crate::text::opt(token)) == Some(
                (x.0@, x.1@),
            ),
            None => remote_of(crate::text::opt(url), crate::text::opt(token)) is None,
        },
{
    match (url, token) {
        (Some(u), Some(t)) => {
            if !u.as_str().is_empty() && !t.as_str().is_empty() {
                Some((u, t))
            } else {
                None
            }
        },
        _ => None,
    }
}

} // verus!
