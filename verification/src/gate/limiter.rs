//! The rate limiter: one token bucket per caller. A bucket holds at most
//! `burst` tokens, starts full, gives one token to each admitted request and
//! gets one back every `period` milliseconds.
use vstd::prelude::*;
use crate::config::RateLimitingConfig;
use crate::net::IpAddress;

verus! {

/// The state of one token bucket: the tokens it holds and the time up to
/// which refills have been counted.
#[derive(Debug, Clone, Copy, PartialEq, Eq, Structural)]
pub struct BucketState {
    pub tokens: u32,
    pub stamp: i64,
}

/// A token bucket and the caller it belongs to; `None` is the bucket shared
/// by callers without an identity.
#[derive(Debug, Clone, Copy, PartialEq, Eq, Structural)]
pub struct TokenBucket {
    pub caller: Option<IpAddress>,
    pub state: BucketState,
}

/// A bucket brought up to a time: unchanged where the clock has not moved
/// on, else with one token more for each whole period that has passed, up
/// to the burst size. A full bucket counts from now; a period of zero fills
/// the bucket at once.
pub open spec fn refilled(cfg: RateLimitingConfig, st: BucketState, now: i64) -> BucketState {
    if now <= st.stamp {
        st
    } else if cfg.default_period == 0 {
        BucketState { tokens: cfg.default_burst_size, stamp: now }
    } else {
        let gained = (now - st.stamp) / (cfg.default_period as int);
        if st.tokens + gained >= cfg.default_burst_size {
            BucketState { tokens: cfg.default_burst_size, stamp: now }
        } else {
            BucketState {
                tokens: (st.tokens + gained) as u32,
                stamp: (st.stamp + gained * cfg.default_period) as i64,
            }
        }
    }
}

/// The bucket that a request meets: a full one where the caller has none
/// yet, else the caller's bucket brought up to the time of the request.
pub open spec fn met(cfg: RateLimitingConfig, st: Option<BucketState>, now: i64) -> BucketState {
    match st {
        Some(s) => refilled(cfg, s, now),
        None => BucketState { tokens: cfg.default_burst_size, stamp: now },
    }
}

/// Whether a request is admitted: the bucket it meets holds a token.
pub open spec fn admitted(cfg: RateLimitingConfig, st: Option<BucketState>, now: i64) -> bool {
    met(cfg, st, now).tokens > 0
}

/// The bucket that a request leaves: the one it met, less one token where
/// it was admitted.
pub open spec fn left(cfg: RateLimitingConfig, st: Option<BucketState>, now: i64) -> BucketState {
    let m = met(cfg, st, now);
    if m.tokens > 0 {
        BucketState { tokens: (m.tokens - 1) as u32, stamp: m.stamp }
    } else {
        m
    }
}

/// The bucket of a caller after a number of requests at one instant.
pub open spec fn after_requests(
    cfg: RateLimitingConfig,
    st: Option<BucketState>,
    now: i64,
    n: nat,
) -> Option<BucketState>
    decreases n,
{
    if n == 0 {
        st
    } else {
        Some(left(cfg, after_requests(cfg, st, now, (n - 1) as nat), now))
    }
}

/// The bucket of a caller in a list: the last one that is the caller's.
pub open spec fn state_of(s: Seq<TokenBucket>, caller: Option<IpAddress>) -> Option<BucketState>
    decreases s.len(),
{
    if s.len() == 0 {
        None
    } else if s.last().caller == caller {
        Some(s.last().state)
    } else {
        state_of(s.drop_last(), caller)
    }
}

/// No bucket of a list from a position on is the caller's.
pub open spec fn absent_from(s: Seq<TokenBucket>, caller: Option<IpAddress>, from: int) -> bool {
    forall|j: int| from <= j < s.len() ==> (#[trigger] s[j]).caller != caller
}

/// Where no later bucket is the caller's, the bucket at a position that is
/// the caller's is the one found.
pub proof fn state_of_at(s: Seq<TokenBucket>, i: int)
    requires
        0 <= i < s.len(),
        absent_from(s, s[i].caller, i + 1),
    ensures
        state_of(s, s[i].caller) == Some(s[i].state),
    decreases s.len(),
{
    if i < s.len() - 1 {
        assert(s[s.len() - 1].caller != s[i].caller);
        state_of_at(s.drop_last(), i);
    }
}

/// Where no bucket is the caller's, none is found.
pub proof fn state_of_absent(s: Seq<TokenBucket>, caller: Option<IpAddress>)
    requires
        absent_from(s, caller, 0),
    ensures
        state_of(s, caller) is None,
    decreases s.len(),
{
    if s.len() > 0 {
        assert(s[s.len() - 1].caller != caller);
        state_of_absent(s.drop_last(), caller);
    }
}

/// Replacing the state of the bucket that is found for a caller changes
/// what is found for that caller and for no other.
pub proof fn state_of_update(s: Seq<TokenBucket>, i: int, b: TokenBucket, c: Option<IpAddress>)
    requires
        0 <= i < s.len(),
        b.caller == s[i].caller,
        absent_from(s, b.caller, i + 1),
    ensures
        state_of(s.update(i, b), c) == if c == b.caller {
            Some(b.state)
        } else {
            state_of(s, c)
        },
    decreases s.len(),
{
    let t = s.update(i, b);
    if i == s.len() - 1 {
        assert(t.drop_last() =~= s.drop_last());
    } else {
        assert(s[s.len() - 1].caller != b.caller);
        assert(t.drop_last() =~= s.drop_last().update(i, b));
        state_of_update(s.drop_last(), i, b, c);
    }
}

/// The rate limiter.
#[derive(Debug)]
pub struct RateLimiter {
    buckets: Vec<TokenBucket>,
}

impl RateLimiter {
    /// The bucket of a caller, if the caller has one yet.
    pub closed spec fn state(&self, caller: Option<IpAddress>) -> Option<BucketState> {
        state_of(self.buckets@, caller)
    }

    /// A limiter in which no caller has a bucket yet.
    pub fn new() -> (r: RateLimiter)
        ensures
            forall|c: Option<IpAddress>| r.state(c) is None,
    {
        RateLimiter { buckets: Vec::new() }
    }

    /// Brings a bucket up to a time.
    pub fn refill(config: &RateLimitingConfig, st: BucketState, now: i64) -> (r: BucketState)
        ensures
            r == refilled(*config, st, now),
    {
        if now <= st.stamp {
            return st;
        }
        let burst = config.default_burst_size;
        if config.default_period == 0 {
            return BucketState { tokens: burst, stamp: now };
        }
        let period: i128 = config.default_period as i128;
        let elapsed: i128 = now as i128 - st.stamp as i128;
        let gained: i128 = elapsed / period;
        assert(0 <= gained * period <= elapsed) by (nonlinear_arith)
            requires
                elapsed > 0,
                period > 0,
                gained == elapsed / period,
        ;
        assert(0 <= gained <= elapsed) by (nonlinear_arith)
            requires
                elapsed > 0,
                period > 0,
                gained == elapsed / period,
        ;
        if st.tokens as i128 + gained >= burst as i128 {
            BucketState { tokens: burst, stamp: now }
        } else {
            BucketState {
                tokens: (st.tokens as i128 + gained) as u32,
                stamp: (st.stamp as i128 + gained * period) as i64,
            }
        }
    }

    /// Where the bucket of a caller sits: the last one that is the caller's.
    fn find(&self, caller: Option<IpAddress>) -> (r: Option<usize>)
        ensures
            match r {
                Some(i) => i < self.buckets@.len() && self.buckets@[i as int].caller == caller
                    && absent_from(self.buckets@, caller, i + 1),
                None => absent_from(self.buckets@, caller, 0),
            },
    {
        let mut i: usize = self.buckets.len();
        while i > 0
            invariant
                i <= self.buckets.len(),
                absent_from(self.buckets@, caller, i as int),
            decreases i,
        {
            i -= 1;
            if self.buckets[i].caller == caller {
                return Some(i);
            }
        }
        None
    }

    /// Decides on one request of a caller at a time, and takes a token
    /// where it admits. The buckets of other callers are untouched.
    pub fn check(&mut self, config: &RateLimitingConfig, caller: Option<IpAddress>, now: i64) -> (r:
        bool)
        ensures
            r == admitted(*config, old(self).state(caller), now),
            final(self).state(caller) == Some(left(*config, old(self).state(caller), now)),
            forall|c: Option<IpAddress>| c != caller ==> final(self).state(c) == old(self).state(c),
    {
        let ghost before = self.buckets@;
        match self.find(caller) {
            Some(i) => {
                proof {
                    state_of_at(before, i as int);
                }
                let m = Self::refill(config, self.buckets[i].state, now);
                let ok = m.tokens > 0;
                let st = if ok {
                    BucketState { tokens: m.tokens - 1, stamp: m.stamp }
                } else {
                    m
                };
                let b = TokenBucket { caller, state: st };
                self.buckets[i] = b;
                proof {
                    assert(self.buckets@ =~= before.update(i as int, b));
                    assert forall|c: Option<IpAddress>| state_of(self.buckets@, c) == if c == caller {
                        Some(st)
                    } else {
                        state_of(before, c)
                    } by {
                        state_of_update(before, i as int, b, c);
                    }
                }
                ok
            },
            None => {
                proof {
                    state_of_absent(before, caller);
                }
                let burst = config.default_burst_size;
                let ok = burst > 0;
                let st = if ok {
                    BucketState { tokens: burst - 1, stamp: now }
                } else {
                    BucketState { tokens: burst, stamp: now }
                };
                self.buckets.push(TokenBucket { caller, state: st });
                proof {
                    assert(self.buckets@.drop_last() =~= before);
                }
                ok
            },
        }
    }
}

} // verus!
