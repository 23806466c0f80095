//! A single-service token bucket.
//!
//! Consumption is non-blocking and fails fast: a denied call is final for
//! that call. The bucket regains one token every `refill_every` time units,
//! up to `capacity`, carrying fractional progress in `last_refill`.

use vstd::prelude::*;

use vstd::arithmetic::div_mod::lemma_fundamental_div_mod;

use crate::rules::ServiceRule;

verus! {

/// Token bucket state. All fields are plain counters over the gateway's
/// abstract clock (a non-decreasing `u64` of time units).
#[derive(Debug, Clone, Copy, PartialEq, Eq, Structural)]
pub struct RateBucket {
    /// Most tokens the bucket can hold; the allowed burst.
    pub capacity: u64,
    /// Tokens available right now.
    pub tokens: u64,
    /// The instant up to which refill credit has been accounted.
    pub last_refill: u64,
    /// Time units per regained token.
    pub refill_every: u64,
}

impl RateBucket {
    pub open spec fn wf(self) -> bool {
        self.tokens <= self.capacity && self.refill_every >= 1
    }

    /// A bucket sized from a rule starts full: a fresh client may spend its
    /// whole burst at once.
    pub open spec fn spec_new(rule: ServiceRule, now: u64) -> RateBucket {
        RateBucket {
            capacity: rule.burst,
            tokens: rule.burst,
            last_refill: now,
            refill_every: rule.refill_every,
        }
    }

    /// The bucket as it stands at `now`: one token back per full
    /// `refill_every` elapsed, capped at capacity. An earlier `now` (a clock
    /// that appears to run backwards) changes nothing.
    pub open spec fn spec_refill(self, now: u64) -> RateBucket {
        if now <= self.last_refill {
            self
        } else {
            let gained = ((now - self.last_refill) as int) / (self.refill_every as int);
            if self.tokens + gained >= self.capacity {
                RateBucket { tokens: self.capacity, last_refill: now, ..self }
            } else {
                RateBucket {
                    tokens: (self.tokens + gained) as u64,
                    last_refill: (self.last_refill + gained * self.refill_every) as u64,
                    ..self
                }
            }
        }
    }

    /// One admission attempt at `now`: refill, then take one token if any
    /// is left. Yields whether the call is granted, and the bucket after.
    pub open spec fn spec_consume(self, now: u64) -> (bool, RateBucket) {
        let b = self.spec_refill(now);
        if b.tokens > 0 {
            (true, RateBucket { tokens: (b.tokens - 1) as u64, ..b })
        } else {
            (false, b)
        }
    }

    /// Build the bucket for a rule, full, with its clock at `now`.
    pub fn new(rule: &ServiceRule, now: u64) -> (r: RateBucket)
        ensures
            r == RateBucket::spec_new(*rule, now),
            rule.wf() ==> r.wf(),
    {
        RateBucket {
            capacity: rule.burst,
            tokens: rule.burst,
            last_refill: now,
            refill_every: rule.refill_every,
        }
    }

    /// Credit the tokens regained since `last_refill`.
    fn refill(&mut self, now: u64)
        requires
            old(self).wf(),
        ensures
            *final(self) == old(self).spec_refill(now),
            final(self).wf(),
    {
        if now > self.last_refill {
            let elapsed = now - self.last_refill;
            let gained = elapsed / self.refill_every;
            proof {
                lemma_fundamental_div_mod(elapsed as int, self.refill_every as int);
                vstd::arithmetic::div_mod::lemma_mod_bound(
                    elapsed as int,
                    self.refill_every as int,
                );
                vstd::arithmetic::mul::lemma_mul_is_commutative(
                    gained as int,
                    self.refill_every as int,
                );
                assert(gained * self.refill_every <= elapsed);
            }
            if gained >= self.capacity - self.tokens {
                self.tokens = self.capacity;
                self.last_refill = now;
            } else {
                self.tokens = self.tokens + gained;
                self.last_refill = self.last_refill + gained * self.refill_every;
            }
        }
    }

    /// Try to admit one call at `now`; `false` means the quota is spent.
    pub fn try_consume(&mut self, now: u64) -> (granted: bool)
        requires
            old(self).wf(),
        ensures
            granted == old(self).spec_consume(now).0,
            *final(self) == old(self).spec_consume(now).1,
            final(self).wf(),
    {
        self.refill(now);
        if self.tokens > 0 {
            self.tokens = self.tokens - 1;
            true
        } else {
            false
        }
    }

    /// The bucket after a run of admission attempts, earliest first.
    pub open spec fn spec_consume_all(self, times: Seq<u64>) -> RateBucket
        decreases times.len(),
    {
        if times.len() == 0 {
            self
        } else {
            self.spec_consume(times.first()).1.spec_consume_all(times.drop_first())
        }
    }

    /// Whether every attempt in the run is granted.
    pub open spec fn all_granted(self, times: Seq<u64>) -> bool
        decreases times.len(),
    {
        times.len() == 0 || (self.spec_consume(times.first()).0
            && self.spec_consume(times.first()).1.all_granted(times.drop_first()))
    }

    /// Inside one refill window nothing is regained: a run of at most
    /// `tokens` attempts is granted in full and spends exactly its length.
    proof fn lemma_window_consume(self, t0: u64, times: Seq<u64>)
        requires
            self.wf(),
            t0 <= self.last_refill < t0 + self.refill_every,
            times.len() <= self.tokens,
            forall|i: int| 0 <= i < times.len() ==> t0 <= #[trigger] times[i] < t0
                + self.refill_every,
        ensures
            self.all_granted(times),
            self.spec_consume_all(times).wf(),
            self.spec_consume_all(times).capacity == self.capacity,
            self.spec_consume_all(times).refill_every == self.refill_every,
            self.spec_consume_all(times).tokens == self.tokens - times.len(),
            t0 <= self.spec_consume_all(times).last_refill < t0 + self.refill_every,
        decreases times.len(),
    {
        if times.len() > 0 {
            let t = times.first();
            assert(t0 <= times[0] < t0 + self.refill_every);
            let refilled = self.spec_refill(t);
            if t > self.last_refill {
                vstd::arithmetic::div_mod::lemma_basic_div(
                    (t - self.last_refill) as int,
                    self.refill_every as int,
                );
                let gained = ((t - self.last_refill) as int) / (self.refill_every as int);
                assert(gained == 0);
                vstd::arithmetic::mul::lemma_mul_basics(self.refill_every as int);
                assert(gained * (self.refill_every as int) == 0);
            }
            assert(refilled.tokens == self.tokens);
            assert(t0 <= refilled.last_refill < t0 + self.refill_every);
            let next = self.spec_consume(t).1;
            assert(forall|i: int| 0 <= i < times.drop_first().len() ==> t0
                <= #[trigger] times.drop_first()[i] < t0 + self.refill_every);
            next.lemma_window_consume(t0, times.drop_first());
        }
    }

    /// Burst, then deny: a fresh bucket grants exactly its capacity inside
    /// one refill window. Any run of `capacity` attempts whose times stay
    /// within `refill_every` units of creation is granted in full, and one
    /// more attempt inside the window is denied.
    pub proof fn law_burst_then_deny(rule: ServiceRule, t0: u64, times: Seq<u64>, extra: u64)
        requires
            rule.wf(),
            times.len() == rule.burst,
            forall|i: int| 0 <= i < times.len() ==> t0 <= #[trigger] times[i] < t0
                + rule.refill_every,
            t0 <= extra < t0 + rule.refill_every,
        ensures
            RateBucket::spec_new(rule, t0).all_granted(times),
            !RateBucket::spec_new(rule, t0).spec_consume_all(times).spec_consume(extra).0,
    {
        let fresh = RateBucket::spec_new(rule, t0);
        fresh.lemma_window_consume(t0, times);
        let spent = fresh.spec_consume_all(times);
        let refilled = spent.spec_refill(extra);
        if extra > spent.last_refill {
            vstd::arithmetic::div_mod::lemma_basic_div(
                (extra - spent.last_refill) as int,
                spent.refill_every as int,
            );
            let gained = ((extra - spent.last_refill) as int) / (spent.refill_every as int);
            assert(gained == 0);
            vstd::arithmetic::mul::lemma_mul_basics(spent.refill_every as int);
            assert(gained * (spent.refill_every as int) == 0);
        }
        assert(refilled.tokens == 0);
    }
}

} // verus!
