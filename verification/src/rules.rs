//! The per-service quota table.
//!
//! Populated once at startup, read-only afterwards. Absence of a service
//! name is a configuration defect (`RuleNotFound`), not an ordinary client
//! outcome.

use vstd::prelude::*;

use crate::assoc::{assoc_map, distinct_keys, find_index, lemma_assoc_index, lemma_assoc_push,
    lemma_assoc_update};
use vstd::string::StringExecFns;

verus! {

/// Time units per regained token for a quota of ten per hour.
pub const HOURLY_10_REFILL: u64 = 360;

/// Time units per regained token for a quota of twenty per minute.
pub const MINUTE_20_REFILL: u64 = 3;

/// Time units per regained token for a quota of ten per minute.
pub const MINUTE_10_REFILL: u64 = 6;

/// The rate-limit rule for one service: a token bucket quota plus an
/// advisory ceiling on concurrent streams.
#[derive(Debug, Clone, Copy, PartialEq, Eq, Structural)]
pub struct ServiceRule {
    /// Time units that must pass for the bucket to regain one token.
    pub refill_every: u64,
    /// Bucket capacity: how many calls may burst before refill matters.
    pub burst: u64,
    /// Advisory ceiling on concurrent streams; not enforced per call.
    pub stream_limit: u64,
}

impl ServiceRule {
    /// A usable rule regains tokens in finite time and admits some burst.
    pub open spec fn wf(self) -> bool {
        self.refill_every >= 1 && self.burst >= 1
    }
}

/// The quota table: service name to rule, write-once at startup.
pub struct RuleRegistry {
    rules: Vec<(String, ServiceRule)>,
}

impl View for RuleRegistry {
    type V = Map<Seq<char>, ServiceRule>;

    closed spec fn view(&self) -> Map<Seq<char>, ServiceRule> {
        assoc_map(self.rules@)
    }
}

impl RuleRegistry {
    pub closed spec fn wf(self) -> bool {
        distinct_keys(self.rules@) && forall|i: int|
            0 <= i < self.rules@.len() ==> (#[trigger] self.rules@[i].1).wf()
    }

    /// An empty table.
    pub fn new() -> (r: RuleRegistry)
        ensures
            r.wf(),
            r@ == Map::<Seq<char>, ServiceRule>::empty(),
    {
        RuleRegistry { rules: Vec::new() }
    }

    /// Add or replace the rule for a service.
    pub fn register(&mut self, name: String, rule: ServiceRule)
        requires
            old(self).wf(),
            rule.wf(),
        ensures
            final(self).wf(),
            final(self)@ == old(self)@.insert(name@, rule),
    {
        match find_index(&self.rules, &name) {
            Some(i) => {
                proof {
                    lemma_assoc_update(self.rules@, i as int, rule);
                }
                self.rules[i].1 = rule;
                proof {
                    assert(self.rules@ =~= old(self).rules@.update(
                        i as int,
                        (old(self).rules@[i as int].0, rule),
                    ));
                }
            },
            None => {
                proof {
                    lemma_assoc_push(self.rules@, name, rule);
                }
                self.rules.push((name, rule));
            },
        }
    }

    /// Look the rule for a service up; `None` is a configuration defect.
    pub fn get(&self, name: &String) -> (r: Option<ServiceRule>)
        requires
            self.wf(),
        ensures
            match r {
                Some(rule) => self@.dom().contains(name@) && rule == self@[name@] && rule.wf(),
                None => !self@.dom().contains(name@),
            },
    {
        proof {
            crate::assoc::lemma_assoc_dom(self.rules@);
        }
        match find_index(&self.rules, name) {
            Some(i) => {
                proof {
                    lemma_assoc_index(self.rules@, i as int);
                }
                Some(self.rules[i].1)
            },
            None => None,
        }
    }

    /// The table the gateway ships with.
    pub open spec fn spec_default_rules() -> Map<Seq<char>, ServiceRule> {
        Map::<Seq<char>, ServiceRule>::empty().insert(
            "metadata"@,
            ServiceRule { refill_every: MINUTE_20_REFILL, burst: 5, stream_limit: 100 },
        ).insert(
            "ankr"@,
            ServiceRule { refill_every: HOURLY_10_REFILL, burst: 3, stream_limit: 50 },
        ).insert(
            "standard"@,
            ServiceRule { refill_every: MINUTE_10_REFILL, burst: 5, stream_limit: 200 },
        )
    }

    /// Build the shipped table: a high-frequency metadata service, a
    /// mid-frequency indexer service, and a standard price-feed service.
    pub fn with_default_rules() -> (r: RuleRegistry)
        ensures
            r.wf(),
            r@ == Self::spec_default_rules(),
    {
        let mut r = RuleRegistry::new();
        r.register(
            String::from_str("metadata"),
            ServiceRule { refill_every: MINUTE_20_REFILL, burst: 5, stream_limit: 100 },
        );
        r.register(
            String::from_str("ankr"),
            ServiceRule { refill_every: HOURLY_10_REFILL, burst: 3, stream_limit: 50 },
        );
        r.register(
            String::from_str("standard"),
            ServiceRule { refill_every: MINUTE_10_REFILL, burst: 5, stream_limit: 200 },
        );
        r
    }
}

} // verus!
