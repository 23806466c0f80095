//! Per-client state: the sticky address binding, the liveness flag, one
//! lazily created token bucket per service, and the last-active stamp.

use vstd::prelude::*;

use crate::assoc::{assoc_map, distinct_keys, find_index, lemma_assoc_dom, lemma_assoc_index,
    lemma_assoc_len, lemma_assoc_push, lemma_assoc_update};
use crate::bucket::RateBucket;
use crate::errors::GateError;
use crate::rules::RuleRegistry;

verus! {

/// The abstract state of one client session.
#[verifier::ext_equal]
pub struct ClientStateView {
    /// The source address the identity is pinned to, once bound.
    pub bound_ip: Option<Seq<char>>,
    /// The liveness flag; independent of quota state.
    pub connected: bool,
    /// One token bucket per service the client has called.
    pub buckets: Map<Seq<char>, RateBucket>,
    /// The last instant any call reached this session.
    pub last_active: u64,
}

impl ClientStateView {
    /// A brand-new session: unbound, disconnected, no buckets.
    pub open spec fn spec_new(now: u64) -> ClientStateView {
        ClientStateView {
            bound_ip: None,
            connected: false,
            buckets: Map::empty(),
            last_active: now,
        }
    }

    /// The session after its activity stamp is refreshed: `last_active`
    /// never moves backwards.
    pub open spec fn touched(self, now: u64) -> ClientStateView {
        ClientStateView {
            last_active: if now > self.last_active {
                now
            } else {
                self.last_active
            },
            ..self
        }
    }

    /// No call has reached the session for more than `threshold` units.
    pub open spec fn spec_is_idle(self, now: u64, threshold: u64) -> bool {
        now > self.last_active + threshold
    }
}

/// One client's session state, owned by the session store.
pub struct ClientState {
    bound_ip: Option<String>,
    connected: bool,
    buckets: Vec<(String, RateBucket)>,
    last_active: u64,
}

impl View for ClientState {
    type V = ClientStateView;

    closed spec fn view(&self) -> ClientStateView {
        ClientStateView {
            bound_ip: match self.bound_ip {
                Some(ip) => Some(ip@),
                None => None,
            },
            connected: self.connected,
            buckets: assoc_map(self.buckets@),
            last_active: self.last_active,
        }
    }
}

impl ClientState {
    /// The bucket table has distinct keys and well-formed buckets.
    pub closed spec fn inv(&self) -> bool {
        distinct_keys(self.buckets@) && forall|i: int|
            0 <= i < self.buckets@.len() ==> (#[trigger] self.buckets@[i].1).wf()
    }

    /// A fresh, unbound, disconnected session.
    pub fn new(now: u64) -> (r: ClientState)
        ensures
            r.inv(),
            r@ == ClientStateView::spec_new(now),
    {
        let r = ClientState { bound_ip: None, connected: false, buckets: Vec::new(), last_active: now };
        proof {
            assert(r@ =~= ClientStateView::spec_new(now));
        }
        r
    }

    /// Refresh the activity stamp; it never moves backwards.
    pub fn update_last_active(&mut self, now: u64)
        requires
            old(self).inv(),
        ensures
            final(self).inv(),
            final(self)@ == old(self)@.touched(now),
    {
        if now > self.last_active {
            self.last_active = now;
        }
        proof {
            assert(self@ =~= old(self)@.touched(now));
        }
    }

    /// True when no call has arrived for more than `threshold` units.
    pub fn is_expired(&self, now: u64, threshold: u64) -> (r: bool)
        ensures
            r == self@.spec_is_idle(now, threshold),
    {
        now > self.last_active && now - self.last_active > threshold
    }

    pub fn mark_connected(&mut self)
        requires
            old(self).inv(),
        ensures
            final(self).inv(),
            final(self)@ == (ClientStateView { connected: true, ..old(self)@ }),
    {
        self.connected = true;
        proof {
            assert(self@ =~= (ClientStateView { connected: true, ..old(self)@ }));
        }
    }

    pub fn mark_disconnected(&mut self)
        requires
            old(self).inv(),
        ensures
            final(self).inv(),
            final(self)@ == (ClientStateView { connected: false, ..old(self)@ }),
    {
        self.connected = false;
        proof {
            assert(self@ =~= (ClientStateView { connected: false, ..old(self)@ }));
        }
    }

    pub fn is_connected(&self) -> (r: bool)
        ensures
            r == self@.connected,
    {
        self.connected
    }

    /// First writer wins: bind the address if unbound, accept a matching
    /// address, and reject a different one without rebinding.
    pub fn bind_or_verify_address(&mut self, addr: &String) -> (r: Result<(), GateError>)
        requires
            old(self).inv(),
        ensures
            final(self).inv(),
            match old(self)@.bound_ip {
                None => r == Ok::<(), GateError>(()) && final(self)@ == (ClientStateView {
                    bound_ip: Some(addr@),
                    ..old(self)@
                }),
                Some(bound) => {
                    &&& final(self)@ == old(self)@
                    &&& r == if bound == addr@ {
                        Ok::<(), GateError>(())
                    } else {
                        Err::<(), GateError>(GateError::AddressMismatch)
                    }
                },
            },
    {
        match &self.bound_ip {
            None => {
                self.bound_ip = Some(addr.clone());
                proof {
                    assert(self@ =~= (ClientStateView { bound_ip: Some(addr@), ..old(self)@ }));
                }
                Ok(())
            },
            Some(bound) => {
                if *bound == *addr {
                    Ok(())
                } else {
                    Err(GateError::AddressMismatch)
                }
            },
        }
    }

    /// The session's bucket table after `service` is consulted at `now`:
    /// the existing bucket if one is there, else a fresh one from `rule`.
    pub open spec fn bucket_before(self_view: ClientStateView, rule: crate::rules::ServiceRule,
        service: Seq<char>, now: u64) -> RateBucket {
        if self_view.buckets.dom().contains(service) {
            self_view.buckets[service]
        } else {
            RateBucket::spec_new(rule, now)
        }
    }

    /// Get the bucket for a service, building it from the quota table on
    /// first use. Exactly one bucket per service ever exists: a second call
    /// for the same service leaves the session unchanged.
    pub fn get_or_create_bucket(&mut self, service: &String, rules: &RuleRegistry, now: u64) -> (r:
        Result<(), GateError>)
        requires
            old(self).inv(),
            rules.wf(),
        ensures
            final(self).inv(),
            match r {
                Ok(()) => (old(self)@.buckets.dom().contains(service@) || rules@.dom().contains(
                    service@,
                )) && final(self)@ == (ClientStateView {
                    buckets: if old(self)@.buckets.dom().contains(service@) {
                        old(self)@.buckets
                    } else {
                        old(self)@.buckets.insert(
                            service@,
                            RateBucket::spec_new(rules@[service@], now),
                        )
                    },
                    ..old(self)@
                }),
                Err(e) => e == GateError::RuleNotFound && !rules@.dom().contains(service@)
                    && !old(self)@.buckets.dom().contains(service@) && final(self)@ == old(self)@,
            },
    {
        proof {
            lemma_assoc_dom(self.buckets@);
        }
        match find_index(&self.buckets, service) {
            Some(_) => {
                proof {
                    assert(self@ =~= (ClientStateView {
                        buckets: old(self)@.buckets,
                        ..old(self)@
                    }));
                }
                Ok(())
            },
            None => {
                match rules.get(service) {
                    None => Err(GateError::RuleNotFound),
                    Some(rule) => {
                        let fresh = RateBucket::new(&rule, now);
                        proof {
                            lemma_assoc_push(self.buckets@, *service, fresh);
                        }
                        self.buckets.push((service.clone(), fresh));
                        proof {
                            assert(self@ =~= (ClientStateView {
                                buckets: old(self)@.buckets.insert(service@, fresh),
                                ..old(self)@
                            }));
                        }
                        Ok(())
                    },
                }
            },
        }
    }

    /// Consult (and on first use build) the bucket for `service`, then try
    /// to take one token. Never blocks, queues or retries: a denial is
    /// final for this call.
    pub fn try_consume_token(&mut self, service: &String, rules: &RuleRegistry, now: u64) -> (r:
        Result<(), GateError>)
        requires
            old(self).inv(),
            rules.wf(),
        ensures
            final(self).inv(),
            !rules@.dom().contains(service@) && !old(self)@.buckets.dom().contains(service@) ==> r
                == Err::<(), GateError>(GateError::RuleNotFound) && final(self)@ == old(self)@,
            rules@.dom().contains(service@) || old(self)@.buckets.dom().contains(service@) ==> {
                let before = Self::bucket_before(old(self)@, rules@[service@], service@, now);
                let (granted, after) = before.spec_consume(now);
                &&& r == if granted {
                    Ok::<(), GateError>(())
                } else {
                    Err::<(), GateError>(GateError::QuotaExceeded)
                }
                &&& final(self)@ == (ClientStateView {
                    buckets: old(self)@.buckets.insert(service@, after),
                    ..old(self)@
                })
            },
    {
        proof {
            lemma_assoc_dom(self.buckets@);
        }
        match find_index(&self.buckets, service) {
            Some(i) => {
                proof {
                    lemma_assoc_index(self.buckets@, i as int);
                }
                let granted = self.buckets[i].1.try_consume(now);
                proof {
                    let after = old(self).buckets@[i as int].1.spec_consume(now).1;
                    lemma_assoc_update(old(self).buckets@, i as int, after);
                    assert(self.buckets@ =~= old(self).buckets@.update(
                        i as int,
                        (old(self).buckets@[i as int].0, after),
                    ));
                    assert(self@ =~= (ClientStateView {
                        buckets: old(self)@.buckets.insert(
                            service@,
                            old(self)@.buckets[service@].spec_consume(now).1,
                        ),
                        ..old(self)@
                    }));
                }
                if granted {
                    Ok(())
                } else {
                    Err(GateError::QuotaExceeded)
                }
            },
            None => {
                match rules.get(service) {
                    None => Err(GateError::RuleNotFound),
                    Some(rule) => {
                        let mut fresh = RateBucket::new(&rule, now);
                        let granted = fresh.try_consume(now);
                        proof {
                            lemma_assoc_push(self.buckets@, *service, fresh);
                        }
                        self.buckets.push((service.clone(), fresh));
                        proof {
                            assert(self@ =~= (ClientStateView {
                                buckets: old(self)@.buckets.insert(service@, fresh),
                                ..old(self)@
                            }));
                        }
                        if granted {
                            Ok(())
                        } else {
                            Err(GateError::QuotaExceeded)
                        }
                    },
                }
            },
        }
    }

    /// How many distinct services this session holds a bucket for.
    pub fn bucket_count(&self) -> (r: usize)
        requires
            self.inv(),
        ensures
            r == self@.buckets.dom().len(),
    {
        proof {
            lemma_assoc_len(self.buckets@);
        }
        self.buckets.len()
    }

    /// The token count of the bucket for `service`, if one exists.
    pub fn bucket_tokens(&self, service: &String) -> (r: Option<u64>)
        requires
            self.inv(),
        ensures
            match r {
                Some(t) => self@.buckets.dom().contains(service@) && t == self@.buckets[
                    service@
                ].tokens,
                None => !self@.buckets.dom().contains(service@),
            },
    {
        proof {
            lemma_assoc_dom(self.buckets@);
        }
        match find_index(&self.buckets, service) {
            Some(i) => {
                proof {
                    lemma_assoc_index(self.buckets@, i as int);
                }
                Some(self.buckets[i].1.tokens)
            },
            None => None,
        }
    }

    /// The bound address, if the session is bound.
    pub fn bound_ip(&self) -> (r: Option<&String>)
        ensures
            match r {
                Some(ip) => self@.bound_ip == Some(ip@),
                None => self@.bound_ip is None,
            },
    {
        self.bound_ip.as_ref()
    }

    /// The last instant any call reached this session.
    pub fn last_active(&self) -> (r: u64)
        ensures
            r == self@.last_active,
    {
        self.last_active
    }
}

} // verus!
