//! The admission gate: the per-call state machine that validates the
//! caller-supplied identity and address, then drives the session store to
//! admit or reject the call.
//!
//! Every protected remote procedure passes through [`RateLimitInterceptor::call`]
//! before its business logic runs. The whole step is specified by the
//! functional model [`spec_intercept`]; the laws in [`crate::laws`] are
//! proved against that model.

use vstd::prelude::*;

use crate::errors::GateError;
use crate::liveness::{LivenessIndex, LIVENESS_THRESHOLD};
use crate::rules::{RuleRegistry, ServiceRule};
use crate::session::{ClientState, ClientStateView};
use crate::store::{spec_admit, spec_entry_or_fresh, spec_live, spec_provisioned,
    GlobalStateManager};
use vstd::string::StrSliceExecFns;

verus! {

/// Required length, in characters, of the opaque client identity.
pub const IDENTITY_LEN: usize = 128;

/// Shortest textual address accepted, consistent with IPv4 forms.
pub const ADDR_MIN_LEN: usize = 7;

/// Longest textual address accepted, consistent with IPv6 forms.
pub const ADDR_MAX_LEN: usize = 45;

/// The abstract state of the whole gate: quota table, session store,
/// liveness index.
#[verifier::ext_equal]
pub struct GatewayView {
    pub rules: Map<Seq<char>, ServiceRule>,
    pub store: Map<Seq<char>, ClientStateView>,
    pub live: Map<Seq<char>, u64>,
}

/// The process-wide admission state, built once and handed explicitly to
/// every interceptor: the quota table (read-only after construction), the
/// session store, and the liveness index.
pub struct Gateway {
    rules: RuleRegistry,
    store: GlobalStateManager,
    liveness: LivenessIndex,
}

impl View for Gateway {
    type V = GatewayView;

    closed spec fn view(&self) -> GatewayView {
        GatewayView { rules: self.rules@, store: self.store@, live: self.liveness@ }
    }
}

/// Whether the caller-supplied identity and address have the accepted
/// shape; checked before any session state is touched.
pub open spec fn spec_shape_ok(uuid: Option<Seq<char>>, ip: Seq<char>) -> bool {
    match uuid {
        None => false,
        Some(u) => u.len() == IDENTITY_LEN && ADDR_MIN_LEN <= ip.len() <= ADDR_MAX_LEN,
    }
}

/// The whole admission step as a function: the gateway state after the call
/// and the decision handed to the caller. `Ok` admits the call; every
/// rejection carries one of the boundary error kinds.
pub open spec fn spec_intercept(
    gw: GatewayView,
    service: Seq<char>,
    uuid: Option<Seq<char>>,
    ip: Seq<char>,
    now: u64,
) -> (GatewayView, Result<(), GateError>) {
    if !spec_shape_ok(uuid, ip) {
        (gw, Err(GateError::InvalidArgument))
    } else {
        let u = uuid.unwrap();
        if spec_live(gw.store, u, now) {
            let s = gw.store[u];
            if !gw.rules.dom().contains(service) && !s.buckets.dom().contains(service) {
                (gw, Err(GateError::Internal))
            } else {
                let before = ClientState::bucket_before(s, gw.rules[service], service, now);
                let (granted, after) = before.spec_consume(now);
                let s1 = ClientStateView { buckets: s.buckets.insert(service, after), ..s };
                let store1 = gw.store.insert(u, s1);
                if !granted {
                    (GatewayView { store: store1, ..gw }, Err(GateError::ResourceExhausted))
                } else {
                    let (s2, bound) = spec_admit(s1, ip, now);
                    let gw2 = GatewayView {
                        store: store1.insert(u, s2),
                        live: gw.live.insert(u, now),
                        ..gw
                    };
                    match bound {
                        Ok(()) => (gw2, Ok(())),
                        Err(_) => (gw2, Err(GateError::PermissionDenied)),
                    }
                }
            }
        } else {
            if gw.rules.dom().contains(service) {
                let fresh = spec_provisioned(ip, service, gw.rules[service], now);
                (
                    GatewayView {
                        store: gw.store.insert(u, fresh),
                        live: gw.live.insert(u, now),
                        ..gw
                    },
                    Ok(()),
                )
            } else {
                (gw, Err(GateError::Internal))
            }
        }
    }
}

impl Gateway {
    pub closed spec fn inv(&self) -> bool {
        self.rules.wf() && self.store.inv() && self.liveness.inv()
    }

    /// A gate over the given quota table, with no sessions yet.
    pub fn new(rules: RuleRegistry) -> (r: Gateway)
        requires
            rules.wf(),
        ensures
            r.inv(),
            r@.rules == rules@,
            r@.store == Map::<Seq<char>, ClientStateView>::empty(),
            r@.live == Map::<Seq<char>, u64>::empty(),
    {
        Gateway { rules, store: GlobalStateManager::new(), liveness: LivenessIndex::new() }
    }

    /// The quota table this gateway was built over.
    pub fn rules(&self) -> (r: &RuleRegistry)
        ensures
            r@ == self@.rules,
            self.inv() ==> r.wf(),
    {
        &self.rules
    }

    /// Read access to the session store, for inspection.
    pub fn store(&self) -> (r: &GlobalStateManager)
        ensures
            r@ == self@.store,
            self.inv() ==> r.inv(),
    {
        &self.store
    }

    /// Read access to the liveness index, for inspection.
    pub fn liveness(&self) -> (r: &LivenessIndex)
        ensures
            r@ == self@.live,
            self.inv() ==> r.inv(),
    {
        &self.liveness
    }

    /// One tick of the background sweeper: prune stale liveness entries.
    /// The session store is not read or written: a client pruned here
    /// keeps its session, binding and bucket state until idle expiry.
    pub fn cleanup_expired_connections(&mut self, now: u64)
        requires
            old(self).inv(),
        ensures
            final(self).inv(),
            final(self)@.store == old(self)@.store,
            final(self)@.rules == old(self)@.rules,
            forall|k: Seq<char>| #[trigger] final(self)@.live.dom().contains(k) <==> (old(
                self,
            )@.live.dom().contains(k) && !LivenessIndex::spec_stale(
                old(self)@.live[k],
                now,
                LIVENESS_THRESHOLD,
            )),
            forall|k: Seq<char>| #[trigger] final(self)@.live.dom().contains(k)
                ==> final(self)@.live[k] == old(self)@.live[k],
    {
        self.liveness.prune(now, LIVENESS_THRESHOLD);
    }

    /// A client-signalled disconnect: flip the flag, leave the index.
    pub fn release_conn(&mut self, uuid: &String, now: u64)
        requires
            old(self).inv(),
        ensures
            final(self).inv(),
            final(self)@.rules == old(self)@.rules,
            spec_live(old(self)@.store, uuid@, now) ==> final(self)@.store == old(
                self,
            )@.store.insert(
                uuid@,
                (ClientStateView { connected: false, ..old(self)@.store[uuid@] }),
            ) && final(self)@.live == old(self)@.live.remove(uuid@),
            !spec_live(old(self)@.store, uuid@, now) ==> final(self)@ == old(self)@,
    {
        self.store.release_conn(&mut self.liveness, uuid, now);
        proof {
            if !spec_live(old(self)@.store, uuid@, now) {
                assert(self@ =~= old(self)@);
            }
        }
    }

    /// Whether the identity has a live, connected session.
    pub fn is_connection_valid(&self, uuid: &String, now: u64) -> (r: bool)
        requires
            self.inv(),
        ensures
            r == (spec_live(self@.store, uuid@, now) && self@.store[uuid@].connected),
    {
        self.store.is_connection_valid(uuid, now)
    }
}

/// The per-call admission gate for one protected service. One interceptor
/// instance guards one logical service, named at construction.
#[derive(Clone)]
pub struct RateLimitInterceptor {
    /// The service this interceptor protects; its quota rule's name.
    pub rule_name: String,
}

impl RateLimitInterceptor {
    /// Build the interceptor for a named service.
    pub fn new(rule_name: String) -> (r: RateLimitInterceptor)
        ensures
            r.rule_name@ == rule_name@,
    {
        RateLimitInterceptor { rule_name }
    }

    /// Decide one call: validate the identity and address shapes, then
    /// admit or reject against the session store, exactly as
    /// [`spec_intercept`] states. Malformed calls are rejected before any
    /// session state is touched.
    pub fn call(&self, gw: &mut Gateway, uuid: Option<&String>, ip: &String, now: u64) -> (r:
        Result<(), GateError>)
        requires
            old(gw).inv(),
        ensures
            final(gw).inv(),
            final(gw)@ == spec_intercept(
                old(gw)@,
                self.rule_name@,
                match uuid {
                    Some(u) => Some(u@),
                    None => None,
                },
                ip@,
                now,
            ).0,
            r == spec_intercept(
                old(gw)@,
                self.rule_name@,
                match uuid {
                    Some(u) => Some(u@),
                    None => None,
                },
                ip@,
                now,
            ).1,
    {
        let u = match uuid {
            None => {
                return Err(GateError::InvalidArgument);
            },
            Some(u) => u,
        };
        if u.as_str().unicode_len() != IDENTITY_LEN {
            return Err(GateError::InvalidArgument);
        }
        let ip_len = ip.as_str().unicode_len();
        if ip_len < ADDR_MIN_LEN || ip_len > ADDR_MAX_LEN {
            return Err(GateError::InvalidArgument);
        }
        let ghost gw0 = old(gw)@;
        let ghost uv = u@;
        let ghost service = self.rule_name@;
        if gw.store.contains_live(u, now) {
            match gw.store.consume_token(u, &self.rule_name, &gw.rules, now) {
                Err(e) => {
                    proof {
                        if e == GateError::RuleNotFound {
                            assert(gw@ =~= spec_intercept(gw0, service, Some(uv), ip@, now).0);
                        } else {
                            assert(gw@ =~= spec_intercept(gw0, service, Some(uv), ip@, now).0);
                        }
                    }
                    Err(e.to_boundary())
                },
                Ok(()) => {
                    let ghost s = gw0.store[uv];
                    let ghost before = ClientState::bucket_before(
                        s,
                        gw0.rules[service],
                        service,
                        now,
                    );
                    let ghost s1 = ClientStateView {
                        buckets: s.buckets.insert(service, before.spec_consume(now).1),
                        ..s
                    };
                    proof {
                        assert(gw@.store =~= gw0.store.insert(uv, s1));
                        assert(spec_live(gw@.store, uv, now));
                        assert(spec_entry_or_fresh(gw@.store, uv, now) == s1);
                    }
                    let r = match gw.store.update_client_state(&mut gw.liveness, u, ip, now) {
                        Ok(()) => Ok(()),
                        Err(e) => Err(e.to_boundary()),
                    };
                    proof {
                        assert(gw@ =~= spec_intercept(gw0, service, Some(uv), ip@, now).0);
                    }
                    r
                },
            }
        } else {
            let r = match gw.store.init_client_state(
                &mut gw.liveness,
                u,
                ip,
                &self.rule_name,
                &gw.rules,
                now,
            ) {
                Ok(()) => Ok(()),
                Err(e) => Err(e.to_boundary()),
            };
            proof {
                assert(gw@ =~= spec_intercept(gw0, service, Some(uv), ip@, now).0);
            }
            r
        }
    }
}

} // verus!
