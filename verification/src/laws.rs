//! Gate-level laws, proved against the functional model
//! [`crate::admission::spec_intercept`].
//!
//! Each proof function here states a property of whole call sequences that
//! no single function's contract can carry alone.

use vstd::prelude::*;

use crate::admission::{spec_intercept, GatewayView, ADDR_MAX_LEN, ADDR_MIN_LEN, IDENTITY_LEN};
use crate::errors::GateError;
use crate::session::ClientState;
use crate::store::{spec_live, spec_provisioned, IDLE_WINDOW};

verus! {

/// Sticky binding: a fresh client whose first call binds it to address
/// `addr_a` is refused with `PermissionDenied` when a later call arrives
/// from a different address before idle expiry, and the binding is never
/// silently rebound. (A client that has already exhausted its quota is
/// turned away with `ResourceExhausted` before the address is examined;
/// the premise on the bucket leaves that case out.)
pub proof fn law_sticky_binding(
    gw0: GatewayView,
    service: Seq<char>,
    uuid: Seq<char>,
    addr_a: Seq<char>,
    addr_b: Seq<char>,
    t1: u64,
    t2: u64,
)
    requires
        uuid.len() == IDENTITY_LEN,
        ADDR_MIN_LEN <= addr_a.len() <= ADDR_MAX_LEN,
        ADDR_MIN_LEN <= addr_b.len() <= ADDR_MAX_LEN,
        addr_a != addr_b,
        !spec_live(gw0.store, uuid, t1),
        gw0.rules.dom().contains(service),
        t1 <= t2 <= t1 + IDLE_WINDOW,
        ({
            let gw1 = spec_intercept(gw0, service, Some(uuid), addr_a, t1).0;
            ClientState::bucket_before(
                gw1.store[uuid],
                gw1.rules[service],
                service,
                t2,
            ).spec_consume(t2).0
        }),
    ensures
        spec_intercept(gw0, service, Some(uuid), addr_a, t1).1 is Ok,
        ({
            let gw1 = spec_intercept(gw0, service, Some(uuid), addr_a, t1).0;
            spec_intercept(gw1, service, Some(uuid), addr_b, t2).1 == Err::<(), GateError>(
                GateError::PermissionDenied,
            )
        }),
        ({
            let gw1 = spec_intercept(gw0, service, Some(uuid), addr_a, t1).0;
            let gw2 = spec_intercept(gw1, service, Some(uuid), addr_b, t2).0;
            gw2.store[uuid].bound_ip == Some(addr_a)
        }),
{
    let gw1 = spec_intercept(gw0, service, Some(uuid), addr_a, t1).0;
    let s = gw1.store[uuid];
    assert(s == spec_provisioned(addr_a, service, gw0.rules[service], t1));
    assert(s.last_active == t1);
    assert(spec_live(gw1.store, uuid, t2));
}

/// Idle expiry resets the binding: when no call for the identity has
/// arrived for more than the idle window, the next call is treated as
/// first contact. It is admitted, the new address becomes the bound
/// address, and the session keeps no memory of the old binding or of any
/// accumulated bucket state.
pub proof fn law_idle_expiry_resets_binding(
    gw: GatewayView,
    service: Seq<char>,
    uuid: Seq<char>,
    addr_b: Seq<char>,
    now: u64,
)
    requires
        uuid.len() == IDENTITY_LEN,
        ADDR_MIN_LEN <= addr_b.len() <= ADDR_MAX_LEN,
        gw.rules.dom().contains(service),
        gw.store.dom().contains(uuid) ==> now > gw.store[uuid].last_active + IDLE_WINDOW,
    ensures
        spec_intercept(gw, service, Some(uuid), addr_b, now).1 is Ok,
        spec_intercept(gw, service, Some(uuid), addr_b, now).0.store[uuid] == spec_provisioned(
            addr_b,
            service,
            gw.rules[service],
            now,
        ),
{
    assert(!spec_live(gw.store, uuid, now));
}

/// The gateway state after `n` identical calls for one identity.
pub open spec fn spec_intercept_n(
    gw: GatewayView,
    service: Seq<char>,
    uuid: Seq<char>,
    ip: Seq<char>,
    now: u64,
    n: nat,
) -> GatewayView
    decreases n,
{
    if n == 0 {
        gw
    } else {
        spec_intercept(
            spec_intercept_n(gw, service, uuid, ip, now, (n - 1) as nat),
            service,
            Some(uuid),
            ip,
            now,
        ).0
    }
}

/// Exactly-once construction: however many first-contact calls race in
/// for one brand-new identity, the store ends up with exactly one session
/// for it, holding exactly one bucket for the guarded service — never a
/// duplicate session and never a rebuilt bucket.
pub proof fn law_exactly_once_construction(
    gw0: GatewayView,
    service: Seq<char>,
    uuid: Seq<char>,
    ip: Seq<char>,
    now: u64,
    n: nat,
)
    requires
        uuid.len() == IDENTITY_LEN,
        ADDR_MIN_LEN <= ip.len() <= ADDR_MAX_LEN,
        !spec_live(gw0.store, uuid, now),
        gw0.rules.dom().contains(service),
        n >= 1,
    ensures
        ({
            let gwn = spec_intercept_n(gw0, service, uuid, ip, now, n);
            &&& gwn.store.dom() == gw0.store.dom().insert(uuid)
            &&& gwn.store[uuid].buckets.dom() == Set::<Seq<char>>::empty().insert(service)
            &&& gwn.store[uuid].bound_ip == Some(ip)
            &&& gwn.store[uuid].last_active == now
            &&& gwn.rules == gw0.rules
        }),
    decreases n,
{
    if n == 1 {
        let gw1 = spec_intercept_n(gw0, service, uuid, ip, now, 1);
        assert(gw1 == spec_intercept(gw0, service, Some(uuid), ip, now).0);
        assert(gw1.store == gw0.store.insert(
            uuid,
            spec_provisioned(ip, service, gw0.rules[service], now),
        ));
        assert(gw1.store.dom() =~= gw0.store.dom().insert(uuid));
        assert(gw1.store[uuid].buckets.dom() =~= Set::<Seq<char>>::empty().insert(service));
    } else {
        law_exactly_once_construction(gw0, service, uuid, ip, now, (n - 1) as nat);
        let prev = spec_intercept_n(gw0, service, uuid, ip, now, (n - 1) as nat);
        let gwn = spec_intercept_n(gw0, service, uuid, ip, now, n);
        assert(gwn == spec_intercept(prev, service, Some(uuid), ip, now).0);
        let s = prev.store[uuid];
        assert(spec_live(prev.store, uuid, now));
        assert(s.buckets.dom().contains(service));
        let before = ClientState::bucket_before(s, prev.rules[service], service, now);
        let granted = before.spec_consume(now).0;
        let after = before.spec_consume(now).1;
        let s1 = crate::session::ClientStateView {
            buckets: s.buckets.insert(service, after),
            ..s
        };
        assert(s1.buckets.dom() =~= s.buckets.dom());
        if granted {
            assert(s1.bound_ip == Some(ip));
            let s2 = crate::store::spec_admit(s1, ip, now).0;
            assert(s2.buckets == s1.buckets);
            assert(s2.last_active == now);
            assert(gwn.store == prev.store.insert(uuid, s1).insert(uuid, s2));
            assert(gwn.store.dom() =~= prev.store.dom().insert(uuid));
            assert(gwn.store.dom() =~= gw0.store.dom().insert(uuid));
        } else {
            assert(gwn.store == prev.store.insert(uuid, s1));
            assert(gwn.store.dom() =~= prev.store.dom().insert(uuid));
            assert(gwn.store.dom() =~= gw0.store.dom().insert(uuid));
        }
    }
}

/// The gateway state after one admission call per entry of `times`,
/// earliest entry first.
pub open spec fn spec_intercept_at(
    gw: GatewayView,
    service: Seq<char>,
    uuid: Seq<char>,
    ip: Seq<char>,
    times: Seq<u64>,
) -> GatewayView
    decreases times.len(),
{
    if times.len() == 0 {
        gw
    } else {
        spec_intercept_at(
            spec_intercept(gw, service, Some(uuid), ip, times.first()).0,
            service,
            uuid,
            ip,
            times.drop_first(),
        )
    }
}

/// Whether every one of the calls at `times` is admitted.
pub open spec fn all_admitted(
    gw: GatewayView,
    service: Seq<char>,
    uuid: Seq<char>,
    ip: Seq<char>,
    times: Seq<u64>,
) -> bool
    decreases times.len(),
{
    times.len() == 0 || (spec_intercept(gw, service, Some(uuid), ip, times.first()).1 is Ok
        && all_admitted(
        spec_intercept(gw, service, Some(uuid), ip, times.first()).0,
        service,
        uuid,
        ip,
        times.drop_first(),
    ))
}

/// Within one refill window the bucket regains nothing: a bound, stored
/// client gets as many calls admitted as it has tokens, and each call
/// spends exactly one.
#[verifier::rlimit(30)]
proof fn lemma_burst_window_at_gate(
    gw: GatewayView,
    service: Seq<char>,
    uuid: Seq<char>,
    ip: Seq<char>,
    t0: u64,
    times: Seq<u64>,
)
    requires
        uuid.len() == IDENTITY_LEN,
        ADDR_MIN_LEN <= ip.len() <= ADDR_MAX_LEN,
        gw.rules.dom().contains(service),
        gw.store.dom().contains(uuid),
        gw.store[uuid].bound_ip == Some(ip),
        gw.store[uuid].buckets.dom().contains(service),
        gw.store[uuid].buckets[service].wf(),
        gw.store[uuid].buckets[service].refill_every == gw.rules[service].refill_every,
        t0 <= gw.store[uuid].buckets[service].last_refill < t0
            + gw.store[uuid].buckets[service].refill_every,
        times.len() <= gw.store[uuid].buckets[service].tokens,
        t0 <= gw.store[uuid].last_active,
        forall|i: int| 0 <= i < times.len() ==> t0 <= #[trigger] times[i] < t0
            + gw.rules[service].refill_every,
        forall|i: int| 0 <= i < times.len() ==> #[trigger] times[i] <= t0 + IDLE_WINDOW,
    ensures
        all_admitted(gw, service, uuid, ip, times),
        ({
            let gwn = spec_intercept_at(gw, service, uuid, ip, times);
            &&& gwn.rules == gw.rules
            &&& gwn.store.dom() == gw.store.dom()
            &&& gwn.store[uuid].bound_ip == Some(ip)
            &&& gwn.store[uuid].buckets.dom() == gw.store[uuid].buckets.dom()
            &&& gwn.store[uuid].buckets[service].wf()
            &&& gwn.store[uuid].buckets[service].refill_every == gw.rules[service].refill_every
            &&& gwn.store[uuid].buckets[service].capacity == gw.store[uuid].buckets[
                service
            ].capacity
            &&& gwn.store[uuid].buckets[service].tokens == gw.store[uuid].buckets[service].tokens
                - times.len()
            &&& t0 <= gwn.store[uuid].buckets[service].last_refill < t0 + gw.rules[
                service
            ].refill_every
            &&& t0 <= gwn.store[uuid].last_active
        }),
    decreases times.len(),
{
    if times.len() > 0 {
        let t = times.first();
        assert(t0 <= times[0] < t0 + gw.rules[service].refill_every);
        assert(times[0] <= t0 + IDLE_WINDOW);
        let s = gw.store[uuid];
        let b = s.buckets[service];
        assert(spec_live(gw.store, uuid, t));
        let before = ClientState::bucket_before(s, gw.rules[service], service, t);
        assert(before == b);
        let refilled = b.spec_refill(t);
        if t > b.last_refill {
            vstd::arithmetic::div_mod::lemma_basic_div(
                (t - b.last_refill) as int,
                b.refill_every as int,
            );
            let gained = ((t - b.last_refill) as int) / (b.refill_every as int);
            assert(gained == 0);
            vstd::arithmetic::mul::lemma_mul_basics(b.refill_every as int);
            assert(gained * (b.refill_every as int) == 0);
            if b.tokens + gained >= b.capacity {
                assert(refilled.last_refill == t);
            } else {
                assert(refilled.last_refill == b.last_refill);
            }
        } else {
            assert(refilled == b);
        }
        assert(refilled.tokens == b.tokens);
        assert(t0 <= refilled.last_refill < t0 + b.refill_every);
        assert(before.spec_consume(t).0);
        let after = before.spec_consume(t).1;
        let s1 = crate::session::ClientStateView {
            buckets: s.buckets.insert(service, after),
            ..s
        };
        let s2 = crate::store::spec_admit(s1, ip, t).0;
        let gw1 = spec_intercept(gw, service, Some(uuid), ip, t).0;
        assert(gw1.store == gw.store.insert(uuid, s1).insert(uuid, s2));
        assert(gw1.store.dom() =~= gw.store.dom());
        assert(gw1.store[uuid] == s2);
        assert(s2.buckets == s1.buckets);
        assert(gw1.store[uuid].buckets[service] == after);
        assert(after.last_refill == refilled.last_refill);
        assert(t0 <= after.last_refill < t0 + b.refill_every);
        assert(t0 <= s2.last_active);
        assert(gw1.store[uuid].buckets.dom() =~= s.buckets.dom());
        assert(forall|i: int| 0 <= i < times.drop_first().len() ==> t0
            <= #[trigger] times.drop_first()[i] < t0 + gw.rules[service].refill_every);
        assert(forall|i: int| 0 <= i < times.drop_first().len()
            ==> #[trigger] times.drop_first()[i] <= t0 + IDLE_WINDOW);
        lemma_burst_window_at_gate(gw1, service, uuid, ip, t0, times.drop_first());
    }
}

/// Burst then deny, at the admission boundary: a fresh client's first
/// contact is admitted and provisions a full bucket without spending a
/// token; a run of `burst` further calls inside one refill window is
/// admitted in full; and one more call inside the window is refused with
/// `ResourceExhausted`.
pub proof fn law_burst_then_deny_at_gate(
    gw0: GatewayView,
    service: Seq<char>,
    uuid: Seq<char>,
    ip: Seq<char>,
    t0: u64,
    times: Seq<u64>,
    extra: u64,
)
    requires
        uuid.len() == IDENTITY_LEN,
        ADDR_MIN_LEN <= ip.len() <= ADDR_MAX_LEN,
        !spec_live(gw0.store, uuid, t0),
        gw0.rules.dom().contains(service),
        gw0.rules[service].wf(),
        times.len() == gw0.rules[service].burst,
        forall|i: int| 0 <= i < times.len() ==> t0 <= #[trigger] times[i] < t0
            + gw0.rules[service].refill_every,
        forall|i: int| 0 <= i < times.len() ==> #[trigger] times[i] <= t0 + IDLE_WINDOW,
        t0 <= extra < t0 + gw0.rules[service].refill_every,
        extra <= t0 + IDLE_WINDOW,
    ensures
        spec_intercept(gw0, service, Some(uuid), ip, t0).1 is Ok,
        ({
            let gw1 = spec_intercept(gw0, service, Some(uuid), ip, t0).0;
            all_admitted(gw1, service, uuid, ip, times)
        }),
        ({
            let gw1 = spec_intercept(gw0, service, Some(uuid), ip, t0).0;
            let gwn = spec_intercept_at(gw1, service, uuid, ip, times);
            spec_intercept(gwn, service, Some(uuid), ip, extra).1 == Err::<(), GateError>(
                GateError::ResourceExhausted,
            )
        }),
{
    let rule = gw0.rules[service];
    let gw1 = spec_intercept(gw0, service, Some(uuid), ip, t0).0;
    assert(gw1.store[uuid] == spec_provisioned(ip, service, rule, t0));
    lemma_burst_window_at_gate(gw1, service, uuid, ip, t0, times);
    let gwn = spec_intercept_at(gw1, service, uuid, ip, times);
    let bn = gwn.store[uuid].buckets[service];
    assert(bn.tokens == 0);
    assert(spec_live(gwn.store, uuid, extra));
    let refilled = bn.spec_refill(extra);
    if extra > bn.last_refill {
        vstd::arithmetic::div_mod::lemma_basic_div(
            (extra - bn.last_refill) as int,
            bn.refill_every as int,
        );
        let gained = ((extra - bn.last_refill) as int) / (bn.refill_every as int);
        assert(gained == 0);
        vstd::arithmetic::mul::lemma_mul_basics(bn.refill_every as int);
        assert(gained * (bn.refill_every as int) == 0);
    }
    assert(refilled.tokens == 0);
}

} // verus!
