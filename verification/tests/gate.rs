//! Scenario tests for the admission gate: quotas, sticky binding, idle
//! expiry, provisioning, and malformed-input rejection.

use edge_gate::admission::{Gateway, RateLimitInterceptor};
use edge_gate::errors::GateError;
use edge_gate::rules::RuleRegistry;

fn uuid_of(c: char) -> String {
    std::iter::repeat(c).take(128).collect()
}

fn gate() -> Gateway {
    Gateway::new(RuleRegistry::with_default_rules())
}

fn ankr_interceptor() -> RateLimitInterceptor {
    RateLimitInterceptor::new(String::from("ankr"))
}

#[test]
fn burst_then_deny() {
    // Quota for "ankr": burst 3, one token back per 360 units.
    let mut gw = gate();
    let icpt = ankr_interceptor();
    let u = uuid_of('a');
    let ip = String::from("10.0.0.1");

    // First contact provisions and admits without consuming a token.
    assert_eq!(icpt.call(&mut gw, Some(&u), &ip, 0), Ok(()));
    // The burst of three is admitted...
    assert_eq!(icpt.call(&mut gw, Some(&u), &ip, 1), Ok(()));
    assert_eq!(icpt.call(&mut gw, Some(&u), &ip, 2), Ok(()));
    assert_eq!(icpt.call(&mut gw, Some(&u), &ip, 3), Ok(()));
    // ...and the fourth call within the window is refused.
    assert_eq!(
        icpt.call(&mut gw, Some(&u), &ip, 4),
        Err(GateError::ResourceExhausted)
    );
}

#[test]
fn provisioning_call_consumes_no_token() {
    let mut gw = gate();
    let icpt = ankr_interceptor();
    let u = uuid_of('b');
    let ip = String::from("10.0.0.2");
    assert_eq!(icpt.call(&mut gw, Some(&u), &ip, 0), Ok(()));
    // The bucket still holds its full burst after first contact.
    assert_eq!(
        gw.store().bucket_tokens(&u, &String::from("ankr")),
        Some(3)
    );
}

#[test]
fn sticky_binding() {
    let mut gw = gate();
    let icpt = ankr_interceptor();
    let u = uuid_of('c');
    let addr_a = String::from("10.0.0.1");
    let addr_b = String::from("10.0.0.2");

    assert_eq!(icpt.call(&mut gw, Some(&u), &addr_a, 0), Ok(()));
    // A call from another address before idle expiry is refused...
    assert_eq!(
        icpt.call(&mut gw, Some(&u), &addr_b, 10),
        Err(GateError::PermissionDenied)
    );
    // ...and the binding is not silently replaced.
    assert_eq!(gw.store().bound_ip_of(&u), Some(addr_a));
}

#[test]
fn binding_holds_at_window_edge() {
    let mut gw = gate();
    let icpt = ankr_interceptor();
    let u = uuid_of('d');
    let addr_a = String::from("10.0.0.1");
    let addr_b = String::from("10.0.0.2");
    assert_eq!(icpt.call(&mut gw, Some(&u), &addr_a, 0), Ok(()));
    // Exactly 600 units later the entry is still live.
    assert_eq!(
        icpt.call(&mut gw, Some(&u), &addr_b, 600),
        Err(GateError::PermissionDenied)
    );
}

#[test]
fn idle_expiry_resets_binding() {
    let mut gw = gate();
    let icpt = ankr_interceptor();
    let u = uuid_of('e');
    let addr_a = String::from("10.0.0.1");
    let addr_b = String::from("10.0.0.2");

    assert_eq!(icpt.call(&mut gw, Some(&u), &addr_a, 0), Ok(()));
    // More than 600 idle units later, the old session is gone: the call
    // from the new address is admitted and the new address is bound.
    assert_eq!(icpt.call(&mut gw, Some(&u), &addr_b, 601), Ok(()));
    assert_eq!(gw.store().bound_ip_of(&u), Some(addr_b));
    // The recreated session has a full, fresh bucket.
    assert_eq!(
        gw.store().bucket_tokens(&u, &String::from("ankr")),
        Some(3)
    );
}

#[test]
fn exactly_once_construction() {
    let mut gw = gate();
    let icpt = ankr_interceptor();
    let u = uuid_of('f');
    let ip = String::from("10.0.0.3");

    for _ in 0..50 {
        let _ = icpt.call(&mut gw, Some(&u), &ip, 0);
    }
    // Exactly one session exists for the identity...
    assert_eq!(gw.store().session_count(), 1);
    // ...with exactly one bucket for the guarded service, not a rebuilt
    // one: its count shows the three burst tokens were spent once.
    assert_eq!(gw.store().bucket_tokens(&u, &String::from("ankr")), Some(0));
    assert_eq!(gw.liveness().len(), 1);
}

#[test]
fn unknown_service_at_the_gate() {
    let mut gw = gate();
    let icpt = RateLimitInterceptor::new(String::from("does-not-exist"));
    let u = uuid_of('g');
    let ip = String::from("10.0.0.4");
    // A missing rule is a configuration defect: Internal, not a crash.
    assert_eq!(
        icpt.call(&mut gw, Some(&u), &ip, 0),
        Err(GateError::Internal)
    );
    assert_eq!(gw.store().session_count(), 0);
}

#[test]
fn unknown_service_on_an_existing_session() {
    let mut gw = gate();
    let u = uuid_of('h');
    let ip = String::from("10.0.0.5");
    assert_eq!(ankr_interceptor().call(&mut gw, Some(&u), &ip, 0), Ok(()));
    let icpt = RateLimitInterceptor::new(String::from("does-not-exist"));
    assert_eq!(
        icpt.call(&mut gw, Some(&u), &ip, 1),
        Err(GateError::Internal)
    );
}

#[test]
fn liveness_pruning_keeps_session_state() {
    let mut gw = gate();
    let icpt = ankr_interceptor();
    let u = uuid_of('i');
    let ip = String::from("10.0.0.6");

    assert_eq!(icpt.call(&mut gw, Some(&u), &ip, 0), Ok(()));
    assert_eq!(icpt.call(&mut gw, Some(&u), &ip, 1), Ok(()));
    let tokens_before = gw.store().bucket_tokens(&u, &String::from("ankr"));

    // 100 units later the sweeper finds the entry stale (threshold 60)
    // and prunes the liveness index only.
    gw.cleanup_expired_connections(100);
    assert_eq!(gw.liveness().len(), 0);
    assert_eq!(gw.liveness().last_seen(&u), None);

    // The session store is untouched: session, binding and bucket state.
    assert_eq!(gw.store().session_count(), 1);
    assert_eq!(gw.store().bound_ip_of(&u), Some(ip));
    assert_eq!(
        gw.store().bucket_tokens(&u, &String::from("ankr")),
        tokens_before
    );
}

#[test]
fn sweeper_keeps_fresh_entries() {
    let mut gw = gate();
    let icpt = ankr_interceptor();
    let u = uuid_of('j');
    let ip = String::from("10.0.0.7");
    assert_eq!(icpt.call(&mut gw, Some(&u), &ip, 100), Ok(()));
    // 60 units later the entry is exactly at the threshold: kept.
    gw.cleanup_expired_connections(160);
    assert_eq!(gw.liveness().last_seen(&u), Some(100));
    // One more unit and it is stale: pruned.
    gw.cleanup_expired_connections(161);
    assert_eq!(gw.liveness().last_seen(&u), None);
}

#[test]
fn malformed_identity_is_rejected_before_any_state() {
    let mut gw = gate();
    let icpt = ankr_interceptor();
    let ip = String::from("10.0.0.8");

    let short: String = std::iter::repeat('x').take(127).collect();
    let long: String = std::iter::repeat('x').take(129).collect();
    assert_eq!(
        icpt.call(&mut gw, Some(&short), &ip, 0),
        Err(GateError::InvalidArgument)
    );
    assert_eq!(
        icpt.call(&mut gw, Some(&long), &ip, 0),
        Err(GateError::InvalidArgument)
    );
    assert_eq!(
        icpt.call(&mut gw, None, &ip, 0),
        Err(GateError::InvalidArgument)
    );
    assert_eq!(gw.store().session_count(), 0);
    assert_eq!(gw.liveness().len(), 0);
}

#[test]
fn malformed_address_is_rejected_before_any_state() {
    let mut gw = gate();
    let icpt = ankr_interceptor();
    let u = uuid_of('k');

    let six = String::from("1.2.3."); // 6 characters: too short
    let forty_six: String = std::iter::repeat('9').take(46).collect();
    assert_eq!(
        icpt.call(&mut gw, Some(&u), &six, 0),
        Err(GateError::InvalidArgument)
    );
    assert_eq!(
        icpt.call(&mut gw, Some(&u), &forty_six, 0),
        Err(GateError::InvalidArgument)
    );
    // The length bounds themselves are accepted: 7 and 45 characters.
    let seven = String::from("1.2.3.4");
    assert_eq!(icpt.call(&mut gw, Some(&u), &seven, 0), Ok(()));
    assert_eq!(gw.store().session_count(), 1);
}

#[test]
fn disconnect_flips_flag_but_keeps_session() {
    let mut gw = gate();
    let icpt = ankr_interceptor();
    let u = uuid_of('l');
    let ip = String::from("10.0.0.9");

    assert_eq!(icpt.call(&mut gw, Some(&u), &ip, 0), Ok(()));
    assert!(gw.is_connection_valid(&u, 1));

    gw.release_conn(&u, 2);
    assert!(!gw.is_connection_valid(&u, 3));
    // The liveness index forgets the client; the store does not.
    assert_eq!(gw.liveness().last_seen(&u), None);
    assert_eq!(gw.store().session_count(), 1);
    assert_eq!(gw.store().bound_ip_of(&u), Some(ip.clone()));

    // A later call reconnects the same session under the same binding.
    assert_eq!(icpt.call(&mut gw, Some(&u), &ip, 4), Ok(()));
    assert!(gw.is_connection_valid(&u, 5));
}

#[test]
fn quota_recovers_after_refill_interval() {
    let mut gw = gate();
    let icpt = ankr_interceptor();
    let u = uuid_of('m');
    let ip = String::from("10.0.1.1");

    assert_eq!(icpt.call(&mut gw, Some(&u), &ip, 0), Ok(()));
    for t in 1..=3u64 {
        assert_eq!(icpt.call(&mut gw, Some(&u), &ip, t), Ok(()));
    }
    assert_eq!(
        icpt.call(&mut gw, Some(&u), &ip, 4),
        Err(GateError::ResourceExhausted)
    );
    // While the bucket sat full its refill clock slid to the first
    // consuming call at t=1, so one token is back 360 units after that.
    assert_eq!(
        icpt.call(&mut gw, Some(&u), &ip, 360),
        Err(GateError::ResourceExhausted)
    );
    assert_eq!(icpt.call(&mut gw, Some(&u), &ip, 361), Ok(()));
    assert_eq!(
        icpt.call(&mut gw, Some(&u), &ip, 362),
        Err(GateError::ResourceExhausted)
    );
}

#[test]
fn services_get_separate_buckets_in_one_session() {
    let mut gw = gate();
    let ankr = ankr_interceptor();
    let standard = RateLimitInterceptor::new(String::from("standard"));
    let u = uuid_of('n');
    let ip = String::from("10.0.1.2");

    assert_eq!(ankr.call(&mut gw, Some(&u), &ip, 0), Ok(()));
    // A call for a second service on the same session builds its own
    // bucket lazily and consumes from it, not from the first.
    assert_eq!(standard.call(&mut gw, Some(&u), &ip, 1), Ok(()));
    assert_eq!(gw.store().session_count(), 1);
    assert_eq!(gw.store().bucket_tokens(&u, &String::from("ankr")), Some(3));
    assert_eq!(
        gw.store().bucket_tokens(&u, &String::from("standard")),
        Some(4)
    );
}

#[test]
fn metadata_quota_allows_its_larger_burst() {
    let mut gw = gate();
    let icpt = RateLimitInterceptor::new(String::from("metadata"));
    let u = uuid_of('o');
    let ip = String::from("10.0.1.3");

    assert_eq!(icpt.call(&mut gw, Some(&u), &ip, 0), Ok(()));
    for _ in 0..5 {
        assert_eq!(icpt.call(&mut gw, Some(&u), &ip, 1), Ok(()));
    }
    // Burst five is spent; the sixth consuming call inside the three-unit
    // refill window is refused, and a call after it is admitted again.
    assert_eq!(
        icpt.call(&mut gw, Some(&u), &ip, 2),
        Err(GateError::ResourceExhausted)
    );
    assert_eq!(icpt.call(&mut gw, Some(&u), &ip, 4), Ok(()));
}
