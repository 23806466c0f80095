//! Unit tests for the gateway's parts: rules, buckets, sessions, the
//! liveness index, the error taxonomy, and the wire-enum helper.

use edge_gate::ankr::blockchain_to_str;
use edge_gate::ankr_types::BlockReference;
use edge_gate::bucket::RateBucket;
use edge_gate::errors::GateError;
use edge_gate::liveness::LivenessIndex;
use edge_gate::rules::{RuleRegistry, ServiceRule};
use edge_gate::session::ClientState;

#[test]
fn default_rules_match_the_shipped_table() {
    let rules = RuleRegistry::with_default_rules();
    let ankr = rules.get(&String::from("ankr")).unwrap();
    assert_eq!(ankr.refill_every, 360); // ten per hour
    assert_eq!(ankr.burst, 3);
    assert_eq!(ankr.stream_limit, 50);

    let metadata = rules.get(&String::from("metadata")).unwrap();
    assert_eq!(metadata.refill_every, 3); // twenty per minute
    assert_eq!(metadata.burst, 5);
    assert_eq!(metadata.stream_limit, 100);

    let standard = rules.get(&String::from("standard")).unwrap();
    assert_eq!(standard.refill_every, 6); // ten per minute
    assert_eq!(standard.burst, 5);
    assert_eq!(standard.stream_limit, 200);

    assert!(rules.get(&String::from("does-not-exist")).is_none());
}

#[test]
fn register_replaces_an_existing_rule() {
    let mut rules = RuleRegistry::new();
    rules.register(
        String::from("svc"),
        ServiceRule { refill_every: 5, burst: 2, stream_limit: 1 },
    );
    rules.register(
        String::from("svc"),
        ServiceRule { refill_every: 7, burst: 9, stream_limit: 4 },
    );
    let got = rules.get(&String::from("svc")).unwrap();
    assert_eq!(got.refill_every, 7);
    assert_eq!(got.burst, 9);
}

#[test]
fn bucket_starts_full_and_spends_to_zero() {
    let rule = ServiceRule { refill_every: 10, burst: 3, stream_limit: 1 };
    let mut b = RateBucket::new(&rule, 0);
    assert_eq!(b.tokens, 3);
    assert!(b.try_consume(0));
    assert!(b.try_consume(0));
    assert!(b.try_consume(0));
    assert!(!b.try_consume(0));
    assert_eq!(b.tokens, 0);
}

#[test]
fn bucket_refills_one_token_per_interval() {
    let rule = ServiceRule { refill_every: 10, burst: 3, stream_limit: 1 };
    let mut b = RateBucket::new(&rule, 0);
    assert!(b.try_consume(0));
    assert!(b.try_consume(0));
    assert!(b.try_consume(0));
    // Nine units in, nothing has come back.
    assert!(!b.try_consume(9));
    // At ten units one token is back; twenty-five units gives two.
    assert!(b.try_consume(10));
    assert!(!b.try_consume(11));
    let mut c = RateBucket::new(&rule, 0);
    assert!(c.try_consume(0));
    assert!(c.try_consume(0));
    assert!(c.try_consume(0));
    assert!(c.try_consume(25));
    assert!(c.try_consume(25));
    assert!(!c.try_consume(25));
}

#[test]
fn bucket_refill_is_capped_at_capacity() {
    let rule = ServiceRule { refill_every: 10, burst: 3, stream_limit: 1 };
    let mut b = RateBucket::new(&rule, 0);
    assert!(b.try_consume(0));
    // A very long wait regains at most the capacity.
    assert!(b.try_consume(10_000));
    assert_eq!(b.tokens, 2);
    assert_eq!(b.capacity, 3);
}

#[test]
fn bucket_ignores_a_clock_running_backwards() {
    let rule = ServiceRule { refill_every: 10, burst: 2, stream_limit: 1 };
    let mut b = RateBucket::new(&rule, 100);
    assert!(b.try_consume(100));
    assert!(b.try_consume(50));
    assert!(!b.try_consume(7));
}

#[test]
fn unknown_service_yields_rule_not_found() {
    let rules = RuleRegistry::with_default_rules();
    let mut cs = ClientState::new(0);
    assert_eq!(
        cs.get_or_create_bucket(&String::from("does-not-exist"), &rules, 0),
        Err(GateError::RuleNotFound)
    );
    assert_eq!(
        cs.try_consume_token(&String::from("does-not-exist"), &rules, 0),
        Err(GateError::RuleNotFound)
    );
}

#[test]
fn one_bucket_per_service() {
    let rules = RuleRegistry::with_default_rules();
    let mut cs = ClientState::new(0);
    assert_eq!(cs.get_or_create_bucket(&String::from("ankr"), &rules, 0), Ok(()));
    assert_eq!(cs.get_or_create_bucket(&String::from("ankr"), &rules, 5), Ok(()));
    assert_eq!(cs.bucket_count(), 1);
    assert_eq!(cs.get_or_create_bucket(&String::from("standard"), &rules, 5), Ok(()));
    assert_eq!(cs.bucket_count(), 2);
}

#[test]
fn session_consumption_spends_the_burst() {
    let rules = RuleRegistry::with_default_rules();
    let mut cs = ClientState::new(0);
    let svc = String::from("ankr");
    assert_eq!(cs.try_consume_token(&svc, &rules, 0), Ok(()));
    assert_eq!(cs.try_consume_token(&svc, &rules, 0), Ok(()));
    assert_eq!(cs.try_consume_token(&svc, &rules, 0), Ok(()));
    assert_eq!(
        cs.try_consume_token(&svc, &rules, 0),
        Err(GateError::QuotaExceeded)
    );
    assert_eq!(cs.bucket_tokens(&svc), Some(0));
}

#[test]
fn address_binding_is_first_writer_wins() {
    let mut cs = ClientState::new(0);
    let a = String::from("10.0.0.1");
    let b = String::from("10.0.0.2");
    assert!(cs.bound_ip().is_none());
    assert_eq!(cs.bind_or_verify_address(&a), Ok(()));
    assert_eq!(cs.bind_or_verify_address(&a), Ok(()));
    assert_eq!(
        cs.bind_or_verify_address(&b),
        Err(GateError::AddressMismatch)
    );
    assert_eq!(cs.bound_ip(), Some(&a));
}

#[test]
fn last_active_never_moves_backwards() {
    let mut cs = ClientState::new(10);
    cs.update_last_active(50);
    assert_eq!(cs.last_active(), 50);
    cs.update_last_active(20);
    assert_eq!(cs.last_active(), 50);
    assert!(!cs.is_expired(650, 600));
    assert!(cs.is_expired(651, 600));
}

#[test]
fn connection_flag_bookkeeping() {
    let mut cs = ClientState::new(0);
    assert!(!cs.is_connected());
    cs.mark_connected();
    assert!(cs.is_connected());
    cs.mark_disconnected();
    assert!(!cs.is_connected());
}

#[test]
fn liveness_index_tracks_and_prunes() {
    let mut idx = LivenessIndex::new();
    let u = String::from("u-1");
    let v = String::from("u-2");
    idx.touch(&u, 10);
    idx.touch(&v, 100);
    idx.touch(&u, 40); // re-touch replaces the stamp
    assert_eq!(idx.last_seen(&u), Some(40));
    assert_eq!(idx.len(), 2);

    idx.prune(105, 60);
    assert_eq!(idx.last_seen(&u), None); // 105 > 40 + 60: stale
    assert_eq!(idx.last_seen(&v), Some(100));

    idx.remove(&v);
    assert_eq!(idx.len(), 0);
}

#[test]
fn boundary_error_mapping() {
    assert_eq!(GateError::RuleNotFound.to_boundary(), GateError::Internal);
    assert_eq!(
        GateError::AddressMismatch.to_boundary(),
        GateError::PermissionDenied
    );
    assert_eq!(
        GateError::QuotaExceeded.to_boundary(),
        GateError::ResourceExhausted
    );
    assert_eq!(
        GateError::InvalidArgument.to_boundary(),
        GateError::InvalidArgument
    );
    assert_eq!(GateError::Internal.to_boundary(), GateError::Internal);
}

#[test]
fn blockchain_codes_map_to_chain_names() {
    assert_eq!(blockchain_to_str(&1), Some(String::from("eth")));
    assert_eq!(blockchain_to_str(&2), Some(String::from("bsc")));
    assert_eq!(blockchain_to_str(&3), Some(String::from("arbitrum")));
    assert_eq!(blockchain_to_str(&4), Some(String::from("optimism")));
    assert_eq!(blockchain_to_str(&5), Some(String::from("base")));
    assert_eq!(blockchain_to_str(&6), Some(String::from("polygon")));
    // The undefined marker and out-of-range codes name no chain.
    assert_eq!(blockchain_to_str(&0), None);
    assert_eq!(blockchain_to_str(&7), None);
    assert_eq!(blockchain_to_str(&-1), None);
}

#[test]
fn block_reference_defaults_to_latest() {
    assert!(matches!(BlockReference::default(), BlockReference::Latest));
}
