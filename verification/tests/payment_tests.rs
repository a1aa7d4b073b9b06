use satsconnect_core::engine::LightningEngine;
use satsconnect_core::engine_cache::AsyncLightningEngine;
use satsconnect_core::payment_engine::PaymentProcessor as AsyncPaymentProcessor;
use satsconnect_core::payment_engine::PaymentStatus;
use satsconnect_core::payment_processor::PaymentProcessor;
use satsconnect_core::payment_processor::PaymentState;
use satsconnect_core::CoreError;

use sha2::Digest;

fn sha256_hex_of(input: &str) -> String {
    let mut hasher = sha2::Sha256::new();
    hasher.update(input.as_bytes());
    hex::encode(hasher.finalize())
}

#[test]
fn test_create_payment() {
    let mut processor = PaymentProcessor::new();
    let payment_hash = "test_hash_123".to_string();
    let amount_msat = 100000;
    let destination = "test_destination".to_string();

    let payment = processor
        .create_payment(payment_hash.clone(), amount_msat, destination, 0)
        .unwrap();

    assert_eq!(payment.payment_hash, payment_hash);
    assert_eq!(payment.amount_msat, amount_msat);
    assert_eq!(payment.state, PaymentState::Pending);
}

#[test]
fn test_update_payment_state() {
    let mut processor = PaymentProcessor::new();
    let payment_hash = "test_hash_456".to_string();

    processor
        .create_payment(payment_hash.clone(), 50000, "dest".to_string(), 0)
        .unwrap();

    processor
        .update_payment_state(&payment_hash, PaymentState::Succeeded, None, 3)
        .unwrap();

    let payment = processor.get_payment(&payment_hash).unwrap();
    assert_eq!(payment.state, PaymentState::Succeeded);
    assert!(payment.completed_at.is_some());
}

#[test]
fn test_payment_state_filters_and_duplicates() {
    let mut processor = PaymentProcessor::new();
    processor.create_payment("h1".to_string(), 1, "d".to_string(), 0).unwrap();
    processor.create_payment("h2".to_string(), 2, "d".to_string(), 0).unwrap();
    // Re-creating under the same hash replaces the record.
    processor.create_payment("h1".to_string(), 3, "d".to_string(), 1).unwrap();
    assert_eq!(processor.get_all_payments().len(), 2);
    assert_eq!(processor.get_payment("h1").unwrap().amount_msat, 3);
    processor.update_payment_state("h2", PaymentState::Failed, None, 2).unwrap();
    assert_eq!(processor.get_payments_by_state(PaymentState::Pending).len(), 1);
    assert_eq!(processor.get_payments_by_state(PaymentState::Failed).len(), 1);
    assert_eq!(
        processor.update_payment_state("missing", PaymentState::Failed, None, 2),
        Err(CoreError::NotFound)
    );
}

#[test]
fn test_process_and_cancel_payment() {
    let mut processor = PaymentProcessor::new();
    processor.create_payment("h1".to_string(), 1, "d".to_string(), 0).unwrap();
    let settled = processor.process_payment("h1", 5).unwrap();
    assert_eq!(settled.state, PaymentState::Succeeded);
    assert_eq!(settled.completed_at, Some(5));

    processor.create_payment("h2".to_string(), 2, "d".to_string(), 0).unwrap();
    processor.cancel_payment("h2", 6).unwrap();
    let cancelled = processor.get_payment("h2").unwrap();
    assert_eq!(cancelled.state, PaymentState::Failed);
    assert_eq!(
        cancelled.failure_reason.as_deref(),
        Some("Payment cancelled by user")
    );
}

#[test]
fn test_payment_creation() {
    let mut processor = AsyncPaymentProcessor::new();

    let payment = processor
        .process_payment(
            None,
            "wallet_123".to_string(),
            1000,
            "lnbc10n1...".to_string(),
            "Test payment".to_string(),
            0,
        )
        .unwrap();

    assert_eq!(payment.amount_sats, 1000);
    assert_eq!(payment.status, PaymentStatus::Pending);
    assert_eq!(payment.retry_count, 0);
    assert!(payment.payment_id.starts_with("pay_"));
    assert_eq!(payment.payment_id.chars().count(), 12);
}

#[test]
fn test_retry_bound() {
    // A payment whose every attempt fails is requeued for each of its three
    // budgeted retries and finalized on the fourth attempt, with the
    // counter stopped at the budget.
    let mut processor = AsyncPaymentProcessor::new();
    let payment = processor
        .process_payment(
            Some("pay_x".to_string()),
            "w".to_string(),
            10,
            "bad".to_string(),
            "d".to_string(),
            0,
        )
        .unwrap();
    assert_eq!(payment.status, PaymentStatus::Pending);

    let mut attempts = 0;
    loop {
        processor.begin_attempt("pay_x", attempts).unwrap();
        let requeued = processor
            .record_attempt_failure("pay_x", "runtime failure".to_string(), attempts)
            .unwrap();
        attempts += 1;
        if !requeued {
            break;
        }
        let record = processor.get_payment_status("pay_x").unwrap();
        assert_eq!(record.status, PaymentStatus::Retrying);
        assert_eq!(record.retry_count, attempts as u32);
    }

    assert_eq!(attempts, 4);
    let record = processor.get_payment_status("pay_x").unwrap();
    assert_eq!(record.status, PaymentStatus::Failed);
    assert_eq!(record.retry_count, 3);
    assert_eq!(record.error_message.as_deref(), Some("runtime failure"));

    // The payment is terminal: no further attempt may touch it.
    assert_eq!(
        processor.begin_attempt("pay_x", 9),
        Err(CoreError::Validation)
    );
    assert_eq!(
        processor.record_attempt_failure("pay_x", "late".to_string(), 9),
        Err(CoreError::Validation)
    );
}

#[test]
fn test_retry_queue_drain() {
    let mut processor = AsyncPaymentProcessor::new();
    processor
        .process_payment(Some("p1".to_string()), "w".to_string(), 1, "i".to_string(), "d".to_string(), 0)
        .unwrap();
    processor.begin_attempt("p1", 0).unwrap();
    // The first failure queues a retry due five seconds later.
    processor.record_attempt_failure("p1", "e".to_string(), 100).unwrap();

    assert!(processor.drain_due_retries(104).is_empty());
    let due = processor.drain_due_retries(105);
    assert_eq!(due.len(), 1);
    assert_eq!(due[0].payment_id, "p1");
    assert_eq!(due[0].retry_count, 1);
    assert_eq!(due[0].next_retry_at, 105);
    assert!(processor.drain_due_retries(1000).is_empty());
}

#[test]
fn test_payment_success_path_and_metrics() {
    let mut processor = AsyncPaymentProcessor::new();
    processor
        .process_payment(Some("p1".to_string()), "w".to_string(), 1, "i".to_string(), "d".to_string(), 0)
        .unwrap();
    processor
        .process_payment(Some("p2".to_string()), "w".to_string(), 2, "i".to_string(), "d".to_string(), 0)
        .unwrap();
    processor.begin_attempt("p1", 1).unwrap();
    processor
        .record_attempt_success("p1", "hash_abc".to_string(), 2)
        .unwrap();

    let p1 = processor.get_payment_status("p1").unwrap();
    assert_eq!(p1.status, PaymentStatus::Succeeded);
    assert_eq!(p1.payment_hash, "hash_abc");

    let metrics = processor.get_metrics();
    assert_eq!(metrics.total_payments, 2);
    assert_eq!(metrics.succeeded_payments, 1);
    assert_eq!(metrics.pending_payments, 1);
    assert_eq!(metrics.success_rate_percent, 50);
    assert_eq!(processor.get_wallet_payments("w").len(), 2);
    assert_eq!(processor.get_wallet_payments("other").len(), 0);
}

#[test]
fn test_cancel_async_payment() {
    let mut processor = AsyncPaymentProcessor::new();
    processor
        .process_payment(Some("p1".to_string()), "w".to_string(), 1, "i".to_string(), "d".to_string(), 0)
        .unwrap();
    let cancelled = processor.cancel_payment("p1", 3).unwrap();
    assert_eq!(cancelled.status, PaymentStatus::Cancelled);
    // A cancelled payment is terminal.
    assert!(matches!(
        processor.cancel_payment("p1", 4),
        Err(CoreError::Validation)
    ));
    assert!(matches!(
        processor.cancel_payment("nope", 4),
        Err(CoreError::NotFound)
    ));
}

#[test]
fn test_engine_invoice_and_payment_hashes() {
    let engine = LightningEngine::new("main".to_string(), "word word word".to_string(), 0);
    let (invoice, payment_hash) = engine.generate_invoice(1000, None).unwrap();
    assert_eq!(payment_hash, sha256_hex_of("1000"));
    assert_eq!(invoice, format!("lnbc1000u1p3k2v5cpp5{}", payment_hash));

    let (hash2, status) = engine.send_payment(invoice.clone()).unwrap();
    assert_eq!(status, "SUCCEEDED");
    assert_eq!(hash2, sha256_hex_of(&invoice));

    assert_eq!(
        engine.send_payment("not an invoice".to_string()),
        Err(CoreError::Validation)
    );
    assert_eq!(engine.balances().unwrap(), (1_000_000, 500_000));
}

#[test]
fn test_engine_node_identity() {
    let engine = LightningEngine::new("main".to_string(), "abc".to_string(), 0);
    // The node id is the hex digest of the mnemonic.
    let peers = engine.get_peers();
    assert!(peers.is_empty());
    let address = engine.new_address().unwrap();
    assert!(address.starts_with("tb1q"));
    assert_eq!(address.chars().count(), 44);
    assert_eq!(&address[4..], &sha256_hex_of("abc")[..40]);
}

#[test]
fn test_get_best_peer_failover() {
    let mut engine = LightningEngine::new("n".to_string(), "m".to_string(), 0);
    assert_eq!(engine.get_best_peer(), None);

    engine.add_peer("slow".to_string(), "addr1".to_string(), 0).unwrap();
    engine.add_peer("fast".to_string(), "addr2".to_string(), 0).unwrap();
    // Degrade then lift the first peer: its rate lands below the second's
    // untouched full rate.
    engine.update_peer_status("slow", false, 1).unwrap();
    engine.update_peer_status("slow", true, 2).unwrap();

    assert_eq!(engine.get_best_peer(), Some("fast".to_string()));

    // When the best peer goes offline, the next-best online peer wins.
    engine.update_peer_status("fast", false, 3).unwrap();
    assert_eq!(engine.get_best_peer(), Some("slow".to_string()));

    let promoted = engine.failover_to_next_peer().unwrap();
    assert_eq!(promoted, Some("slow".to_string()));
    assert_eq!(engine.get_primary_peer(), Some("slow".to_string()));
}

#[test]
fn test_send_payment_with_failover_success() {
    let mut engine = LightningEngine::new("n".to_string(), "m".to_string(), 0);
    engine.add_peer("peer_a".to_string(), "addr".to_string(), 0).unwrap();
    let (hash, status) = engine
        .send_payment_with_failover("lnbc42".to_string(), 5)
        .unwrap();
    assert_eq!(status, "SUCCEEDED");
    assert_eq!(hash, sha256_hex_of("peer_alnbc42"));
    // The delivering peer was promoted to primary.
    assert_eq!(engine.get_primary_peer(), Some("peer_a".to_string()));
}

#[test]
fn test_send_payment_with_failover_no_peers() {
    let mut engine = LightningEngine::new("n".to_string(), "m".to_string(), 0);
    assert_eq!(
        engine.send_payment_with_failover("lnbc42".to_string(), 5),
        Err(CoreError::NoPeerAvailable)
    );
}

#[test]
fn test_send_payment_with_failover_bad_invoice_degrades_peers() {
    let mut engine = LightningEngine::new("n".to_string(), "m".to_string(), 0);
    engine.add_peer("peer_a".to_string(), "addr".to_string(), 0).unwrap();
    assert_eq!(
        engine.send_payment_with_failover("garbage".to_string(), 5),
        Err(CoreError::Validation)
    );
    // Every online peer was tried once and marked offline.
    let peers = engine.get_peers();
    assert_eq!(peers.len(), 1);
    assert!(!peers[0].is_online);
    assert_eq!(peers[0].connection_attempts, 1);
    assert_eq!(peers[0].success_rate_ppm, 900_000);
    assert!(!engine.check_health(6).is_healthy);
}

#[test]
fn test_balance_cache_ttl() {
    // A balance written at time zero with its thirty-second time to live
    // answers a read at twenty-nine and is stale at thirty-one, which sends
    // the caller back to the runtime.
    let mut engine = AsyncLightningEngine::new();
    assert_eq!(engine.cached_balance(0), None);
    engine.record_balance(111, 222, 0);
    assert_eq!(engine.cached_balance(29), Some((111, 222)));
    assert_eq!(engine.cached_balance(31), None);
    engine.record_balance(333, 444, 31);
    assert_eq!(engine.cached_balance(60), Some((333, 444)));
}

#[test]
fn test_payment_status_cache() {
    let mut engine = AsyncLightningEngine::new();
    let status = engine.get_payment_status("abcd", 0);
    assert_eq!(status, "SUCCEEDED");
    let again = engine.get_payment_status("abcd", 59);
    assert_eq!(again, "SUCCEEDED");
    // The status entry lives for sixty seconds, independent of the balance.
    assert_eq!(engine.cached_balance(10), None);
}

#[test]
fn test_connection_pool_round_robin() {
    let mut engine = AsyncLightningEngine::new();
    assert_eq!(engine.acquire_connection(), None);
    assert!(engine.register_connection());
    assert!(engine.register_connection());
    assert_eq!(engine.acquire_connection(), Some(0));
    assert_eq!(engine.acquire_connection(), Some(1));
    assert_eq!(engine.acquire_connection(), Some(0));
    for _ in 0..8 {
        assert!(engine.register_connection());
    }
    // The pool is bounded at ten handles.
    assert!(!engine.register_connection());
}
