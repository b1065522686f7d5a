use ws_gateway::aggregator::{
    aggregate_endpoint, plan_cycle, prune_ranges, signed_receipts, AggregateAction, AggregateEvent,
    AggregatePhase, Aggregation,
};
use ws_gateway::config::{
    BackendConfig, Config, DatabaseConfig, IndexerConfig, RateLimitConfig, ServerConfig, TapConfig,
};
use ws_gateway::db::{
    load_u64, rav_row, receipt_row, signed_receipt, store_u64, RawReceipt, ReceiptRow,
};
use ws_gateway::primitives::{Address, B256};
use ws_gateway::tap::{Rav, Receipt, SignedRav, ValidatedReceipt};

const PAYER: &str = "0x2222222222222222222222222222222222222222";

fn address(byte: u8) -> Address {
    Address::from_slice(&[byte; 20])
}

fn validated(timestamp_ns: u64, nonce: u64, value: u128) -> ValidatedReceipt {
    ValidatedReceipt {
        receipt: Receipt {
            data_service: address(0x44),
            service_provider: address(0x33),
            timestamp_ns,
            nonce,
            value,
            metadata: vec![0x22; 20],
        },
        signer: address(0xAB),
        payer: address(0x22),
        signature: "0xsig".to_string(),
    }
}

fn read(row: ReceiptRow) -> RawReceipt {
    RawReceipt {
        payer_address: row.payer_address,
        timestamp_ns: row.timestamp_ns,
        nonce: row.nonce,
        value: row.value,
        signature: row.signature,
        metadata: row.metadata,
    }
}

fn voucher() -> SignedRav {
    SignedRav {
        rav: Rav {
            collection_id: B256([0x11; 32]),
            payer: address(0x22),
            service_provider: address(0x33),
            data_service: address(0x44),
            timestamp_ns: 7,
            value_aggregate: 1u128 << 100,
            metadata: vec![1, 2],
        },
        signature: "0x1234".to_string(),
    }
}

fn aggregation(payer_hex: &str) -> Aggregation {
    Aggregation::new("http://a/rav/aggregate", address(0x33), address(0x44), payer_hex)
}

fn failure(action: AggregateAction) -> String {
    match action {
        AggregateAction::Fail { error } => error,
        other => panic!("{other:?}"),
    }
}

fn posting() -> Aggregation {
    let mut a = aggregation(PAYER);
    let rows = vec![read(receipt_row(&validated(1, 2, 3)))];
    assert!(matches!(
        a.step(AggregateEvent::Fetched { rows }),
        AggregateAction::Post { .. }
    ));
    a
}

fn storing() -> Aggregation {
    let mut a = posting();
    a.step(AggregateEvent::Answered { signed: voucher() });
    a
}

#[test]
fn signed_columns() {
    assert_eq!(store_u64(0), 0);
    assert_eq!(store_u64(i64::MAX as u64), i64::MAX);
    assert_eq!(store_u64(1 << 63), i64::MIN);
    assert_eq!(store_u64(u64::MAX), -1);
    assert_eq!(load_u64(-1), u64::MAX);
    assert_eq!(load_u64(i64::MIN), 1 << 63);
    assert_eq!(load_u64(5), 5);
}

#[test]
fn nonces_beyond_the_column_stay_distinct() {
    assert_ne!(store_u64(1 << 63), store_u64(0));
    assert_ne!(store_u64(u64::MAX), store_u64(u64::MAX - 1));
}

#[test]
fn columns_order_on_either_side_of_the_signed_maximum() {
    assert!(store_u64(5) <= store_u64(i64::MAX as u64));
    assert!(store_u64(1 << 63) <= store_u64(u64::MAX));
    assert!(store_u64(1 << 63) <= store_u64(0));
}

#[test]
fn receipt_row_columns() {
    let row = receipt_row(&validated(u64::MAX, 1 << 63, u128::MAX));
    assert_eq!(row.signer_address, "0xabababababababababababababababababababab");
    assert_eq!(row.payer_address, PAYER);
    assert_eq!(row.timestamp_ns, -1);
    assert_eq!(row.nonce, i64::MIN);
    assert_eq!(row.value, "340282366920938463463374607431768211455");
    assert_eq!(row.signature, "0xsig");
    assert_eq!(row.metadata, vec![0x22; 20]);
}

#[test]
fn stored_receipt_comes_back() {
    for v in [
        validated(0, 0, 0),
        validated(1_000_000_000, 42, 100),
        validated(u64::MAX, u64::MAX, u128::MAX),
    ] {
        let signed = signed_receipt(&read(receipt_row(&v)), address(0x44), address(0x33));
        assert_eq!(signed.receipt, v.receipt);
        assert_eq!(signed.signature, v.signature);
    }
}

#[test]
fn unreadable_stored_value_counts_as_zero() {
    let mut row = read(receipt_row(&validated(1, 2, 3)));
    row.value = "three".to_string();
    assert_eq!(signed_receipt(&row, address(0x44), address(0x33)).receipt.value, 0);
}

#[test]
fn rav_row_columns() {
    let signed = voucher();
    let row = rav_row(&signed.rav, &signed.signature);
    assert_eq!(row.collection_id, format!("0x{}", "11".repeat(32)));
    assert_eq!(row.payer_address, PAYER);
    assert_eq!(row.service_provider, "0x3333333333333333333333333333333333333333");
    assert_eq!(row.data_service, "0x4444444444444444444444444444444444444444");
    assert_eq!(row.timestamp_ns, 7);
    assert_eq!(row.value_aggregate, "1267650600228229401496703205376");
    assert_eq!(row.signature, "0x1234");
}

#[test]
fn endpoint_keeps_the_url_as_given() {
    assert_eq!(aggregate_endpoint("http://a"), "http://a/rav/aggregate");
    assert_eq!(aggregate_endpoint("http://a/"), "http://a//rav/aggregate");
}

#[test]
fn receipts_keep_the_order_of_their_rows() {
    let rows: Vec<RawReceipt> =
        (0..3).map(|n| read(receipt_row(&validated(n, 10 + n, 100)))).collect();
    let receipts = signed_receipts(&rows, address(0x44), address(0x33));
    let nonces: Vec<u64> = receipts.iter().map(|s| s.receipt.nonce).collect();
    assert_eq!(nonces, vec![10, 11, 12]);
}

#[test]
fn posts_what_was_stored() {
    let mut a = aggregation(PAYER);
    let v = validated(u64::MAX, 2, u128::MAX);
    match a.step(AggregateEvent::Fetched { rows: vec![read(receipt_row(&v))] }) {
        AggregateAction::Post { request } => {
            assert_eq!(request.service_provider, address(0x33));
            assert_eq!(request.payer, address(0x22));
            assert_eq!(request.receipts.len(), 1);
            assert_eq!(request.receipts[0].receipt, v.receipt);
            assert_eq!(request.receipts[0].signature, v.signature);
        }
        other => panic!("{other:?}"),
    }
    assert_eq!(a.phase, AggregatePhase::Posting);
}

#[test]
fn nothing_to_post_without_rows() {
    let mut a = aggregation("not an address");
    assert!(matches!(
        a.step(AggregateEvent::Fetched { rows: Vec::new() }),
        AggregateAction::Finish
    ));
    assert_eq!(a.phase, AggregatePhase::Over);
}

#[test]
fn payer_must_be_an_address() {
    for payer in ["", "0x22", "0x222222222222222222222222222222222222222g", "not an address"] {
        let mut a = aggregation(payer);
        let rows = vec![read(receipt_row(&validated(1, 2, 3)))];
        assert_eq!(
            failure(a.step(AggregateEvent::Fetched { rows })),
            format!("invalid payer address in db: {payer}")
        );
        assert_eq!(a.phase, AggregatePhase::Over);
    }
}

#[test]
fn payer_may_be_spelled_in_any_case() {
    for payer in [
        "0xacC71844EF6beEF70106ABe6E51013189A1f3738",
        "0XACC71844EF6BEEF70106ABE6E51013189A1F3738",
        "acc71844ef6beef70106abe6e51013189a1f3738",
    ] {
        let mut a = aggregation(payer);
        let rows = vec![read(receipt_row(&validated(1, 2, 3)))];
        match a.step(AggregateEvent::Fetched { rows }) {
            AggregateAction::Post { request } => assert_eq!(
                hex::encode(request.payer.0),
                "acc71844ef6beef70106abe6e51013189a1f3738"
            ),
            other => panic!("{other:?}"),
        }
    }
}

#[test]
fn stores_then_prunes() {
    let mut a = posting();
    match a.step(AggregateEvent::Answered { signed: voucher() }) {
        AggregateAction::Store { row } => {
            assert_eq!(row.value_aggregate, "1267650600228229401496703205376");
            assert_eq!(row.signature, "0x1234");
        }
        other => panic!("{other:?}"),
    }
    match a.step(AggregateEvent::Stored) {
        AggregateAction::Prune { payer_hex, up_to_ns } => {
            assert_eq!(payer_hex, PAYER);
            assert_eq!(up_to_ns, 7);
        }
        other => panic!("{other:?}"),
    }
    assert!(matches!(
        a.step(AggregateEvent::Pruned { count: 1 }),
        AggregateAction::Finish
    ));
    assert_eq!(a.phase, AggregatePhase::Over);
}

#[test]
fn prunes_up_to_the_column_of_the_voucher() {
    let mut a = posting();
    let mut signed = voucher();
    signed.rav.timestamp_ns = u64::MAX;
    a.step(AggregateEvent::Answered { signed });
    match a.step(AggregateEvent::Stored) {
        AggregateAction::Prune { up_to_ns, .. } => assert_eq!(up_to_ns, -1),
        other => panic!("{other:?}"),
    }
}

#[test]
fn failures_of_an_aggregation() {
    let error = || "boom".to_string();
    let mut a = aggregation(PAYER);
    assert_eq!(failure(a.step(AggregateEvent::FetchFailed { error: error() })), "boom");

    let mut a = posting();
    assert_eq!(
        failure(a.step(AggregateEvent::PostFailed { error: error() })),
        "POST http://a/rav/aggregate failed: boom"
    );

    let mut a = posting();
    let refused =
        AggregateEvent::Refused { status: "400 Bad Request".to_string(), text: error() };
    assert_eq!(failure(a.step(refused)), "aggregator returned 400 Bad Request: boom");

    let mut a = posting();
    assert_eq!(failure(a.step(AggregateEvent::Unreadable { error: error() })), "boom");

    let mut a = storing();
    assert_eq!(failure(a.step(AggregateEvent::StoreFailed { error: error() })), "boom");
    assert_eq!(a.phase, AggregatePhase::Over);

    let mut a = storing();
    a.step(AggregateEvent::Stored);
    assert_eq!(failure(a.step(AggregateEvent::PruneFailed { error: error() })), "boom");
    assert_eq!(a.phase, AggregatePhase::Over);
}

#[test]
fn one_aggregation_for_each_payer() {
    let config = Config {
        server: ServerConfig { host: "h".to_string(), port: 1 },
        indexer: IndexerConfig {
            service_provider_address: address(0x33),
            operator_private_key: String::new(),
        },
        tap: TapConfig {
            data_service_address: address(0x44),
            authorized_senders: Vec::new(),
            eip712_domain_name: "X".to_string(),
            eip712_chain_id: 1,
            eip712_verifying_contract: address(0),
            max_receipt_age_ns: 0,
            aggregator_url: None,
            aggregation_interval_secs: 60,
        },
        backend: BackendConfig { pinax_ws_base: String::new(), pinax_token: String::new() },
        database: DatabaseConfig { url: String::new() },
        collector: None,
        rate_limit: RateLimitConfig::default(),
    };
    assert!(plan_cycle("http://a", &config, &Vec::new()).is_empty());

    let payers = vec![PAYER.to_string(), "other".to_string()];
    let plan = plan_cycle("http://a", &config, &payers);
    assert_eq!(plan.len(), 2);
    for (a, payer) in plan.iter().zip(&payers) {
        assert_eq!(a.endpoint, "http://a/rav/aggregate");
        assert_eq!(a.service_provider, address(0x33));
        assert_eq!(a.data_service, address(0x44));
        assert_eq!(&a.payer_hex, payer);
        assert_eq!(a.phase, AggregatePhase::Fetching);
    }
}

/// Whether a voucher of the time `rav_ns` has a receipt of the time `receipt_ns` pruned.
fn is_pruned(receipt_ns: u64, rav_ns: u64) -> bool {
    let mut a = posting();
    let mut signed = voucher();
    signed.rav.timestamp_ns = rav_ns;
    a.step(AggregateEvent::Answered { signed });
    let up_to_ns = match a.step(AggregateEvent::Stored) {
        AggregateAction::Prune { up_to_ns, .. } => up_to_ns,
        other => panic!("{other:?}"),
    };
    let column = receipt_row(&validated(receipt_ns, 1, 1)).timestamp_ns;
    prune_ranges(up_to_ns).iter().any(|(first, last)| *first <= column && column <= *last)
}

#[test]
fn only_covered_receipts_are_pruned() {
    assert!(is_pruned(5, 5));
    assert!(!is_pruned(1 << 63, 5));
    assert!(is_pruned(5, 1 << 63));
    assert!(is_pruned(1 << 63, 1 << 63));
}

#[test]
fn pruning_follows_time_on_both_sides_of_the_signed_maximum() {
    let half = 1u64 << 63;
    let times = [0, 1, 5, half - 2, half - 1, half, half + 1, u64::MAX - 1, u64::MAX];
    for receipt_ns in times {
        for rav_ns in times {
            assert_eq!(is_pruned(receipt_ns, rav_ns), receipt_ns <= rav_ns, "{receipt_ns} {rav_ns}");
        }
    }
}

#[test]
fn ranges_of_a_prune() {
    assert_eq!(prune_ranges(0), vec![(0, 0)]);
    assert_eq!(prune_ranges(i64::MAX), vec![(0, i64::MAX)]);
    assert_eq!(prune_ranges(i64::MIN), vec![(0, i64::MAX), (i64::MIN, i64::MIN)]);
    assert_eq!(prune_ranges(-1), vec![(0, i64::MAX), (i64::MIN, -1)]);
}
