use ws_gateway::collector::{
    decide, encode_collect_data, CollectAction, CollectCycle, CollectDataError, CollectDecision,
    CollectEvent, CollectPhase, CONFIRMATION_TIMEOUT_SECS, QUERY_FEE,
};
use ws_gateway::db::{rav_row, RavRow, RedeemableRav};
use ws_gateway::primitives::{Address, B256};
use ws_gateway::tap::Rav;

const PAYER: &str = "0x2222222222222222222222222222222222222222";
const PROVIDER: &str = "0x3333333333333333333333333333333333333333";
const SERVICE: &str = "0x4444444444444444444444444444444444444444";

fn collection_id() -> String {
    format!("0x{}", "11".repeat(32))
}

fn uint_word(n: u128) -> Vec<u8> {
    let mut word = vec![0u8; 16];
    word.extend(n.to_be_bytes());
    word
}

fn address_word(byte: u8) -> Vec<u8> {
    let mut word = vec![0u8; 12];
    word.extend([byte; 20]);
    word
}

fn payload(timestamp_ns: u64, value: u128, signature: &[u8]) -> Vec<u8> {
    let mut out = Vec::new();
    out.extend(uint_word(0x40));
    out.extend(uint_word(0));
    out.extend(uint_word(0x40));
    out.extend(uint_word(0x140));
    out.extend([0x11; 32]);
    out.extend(address_word(0x22));
    out.extend(address_word(0x33));
    out.extend(address_word(0x44));
    out.extend(uint_word(timestamp_ns as u128));
    out.extend(uint_word(value));
    out.extend(uint_word(0xe0));
    out.extend(uint_word(0));
    out.extend(uint_word(signature.len() as u128));
    out.extend(signature);
    while out.len() % 32 != 0 {
        out.push(0);
    }
    out
}

fn rav(value: &str) -> RedeemableRav {
    RedeemableRav {
        collection_id: collection_id(),
        payer_address: PAYER.to_string(),
        service_provider: PROVIDER.to_string(),
        data_service: SERVICE.to_string(),
        timestamp_ns: 7,
        value_aggregate: value.to_string(),
        signature: format!("0x{}", "ab".repeat(65)),
    }
}

fn read(row: RavRow) -> RedeemableRav {
    RedeemableRav {
        collection_id: row.collection_id,
        payer_address: row.payer_address,
        service_provider: row.service_provider,
        data_service: row.data_service,
        timestamp_ns: row.timestamp_ns,
        value_aggregate: row.value_aggregate,
        signature: row.signature,
    }
}

fn refusal(id: &str, payer: &str, provider: &str, service: &str, sig: &str) -> CollectDataError {
    encode_collect_data(id, payer, provider, service, 7, 1, sig).unwrap_err()
}

#[test]
fn payload_layout() {
    let signature = [0xab; 65];
    let data = encode_collect_data(
        &collection_id(),
        PAYER,
        PROVIDER,
        SERVICE,
        u64::MAX,
        u128::MAX,
        &hex::encode(signature),
    )
    .unwrap();
    assert_eq!(data, payload(u64::MAX, u128::MAX, &signature));
    assert_eq!(data.len(), 16 * 32);
}

#[test]
fn payload_of_an_empty_or_whole_word_signature() {
    for len in [0usize, 31, 32, 33, 64] {
        let signature = vec![0xcd; len];
        let data = encode_collect_data(
            &collection_id(),
            PAYER,
            PROVIDER,
            SERVICE,
            7,
            1,
            &format!("0x{}", hex::encode(&signature)),
        )
        .unwrap();
        assert_eq!(data, payload(7, 1, &signature), "{len}");
    }
}

#[test]
fn payload_refusals() {
    let id = collection_id();
    let e = refusal("0xzz", "x", "x", "x", "x");
    assert!(matches!(e, CollectDataError::CollectionIdHex(_)));
    assert_eq!(e.message(), "Invalid character 'z' at position 0");

    let e = refusal("0x11", "x", "x", "x", "x");
    assert!(matches!(e, CollectDataError::CollectionIdLength));
    assert_eq!(e.message(), "collection_id must be 32 bytes");

    let e = refusal(&id, "x", "x", "x", "abc");
    assert!(matches!(e, CollectDataError::SignatureHex(_)));
    assert_eq!(e.message(), "Odd number of digits");

    let e = refusal(&id, "0x22", "x", "x", "");
    assert!(matches!(e, CollectDataError::Payer(_)));
    assert_eq!(
        e.message(),
        "0x22".parse::<alloy_primitives::Address>().unwrap_err().to_string()
    );

    let e = refusal(&id, PAYER, "x", "x", "");
    assert!(matches!(e, CollectDataError::ServiceProvider(_)));
    assert_eq!(e.message(), "x".parse::<alloy_primitives::Address>().unwrap_err().to_string());

    let e = refusal(&id, PAYER, PROVIDER, "", "");
    assert!(matches!(e, CollectDataError::DataService(_)));
    assert_eq!(e.message(), "".parse::<alloy_primitives::Address>().unwrap_err().to_string());
}

#[test]
fn decisions() {
    assert!(matches!(decide(&rav("9"), 10), CollectDecision::Skip { value: 9 }));
    match decide(&rav("10"), 10) {
        CollectDecision::Submit { value, data } => {
            assert_eq!(value, 10);
            assert_eq!(data, payload(7, 10, &[0xab; 65]));
        }
        other => panic!("{other:?}"),
    }
    assert!(matches!(decide(&rav("x"), 1), CollectDecision::Skip { value: 0 }));
    assert!(matches!(decide(&rav("x"), 0), CollectDecision::Submit { value: 0, .. }));
    let mut bad = rav("10");
    bad.payer_address = String::new();
    assert!(matches!(
        decide(&bad, 10),
        CollectDecision::Unencodable { error: CollectDataError::Payer(_) }
    ));
    assert!(matches!(decide(&bad, 11), CollectDecision::Skip { value: 10 }));
}

#[test]
fn stored_voucher_is_sent_as_signed() {
    let voucher = Rav {
        collection_id: B256([0x11; 32]),
        payer: Address::from_slice(&[0x22; 20]),
        service_provider: Address::from_slice(&[0x33; 20]),
        data_service: Address::from_slice(&[0x44; 20]),
        timestamp_ns: u64::MAX,
        value_aggregate: u128::MAX,
        metadata: vec![1, 2, 3],
    };
    let row = read(rav_row(&voucher, "0xcdef"));
    match decide(&row, u128::MAX) {
        CollectDecision::Submit { value, data } => {
            assert_eq!(value, u128::MAX);
            assert_eq!(data, payload(u64::MAX, u128::MAX, &[0xcd, 0xef]));
        }
        other => panic!("{other:?}"),
    }
}

#[test]
fn cycle_over_nothing() {
    let mut cycle = CollectCycle::new(Vec::new(), 0);
    assert!(matches!(cycle.step(CollectEvent::Proceed), CollectAction::Finish));
    assert_eq!(cycle.phase, CollectPhase::Over);
}

#[test]
fn cycle_over_mixed_vouchers() {
    let mut bad = rav("30");
    bad.signature = "zz".to_string();
    let mut last = rav("40");
    last.collection_id = format!("0x{}", "77".repeat(32));
    let mut cycle = CollectCycle::new(vec![rav("5"), bad, rav("20"), last], 10);

    assert!(matches!(cycle.step(CollectEvent::Proceed), CollectAction::Skip { value: 5 }));
    assert!(matches!(
        cycle.step(CollectEvent::Proceed),
        CollectAction::Unencodable { error: CollectDataError::SignatureHex(_) }
    ));
    match cycle.step(CollectEvent::Proceed) {
        CollectAction::Submit { value, data } => {
            assert_eq!(value, 20);
            assert_eq!(data, payload(7, 20, &[0xab; 65]));
        }
        other => panic!("{other:?}"),
    }
    assert!(matches!(cycle.step(CollectEvent::Unconfirmed), CollectAction::Continue));
    assert!(matches!(
        cycle.step(CollectEvent::Proceed),
        CollectAction::Submit { value: 40, .. }
    ));
    match cycle.step(CollectEvent::Confirmed) {
        CollectAction::MarkRedeemed { collection_id } => {
            assert_eq!(collection_id, format!("0x{}", "77".repeat(32)))
        }
        other => panic!("{other:?}"),
    }
    assert!(matches!(cycle.step(CollectEvent::Marked), CollectAction::Continue));
    assert!(matches!(cycle.step(CollectEvent::Proceed), CollectAction::Finish));
    assert_eq!(cycle.phase, CollectPhase::Over);
}

#[test]
fn cycle_gives_up_when_marking_fails() {
    let mut cycle = CollectCycle::new(vec![rav("5"), rav("6")], 0);
    cycle.step(CollectEvent::Proceed);
    cycle.step(CollectEvent::Confirmed);
    assert!(matches!(cycle.step(CollectEvent::MarkFailed), CollectAction::Abort));
    assert_eq!(cycle.phase, CollectPhase::Over);
    assert_eq!(cycle.next, 0);
}

#[test]
fn cycle_takes_three_events_for_each_redeemed_voucher() {
    let mut cycle = CollectCycle::new(vec![rav("5"), rav("6")], 0);
    for _ in 0..2 {
        cycle.step(CollectEvent::Proceed);
        cycle.step(CollectEvent::Confirmed);
        cycle.step(CollectEvent::Marked);
    }
    assert!(matches!(cycle.step(CollectEvent::Proceed), CollectAction::Finish));
}

#[test]
fn collection_terms() {
    assert_eq!(QUERY_FEE, 0);
    assert_eq!(CONFIRMATION_TIMEOUT_SECS, 120);
}
