use k256::ecdsa::SigningKey;
use ws_gateway::config::{
    BackendConfig, Config, DatabaseConfig, IndexerConfig, RateLimitConfig, ServerConfig, TapConfig,
};
use ws_gateway::gateway::receipt_domain;
use ws_gateway::primitives::{Address, B256};
use ws_gateway::tap::{eip712_hash, Receipt, SignedReceipt, TapError};
use ws_gateway::ws::{
    after_insert, after_validation, connect_failed_message, request_session, upstream_url, Frame,
    InsertOutcome, Relay, RelayAction, RelayEvent, RelayPhase, SessionAction,
    INTERNAL_SERVER_ERROR, PAYMENT_REQUIRED,
};

fn address(byte: u8) -> Address {
    Address::from_slice(&[byte; 20])
}

fn backend(base: &str) -> BackendConfig {
    BackendConfig { pinax_ws_base: base.to_string(), pinax_token: "tok".to_string() }
}

fn config(authorized_senders: Vec<Address>) -> Config {
    Config {
        server: ServerConfig { host: "0.0.0.0".to_string(), port: 8090 },
        indexer: IndexerConfig {
            service_provider_address: address(0x02),
            operator_private_key: String::new(),
        },
        tap: TapConfig {
            data_service_address: address(0x01),
            authorized_senders,
            eip712_domain_name: "GraphTallyCollector".to_string(),
            eip712_chain_id: 421614,
            eip712_verifying_contract: address(0xAB),
            max_receipt_age_ns: 30,
            aggregator_url: None,
            aggregation_interval_secs: 60,
        },
        backend: backend("wss://ws.pinax.network"),
        database: DatabaseConfig { url: String::new() },
        collector: None,
        rate_limit: RateLimitConfig::default(),
    }
}

fn signed(domain_sep: B256, timestamp_ns: u64) -> SignedReceipt {
    let receipt = Receipt {
        data_service: address(0x01),
        service_provider: address(0x02),
        timestamp_ns,
        nonce: 42,
        value: 100,
        metadata: Vec::new(),
    };
    let hash = eip712_hash(domain_sep, &receipt);
    let sk = SigningKey::from_slice(&[1u8; 32]).unwrap();
    let (sig, id) = sk.sign_prehash_recoverable(&hash.0).unwrap();
    let mut bytes = sig.to_bytes().to_vec();
    bytes.push(27 + id.to_byte());
    SignedReceipt { receipt, signature: hex::encode(bytes) }
}

fn rejection(action: SessionAction) -> (u16, String) {
    match action {
        SessionAction::Reject { rejection } => (rejection.status, rejection.message),
        other => panic!("{other:?}"),
    }
}

#[test]
fn upstream_urls() {
    assert_eq!(
        upstream_url(&backend("wss://ws.pinax.network"), "eth", "transfers"),
        "wss://ws.pinax.network/ws/eth@transfers?token=tok"
    );
    assert_eq!(
        upstream_url(&backend("wss://ws.pinax.network///"), "solana", "swaps"),
        "wss://ws.pinax.network/ws/solana@swaps?token=tok"
    );
    assert_eq!(upstream_url(&backend(""), "", ""), "/ws/@?token=tok");
}

#[test]
fn accepted_receipt_is_to_be_stored() {
    let config = config(Vec::new());
    let domain_sep = receipt_domain(&config.tap);
    let receipt = signed(domain_sep, 1_000);
    let signature = receipt.signature.clone();
    match request_session(Ok(receipt), &config, domain_sep, 1_030) {
        SessionAction::Insert { row } => {
            assert_eq!(row.signer_address, "0x1a642f0e3c3af545e7acbd38b07251b3990914f1");
            assert_eq!(row.payer_address, "0x1a642f0e3c3af545e7acbd38b07251b3990914f1");
            assert_eq!(row.timestamp_ns, 1_000);
            assert_eq!(row.nonce, 42);
            assert_eq!(row.value, "100");
            assert_eq!(row.signature, signature);
            assert!(row.metadata.is_empty());
        }
        other => panic!("{other:?}"),
    }
}

#[test]
fn refused_receipts_require_payment() {
    let open = config(Vec::new());
    let domain_sep = receipt_domain(&open.tap);
    assert_eq!(
        rejection(request_session(Err("EOF".to_string()), &open, domain_sep, 0)),
        (402, "invalid receipt: EOF".to_string())
    );
    assert_eq!(
        rejection(request_session(Ok(signed(domain_sep, 1_000)), &open, domain_sep, 1_031)),
        (402, "receipt expired".to_string())
    );
    let closed = config(vec![address(9)]);
    assert_eq!(
        rejection(request_session(Ok(signed(domain_sep, 1_000)), &closed, domain_sep, 1_000)),
        (
            402,
            "unauthorized sender: 0x1a642f0E3c3aF545E7AcBD38b07251B3990914F1".to_string()
        )
    );
    assert_eq!(
        rejection(after_validation(Err(TapError::ReceiptExpired))),
        (PAYMENT_REQUIRED, "receipt expired".to_string())
    );
}

#[test]
fn stored_receipt_opens_the_stream() {
    match after_insert(InsertOutcome::Inserted, &backend("wss://up/"), "eth", "transfers") {
        SessionAction::Upgrade { upstream } => {
            assert_eq!(upstream, "wss://up/ws/eth@transfers?token=tok")
        }
        other => panic!("{other:?}"),
    }
}

#[test]
fn receipts_that_are_not_stored_open_nothing() {
    assert_eq!(
        rejection(after_insert(InsertOutcome::DuplicateNonce, &backend(""), "", "")),
        (402, "receipt nonce already used".to_string())
    );
    let failed = InsertOutcome::Failed { error: "pool timed out".to_string() };
    assert_eq!(
        rejection(after_insert(failed, &backend(""), "", "")),
        (INTERNAL_SERVER_ERROR, "pool timed out".to_string())
    );
    assert_eq!(INTERNAL_SERVER_ERROR, 500);
}

#[test]
fn connect_failures_are_told() {
    assert_eq!(
        connect_failed_message("no route"),
        "{\"error\":\"upstream connect failed: no route\"}"
    );
}

#[test]
fn relays_data_in_order() {
    let mut relay = Relay::new();
    let frame = Frame::Text { text: "a".to_string() };
    match relay.step(RelayEvent::UpstreamData { frame }) {
        RelayAction::Send { frame: Frame::Text { text } } => assert_eq!(text, "a"),
        other => panic!("{other:?}"),
    }
    assert_eq!(relay.delivered, 0);
    assert_eq!(relay.phase, RelayPhase::Sending);
    assert!(matches!(relay.step(RelayEvent::Sent), RelayAction::Wait));
    assert_eq!(relay.delivered, 1);

    let frame = Frame::Binary { bytes: vec![1, 2] };
    match relay.step(RelayEvent::UpstreamData { frame }) {
        RelayAction::Send { frame: Frame::Binary { bytes } } => assert_eq!(bytes, vec![1, 2]),
        other => panic!("{other:?}"),
    }
    assert!(matches!(relay.step(RelayEvent::Sent), RelayAction::Wait));
    assert_eq!(relay.delivered, 2);
}

#[test]
fn control_frames_are_not_billable() {
    let mut relay = Relay::new();
    assert!(matches!(relay.step(RelayEvent::UpstreamControl), RelayAction::Wait));
    assert!(matches!(relay.step(RelayEvent::ClientMessage), RelayAction::Wait));
    assert_eq!(relay.delivered, 0);
    assert_eq!(relay.phase, RelayPhase::Listening);
}

#[test]
fn either_side_ends_the_session() {
    for event in [
        RelayEvent::UpstreamClosed,
        RelayEvent::UpstreamFailed,
        RelayEvent::ClientClosed,
        RelayEvent::ClientFailed,
    ] {
        let mut relay = Relay::new();
        assert!(matches!(relay.step(event), RelayAction::Close));
        assert_eq!(relay.phase, RelayPhase::Closed);
    }
}

#[test]
fn failed_send_ends_the_session_uncounted() {
    let mut relay = Relay::new();
    let frame = Frame::Text { text: "a".to_string() };
    relay.step(RelayEvent::UpstreamData { frame });
    assert!(matches!(relay.step(RelayEvent::SendFailed), RelayAction::Close));
    assert_eq!(relay.delivered, 0);
    assert_eq!(relay.phase, RelayPhase::Closed);
}
