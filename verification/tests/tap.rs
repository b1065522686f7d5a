use k256::ecdsa::SigningKey;
use ws_gateway::primitives::{Address, B256};
use ws_gateway::tap::{
    address_of_digest, authorize, check_receipt, collection_id, decode_signature,
    domain_separator, eip712_hash, eip712_hash_raw, eip712_message, eth_address as address_of_secret, payer_from_metadata,
    rav_struct_hash, receipt_struct_hash, recover_signer, sign_hex as sign_with_secret, signer_from_key, validate_receipt, Rav,
    Receipt, SignatureError, SignedReceipt, TapError,
};

fn address(byte: u8) -> Address {
    Address::from_slice(&[byte; 20])
}

fn eth_address(sk: &SigningKey) -> Address {
    let vk = sk.verifying_key();
    let encoded = vk.to_encoded_point(false);
    let hash = alloy_primitives::keccak256(&encoded.as_bytes()[1..]);
    Address::from_slice(&hash[12..])
}

fn sign_hex(sk: &SigningKey, hash: B256) -> String {
    let (sig, rec_id) = sk.sign_prehash_recoverable(&hash.0).unwrap();
    let mut bytes = [0u8; 65];
    bytes[..64].copy_from_slice(&sig.to_bytes());
    bytes[64] = rec_id.to_byte();
    format!("0x{}", hex::encode(bytes))
}

fn test_sk() -> SigningKey {
    SigningKey::from_slice(&[1u8; 32]).unwrap()
}

fn test_domain() -> B256 {
    domain_separator("GraphTallyCollector", 421614, address(0xAB))
}

fn receipt(data_service: Address, timestamp_ns: u64, nonce: u64, value: u128) -> Receipt {
    Receipt {
        data_service,
        service_provider: address(0x02),
        timestamp_ns,
        nonce,
        value,
        metadata: Vec::new(),
    }
}

fn signed(sk: &SigningKey, dom: B256, receipt: Receipt) -> SignedReceipt {
    let msg_hash = eip712_hash(dom, &receipt);
    let signature = sign_hex(sk, msg_hash);
    SignedReceipt { receipt, signature }
}

fn hex_of(word: B256) -> String {
    hex::encode(word.0)
}

// A signature of the key `[1; 32]` over the digest `[0x42; 32]`, with some nonce and recovery id 0.
const RS: &str = "99c126da20397558f23658764c3a7c583db7ff706e93981cc170e27ca83362013845ef1644cab16b98cc773d066694eafb0666be4bff58e733b65a93630ad2f9";

#[test]
fn domain_separator_is_deterministic() {
    let zero = address(0);
    assert_eq!(domain_separator("X", 1, zero), domain_separator("X", 1, zero));
}

#[test]
fn domain_separator_varies_by_chain() {
    let zero = address(0);
    assert_ne!(domain_separator("X", 1, zero), domain_separator("X", 2, zero));
}

#[test]
fn recover_signer_round_trip() {
    let sk = test_sk();
    let addr = eth_address(&sk);
    let hash = B256([0x42u8; 32]);
    let sig = sign_hex(&sk, hash);
    assert_eq!(recover_signer(hash, &sig).unwrap(), addr);
}

#[test]
fn validate_receipt_accepts_valid() {
    let sk = test_sk();
    let data_svc = address(0x01);
    let svc_prov = address(0x02);
    let dom = test_domain();
    let signer = eth_address(&sk);
    let header = signed(&sk, dom, receipt(data_svc, 1_000_000_000, 42, 100));

    assert!(validate_receipt(
        Ok(header),
        dom,
        &[signer],
        data_svc,
        svc_prov,
        60_000_000_000,
        1_000_000_000
    )
    .is_ok());
}

#[test]
fn validate_receipt_rejects_expired() {
    let sk = test_sk();
    let data_svc = address(0x01);
    let svc_prov = address(0x02);
    let dom = test_domain();
    let header = signed(&sk, dom, receipt(data_svc, 1_000, 1, 1));

    let result = validate_receipt(Ok(header), dom, &[], data_svc, svc_prov, 1_000, 1_000_000_000);
    assert!(matches!(result, Err(TapError::ReceiptExpired)));
}

#[test]
fn validate_receipt_rejects_wrong_data_service() {
    let sk = test_sk();
    let dom = test_domain();
    let data_svc = address(0x01);
    let wrong = address(0xFF);
    let svc_prov = address(0x02);
    let header = signed(&sk, dom, receipt(wrong, 1_000_000_000, 1, 1));

    let result =
        validate_receipt(Ok(header), dom, &[], data_svc, svc_prov, u64::MAX, 1_000_000_000);
    assert!(matches!(result, Err(TapError::InvalidReceipt(_))));
}

#[test]
fn validate_receipt_rejects_unauthorized_sender() {
    let sk = test_sk();
    let dom = test_domain();
    let ds = address(0x01);
    let sp = address(0x02);
    let allowed = eth_address(&SigningKey::from_slice(&[0x99u8; 32]).unwrap());
    let header = signed(&sk, dom, receipt(ds, 1_000_000_000, 1, 1));

    let result = validate_receipt(Ok(header), dom, &[allowed], ds, sp, u64::MAX, 1_000_000_000);
    assert!(matches!(result, Err(TapError::UnauthorizedSender(_))));
}

#[test]
fn validate_receipt_hands_on_what_it_accepts() {
    let sk = test_sk();
    let dom = test_domain();
    let mut r = receipt(address(0x01), 5, 42, 100);
    r.metadata = vec![0x77; 21];
    let header = signed(&sk, dom, r.clone());
    let signature = header.signature.clone();

    let v = validate_receipt(Ok(header), dom, &[], address(0x01), address(0x02), 0, 5).unwrap();
    assert_eq!(v.receipt, r);
    assert_eq!(v.signer, eth_address(&sk));
    assert_eq!(v.payer, address(0x77));
    assert_eq!(v.signature, signature);
}

#[test]
fn signer_pays_without_metadata() {
    let sk = test_sk();
    let dom = test_domain();
    let header = signed(&sk, dom, receipt(address(0x01), 5, 42, 100));
    let v = validate_receipt(Ok(header), dom, &[], address(0x01), address(0x02), 0, 5).unwrap();
    assert_eq!(v.payer, v.signer);
}

#[test]
fn any_listed_sender_is_authorized() {
    let sk = test_sk();
    let dom = test_domain();
    let header = signed(&sk, dom, receipt(address(0x01), 5, 42, 100));
    let senders = [address(9), address(8), eth_address(&sk)];
    assert!(
        validate_receipt(Ok(header), dom, &senders, address(0x01), address(0x02), 0, 5).is_ok()
    );
}

#[test]
fn unreadable_receipt_is_invalid() {
    let result = validate_receipt(
        Err("expected value at line 1 column 1".to_string()),
        test_domain(),
        &[],
        address(1),
        address(2),
        0,
        0,
    );
    match result {
        Err(e) => {
            assert_eq!(e.message(), "invalid receipt: expected value at line 1 column 1")
        }
        Ok(_) => panic!("accepted"),
    }
}

#[test]
fn tampered_receipt_is_not_of_its_signer() {
    let sk = test_sk();
    let dom = test_domain();
    let mut header = signed(&sk, dom, receipt(address(0x01), 5, 42, 100));
    header.receipt.value = 101;
    let senders = [eth_address(&sk)];
    assert!(
        validate_receipt(Ok(header), dom, &senders, address(0x01), address(0x02), 0, 5).is_err()
    );
}

#[test]
fn mismatches_name_both_addresses() {
    let r = receipt(address(0xFF), 5, 1, 1);
    let e = check_receipt(&r, address(0x01), address(0x02), 0, 5).unwrap_err();
    assert_eq!(
        e.message(),
        "invalid receipt: data_service mismatch: expected 0x0101010101010101010101010101010101010101, got 0xFFfFfFffFFfffFFfFFfFFFFFffFFFffffFfFFFfF"
    );
    let r = receipt(address(0x01), 5, 1, 1);
    let e = check_receipt(&r, address(0x01), address(0xFF), 0, 5).unwrap_err();
    assert_eq!(
        e.message(),
        "invalid receipt: service_provider mismatch: expected 0xFFfFfFffFFfffFFfFFfFFFFFffFFFffffFfFFFfF, got 0x0202020202020202020202020202020202020202"
    );
}

#[test]
fn age_is_counted_from_the_timestamp() {
    let r = receipt(address(1), 100, 1, 1);
    assert!(check_receipt(&r, address(1), address(2), 10, 110).is_ok());
    let e = check_receipt(&r, address(1), address(2), 10, 111).unwrap_err();
    assert_eq!(e.message(), "receipt expired");
    assert!(check_receipt(&r, address(1), address(2), 0, 99).is_ok());
    assert!(check_receipt(&r, address(1), address(2), 0, 0).is_ok());
}

#[test]
fn unauthorized_sender_is_named() {
    let header = SignedReceipt { receipt: receipt(address(1), 1, 1, 1), signature: String::new() };
    let signer = eth_address(&test_sk());
    let e = authorize(header, Ok(signer), &[address(3)]).unwrap_err();
    assert_eq!(
        e.message(),
        "unauthorized sender: 0x1a642f0E3c3aF545E7AcBD38b07251B3990914F1"
    );
}

#[test]
fn failed_recovery_is_explained() {
    let header = SignedReceipt { receipt: receipt(address(1), 1, 1, 1), signature: String::new() };
    let e = authorize(header, Err(SignatureError::Length(3)), &[]).unwrap_err();
    assert_eq!(
        e.message(),
        "invalid receipt: signature recovery failed: signature must be 65 bytes, got 3"
    );
}

#[test]
fn domain_separator_value() {
    assert_eq!(
        hex_of(test_domain()),
        "fc3e4a5a38279bbe55052d7819e61a3d734058b1b1ed9c63e1813ce8b7402265"
    );
}

#[test]
fn receipt_hash_values() {
    let r = receipt(address(0x01), 1_000_000_000, 42, 100);
    let struct_hash = receipt_struct_hash(&r);
    assert_eq!(
        hex_of(struct_hash),
        "4ef3875f8ee6ce49a1c1e0573bd112f4d369db1ef0e4f940daf893ef0deb1d6e"
    );
    let expected = "49c125f875a79b32bf6f3e423e793f6e87ba61cbea761059db34299a5022abde";
    assert_eq!(hex_of(eip712_hash(test_domain(), &r)), expected);
    assert_eq!(hex_of(eip712_hash_raw(test_domain(), struct_hash)), expected);
}

#[test]
fn message_layout() {
    let message = eip712_message(&B256([7; 32]), &B256([9; 32]));
    assert_eq!(message.len(), 66);
    assert_eq!(message[..2], [0x19, 0x01]);
    assert_eq!(message[2..34], [7; 32]);
    assert_eq!(message[34..], [9; 32]);
}

#[test]
fn rav_hash_value() {
    let rav = Rav {
        collection_id: B256([0x11; 32]),
        payer: address(0x22),
        service_provider: address(0x33),
        data_service: address(0x44),
        timestamp_ns: 7,
        value_aggregate: 1u128 << 100,
        metadata: vec![1, 2],
    };
    assert_eq!(
        hex_of(rav_struct_hash(&rav)),
        "37d92ce643fe24dc134d9d118ba5ddb303daf32c5a5038dab6b58db8816a12ed"
    );
}

#[test]
fn collection_id_value() {
    assert_eq!(
        hex_of(collection_id(address(0x22), address(0x33), address(0x44))),
        "f9bfef5e9dd88e1611645f551e4c275a77db6eb5d29e0c56851b62f9d785aecc"
    );
    assert_ne!(
        collection_id(address(0x22), address(0x33), address(0x44)),
        collection_id(address(0x33), address(0x22), address(0x44))
    );
}

#[test]
fn payer_is_the_first_twenty_bytes() {
    assert_eq!(payer_from_metadata(&Vec::new()), None);
    assert_eq!(payer_from_metadata(&vec![5; 19]), None);
    assert_eq!(payer_from_metadata(&vec![5; 20]), Some(address(5)));
    let mut long = vec![5; 20];
    long.push(6);
    assert_eq!(payer_from_metadata(&long), Some(address(5)));
}

#[test]
fn recover_signer_value() {
    let expected = eth_address(&test_sk());
    assert_eq!(hex::encode(expected.0), "1a642f0e3c3af545e7acbd38b07251b3990914f1");
    let hash = B256([0x42; 32]);
    assert_eq!(recover_signer(hash, &format!("0x{RS}00")).unwrap(), expected);
    assert_ne!(recover_signer(hash, &format!("0x{RS}01")).unwrap(), expected);
}

#[test]
fn recovery_id_may_count_from_27() {
    let hash = B256([0x42; 32]);
    assert_eq!(
        recover_signer(hash, &format!("{RS}00")).unwrap(),
        recover_signer(hash, &format!("{RS}1b")).unwrap()
    );
    assert_eq!(
        recover_signer(hash, &format!("{RS}01")).unwrap(),
        recover_signer(hash, &format!("{RS}1c")).unwrap()
    );
}

#[test]
fn signature_prefix_does_not_matter() {
    let hash = B256([0x42; 32]);
    let plain = recover_signer(hash, &format!("{RS}00")).unwrap();
    assert_eq!(recover_signer(hash, &format!("0x{RS}00")).unwrap(), plain);
    assert_eq!(recover_signer(hash, &format!("0x0x{RS}00")).unwrap(), plain);
    assert_eq!(
        recover_signer(hash, &format!("0x{}00", RS.to_uppercase())).unwrap(),
        plain
    );
}

#[test]
fn malformed_signatures_are_explained() {
    let e = decode_signature("0xabc").unwrap_err();
    assert!(matches!(e, SignatureError::Hex(_)));
    assert_eq!(e.message(), "Odd number of digits");

    let e = decode_signature("0xzz").unwrap_err();
    assert_eq!(e.message(), "Invalid character 'z' at position 0");

    let e = decode_signature("0xé").unwrap_err();
    assert!(matches!(e, SignatureError::Hex(_)));

    let e = decode_signature("0xabcd").unwrap_err();
    assert!(matches!(e, SignatureError::Length(2)));
    assert_eq!(e.message(), "signature must be 65 bytes, got 2");

    let e = decode_signature("").unwrap_err();
    assert_eq!(e.message(), "signature must be 65 bytes, got 0");

    let e = decode_signature(&format!("{RS}04")).unwrap_err();
    assert!(matches!(e, SignatureError::RecoveryId(4)));
    assert_eq!(e.message(), "invalid recovery id 4");

    let e = decode_signature(&format!("{RS}1f")).unwrap_err();
    assert_eq!(e.message(), "invalid recovery id 31");
}

#[test]
fn decoded_signature_bytes() {
    let bytes = decode_signature(&format!("0x{RS}1b")).unwrap();
    assert_eq!(bytes.len(), 65);
    assert_eq!(hex::encode(&bytes), format!("{RS}1b"));
}

#[test]
fn unrecoverable_signature() {
    let zeros = "00".repeat(65);
    let e = recover_signer(B256([0x42; 32]), &zeros).unwrap_err();
    assert!(matches!(e, SignatureError::Unrecoverable(_)));
    assert_eq!(e.message(), "signature error");
}

#[test]
fn address_is_the_end_of_the_digest() {
    let mut digest = [0u8; 32];
    digest[11] = 1;
    digest[12] = 2;
    digest[31] = 3;
    let a = address_of_digest(&B256(digest));
    assert_eq!(a.0[0], 2);
    assert_eq!(a.0[19], 3);
}

#[test]
fn key_becomes_address() {
    let encoded = test_sk().verifying_key().to_encoded_point(false);
    let signer = signer_from_key(Ok(encoded.as_bytes().to_vec())).unwrap();
    assert_eq!(hex::encode(signer.0), "1a642f0e3c3af545e7acbd38b07251b3990914f1");
    let e = signer_from_key(Err("no key".to_string())).unwrap_err();
    assert_eq!(e.message(), "no key");
}

#[test]
fn voucher_fields_enter_its_hash() {
    let rav = Rav {
        collection_id: B256([0x11; 32]),
        payer: address(0x22),
        service_provider: address(0x33),
        data_service: address(0x44),
        timestamp_ns: 7,
        value_aggregate: 8,
        metadata: Vec::new(),
    };
    let hash = rav_struct_hash(&rav);
    let changed = [
        Rav { collection_id: B256([0x12; 32]), ..rav.clone() },
        Rav { payer: address(0x33), ..rav.clone() },
        Rav { service_provider: address(0x22), ..rav.clone() },
        Rav { data_service: address(0x45), ..rav.clone() },
        Rav { timestamp_ns: 8, ..rav.clone() },
        Rav { value_aggregate: 7, ..rav.clone() },
        Rav { metadata: vec![0], ..rav.clone() },
    ];
    for other in changed {
        assert_ne!(rav_struct_hash(&other), hash, "{other:?}");
    }
}

#[test]
fn accepted_receipt_was_accepted_earlier() {
    let sk = test_sk();
    let dom = test_domain();
    let header = signed(&sk, dom, receipt(address(0x01), 100, 42, 100));
    for now_ns in [0, 99, 100, 109, 110] {
        let outcome = validate_receipt(
            Ok(header.clone()),
            dom,
            &[],
            address(0x01),
            address(0x02),
            10,
            now_ns,
        );
        assert!(outcome.is_ok(), "{now_ns}");
    }
}

#[test]
fn address_of_a_secret_key() {
    let address = address_of_secret(&B256([1; 32])).unwrap();
    assert_eq!(hex::encode(address.0), "1a642f0e3c3af545e7acbd38b07251b3990914f1");
    assert_eq!(address_of_secret(&B256([0; 32])), None);
    assert_eq!(address_of_secret(&B256([0xff; 32])), None);
}

#[test]
fn signature_of_a_secret_key() {
    let hash = B256([0x42; 32]);
    // The nonce is that of RFC 6979 with SHA-256.
    assert_eq!(
        sign_with_secret(&B256([1; 32]), hash).unwrap(),
        "0x351f7775548e4c561dd9726a9ce477c78f6854ab2db3815e69792463fa54f1fa46192778740b115adf0529c6d1730b22d5a0636ff8a0d3ea6d7e021a144c0f0300"
    );
    assert_eq!(sign_with_secret(&B256([0; 32]), hash), None);
    assert_eq!(sign_with_secret(&B256([0xff; 32]), hash), None);
}

#[test]
fn every_spelling_gives_the_signer() {
    for n in 1..40u8 {
        let secret = B256([n; 32]);
        let hash = B256([n.wrapping_mul(37); 32]);
        let signer = address_of_secret(&secret).unwrap();
        assert_eq!(signer, eth_address(&SigningKey::from_slice(&[n; 32]).unwrap()));

        let text = sign_with_secret(&secret, hash).unwrap();
        let bytes = hex::decode(&text[2..]).unwrap();
        for offset in [0, 27] {
            let mut spelled = bytes.clone();
            spelled[64] += offset;
            for prefix in ["", "0x"] {
                let spelled = format!("{prefix}{}", hex::encode(&spelled));
                assert_eq!(recover_signer(hash, &spelled).unwrap(), signer, "{spelled}");
            }
        }
    }
}

#[test]
fn receipts_signed_here_are_accepted() {
    let secret = B256([7; 32]);
    let signer = address_of_secret(&secret).unwrap();
    let dom = test_domain();
    let receipt = receipt(address(0x01), 5, 42, 100);
    let signature = sign_with_secret(&secret, eip712_hash(dom, &receipt)).unwrap();
    let v = validate_receipt(
        Ok(SignedReceipt { receipt, signature }),
        dom,
        &[signer],
        address(0x01),
        address(0x02),
        0,
        5,
    )
    .unwrap();
    assert_eq!(v.signer, signer);
}
