use ws_gateway::config::{
    de_u128, default_aggregation_interval_secs, default_burst, default_collect_interval_secs,
    default_host, default_max_receipt_age_ns, default_port, default_rps, default_tap_chain_id,
    default_tap_verifying_contract, RateLimitConfig, RawU128, RawU128Error, ServerConfig,
    TapConfig,
};
use ws_gateway::gateway::{listen_address, rate_period_ms, receipt_domain};
use ws_gateway::primitives::Address;
use ws_gateway::tap::domain_separator;
use ws_gateway::text::{
    decimal_string, parse_u128, parse_u128_or_zero, trim_hex_prefix, trim_trailing, ParseU128Error,
};

fn spelled(s: &str) -> RawU128 {
    RawU128::Str(s.to_string())
}

#[test]
fn decimal_numerals() {
    assert_eq!(decimal_string(0), "0");
    assert_eq!(decimal_string(9), "9");
    assert_eq!(decimal_string(10), "10");
    assert_eq!(decimal_string(1_234_567_890), "1234567890");
    assert_eq!(decimal_string(u128::MAX), "340282366920938463463374607431768211455");
}

#[test]
fn decimals_read_back() {
    for n in [0, 1, 10, 99, 12345, u64::MAX as u128, u128::MAX - 1, u128::MAX] {
        assert_eq!(parse_u128(&decimal_string(n)), Ok(n));
        assert_eq!(de_u128(RawU128::Str(decimal_string(n))), Ok(n));
    }
}

#[test]
fn parses_as_the_standard_library_does() {
    let cases = [
        "", "+", "-", "-1", "+7", "++7", "007", "12a", "a12", " 1", "1 ", "1_000", "٣",
        "340282366920938463463374607431768211455",
        "340282366920938463463374607431768211456",
        "999999999999999999999999999999999999999999",
        "340282366920938463463374607431768211456x",
        "34028236692093846346337460743176821145x",
        "00000000000000000000000000000000000000000000000000012",
    ];
    for s in cases {
        let ours = parse_u128(s);
        match s.parse::<u128>() {
            Ok(v) => assert_eq!(ours, Ok(v), "{s}"),
            Err(e) => {
                let e = e.to_string();
                let mine = RawU128Error::Text(ours.unwrap_err()).message();
                assert_eq!(mine, e, "{s}");
            }
        }
    }
}

#[test]
fn unreadable_numbers_count_as_zero() {
    assert_eq!(parse_u128_or_zero("x"), 0);
    assert_eq!(parse_u128_or_zero("17"), 17);
}

#[test]
fn parse_errors() {
    assert_eq!(parse_u128(""), Err(ParseU128Error::Empty));
    assert_eq!(parse_u128("1x"), Err(ParseU128Error::InvalidDigit));
    assert_eq!(
        parse_u128("340282366920938463463374607431768211456"),
        Err(ParseU128Error::Overflow)
    );
}

#[test]
fn configured_numbers() {
    assert_eq!(de_u128(RawU128::Int(0)), Ok(0));
    assert_eq!(de_u128(RawU128::Int(i64::MAX)), Ok(i64::MAX as u128));
    assert_eq!(de_u128(RawU128::Int(-1)), Err(RawU128Error::Negative));
    assert_eq!(de_u128(spelled("1_000_000")), Ok(1_000_000));
    assert_eq!(de_u128(spelled(" \t\u{a0}\u{3000}42\n ")), Ok(42));
    assert_eq!(de_u128(spelled("___")), Err(RawU128Error::Text(ParseU128Error::Empty)));
    assert_eq!(
        de_u128(spelled("1 000")),
        Err(RawU128Error::Text(ParseU128Error::InvalidDigit))
    );
}

#[test]
fn white_space_is_as_in_the_standard_library() {
    for n in 0..=0x10ffffu32 {
        if let Some(c) = char::from_u32(n) {
            if c.is_whitespace() || n < 0x300 || (0x1000..0x3100).contains(&n) {
                let mut s = String::new();
                s.push(c);
                s.push('7');
                s.push(c);
                let expected = s.trim().replace('_', "").parse::<u128>();
                assert_eq!(de_u128(RawU128::Str(s)).ok(), expected.ok(), "{n:x}");
            }
        }
    }
}

#[test]
fn configured_number_errors_in_words() {
    assert_eq!(RawU128Error::Negative.message(), "negative u128");
    assert_eq!(
        RawU128Error::Text(ParseU128Error::Overflow).message(),
        "number too large to fit in target type"
    );
}

#[test]
fn defaults() {
    assert_eq!(default_host(), "0.0.0.0");
    assert_eq!(default_port(), 8090);
    assert_eq!(default_rps(), 20);
    assert_eq!(default_burst(), 40);
    assert_eq!(default_tap_chain_id(), 421614);
    assert_eq!(default_max_receipt_age_ns(), 30_000_000_000);
    assert_eq!(default_aggregation_interval_secs(), 60);
    assert_eq!(default_collect_interval_secs(), 3600);
    let limits = RateLimitConfig::default();
    assert_eq!(limits.requests_per_second, 20);
    assert_eq!(limits.burst_size, 40);
}

#[test]
fn default_contract() {
    assert_eq!(
        hex::encode(default_tap_verifying_contract().0),
        "acc71844ef6beef70106abe6e51013189a1f3738"
    );
}

#[test]
fn trims() {
    assert_eq!(trim_hex_prefix("0x0xab"), "ab");
    assert_eq!(trim_hex_prefix("0Xab"), "0Xab");
    assert_eq!(trim_hex_prefix("0x"), "");
    assert_eq!(trim_hex_prefix("0"), "0");
    assert_eq!(trim_trailing("a//b//", '/'), "a//b");
    assert_eq!(trim_trailing("///", '/'), "");
    assert_eq!(trim_trailing("é/", '/'), "é");
}

#[test]
fn rate_periods() {
    let period = |requests_per_second| {
        rate_period_ms(&RateLimitConfig { requests_per_second, burst_size: 1 })
    };
    assert_eq!(period(0), 1000);
    assert_eq!(period(1), 1000);
    assert_eq!(period(3), 333);
    assert_eq!(period(20), 50);
    assert_eq!(period(1000), 1);
    assert_eq!(period(1001), 0);
    assert_eq!(period(u32::MAX), 0);
}

#[test]
fn listen_addresses() {
    let server = ServerConfig { host: default_host(), port: default_port() };
    assert_eq!(listen_address(&server), "0.0.0.0:8090");
    let server = ServerConfig { host: "[::1]".to_string(), port: 0 };
    assert_eq!(listen_address(&server), "[::1]:0");
}

#[test]
fn receipts_are_signed_in_the_configured_domain() {
    let contract = Address::from_slice(&[0xAB; 20]);
    let tap = TapConfig {
        data_service_address: Address::from_slice(&[1; 20]),
        authorized_senders: Vec::new(),
        eip712_domain_name: "GraphTallyCollector".to_string(),
        eip712_chain_id: 42161,
        eip712_verifying_contract: contract,
        max_receipt_age_ns: default_max_receipt_age_ns(),
        aggregator_url: None,
        aggregation_interval_secs: default_aggregation_interval_secs(),
    };
    assert_eq!(
        receipt_domain(&tap),
        domain_separator("GraphTallyCollector", 42161, contract)
    );
}
