use ws_gateway::pricing::{cu_cost, min_receipt_value, DEFAULT_BASE_PRICE_PER_CU};

#[test]
fn status_is_basic() {
    assert_eq!(cu_cost("/v1/status"), 1);
}

#[test]
fn block_is_basic() {
    assert_eq!(cu_cost("/v1/block/12345678"), 1);
}

#[test]
fn tx_is_basic() {
    assert_eq!(cu_cost("/v1/tx/0xdeadbeef"), 1);
}

#[test]
fn transfers_is_standard() {
    assert_eq!(cu_cost("/v1/transfers"), 5);
}

#[test]
fn horizon_is_standard() {
    assert_eq!(cu_cost("/v1/horizon/provisions"), 5);
}

#[test]
fn gas_is_aggregate() {
    assert_eq!(cu_cost("/v1/gas/blocks"), 10);
}

#[test]
fn contract_activity_is_aggregate() {
    assert_eq!(cu_cost("/v1/contract/0xabc/activity"), 10);
}

#[test]
fn token_volume_is_aggregate() {
    assert_eq!(cu_cost("/v1/token/0xabc/volume"), 10);
}

#[test]
fn sql_is_sql() {
    assert_eq!(cu_cost("/v1/sql"), 20);
}

#[test]
fn unknown_path_is_standard() {
    assert_eq!(cu_cost("/v1/something/new"), 5);
}

#[test]
fn min_value_scales_with_base_price() {
    let base = 4_000_000_000_000u128;
    assert_eq!(min_receipt_value("/v1/status", base), base);
    assert_eq!(min_receipt_value("/v1/transfers", base), 5 * base);
    assert_eq!(min_receipt_value("/v1/sql", base), 20 * base);
}

#[test]
fn trailing_slashes_cost_nothing() {
    assert_eq!(cu_cost("/v1/status/"), 1);
    assert_eq!(cu_cost("/v1/sql///"), 20);
    assert_eq!(cu_cost("/v1/token/0xabc/volume/"), 10);
    assert_eq!(cu_cost("/v1/block/"), 5);
}

#[test]
fn signatures_is_basic() {
    assert_eq!(cu_cost("/v1/signatures"), 1);
}

#[test]
fn basic_wins_over_aggregate() {
    assert_eq!(cu_cost("/v1/tx/0xabc/activity"), 1);
    assert_eq!(cu_cost("/v1/block/7/volume"), 1);
}

#[test]
fn odd_paths_are_standard() {
    assert_eq!(cu_cost(""), 5);
    assert_eq!(cu_cost("/"), 5);
    assert_eq!(cu_cost("/v1/sqlite"), 5);
    assert_eq!(cu_cost("/v1/gas"), 5);
    assert_eq!(cu_cost("/v1/übersicht"), 5);
}

#[test]
fn default_base_price() {
    assert_eq!(DEFAULT_BASE_PRICE_PER_CU, 4_000_000_000_000);
    assert_eq!(min_receipt_value("/v1/gas/blocks", DEFAULT_BASE_PRICE_PER_CU), 40_000_000_000_000);
}

#[test]
fn lower_base_price_costs_no_more() {
    for path in ["/v1/status", "/v1/transfers", "/v1/gas/blocks", "/v1/sql"] {
        assert!(min_receipt_value(path, 3) <= min_receipt_value(path, 4));
        assert_eq!(min_receipt_value(path, 0), 0);
    }
}
