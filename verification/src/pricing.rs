//! Per-endpoint compute-unit (CU) pricing.
//!
//! CU costs are multiplied by `base_price_per_cu` (GRT wei) to get the minimum receipt value for
//! an endpoint. Consumers should set their receipt value to at least
//! `cu_cost(path) * base_price_per_cu`.
//!
//! Default base price: 4_000_000_000_000 GRT wei per CU
//!   = 0.000004 GRT
//!
//! Tier summary:
//!   BASIC (1 CU)      — status, block, tx, signatures
//!   STANDARD (5 CU)   — transfers, events, address lookups, protocol tables
//!   AGGREGATE (10 CU) — time-bucketed gas/activity/volume stats
//!   SQL (20 CU)       — raw POST /v1/sql

use vstd::prelude::*;

use crate::text::{
    chars_equal, chars_of, ends_with, starts_with, trim_trailing, without_trailing,
};

verus! {

/// Default GRT wei per compute unit.
pub const DEFAULT_BASE_PRICE_PER_CU: u128 = 4_000_000_000_000;

/// Cheap lookups with no range scan.
pub open spec fn is_basic(path: Seq<char>) -> bool {
    ||| path == "/v1/status"@
    ||| path == "/v1/signatures"@
    ||| "/v1/block/"@.is_prefix_of(path)
    ||| "/v1/tx/"@.is_prefix_of(path)
}

/// Time-bucketed stats; potentially large scans.
pub open spec fn is_aggregate(path: Seq<char>) -> bool {
    ||| "/v1/gas/"@.is_prefix_of(path)
    ||| "/activity"@.is_suffix_of(path)
    ||| "/volume"@.is_suffix_of(path)
}

/// Compute units of a path, where slashes at its end do not count. A basic lookup is never
/// charged as an aggregate.
pub open spec fn compute_units(path: Seq<char>) -> u32 {
    let p = without_trailing(path, '/');
    if is_basic(p) {
        1
    } else if is_aggregate(p) {
        10
    } else if p == "/v1/sql"@ {
        20
    } else {
        5
    }
}

fn chars_read(chars: &Vec<char>, literal: &str) -> (equal: bool)
    ensures
        equal == (chars@ == literal@),
{
    chars_equal(chars, &chars_of(literal))
}

/// Compute-unit cost for the given request path.
///
/// `path` is the HTTP path component, e.g. "/v1/transfers".
/// Any unknown path defaults to STANDARD (5 CU).
pub fn cu_cost(path: &str) -> (units: u32)
    ensures
        units == compute_units(path@),
{
    let p = chars_of(trim_trailing(path, '/'));
    if chars_read(&p, "/v1/status") || chars_read(&p, "/v1/signatures") || starts_with(
        &p,
        "/v1/block/",
    ) || starts_with(&p, "/v1/tx/") {
        return 1;
    }
    if starts_with(&p, "/v1/gas/") || ends_with(&p, "/activity") || ends_with(&p, "/volume") {
        return 10;
    }
    if chars_read(&p, "/v1/sql") {
        return 20;
    }
    5
}

/// Minimum GRT wei required for a given path.
pub fn min_receipt_value(path: &str, base_price_per_cu: u128) -> (value: u128)
    requires
        compute_units(path@) * base_price_per_cu <= u128::MAX,
    ensures
        value == compute_units(path@) * base_price_per_cu,
{
    cu_cost(path) as u128 * base_price_per_cu
}

// ── Laws ─────────────────────────────────────────────────────────────────────

/// Every path is in one of the four tiers.
pub proof fn four_tiers(path: Seq<char>)
    ensures
        compute_units(path) == 1 || compute_units(path) == 5 || compute_units(path) == 10
            || compute_units(path) == 20,
{
}

/// A slash at the end of a path never changes what the path costs.
pub proof fn trailing_slash_is_free(path: Seq<char>)
    ensures
        compute_units(path.push('/')) == compute_units(path),
{
    assert(path.push('/').drop_last() =~= path);
}

/// A receipt value that suffices for a path at one base price suffices at any lower one.
pub proof fn cheaper_base_costs_no_more(path: Seq<char>, base: u128, lower: u128)
    requires
        lower <= base,
    ensures
        compute_units(path) * lower <= compute_units(path) * base,
{
    assert(compute_units(path) * lower <= compute_units(path) * base) by (nonlinear_arith)
        requires
            lower <= base,
    ;
}

/// What a path without a slash at its end costs: one unit for status, signatures, a block or a
/// transaction; else ten for gas statistics, activity or volume; else twenty for SQL; else five.
pub proof fn tiers_are_spelled_out(p: Seq<char>)
    requires
        p.len() > 0 ==> p[p.len() - 1] != '/',
    ensures
        ({
            let n = p.len() as int;
            let basic = p == "/v1/status"@ || p == "/v1/signatures"@ || (n >= 10 && p.subrange(0, 10)
                == "/v1/block/"@) || (n >= 7 && p.subrange(0, 7) == "/v1/tx/"@);
            let aggregate = (n >= 8 && p.subrange(0, 8) == "/v1/gas/"@) || (n >= 9 && p.subrange(
                n - 9,
                n,
            ) == "/activity"@) || (n >= 7 && p.subrange(n - 7, n) == "/volume"@);
            &&& basic ==> compute_units(p) == 1
            &&& !basic && aggregate ==> compute_units(p) == 10
            &&& !basic && !aggregate && p == "/v1/sql"@ ==> compute_units(p) == 20
            &&& !basic && !aggregate && p != "/v1/sql"@ ==> compute_units(p) == 5
        }),
{
    reveal_strlit("/v1/block/");
    reveal_strlit("/v1/tx/");
    reveal_strlit("/v1/gas/");
    reveal_strlit("/activity");
    reveal_strlit("/volume");
    assert(without_trailing(p, '/') == p);
}

/// A path costs what it costs without the slashes at its end.
pub proof fn slashes_at_the_end_are_free(path: Seq<char>, bare: Seq<char>)
    requires
        bare.len() <= path.len(),
        bare == path.subrange(0, bare.len() as int),
        forall|i: int| bare.len() <= i < path.len() ==> #[trigger] path[i] == '/',
    ensures
        compute_units(path) == compute_units(bare),
    decreases path.len(),
{
    if bare.len() < path.len() {
        let shorter = path.drop_last();
        assert(path[path.len() - 1] == '/');
        assert(shorter.subrange(0, bare.len() as int) =~= bare);
        slashes_at_the_end_are_free(shorter, bare);
        assert(shorter.push('/') =~= path);
        trailing_slash_is_free(shorter);
    } else {
        assert(bare =~= path);
    }
}

} // verus!
