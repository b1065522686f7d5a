//! What the gateway works out from its configuration when it starts.

use vstd::prelude::*;
use vstd::string::*;

use crate::config::{RateLimitConfig, ServerConfig, TapConfig};
use crate::primitives::B256;
use crate::tap::{domain_digest, domain_separator};
use crate::text::{decimal, decimal_string};

verus! {

/// The EIP-712 domain separator under which receipts are signed.
pub fn receipt_domain(tap: &TapConfig) -> (separator: B256)
    ensures
        separator@ == domain_digest(
            tap.eip712_domain_name@,
            tap.eip712_chain_id,
            tap.eip712_verifying_contract@,
        ),
{
    domain_separator(
        tap.eip712_domain_name.as_str(),
        tap.eip712_chain_id,
        tap.eip712_verifying_contract,
    )
}

/// The milliseconds after which one IP may make one more request; a rate of zero counts as one
/// per second.
pub fn rate_period_ms(rate_limit: &RateLimitConfig) -> (period: u64)
    ensures
        period == 1_000int / (if rate_limit.requests_per_second == 0 {
            1int
        } else {
            rate_limit.requests_per_second as int
        }),
{
    let rps: u32 = if rate_limit.requests_per_second == 0 {
        1
    } else {
        rate_limit.requests_per_second
    };
    1_000u64 / rps as u64
}

/// The address that is listened on: host, colon and port.
pub fn listen_address(server: &ServerConfig) -> (address: String)
    ensures
        address@ == server.host@ + ":"@ + decimal(server.port as nat),
{
    let mut address = server.host.clone();
    address.append(":");
    address.append(decimal_string(server.port as u128).as_str());
    address
}

} // verus!
