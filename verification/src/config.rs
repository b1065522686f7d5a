//! Gateway configuration: its shape, its defaults and the numbers it may spell as text.

use vstd::prelude::*;
use vstd::string::*;

use crate::primitives::{parse_address, parsed_address, Address};
use crate::text::{
    chars_of, decimal, decimal_is_digits, decimal_reads_back, is_decimal_digit, parse_u128_chars,
    parsed_u128, ParseU128Error,
};

verus! {

/// The whole configuration.
#[derive(Clone, Debug)]
pub struct Config {
    pub server: ServerConfig,
    pub indexer: IndexerConfig,
    pub tap: TapConfig,
    pub backend: BackendConfig,
    pub database: DatabaseConfig,
    pub collector: Option<CollectorConfig>,
    pub rate_limit: RateLimitConfig,
}

/// Where the gateway listens.
#[derive(Clone, Debug)]
pub struct ServerConfig {
    pub host: String,
    pub port: u16,
}

/// Who the provider is.
#[derive(Clone, Debug)]
pub struct IndexerConfig {
    /// The provider's on-chain address (must match the address used in register()).
    pub service_provider_address: Address,
    /// Hex-encoded 32-byte operator private key — signs collect() transactions.
    pub operator_private_key: String,
}

/// How receipts are validated and aggregated.
#[derive(Clone, Debug)]
pub struct TapConfig {
    /// WebSocketDataService contract address (set after deployment).
    pub data_service_address: Address,
    /// Addresses authorised to issue TAP receipts (typically the consumer-side gateway).
    /// Empty = accept receipts from any signer.
    pub authorized_senders: Vec<Address>,
    /// EIP-712 domain name for GraphTallyCollector.
    pub eip712_domain_name: String,
    /// Chain ID where GraphTallyCollector is deployed.
    pub eip712_chain_id: u64,
    /// GraphTallyCollector contract address.
    pub eip712_verifying_contract: Address,
    /// Maximum age of a TAP receipt before rejection (nanoseconds).
    pub max_receipt_age_ns: u64,
    /// Base URL of the TAP aggregator's /rav/aggregate endpoint.
    pub aggregator_url: Option<String>,
    /// How often to run RAV aggregation (seconds).
    pub aggregation_interval_secs: u64,
}

/// The upstream feed.
#[derive(Clone, Debug)]
pub struct BackendConfig {
    /// Base wss:// URL of the upstream Pinax WebSocket, e.g. "wss://ws.pinax.network".
    pub pinax_ws_base: String,
    /// Pinax API token, sent as the `?token=` query param on the upstream URL.
    pub pinax_token: String,
}

/// Where receipts and vouchers are kept.
#[derive(Clone, Debug)]
pub struct DatabaseConfig {
    pub url: String,
}

/// How vouchers are collected on chain.
#[derive(Clone, Debug)]
pub struct CollectorConfig {
    /// Arbitrum RPC URL used to submit collect() transactions.
    pub arbitrum_rpc_url: String,
    /// How often to check for unredeemed RAVs (seconds).
    pub collect_interval_secs: u64,
    /// Skip RAVs below this GRT wei threshold (avoids dust gas spend).
    pub min_collect_value: u128,
}

/// How many requests one IP may make.
#[derive(Clone, Debug)]
pub struct RateLimitConfig {
    /// Requests per second allowed per IP.
    pub requests_per_second: u32,
    /// Additional burst capacity above the steady-state rate.
    pub burst_size: u32,
}

impl Default for RateLimitConfig {
    fn default() -> (config: Self)
        ensures
            config.requests_per_second == 20,
            config.burst_size == 40,
    {
        RateLimitConfig { requests_per_second: default_rps(), burst_size: default_burst() }
    }
}

// ── Defaults ─────────────────────────────────────────────────────────────────

/// Listen on every interface.
pub fn default_host() -> (host: String)
    ensures
        host@ == "0.0.0.0"@,
{
    String::from_str("0.0.0.0")
}

/// The port that is listened on.
pub fn default_port() -> (port: u16)
    ensures
        port == 8090,
{
    8090
}

/// Requests per second allowed per IP.
pub fn default_rps() -> (rps: u32)
    ensures
        rps == 20,
{
    20
}

/// Additional burst capacity above the steady-state rate.
pub fn default_burst() -> (burst: u32)
    ensures
        burst == 40,
{
    40
}

/// Arbitrum Sepolia.
pub fn default_tap_chain_id() -> (chain_id: u64)
    ensures
        chain_id == 421614,
{
    421614
}

/// Thirty seconds.
pub fn default_max_receipt_age_ns() -> (age: u64)
    ensures
        age == 30_000_000_000,
{
    30_000_000_000
}

/// One minute.
pub fn default_aggregation_interval_secs() -> (secs: u64)
    ensures
        secs == 60,
{
    60
}

/// One hour.
pub fn default_collect_interval_secs() -> (secs: u64)
    ensures
        secs == 3600,
{
    3600
}

/// GraphTallyCollector on Arbitrum Sepolia.
pub fn default_tap_verifying_contract() -> (address: Address)
    ensures
        address@ == seq![
            0xacu8, 0xc7u8, 0x18u8, 0x44u8, 0xefu8, 0x6bu8, 0xeeu8, 0xf7u8, 0x01u8, 0x06u8,
            0xabu8, 0xe6u8, 0xe5u8, 0x10u8, 0x13u8, 0x18u8, 0x9au8, 0x1fu8, 0x37u8, 0x38u8,
        ],
{
    let text = "0xacC71844EF6beEF70106ABe6E51013189A1f3738";
    proof {
        reveal_strlit("0xacC71844EF6beEF70106ABe6E51013189A1f3738");
        assert(text@.skip(2).len() == 40);
        assert(parsed_address(text@) is Some);
    }
    let address = parse_address(text).unwrap();
    assert(address@ =~= parsed_address(text@).unwrap());
    address
}

// ── Numbers as text ──────────────────────────────────────────────────────────

/// A large number as the configuration may spell it.
#[derive(Clone, Debug)]
pub enum RawU128 {
    Int(i64),
    Str(String),
}

/// Why a configured number is no `u128`.
#[derive(Clone, Copy, Debug, PartialEq, Eq, Structural)]
pub enum RawU128Error {
    Negative,
    Text(ParseU128Error),
}

/// Whether `c` has the Unicode property White_Space.
pub open spec fn is_white_space(c: char) -> bool {
    let n = c as u32;
    ||| 0x9 <= n <= 0xd
    ||| n == 0x20
    ||| n == 0x85
    ||| n == 0xa0
    ||| n == 0x1680
    ||| 0x2000 <= n <= 0x200a
    ||| n == 0x2028
    ||| n == 0x2029
    ||| n == 0x202f
    ||| n == 0x205f
    ||| n == 0x3000
}

/// `s` without the white space in front.
pub open spec fn trim_front(s: Seq<char>) -> Seq<char>
    decreases s.len(),
{
    if s.len() > 0 && is_white_space(s[0]) {
        trim_front(s.skip(1))
    } else {
        s
    }
}

/// `s` without the white space at its end.
pub open spec fn trim_back(s: Seq<char>) -> Seq<char>
    decreases s.len(),
{
    if s.len() > 0 && is_white_space(s.last()) {
        trim_back(s.drop_last())
    } else {
        s
    }
}

/// What remains of a configured numeral: no white space around it and no underscores in it.
pub open spec fn numeral(s: Seq<char>) -> Seq<char> {
    trim_back(trim_front(s)).filter(|c: char| c != '_')
}

/// The number that the configuration spells.
pub open spec fn raw_u128(raw: RawU128) -> Result<u128, RawU128Error> {
    match raw {
        RawU128::Int(n) => if n < 0 {
            Err(RawU128Error::Negative)
        } else {
            Ok(n as u128)
        },
        RawU128::Str(s) => match parsed_u128(numeral(s@)) {
            Ok(v) => Ok(v),
            Err(e) => Err(RawU128Error::Text(e)),
        },
    }
}

fn white_space(c: char) -> (found: bool)
    ensures
        found == is_white_space(c),
{
    let n: u32 = c as u32;
    (0x9 <= n && n <= 0xd) || n == 0x20 || n == 0x85 || n == 0xa0 || n == 0x1680 || (0x2000 <= n && n
        <= 0x200a) || n == 0x2028 || n == 0x2029 || n == 0x202f || n == 0x205f || n == 0x3000
}

/// Cuts a configured numeral down to the characters that count.
fn numeral_chars(s: &str) -> (chars: Vec<char>)
    ensures
        chars@ == numeral(s@),
{
    let all = chars_of(s);
    let mut start: usize = 0;
    assert(s@.skip(0) == s@);
    while start < all.len() && white_space(all[start])
        invariant
            all@ == s@,
            start <= s@.len(),
            trim_front(s@) == trim_front(s@.skip(start as int)),
        decreases s@.len() - start,
    {
        assert(s@.skip(start as int).skip(1) == s@.skip(start + 1));
        start += 1;
    }
    let ghost front = s@.skip(start as int);
    let mut end: usize = all.len();
    assert(s@.subrange(start as int, end as int) == front);
    while end > start && white_space(all[end - 1])
        invariant
            all@ == s@,
            start <= end <= s@.len(),
            trim_back(front) == trim_back(s@.subrange(start as int, end as int)),
        decreases end,
    {
        let ghost before = s@.subrange(start as int, end as int);
        assert(before.drop_last() == s@.subrange(start as int, end - 1));
        end -= 1;
    }
    let ghost trimmed = s@.subrange(start as int, end as int);
    let ghost keep = |c: char| c != '_';
    let mut chars: Vec<char> = Vec::new();
    let mut i: usize = start;
    assert(trimmed.take(0).filter(keep) =~= Seq::<char>::empty()) by {
        reveal(Seq::filter);
    }
    while i < end
        invariant
            all@ == s@,
            start <= i <= end <= s@.len(),
            trimmed == s@.subrange(start as int, end as int),
            keep == (|c: char| c != '_'),
            chars@ == trimmed.take(i - start).filter(keep),
        decreases end - i,
    {
        let c = all[i];
        proof {
            reveal(Seq::filter);
            assert(trimmed.take(i - start + 1).drop_last() =~= trimmed.take(i - start));
            assert(trimmed.take(i - start + 1).last() == c);
        }
        if c != '_' {
            chars.push(c);
        }
        i += 1;
    }
    assert(trimmed.take(end - start) =~= trimmed);
    chars
}

/// A number spelled as plain decimal digits is read as that number.
pub proof fn plain_numeral_reads_back(n: u128, raw: RawU128)
    requires
        raw matches RawU128::Str(s) && s@ == decimal(n as nat),
    ensures
        raw_u128(raw) == Ok::<u128, RawU128Error>(n),
{
    let s = decimal(n as nat);
    decimal_is_digits(n as nat);
    decimal_reads_back(n);
    assert(is_decimal_digit(s[0]));
    assert(is_decimal_digit(s[s.len() - 1]));
    assert(trim_back(trim_front(s)) == s);
    lemma_filter_keeps(s);
}

proof fn lemma_filter_keeps(s: Seq<char>)
    requires
        forall|i: int| 0 <= i < s.len() ==> is_decimal_digit(#[trigger] s[i]),
    ensures
        s.filter(|c: char| c != '_') == s,
    decreases s.len(),
{
    reveal(Seq::filter);
    if s.len() > 0 {
        lemma_filter_keeps(s.drop_last());
        assert(is_decimal_digit(s[s.len() - 1]));
        assert(s.drop_last().push(s.last()) =~= s);
    } else {
        assert(s.filter(|c: char| c != '_') =~= s);
    }
}

/// Reads a large number from its configured spelling.
pub fn de_u128(raw: RawU128) -> (value: Result<u128, RawU128Error>)
    ensures
        value == raw_u128(raw),
{
    match raw {
        RawU128::Int(n) => if n < 0 {
            Err(RawU128Error::Negative)
        } else {
            Ok(n as u128)
        },
        RawU128::Str(s) => match parse_u128_chars(&numeral_chars(s.as_str())) {
            Ok(v) => Ok(v),
            Err(e) => Err(RawU128Error::Text(e)),
        },
    }
}

impl RawU128Error {
    /// The error in words.
    pub open spec fn text(self) -> Seq<char> {
        match self {
            RawU128Error::Negative => "negative u128"@,
            RawU128Error::Text(
                ParseU128Error::Empty,
            ) => "cannot parse integer from empty string"@,
            RawU128Error::Text(ParseU128Error::InvalidDigit) => "invalid digit found in string"@,
            RawU128Error::Text(
                ParseU128Error::Overflow,
            ) => "number too large to fit in target type"@,
        }
    }

    /// The error in words.
    pub fn message(&self) -> (text: String)
        ensures
            text@ == self.text(),
    {
        match self {
            RawU128Error::Negative => String::from_str("negative u128"),
            RawU128Error::Text(ParseU128Error::Empty) => String::from_str(
                "cannot parse integer from empty string",
            ),
            RawU128Error::Text(ParseU128Error::InvalidDigit) => String::from_str(
                "invalid digit found in string",
            ),
            RawU128Error::Text(ParseU128Error::Overflow) => String::from_str(
                "number too large to fit in target type",
            ),
        }
    }
}

// ── Laws ─────────────────────────────────────────────────────────────────────

/// What counts as white space: the characters with that Unicode property.
pub proof fn white_space_is_listed(c: char)
    ensures
        is_white_space(c) <==> seq![
            0x9int, 0xa, 0xb, 0xc, 0xd, 0x20, 0x85, 0xa0, 0x1680, 0x2000, 0x2001, 0x2002, 0x2003,
            0x2004, 0x2005, 0x2006, 0x2007, 0x2008, 0x2009, 0x200a, 0x2028, 0x2029, 0x202f, 0x205f,
            0x3000,
        ].contains(c as int),
{
    let listed = seq![
        0x9int, 0xa, 0xb, 0xc, 0xd, 0x20, 0x85, 0xa0, 0x1680, 0x2000, 0x2001, 0x2002, 0x2003,
        0x2004, 0x2005, 0x2006, 0x2007, 0x2008, 0x2009, 0x200a, 0x2028, 0x2029, 0x202f, 0x205f,
        0x3000,
    ];
    let n = c as int;
    if is_white_space(c) {
        let i: int = if n <= 0xd {
            n - 0x9
        } else if n == 0x20 {
            5
        } else if n == 0x85 {
            6
        } else if n == 0xa0 {
            7
        } else if n == 0x1680 {
            8
        } else if n <= 0x200a {
            9 + (n - 0x2000)
        } else if n == 0x2028 {
            20
        } else if n == 0x2029 {
            21
        } else if n == 0x202f {
            22
        } else if n == 0x205f {
            23
        } else {
            24
        };
        assert(listed[i] == n);
    }
}

/// An integer is read as it is, unless it is negative.
pub proof fn integers_are_read_as_they_are(n: i64)
    ensures
        n >= 0 ==> raw_u128(RawU128::Int(n)) == Ok::<u128, RawU128Error>(n as u128),
        n < 0 ==> raw_u128(RawU128::Int(n)) == Err::<u128, RawU128Error>(RawU128Error::Negative),
{
}

/// White space around a configured number does not count, wherever it is added; white space alone
/// is an empty number.
pub proof fn white_space_around_is_ignored(w: char, s: Seq<char>)
    requires
        is_white_space(w),
    ensures
        numeral(seq![w] + s) == numeral(s),
        numeral(s.push(w)) == numeral(s),
        numeral(Seq::empty()) == Seq::<char>::empty(),
{
    assert((seq![w] + s).skip(1) =~= s);
    lemma_trim_front_push(s, w);
    assert(numeral(Seq::empty()) =~= Seq::<char>::empty()) by {
        reveal(Seq::filter);
    }
    let front = trim_front(s);
    if front.len() > 0 {
        assert(front.push(w).drop_last() =~= front);
    }
}

proof fn lemma_trim_front_push(s: Seq<char>, w: char)
    requires
        is_white_space(w),
    ensures
        trim_front(s).len() > 0 ==> trim_front(s.push(w)) == trim_front(s).push(w),
        trim_front(s).len() == 0 ==> trim_front(s.push(w)).len() == 0 && trim_front(s.push(w))
            == trim_front(s),
    decreases s.len(),
{
    if s.len() > 0 && is_white_space(s[0]) {
        assert(s.push(w)[0] == s[0]);
        assert(s.push(w).skip(1) =~= s.skip(1).push(w));
        lemma_trim_front_push(s.skip(1), w);
    } else if s.len() == 0 {
        assert(s.push(w).skip(1) =~= Seq::<char>::empty());
        assert(trim_front(s.push(w)) == trim_front(s.push(w).skip(1)));
        assert(s =~= Seq::<char>::empty());
    } else {
        assert(s.push(w)[0] == s[0]);
    }
}

/// A configured number without white space around it is read without its underscores, and else
/// character by character as it stands.
pub proof fn underscores_are_ignored(raw: RawU128)
    requires
        raw matches RawU128::Str(s) && s@.len() > 0 && !is_white_space(s@[0]) && !is_white_space(
            s@[s@.len() - 1],
        ),
    ensures
        ({
            let kept = raw->Str_0@.filter(|c: char| c != '_');
            &&& parsed_u128(kept) matches Ok(v) ==> raw_u128(raw) == Ok::<u128, RawU128Error>(v)
            &&& parsed_u128(kept) matches Err(e) ==> raw_u128(raw) == Err::<u128, RawU128Error>(
                RawU128Error::Text(e),
            )
        }),
{
}

/// Text is read by what remains of it, and by nothing else: spellings of which the same remains
/// are read alike.
pub proof fn spellings_of_one_numeral_are_read_alike(a: RawU128, b: RawU128)
    requires
        a is Str && b is Str,
        numeral(a->Str_0@) == numeral(b->Str_0@),
    ensures
        raw_u128(a) == raw_u128(b),
{
}

/// What errors say.
pub proof fn errors_are_worded()
    ensures
        RawU128Error::Negative.text() == "negative u128"@,
        RawU128Error::Text(ParseU128Error::Empty).text()
            == "cannot parse integer from empty string"@,
        RawU128Error::Text(ParseU128Error::InvalidDigit).text() == "invalid digit found in string"@,
        RawU128Error::Text(ParseU128Error::Overflow).text()
            == "number too large to fit in target type"@,
{
}

} // verus!
