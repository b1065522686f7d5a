//! Addresses, 32-byte words and the Keccak-256 digest.

use vstd::prelude::*;
use vstd::string::*;

use crate::text::{
    hex_bytes, hex_digit, hex_is_read_by_halves, hex_is_written_by_halves, hex_reads_back,
    hex_value, is_hex_digit, lower_hex, nibble, spells,
};

verus! {

// ── Fixed-size byte strings ──────────────────────────────────────────────────

/// A 20-byte account or contract address.
#[derive(Clone, Copy, Debug, Eq)]
pub struct Address(pub [u8; 20]);

/// A 32-byte word: a digest, a domain separator or a collection id.
#[derive(Clone, Copy, Debug, Eq)]
pub struct B256(pub [u8; 32]);

impl View for Address {
    type V = Seq<u8>;

    open spec fn view(&self) -> Seq<u8> {
        self.0@
    }
}

impl View for B256 {
    type V = Seq<u8>;

    open spec fn view(&self) -> Seq<u8> {
        self.0@
    }
}

/// Whether two byte strings are the same.
pub fn bytes_equal(a: &[u8], b: &[u8]) -> (equal: bool)
    ensures
        equal == (a@ == b@),
{
    if a.len() != b.len() {
        return false;
    }
    let mut i: usize = 0;
    while i < a.len()
        invariant
            a@.len() == b@.len(),
            i <= a@.len(),
            forall|k: int| 0 <= k < i ==> a@[k] == b@[k],
        decreases a@.len() - i,
    {
        if a[i] != b[i] {
            return false;
        }
        i += 1;
    }
    assert(a@ =~= b@);
    true
}

impl PartialEq for Address {
    fn eq(&self, other: &Self) -> (equal: bool) {
        bytes_equal(&self.0, &other.0)
    }
}

impl vstd::std_specs::cmp::PartialEqSpecImpl for Address {
    open spec fn obeys_eq_spec() -> bool {
        true
    }

    open spec fn eq_spec(&self, other: &Self) -> bool {
        self@ == other@
    }
}

impl PartialEq for B256 {
    fn eq(&self, other: &Self) -> (equal: bool) {
        bytes_equal(&self.0, &other.0)
    }
}

impl vstd::std_specs::cmp::PartialEqSpecImpl for B256 {
    open spec fn obeys_eq_spec() -> bool {
        true
    }

    open spec fn eq_spec(&self, other: &Self) -> bool {
        self@ == other@
    }
}

impl Address {
    /// The address whose bytes are `src`.
    pub fn from_slice(src: &[u8]) -> (address: Address)
        requires
            src@.len() == 20,
        ensures
            address@ == src@,
    {
        let mut bytes: [u8; 20] = [0u8; 20];
        let mut i: usize = 0;
        while i < 20
            invariant
                i <= 20,
                src@.len() == 20,
                forall|k: int| 0 <= k < i ==> bytes@[k] == src@[k],
            decreases 20 - i,
        {
            bytes[i] = src[i];
            i += 1;
        }
        assert(bytes@ =~= src@);
        Address(bytes)
    }
}

impl B256 {
    /// The word whose bytes are `src`.
    pub fn from_slice(src: &[u8]) -> (word: B256)
        requires
            src@.len() == 32,
        ensures
            word@ == src@,
    {
        let mut bytes: [u8; 32] = [0u8; 32];
        let mut i: usize = 0;
        while i < 32
            invariant
                i <= 32,
                src@.len() == 32,
                forall|k: int| 0 <= k < i ==> bytes@[k] == src@[k],
            decreases 32 - i,
        {
            bytes[i] = src[i];
            i += 1;
        }
        assert(bytes@ =~= src@);
        B256(bytes)
    }
}

// ── Keccak-256 ───────────────────────────────────────────────────────────────

/// The Keccak-256 digest of `data`.
pub uninterp spec fn keccak256_digest(data: Seq<u8>) -> Seq<u8>;

/// Calls `alloy_primitives::keccak256`.
///
/// Trusted: the digest is a function of the bytes alone, which `keccak256_digest` names. How it is
/// computed stays unsaid, and so does that no two byte strings in use share a digest.
#[verifier::external_body]
pub(crate) fn keccak256(data: &[u8]) -> (digest: B256)
    ensures
        digest@ == keccak256_digest(data@),
{
    B256(alloy_primitives::keccak256(data).0)
}

// ── Text forms ───────────────────────────────────────────────────────────────

/// `0x` and the lower-case digits of `bytes`.
pub open spec fn prefixed_hex(bytes: Seq<u8>) -> Seq<char> {
    seq!['0', 'x'] + lower_hex(bytes)
}

/// The EIP-55 form of an address: its lower-case digits, where a letter turns upper-case if the
/// half byte at the same place in the digest of those digits is eight or more.
pub open spec fn checksum_text(address: Seq<u8>) -> Seq<char> {
    let digits = lower_hex(address);
    let digest = keccak256_digest(Seq::new(digits.len(), |i: int| digits[i] as u8));
    seq!['0', 'x'] + Seq::new(
        digits.len(),
        |i: int|
            if digits[i] >= 'a' && nibble(digest, i) >= 8 {
                (digits[i] as int - 32) as char
            } else {
                digits[i]
            },
    )
}

/// The address that `s` names: forty hexadecimal digits of either case, after an optional `0x`
/// or `0X`.
pub open spec fn parsed_address(s: Seq<char>) -> Option<Seq<u8>> {
    let digits = if s.len() >= 2 && s[0] == '0' && (s[1] == 'x' || s[1] == 'X') {
        s.skip(2)
    } else {
        s
    };
    if digits.len() == 40 {
        hex_bytes(digits)
    } else {
        None
    }
}

/// An address written in lower case reads back as the same address.
pub proof fn address_reads_back(address: Seq<u8>)
    requires
        address.len() == 20,
    ensures
        parsed_address(prefixed_hex(address)) == Some(address),
{
    hex_reads_back(address);
    assert(prefixed_hex(address).skip(2) =~= lower_hex(address));
}

/// An address written in its EIP-55 form reads back as the same address.
pub proof fn checksum_reads_back(address: Seq<u8>)
    requires
        address.len() == 20,
    ensures
        parsed_address(checksum_text(address)) == Some(address),
{
    let lower = lower_hex(address);
    let mixed = checksum_text(address).skip(2);
    hex_reads_back(address);
    assert(mixed.len() == 40);
    assert forall|i: int| 0 <= i < 40 implies is_hex_digit(#[trigger] mixed[i]) && hex_value(
        mixed[i],
    ) == hex_value(lower[i]) by {
        assert(0 <= nibble(address, i) < 16);
        assert(lower[i] == hex_digit(nibble(address, i)));
    }
    assert(hex_bytes(mixed).unwrap() =~= hex_bytes(lower).unwrap());
}

/// How `alloy_primitives` words its refusal to read `s` as an address.
pub uninterp spec fn address_error_text(s: Seq<char>) -> Seq<char>;

/// How `hex` words its refusal to decode `s`.
pub uninterp spec fn hex_error_text(s: Seq<char>) -> Seq<char>;

/// Calls `<alloy_primitives::Address as FromStr>::from_str`.
///
/// Trusted: it reads exactly what `parsed_address` says, and words each refusal as a function of
/// the text alone, which `address_error_text` names. The wording itself stays unsaid.
#[verifier::external_body]
pub(crate) fn parse_address(s: &str) -> (parsed: Result<Address, String>)
    ensures
        match parsed {
            Ok(address) => parsed_address(s@) == Some(address@),
            Err(e) => parsed_address(s@) is None && e@ == address_error_text(s@),
        },
{
    match s.parse::<alloy_primitives::Address>() {
        Ok(address) => Ok(Address(address.into_array())),
        Err(e) => Err(e.to_string()),
    }
}

/// Calls `hex::decode`.
///
/// Trusted: it decodes exactly the strings of digit pairs, as `hex_bytes` says, and words each
/// refusal as a function of the text alone, which `hex_error_text` names. The wording itself stays
/// unsaid: it escapes the offending character.
#[verifier::external_body]
pub(crate) fn hex_decode(s: &str) -> (decoded: Result<Vec<u8>, String>)
    ensures
        match decoded {
            Ok(bytes) => hex_bytes(s@) == Some(bytes@),
            Err(e) => hex_bytes(s@) is None && e@ == hex_error_text(s@),
        },
{
    match hex::decode(s) {
        Ok(bytes) => Ok(bytes),
        Err(e) => Err(e.to_string()),
    }
}

/// Calls `hex::encode`.
///
/// Trusted: it writes every byte as two lower-case digits, high half first.
#[verifier::external_body]
pub(crate) fn hex_encode(bytes: &[u8]) -> (s: String)
    ensures
        s@ == lower_hex(bytes@),
{
    hex::encode(bytes)
}

/// Calls `<alloy_primitives::Address as Display>::fmt`.
///
/// Trusted: without flags it writes the EIP-55 form, `checksum_text`.
#[verifier::external_body]
pub(crate) fn address_checksum(address: &Address) -> (s: String)
    ensures
        s@ == checksum_text(address@),
{
    alloy_primitives::Address::new(address.0).to_string()
}

/// Calls `<alloy_primitives::Address as Debug>::fmt`.
///
/// Trusted: it writes `0x` and the lower-case digits.
#[verifier::external_body]
pub(crate) fn address_hex(address: &Address) -> (s: String)
    ensures
        s@ == prefixed_hex(address@),
{
    format!("{:?}", alloy_primitives::Address::new(address.0))
}

/// Calls `<alloy_primitives::B256 as Debug>::fmt`.
///
/// Trusted: it writes `0x` and the lower-case digits.
#[verifier::external_body]
pub(crate) fn word_hex(word: &B256) -> (s: String)
    ensures
        s@ == prefixed_hex(word@),
{
    format!("{:?}", alloy_primitives::B256::new(word.0))
}

// ── Laws ─────────────────────────────────────────────────────────────────────

/// Addresses and words stand for their bytes, and two are equal exactly when their bytes are.
pub proof fn bytes_are_the_value(a: Address, b: Address, v: B256, w: B256)
    ensures
        a@ == a.0@ && a@.len() == 20,
        v@ == v.0@ && v@.len() == 32,
        vstd::std_specs::cmp::PartialEqSpec::eq_spec(&a, &b) <==> a.0@ == b.0@,
        vstd::std_specs::cmp::PartialEqSpec::eq_spec(&v, &w) <==> v.0@ == w.0@,
{
}

/// The text form of bytes is `0x` and two digits for each byte.
pub proof fn prefixed_hex_is_spelled_out(bytes: Seq<u8>)
    ensures
        prefixed_hex(bytes).len() == 2 + 2 * bytes.len(),
        prefixed_hex(bytes)[0] == '0',
        prefixed_hex(bytes)[1] == 'x',
        forall|i: int|
            0 <= i < bytes.len() ==> {
                &&& prefixed_hex(bytes)[2 + 2 * i] == "0123456789abcdef"@[#[trigger] bytes[i] as int
                    / 16]
                &&& prefixed_hex(bytes)[3 + 2 * i] == "0123456789abcdef"@[bytes[i] as int % 16]
            },
{
    assert forall|i: int| 0 <= i < bytes.len() implies {
        &&& prefixed_hex(bytes)[2 + 2 * i] == "0123456789abcdef"@[#[trigger] bytes[i] as int / 16]
        &&& prefixed_hex(bytes)[3 + 2 * i] == "0123456789abcdef"@[bytes[i] as int % 16]
    } by {
        hex_is_written_by_halves(bytes, i);
        assert(prefixed_hex(bytes)[2 + 2 * i] == lower_hex(bytes)[2 * i]);
        assert(prefixed_hex(bytes)[3 + 2 * i] == lower_hex(bytes)[2 * i + 1]);
    }
}

/// Whether `s` is `bytes` written from its `from`-th character on, to its end, as two digits each,
/// in either case.
pub open spec fn spelled_from(s: Seq<char>, from: int, bytes: Seq<u8>) -> bool {
    &&& s.len() == from + 2 * bytes.len()
    &&& forall|i: int|
        0 <= i < bytes.len() ==> spells(s[from + 2 * i], #[trigger] bytes[i] as int / 16) && spells(
            s[from + 2 * i + 1],
            bytes[i] as int % 16,
        )
}

/// Text is read as an address exactly when it is the forty digits of its bytes, in either case,
/// with nothing, `0x` or `0X` in front.
pub proof fn address_is_read_by_halves(s: Seq<char>, address: Seq<u8>)
    ensures
        parsed_address(s) == Some(address) <==> address.len() == 20 && (spelled_from(s, 0, address)
            || (s.len() == 42 && s[0] == '0' && (s[1] == 'x' || s[1] == 'X') && spelled_from(
            s,
            2,
            address,
        ))),
{
    hex_is_read_by_halves(s, address);
    if s.len() >= 2 && s[0] == '0' && (s[1] == 'x' || s[1] == 'X') {
        let digits = s.skip(2);
        hex_is_read_by_halves(digits, address);
        if address.len() == 20 && spelled_from(s, 0, address) {
            assert(spells(s[0], address[0] as int / 16) && spells(s[1], address[0] as int % 16));
            assert(hex_bytes(s) == Some(address));
            assert(is_hex_digit(s[1]));
        }
        if spelled_from(s, 2, address) {
            assert forall|i: int| 0 <= i < address.len() implies spells(
                digits[2 * i],
                #[trigger] address[i] as int / 16,
            ) && spells(digits[2 * i + 1], address[i] as int % 16) by {
                assert(digits[2 * i] == s[2 + 2 * i] && digits[2 * i + 1] == s[2 + 2 * i + 1]);
            }
        }
        if hex_bytes(digits) == Some(address) {
            assert forall|i: int| 0 <= i < address.len() implies spells(
                s[2 + 2 * i],
                #[trigger] address[i] as int / 16,
            ) && spells(s[2 + 2 * i + 1], address[i] as int % 16) by {
                assert(digits[2 * i] == s[2 + 2 * i] && digits[2 * i + 1] == s[2 + 2 * i + 1]);
            }
        }
    } else {
        if spelled_from(s, 0, address) {
            assert(hex_bytes(s) == Some(address));
        }
        if hex_bytes(s) == Some(address) {
            assert(spelled_from(s, 0, address));
        }
    }
}

/// The EIP-55 form of an address is `0x` and a digit for each half byte. The digits are those of
/// the upper case where the half byte at the same place in the digest of the lower-case digits is
/// eight or more, and those of the lower case elsewhere.
pub proof fn checksum_follows_the_digest(address: Seq<u8>, ascii: Seq<u8>, i: int)
    requires
        address.len() == 20,
        ascii.len() == 40,
        forall|k: int| 0 <= k < 40 ==> ascii[k] == #[trigger] lower_hex(address)[k] as u8,
        0 <= i < 40,
    ensures
        checksum_text(address).len() == 42,
        checksum_text(address)[0] == '0',
        checksum_text(address)[1] == 'x',
        ({
            let digest = keccak256_digest(ascii);
            let marks = if i % 2 == 0 {
                digest[i / 2] as int / 16
            } else {
                digest[i / 2] as int % 16
            };
            let half = if i % 2 == 0 {
                address[i / 2] as int / 16
            } else {
                address[i / 2] as int % 16
            };
            checksum_text(address)[2 + i] == (if marks >= 8 {
                "0123456789ABCDEF"@[half]
            } else {
                "0123456789abcdef"@[half]
            })
        }),
{
    let digits = lower_hex(address);
    assert(ascii =~= Seq::new(digits.len(), |k: int| digits[k] as u8));
    let half = nibble(address, i);
    assert(0 <= half < 16);
    assert(digits[i] == hex_digit(half));
    reveal_strlit("0123456789abcdef");
    reveal_strlit("0123456789ABCDEF");
    if half < 10 {
        assert(half == 0 || half == 1 || half == 2 || half == 3 || half == 4 || half == 5 || half
            == 6 || half == 7 || half == 8 || half == 9);
    } else {
        assert(half == 10 || half == 11 || half == 12 || half == 13 || half == 14 || half == 15);
    }
    assert(checksum_text(address)[2 + i] == (if digits[i] >= 'a' && nibble(
        keccak256_digest(ascii),
        i,
    ) >= 8 {
        (digits[i] as int - 32) as char
    } else {
        digits[i]
    }));
}

} // verus!
