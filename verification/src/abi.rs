//! The Solidity ABI encodings that are hashed, signed or sent on chain.

use alloy_sol_types::SolValue;
use vstd::arithmetic::div_mod::lemma_div_denominator;
use vstd::arithmetic::power::{lemma_pow_positive, pow};
use vstd::prelude::*;

use crate::primitives::{Address, B256};
use crate::tap::{Rav, RavView, Receipt, ReceiptView};

verus! {

// ── Words ────────────────────────────────────────────────────────────────────

/// `n` as `len` bytes, most significant first; higher digits are dropped.
pub open spec fn big_endian(n: nat, len: nat) -> Seq<u8>
    decreases len,
{
    if len == 0 {
        Seq::empty()
    } else {
        big_endian(n / 256, (len - 1) as nat).push((n % 256) as u8)
    }
}

/// The number that `bytes` stand for, most significant first.
pub open spec fn big_endian_value(bytes: Seq<u8>) -> nat
    decreases bytes.len(),
{
    if bytes.len() == 0 {
        0
    } else {
        big_endian_value(bytes.drop_last()) * 256 + bytes.last() as nat
    }
}

/// The 32-byte word of an unsigned integer.
pub open spec fn uint_word(n: nat) -> Seq<u8> {
    big_endian(n, 32)
}

/// `n` zero bytes.
pub open spec fn zeros(n: nat) -> Seq<u8> {
    Seq::new(n, |i: int| 0u8)
}

/// The 32-byte word of an address: twelve zero bytes, then the address.
pub open spec fn address_word(address: Seq<u8>) -> Seq<u8> {
    zeros(12) + address
}

/// A dynamic byte string: its length, then its bytes, filled up with zeros to whole words.
pub open spec fn bytes_tail(bytes: Seq<u8>) -> Seq<u8> {
    uint_word(bytes.len()) + bytes + zeros(((32 - bytes.len() % 32) % 32) as nat)
}

proof fn lemma_big_endian_len(n: nat, len: nat)
    ensures
        big_endian(n, len).len() == len,
    decreases len,
{
    if len > 0 {
        lemma_big_endian_len(n / 256, (len - 1) as nat);
    }
}

proof fn lemma_big_endian_value(n: nat, len: nat)
    requires
        n < pow(256, len),
    ensures
        big_endian_value(big_endian(n, len)) == n,
    decreases len,
{
    reveal(pow);
    if len > 0 {
        let m = (len - 1) as nat;
        assert(n / 256 < pow(256, m)) by (nonlinear_arith)
            requires
                n < 256 * pow(256, m),
        ;
        lemma_big_endian_value(n / 256, m);
        assert(big_endian(n, len).drop_last() =~= big_endian(n / 256, m));
    }
}

proof fn lemma_word_bound()
    ensures
        pow(256, 32) > u128::MAX,
{
    assert(pow(256, 32) > u128::MAX) by {
        reveal_with_fuel(pow, 33);
    }
}

/// Distinct integers have distinct words.
pub proof fn uint_word_is_injective(a: u128, b: u128)
    requires
        uint_word(a as nat) == uint_word(b as nat),
    ensures
        a == b,
{
    lemma_word_bound();
    lemma_big_endian_value(a as nat, 32);
    lemma_big_endian_value(b as nat, 32);
}

proof fn lemma_append_injective(a: Seq<u8>, b: Seq<u8>, c: Seq<u8>, d: Seq<u8>)
    requires
        a.len() == c.len(),
        a + b == c + d,
    ensures
        a == c,
        b == d,
{
    let n = a.len() as int;
    assert((a + b).take(n) =~= a);
    assert((c + d).take(n) =~= c);
    assert((a + b).skip(n) =~= b);
    assert((c + d).skip(n) =~= d);
}

proof fn lemma_address_then(a: Seq<u8>, a_rest: Seq<u8>, b: Seq<u8>, b_rest: Seq<u8>)
    requires
        a.len() == b.len(),
        address_word(a) + a_rest == address_word(b) + b_rest,
    ensures
        a == b,
        a_rest == b_rest,
{
    lemma_append_injective(address_word(a), a_rest, address_word(b), b_rest);
    lemma_append_injective(zeros(12), a, zeros(12), b);
}

proof fn lemma_uint_then(a: u128, a_rest: Seq<u8>, b: u128, b_rest: Seq<u8>)
    requires
        uint_word(a as nat) + a_rest == uint_word(b as nat) + b_rest,
    ensures
        a == b,
        a_rest == b_rest,
{
    lemma_big_endian_len(a as nat, 32);
    lemma_big_endian_len(b as nat, 32);
    lemma_append_injective(uint_word(a as nat), a_rest, uint_word(b as nat), b_rest);
    uint_word_is_injective(a, b);
}

proof fn lemma_bytes_tail_then(a: Seq<u8>, a_rest: Seq<u8>, b: Seq<u8>, b_rest: Seq<u8>)
    requires
        a.len() <= usize::MAX && b.len() <= usize::MAX,
        bytes_tail(a) + a_rest == bytes_tail(b) + b_rest,
    ensures
        a == b,
        a_rest == b_rest,
{
    let a_fill = zeros(((32 - a.len() % 32) % 32) as nat);
    let b_fill = zeros(((32 - b.len() % 32) % 32) as nat);
    assert(bytes_tail(a) + a_rest =~= uint_word(a.len()) + (a + (a_fill + a_rest)));
    assert(bytes_tail(b) + b_rest =~= uint_word(b.len()) + (b + (b_fill + b_rest)));
    lemma_uint_then(a.len() as u128, a + (a_fill + a_rest), b.len() as u128, b + (b_fill + b_rest));
    lemma_append_injective(a, a_fill + a_rest, b, b_fill + b_rest);
    lemma_append_injective(a_fill, a_rest, b_fill, b_rest);
}

// ── Encodings ────────────────────────────────────────────────────────────────

/// The encoded EIP-712 domain.
pub open spec fn domain_words(
    type_hash: Seq<u8>,
    name_hash: Seq<u8>,
    version_hash: Seq<u8>,
    chain_id: u64,
    verifying_contract: Seq<u8>,
) -> Seq<u8> {
    type_hash + (name_hash + (version_hash + (uint_word(chain_id as nat) + address_word(
        verifying_contract,
    ))))
}

/// The encoded struct of a receipt, whose metadata enters as its digest.
pub open spec fn receipt_words(type_hash: Seq<u8>, r: ReceiptView, metadata_hash: Seq<u8>) -> Seq<
    u8,
> {
    type_hash + (address_word(r.data_service) + (address_word(r.service_provider) + (uint_word(
        r.timestamp_ns as nat,
    ) + (uint_word(r.nonce as nat) + (uint_word(r.value as nat) + metadata_hash)))))
}

/// The encoded struct of a receipt aggregate voucher, whose metadata enters as its digest.
pub open spec fn rav_words(type_hash: Seq<u8>, rav: RavView, metadata_hash: Seq<u8>) -> Seq<u8> {
    type_hash + (rav_head(rav) + metadata_hash)
}

/// The words of a voucher's fields up to its metadata.
pub open spec fn rav_head(rav: RavView) -> Seq<u8> {
    rav.collection_id + (address_word(rav.payer) + (address_word(rav.service_provider) + (
    address_word(rav.data_service) + (uint_word(rav.timestamp_ns as nat) + uint_word(
        rav.value_aggregate as nat,
    )))))
}

/// The encoded triple that names a collection.
pub open spec fn collection_words(
    payer: Seq<u8>,
    service_provider: Seq<u8>,
    data_service: Seq<u8>,
) -> Seq<u8> {
    address_word(payer) + (address_word(service_provider) + address_word(data_service))
}

/// The encoded pair of a signed voucher and an amount of tokens.
///
/// The pair's head is the offset of the signed voucher and the amount. The signed voucher's head
/// is the offsets of the voucher and of the signature. The voucher's head ends with the offset of
/// its metadata.
pub open spec fn collect_words(rav: RavView, signature: Seq<u8>, tokens: u128) -> Seq<u8> {
    uint_word(0x40) + (uint_word(tokens as nat) + (uint_word(0x40) + (uint_word(
        0x120 + bytes_tail(rav.metadata).len(),
    ) + (rav_head(rav) + (uint_word(0xe0) + (bytes_tail(rav.metadata) + bytes_tail(signature)))))))
}

/// Calls `SolValue::abi_encode` of `alloy_sol_types` on the fields of an EIP-712 domain.
///
/// Trusted: a tuple of static values encodes as their words in order.
#[verifier::external_body]
pub(crate) fn encode_domain(
    type_hash: &B256,
    name_hash: &B256,
    version_hash: &B256,
    chain_id: u64,
    verifying_contract: &Address,
) -> (encoded: Vec<u8>)
    ensures
        encoded@ == domain_words(type_hash@, name_hash@, version_hash@, chain_id, verifying_contract@),
{
    (
        alloy_primitives::B256::new(type_hash.0),
        alloy_primitives::B256::new(name_hash.0),
        alloy_primitives::B256::new(version_hash.0),
        alloy_primitives::U256::from(chain_id),
        alloy_primitives::Address::new(verifying_contract.0),
    ).abi_encode()
}

/// Calls `SolValue::abi_encode` of `alloy_sol_types` on the fields of a receipt.
///
/// Trusted: a tuple of static values encodes as their words in order.
#[verifier::external_body]
pub(crate) fn encode_receipt(type_hash: &B256, r: &Receipt, metadata_hash: &B256) -> (encoded: Vec<
    u8,
>)
    ensures
        encoded@ == receipt_words(type_hash@, r@, metadata_hash@),
{
    (
        alloy_primitives::B256::new(type_hash.0),
        alloy_primitives::Address::new(r.data_service.0),
        alloy_primitives::Address::new(r.service_provider.0),
        r.timestamp_ns,
        r.nonce,
        r.value,
        alloy_primitives::B256::new(metadata_hash.0),
    ).abi_encode()
}

/// Calls `SolValue::abi_encode` of `alloy_sol_types` on the fields of a voucher.
///
/// Trusted: a tuple of static values encodes as their words in order.
#[verifier::external_body]
pub(crate) fn encode_rav(type_hash: &B256, rav: &Rav, metadata_hash: &B256) -> (encoded: Vec<u8>)
    ensures
        encoded@ == rav_words(type_hash@, rav@, metadata_hash@),
{
    (
        alloy_primitives::B256::new(type_hash.0),
        alloy_primitives::B256::new(rav.collection_id.0),
        alloy_primitives::Address::new(rav.payer.0),
        alloy_primitives::Address::new(rav.service_provider.0),
        alloy_primitives::Address::new(rav.data_service.0),
        rav.timestamp_ns,
        rav.value_aggregate,
        alloy_primitives::B256::new(metadata_hash.0),
    ).abi_encode()
}

/// Calls `SolValue::abi_encode` of `alloy_sol_types` on three addresses.
///
/// Trusted: a tuple of static values encodes as their words in order.
#[verifier::external_body]
pub(crate) fn encode_collection(
    payer: &Address,
    service_provider: &Address,
    data_service: &Address,
) -> (encoded: Vec<u8>)
    ensures
        encoded@ == collection_words(payer@, service_provider@, data_service@),
{
    (
        alloy_primitives::Address::new(payer.0),
        alloy_primitives::Address::new(service_provider.0),
        alloy_primitives::Address::new(data_service.0),
    ).abi_encode()
}

/// Calls `SolValue::abi_encode_sequence` of `alloy_sol_types` on a signed voucher and an amount.
///
/// Trusted: the pair encodes as `collect_words` lays it out. A tuple encodes as the Solidity
/// struct with the same fields does.
#[verifier::external_body]
pub(crate) fn encode_collect(rav: &Rav, signature: &Vec<u8>, tokens: u128) -> (encoded: Vec<u8>)
    ensures
        encoded@ == collect_words(rav@, signature@, tokens),
{
    let id = alloy_primitives::B256::new(rav.collection_id.0);
    let payer = alloy_primitives::Address::new(rav.payer.0);
    let provider = alloy_primitives::Address::new(rav.service_provider.0);
    let service = alloy_primitives::Address::new(rav.data_service.0);
    let metadata = alloy_primitives::Bytes::copy_from_slice(&rav.metadata);
    let voucher = (id, payer, provider, service, rav.timestamp_ns, rav.value_aggregate, metadata);
    let signature = alloy_primitives::Bytes::copy_from_slice(signature);
    ((voucher, signature), alloy_primitives::U256::from(tokens)).abi_encode_sequence()
}

// ── What an encoding gives away ──────────────────────────────────────────────

/// Two domains of one type and version with the same encoding agree in the digest of their names,
/// the chain and the contract.
pub proof fn domain_words_are_injective(
    type_hash: Seq<u8>,
    version_hash: Seq<u8>,
    a: (Seq<u8>, u64, Seq<u8>),
    b: (Seq<u8>, u64, Seq<u8>),
)
    requires
        a.2.len() == 20 && b.2.len() == 20,
        domain_words(type_hash, a.0, version_hash, a.1, a.2) == domain_words(
            type_hash,
            b.0,
            version_hash,
            b.1,
            b.2,
        ),
    ensures
        a == b,
{
    lemma_big_endian_len(a.1 as nat, 32);
    lemma_big_endian_len(b.1 as nat, 32);
    let (a2, b2) = (address_word(a.2), address_word(b.2));
    let a1 = version_hash + (uint_word(a.1 as nat) + a2);
    let b1 = version_hash + (uint_word(b.1 as nat) + b2);
    lemma_append_injective(type_hash, a.0 + a1, type_hash, b.0 + b1);
    assert((a.0 + a1).len() == (b.0 + b1).len());
    lemma_append_injective(a.0, a1, b.0, b1);
    lemma_append_injective(
        version_hash,
        uint_word(a.1 as nat) + a2,
        version_hash,
        uint_word(b.1 as nat) + b2,
    );
    lemma_uint_then(a.1 as u128, a2, b.1 as u128, b2);
    lemma_append_injective(zeros(12), a.2, zeros(12), b.2);
}

/// Two collections with the same encoding are of the same payer, provider and service.
pub proof fn collection_words_are_injective(
    a: (Seq<u8>, Seq<u8>, Seq<u8>),
    b: (Seq<u8>, Seq<u8>, Seq<u8>),
)
    requires
        a.0.len() == 20 && a.1.len() == 20 && a.2.len() == 20,
        b.0.len() == 20 && b.1.len() == 20 && b.2.len() == 20,
        collection_words(a.0, a.1, a.2) == collection_words(b.0, b.1, b.2),
    ensures
        a == b,
{
    let (a1, a2) = (address_word(a.1), address_word(a.2));
    let (b1, b2) = (address_word(b.1), address_word(b.2));
    lemma_address_then(a.0, a1 + a2, b.0, b1 + b2);
    lemma_address_then(a.1, a2, b.1, b2);
    lemma_append_injective(zeros(12), a.2, zeros(12), b.2);
}

/// Two receipts with the same encoding agree in every field and in the digest of their metadata.
pub proof fn receipt_words_are_injective(
    type_hash: Seq<u8>,
    a: ReceiptView,
    a_metadata: Seq<u8>,
    b: ReceiptView,
    b_metadata: Seq<u8>,
)
    requires
        a.wf() && b.wf(),
        receipt_words(type_hash, a, a_metadata) == receipt_words(type_hash, b, b_metadata),
    ensures
        a.data_service == b.data_service,
        a.service_provider == b.service_provider,
        a.timestamp_ns == b.timestamp_ns,
        a.nonce == b.nonce,
        a.value == b.value,
        a_metadata == b_metadata,
{
    let a5 = uint_word(a.value as nat) + a_metadata;
    let b5 = uint_word(b.value as nat) + b_metadata;
    let a4 = uint_word(a.nonce as nat) + a5;
    let b4 = uint_word(b.nonce as nat) + b5;
    let a3 = uint_word(a.timestamp_ns as nat) + a4;
    let b3 = uint_word(b.timestamp_ns as nat) + b4;
    let a2 = address_word(a.service_provider) + a3;
    let b2 = address_word(b.service_provider) + b3;
    let a1 = address_word(a.data_service) + a2;
    let b1 = address_word(b.data_service) + b2;
    lemma_append_injective(type_hash, a1, type_hash, b1);
    lemma_address_then(a.data_service, a2, b.data_service, b2);
    lemma_address_then(a.service_provider, a3, b.service_provider, b3);
    lemma_uint_then(a.timestamp_ns as u128, a4, b.timestamp_ns as u128, b4);
    lemma_uint_then(a.nonce as u128, a5, b.nonce as u128, b5);
    lemma_uint_then(a.value, a_metadata, b.value, b_metadata);
}

/// Two vouchers with the same encoding agree in every field and in the digest of their metadata.
pub proof fn rav_words_are_injective(
    type_hash: Seq<u8>,
    a: RavView,
    a_metadata: Seq<u8>,
    b: RavView,
    b_metadata: Seq<u8>,
)
    requires
        a.wf() && b.wf(),
        rav_words(type_hash, a, a_metadata) == rav_words(type_hash, b, b_metadata),
    ensures
        a.same_but_metadata(b),
        a_metadata == b_metadata,
{
    lemma_append_injective(
        type_hash,
        rav_head(a) + a_metadata,
        type_hash,
        rav_head(b) + b_metadata,
    );
    lemma_rav_head_then(a, a_metadata, b, b_metadata);
}

/// Two collect payloads that are the same carry the same voucher, signature and amount.
pub proof fn collect_words_are_injective(
    a: RavView,
    a_signature: Seq<u8>,
    a_tokens: u128,
    b: RavView,
    b_signature: Seq<u8>,
    b_tokens: u128,
)
    requires
        a.wf() && b.wf(),
        a_signature.len() <= usize::MAX && b_signature.len() <= usize::MAX,
        collect_words(a, a_signature, a_tokens) == collect_words(b, b_signature, b_tokens),
    ensures
        a == b,
        a_signature == b_signature,
        a_tokens == b_tokens,
{
    let (a_sig, b_sig) = (bytes_tail(a_signature), bytes_tail(b_signature));
    let a6 = bytes_tail(a.metadata) + a_sig;
    let b6 = bytes_tail(b.metadata) + b_sig;
    let a5 = uint_word(0xe0) + a6;
    let b5 = uint_word(0xe0) + b6;
    let a4 = rav_head(a) + a5;
    let b4 = rav_head(b) + b5;
    let a_offset = uint_word(0x120 + bytes_tail(a.metadata).len());
    let b_offset = uint_word(0x120 + bytes_tail(b.metadata).len());
    lemma_big_endian_len(0x120 + bytes_tail(a.metadata).len(), 32);
    lemma_big_endian_len(0x120 + bytes_tail(b.metadata).len(), 32);
    let a3 = uint_word(0x40) + (a_offset + a4);
    let b3 = uint_word(0x40) + (b_offset + b4);
    let a2 = uint_word(a_tokens as nat) + a3;
    let b2 = uint_word(b_tokens as nat) + b3;
    lemma_append_injective(uint_word(0x40), a2, uint_word(0x40), b2);
    lemma_uint_then(a_tokens, a3, b_tokens, b3);
    lemma_append_injective(uint_word(0x40), a_offset + a4, uint_word(0x40), b_offset + b4);
    lemma_append_injective(a_offset, a4, b_offset, b4);
    lemma_rav_head_then(a, a5, b, b5);
    lemma_append_injective(uint_word(0xe0), a6, uint_word(0xe0), b6);
    lemma_bytes_tail_then(a.metadata, a_sig, b.metadata, b_sig);
    lemma_bytes_tail_then(a_signature, Seq::empty(), b_signature, Seq::empty());
}

proof fn lemma_rav_head_then(a: RavView, a_rest: Seq<u8>, b: RavView, b_rest: Seq<u8>)
    requires
        a.wf() && b.wf(),
        rav_head(a) + a_rest == rav_head(b) + b_rest,
    ensures
        a.same_but_metadata(b),
        a_rest == b_rest,
{
    let a5 = uint_word(a.value_aggregate as nat);
    let b5 = uint_word(b.value_aggregate as nat);
    let a4 = uint_word(a.timestamp_ns as nat) + a5;
    let b4 = uint_word(b.timestamp_ns as nat) + b5;
    let a3 = address_word(a.data_service) + a4;
    let b3 = address_word(b.data_service) + b4;
    let a2 = address_word(a.service_provider) + a3;
    let b2 = address_word(b.service_provider) + b3;
    let a1 = address_word(a.payer) + a2;
    let b1 = address_word(b.payer) + b2;
    lemma_big_endian_len(a.value_aggregate as nat, 32);
    lemma_big_endian_len(b.value_aggregate as nat, 32);
    lemma_big_endian_len(a.timestamp_ns as nat, 32);
    lemma_big_endian_len(b.timestamp_ns as nat, 32);
    lemma_append_injective(rav_head(a), a_rest, rav_head(b), b_rest);
    lemma_append_injective(a.collection_id, a1, b.collection_id, b1);
    lemma_address_then(a.payer, a2, b.payer, b2);
    lemma_address_then(a.service_provider, a3, b.service_provider, b3);
    lemma_address_then(a.data_service, a4, b.data_service, b4);
    lemma_uint_then(a.timestamp_ns as u128, a5, b.timestamp_ns as u128, b5);
    uint_word_is_injective(a.value_aggregate, b.value_aggregate);
}

// ── Layout ───────────────────────────────────────────────────────────────────

/// Whether the `i`-th 32-byte word of `p` is the integer `n`, most significant byte first.
pub open spec fn uint_at(p: Seq<u8>, i: int, n: int) -> bool {
    forall|k: int|
        0 <= k < 32 ==> #[trigger] p[32 * i + (31 - k)] as int == (n / pow(256, k as nat)) % 256
}

/// Whether the `i`-th 32-byte word of `p` is twelve zeros and then the bytes of `address`, in order.
pub open spec fn address_at(p: Seq<u8>, i: int, address: Seq<u8>) -> bool {
    &&& forall|k: int| 0 <= k < 12 ==> #[trigger] p[32 * i + k] == 0
    &&& forall|k: int| 0 <= k < 20 ==> p[32 * i + (12 + k)] == #[trigger] address[k]
}

/// Whether the `i`-th 32-byte word of `p` is `word`.
pub open spec fn word_at(p: Seq<u8>, i: int, word: Seq<u8>) -> bool {
    p.subrange(32 * i, 32 * i + 32) == word
}

/// The word of an integer holds its 32 lowest digits to the base 256, the most significant first.
pub proof fn uint_word_is_big_endian(n: nat, k: nat)
    requires
        k < 32,
    ensures
        uint_word(n).len() == 32,
        uint_word(n)[31 - k] as int == (n as int / pow(256, k)) % 256,
{
    lemma_big_endian_len(n, 32);
    lemma_big_endian_digit(n, 32, k);
}

proof fn lemma_big_endian_digit(n: nat, len: nat, k: nat)
    requires
        k < len,
    ensures
        big_endian(n, len).len() == len,
        big_endian(n, len)[len - 1 - k] as int == (n as int / pow(256, k)) % 256,
    decreases len,
{
    lemma_big_endian_len(n, len);
    lemma_big_endian_len(n / 256, (len - 1) as nat);
    if k == 0 {
        reveal(pow);
        assert(pow(256, 0) == 1);
    } else {
        let m = (k - 1) as nat;
        lemma_big_endian_digit(n / 256, (len - 1) as nat, m);
        lemma_pow_positive(256, m);
        reveal(pow);
        assert(pow(256, k) == 256 * pow(256, m));
        lemma_div_denominator(n as int, 256, pow(256, m));
    }
}

/// The word of an address is twelve zeros and then its bytes, in order.
pub proof fn address_word_is_padded_in_front(address: Seq<u8>)
    requires
        address.len() == 20,
    ensures
        address_word(address).len() == 32,
        forall|k: int| 0 <= k < 12 ==> #[trigger] address_word(address)[k] == 0,
        address_word(address).subrange(12, 32) == address,
{
    assert(address_word(address).subrange(12, 32) =~= address);
}

/// A dynamic byte string is its length, its bytes in order, and fewer than 32 zeros up to a whole
/// number of words.
pub proof fn bytes_are_padded_behind(bytes: Seq<u8>)
    ensures
        ({
            let tail = bytes_tail(bytes);
            &&& tail.len() % 32 == 0
            &&& 32 + bytes.len() <= tail.len() < 64 + bytes.len()
            &&& tail.subrange(0, 32) == uint_word(bytes.len())
            &&& tail.subrange(32, 32 + bytes.len() as int) == bytes
            &&& forall|k: int| 32 + bytes.len() <= k < tail.len() ==> #[trigger] tail[k] == 0
        }),
{
    lemma_big_endian_len(bytes.len(), 32);
    let tail = bytes_tail(bytes);
    assert(tail.subrange(0, 32) =~= uint_word(bytes.len()));
    assert(tail.subrange(32, 32 + bytes.len() as int) =~= bytes);
}

pub proof fn lemma_uint_at(p: Seq<u8>, i: int, n: nat)
    requires
        0 <= i && 32 * i + 32 <= p.len(),
        uint_at(p, i, n as int),
    ensures
        word_at(p, i, uint_word(n)),
{
    lemma_big_endian_len(n, 32);
    let word = p.subrange(32 * i, 32 * i + 32);
    assert forall|j: int| 0 <= j < 32 implies word[j] == uint_word(n)[j] by {
        let k = 31 - j;
        uint_word_is_big_endian(n, k as nat);
        assert(p[32 * i + (31 - k)] as int == (n as int / pow(256, k as nat)) % 256);
    }
    assert(word =~= uint_word(n));
}

pub proof fn lemma_address_at(p: Seq<u8>, i: int, address: Seq<u8>)
    requires
        0 <= i && 32 * i + 32 <= p.len(),
        address.len() == 20,
        address_at(p, i, address),
    ensures
        word_at(p, i, address_word(address)),
{
    let word = p.subrange(32 * i, 32 * i + 32);
    assert forall|j: int| 0 <= j < 32 implies word[j] == address_word(address)[j] by {
        if j < 12 {
            assert(p[32 * i + j] == 0);
        } else {
            let k = j - 12;
            assert(p[32 * i + (12 + k)] == address[k]);
        }
    }
    assert(word =~= address_word(address));
}

pub proof fn lemma_word_then(p: Seq<u8>, i: int, word: Seq<u8>)
    requires
        0 <= i && 32 * i + 32 <= p.len(),
        word_at(p, i, word),
    ensures
        p.skip(32 * i) == word + p.skip(32 * (i + 1)),
{
    assert(p.skip(32 * i) =~= p.subrange(32 * i, 32 * i + 32) + p.skip(32 * (i + 1)));
}

/// The encoded pair of a signed voucher without metadata and an amount, word by word: the offset
/// of the signed voucher, the amount, the offsets of the voucher and of the signature, the
/// voucher's seven words, its empty metadata, and the signature with its length and zeros up to a
/// whole word.
pub proof fn collect_words_by_word(p: Seq<u8>, rav: RavView, signature: Seq<u8>, tokens: u128)
    requires
        rav.collection_id.len() == 32,
        rav.payer.len() == 20 && rav.service_provider.len() == 20 && rav.data_service.len() == 20,
        rav.metadata.len() == 0,
        p.len() % 32 == 0,
        416 + signature.len() <= p.len() < 448 + signature.len(),
        uint_at(p, 0, 0x40),
        uint_at(p, 1, tokens as int),
        uint_at(p, 2, 0x40),
        uint_at(p, 3, 0x140),
        word_at(p, 4, rav.collection_id),
        address_at(p, 5, rav.payer),
        address_at(p, 6, rav.service_provider),
        address_at(p, 7, rav.data_service),
        uint_at(p, 8, rav.timestamp_ns as int),
        uint_at(p, 9, rav.value_aggregate as int),
        uint_at(p, 10, 0xe0),
        uint_at(p, 11, 0),
        uint_at(p, 12, signature.len() as int),
        p.subrange(416, 416 + signature.len() as int) == signature,
        forall|k: int| 416 + signature.len() <= k < p.len() ==> #[trigger] p[k] == 0,
    ensures
        collect_words(rav, signature, tokens) == p,
{
    lemma_uint_at(p, 0, 0x40);
    lemma_uint_at(p, 1, tokens as nat);
    lemma_uint_at(p, 2, 0x40);
    lemma_uint_at(p, 3, 0x140);
    lemma_uint_at(p, 10, 0xe0);
    lemma_uint_at(p, 11, 0);
    lemma_word_then(p, 0, uint_word(0x40));
    lemma_word_then(p, 1, uint_word(tokens as nat));
    lemma_word_then(p, 2, uint_word(0x40));
    lemma_word_then(p, 3, uint_word(0x140));
    lemma_rav_head_at(p, 4, rav);
    lemma_word_then(p, 10, uint_word(0xe0));
    lemma_word_then(p, 11, uint_word(0));
    lemma_bytes_at_end(p, 12, signature);
    lemma_empty_tail(rav.metadata);
    assert(p.skip(0) =~= p);
}

proof fn lemma_empty_tail(bytes: Seq<u8>)
    requires
        bytes.len() == 0,
    ensures
        bytes_tail(bytes) == uint_word(0),
        bytes_tail(bytes).len() == 32,
{
    lemma_big_endian_len(0, 32);
    assert(bytes_tail(bytes) =~= uint_word(0));
}

proof fn lemma_bytes_at_end(p: Seq<u8>, i: int, bytes: Seq<u8>)
    requires
        0 <= i,
        p.len() % 32 == 0,
        32 * i + 32 + bytes.len() <= p.len() < 32 * i + 64 + bytes.len(),
        uint_at(p, i, bytes.len() as int),
        p.subrange(32 * i + 32, 32 * i + 32 + bytes.len()) == bytes,
        forall|k: int| 32 * i + 32 + bytes.len() <= k < p.len() ==> #[trigger] p[k] == 0,
    ensures
        p.skip(32 * i) == bytes_tail(bytes),
{
    lemma_uint_at(p, i, bytes.len());
    lemma_word_then(p, i, uint_word(bytes.len()));
    let rest = p.skip(32 * (i + 1));
    let fill = zeros(((32 - bytes.len() % 32) % 32) as nat);
    assert(rest.len() == bytes.len() + fill.len());
    assert forall|j: int| 0 <= j < rest.len() implies rest[j] == (bytes + fill)[j] by {
        if j < bytes.len() {
            assert(p.subrange(32 * i + 32, 32 * i + 32 + bytes.len())[j] == bytes[j]);
        } else {
            assert(p[32 * i + 32 + j] == 0);
        }
    }
    assert(rest =~= bytes + fill);
    assert(bytes_tail(bytes) =~= uint_word(bytes.len()) + rest);
}

proof fn lemma_join(a: Seq<u8>, b: Seq<u8>, c: Seq<u8>)
    ensures
        a + (b + c) == (a + b) + c,
{
    assert(a + (b + c) =~= (a + b) + c);
}

pub proof fn lemma_rav_head_at(p: Seq<u8>, i: int, rav: RavView)
    requires
        0 <= i && 32 * i + 192 <= p.len(),
        rav.payer.len() == 20 && rav.service_provider.len() == 20 && rav.data_service.len() == 20,
        word_at(p, i, rav.collection_id),
        address_at(p, i + 1, rav.payer),
        address_at(p, i + 2, rav.service_provider),
        address_at(p, i + 3, rav.data_service),
        uint_at(p, i + 4, rav.timestamp_ns as int),
        uint_at(p, i + 5, rav.value_aggregate as int),
    ensures
        p.skip(32 * i) == rav_head(rav) + p.skip(32 * (i + 6)),
{
    let (w1, w2, w3) = (
        address_word(rav.payer),
        address_word(rav.service_provider),
        address_word(rav.data_service),
    );
    let (w4, w5) = (uint_word(rav.timestamp_ns as nat), uint_word(rav.value_aggregate as nat));
    let rest = p.skip(32 * (i + 6));
    lemma_address_at(p, i + 1, rav.payer);
    lemma_address_at(p, i + 2, rav.service_provider);
    lemma_address_at(p, i + 3, rav.data_service);
    lemma_uint_at(p, i + 4, rav.timestamp_ns as nat);
    lemma_uint_at(p, i + 5, rav.value_aggregate as nat);
    lemma_word_then(p, i, rav.collection_id);
    lemma_word_then(p, i + 1, w1);
    lemma_word_then(p, i + 2, w2);
    lemma_word_then(p, i + 3, w3);
    lemma_word_then(p, i + 4, w4);
    lemma_word_then(p, i + 5, w5);
    lemma_join(w4, w5, rest);
    lemma_join(w3, w4 + w5, rest);
    lemma_join(w2, w3 + (w4 + w5), rest);
    lemma_join(w1, w2 + (w3 + (w4 + w5)), rest);
    lemma_join(rav.collection_id, w1 + (w2 + (w3 + (w4 + w5))), rest);
}

} // verus!
