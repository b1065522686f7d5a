//! TAP v2 (GraphTally) receipts and vouchers: types, EIP-712 hashing, signatures and receipt
//! validation.

use vstd::prelude::*;
use vstd::string::*;
use vstd::utf8::{encode_utf8, encode_utf8_decode_utf8};

use crate::abi::{
    address_at, address_word, collection_words, collection_words_are_injective, domain_words,
    domain_words_are_injective, encode_collection, encode_domain, encode_rav, encode_receipt,
    lemma_address_at, lemma_rav_head_at, lemma_uint_at, lemma_word_then, rav_words,
    rav_words_are_injective, receipt_words, receipt_words_are_injective, uint_at, uint_word, word_at,
};
use crate::primitives::{
    address_checksum, checksum_text, hex_decode, hex_encode, hex_error_text, keccak256,
    keccak256_digest, prefixed_hex, Address, B256,
};
use crate::text::{
    decimal, decimal_string, hex_bytes, hex_has_no_prefix, hex_reads_back, lower_hex,
    trim_hex_prefix, without_hex_prefix,
};

verus! {

// ── Type strings ─────────────────────────────────────────────────────────────

/// The EIP-712 type of the signing domain.
pub const DOMAIN_TYPE_STRING: &'static str =
    "EIP712Domain(string name,string version,uint256 chainId,address verifyingContract)";

/// The version of the signing domain.
pub const DOMAIN_VERSION: &'static str = "1";

/// The EIP-712 type of a receipt.
pub const RECEIPT_TYPE_STRING: &'static str =
    "Receipt(address data_service,address service_provider,uint64 timestamp_ns,uint64 nonce,uint128 value,bytes metadata)";

/// The EIP-712 type of a receipt aggregate voucher.
pub const RAV_TYPE_STRING: &'static str =
    "ReceiptAggregateVoucher(bytes32 collectionId,address payer,address serviceProvider,address dataService,uint64 timestampNs,uint128 valueAggregate,bytes metadata)";

// ── Structs ──────────────────────────────────────────────────────────────────

/// A consumer's promise to pay `value` for one session.
#[derive(Clone, Debug, PartialEq)]
pub struct Receipt {
    pub data_service: Address,
    pub service_provider: Address,
    pub timestamp_ns: u64,
    pub nonce: u64,
    pub value: u128,
    pub metadata: Vec<u8>,
}

/// A receipt with the signature of its issuer.
#[derive(Clone, Debug)]
pub struct SignedReceipt {
    pub receipt: Receipt,
    /// 65-byte ECDSA signature in hex: r(32) || s(32) || v(1).
    pub signature: String,
}

/// A receipt aggregate voucher: one promise in place of many receipts.
#[derive(Clone, Debug, PartialEq)]
pub struct Rav {
    pub collection_id: B256,
    pub payer: Address,
    pub service_provider: Address,
    pub data_service: Address,
    pub timestamp_ns: u64,
    pub value_aggregate: u128,
    pub metadata: Vec<u8>,
}

/// A voucher with the signature of its issuer.
#[derive(Clone, Debug)]
pub struct SignedRav {
    pub rav: Rav,
    pub signature: String,
}

/// What a receipt says.
#[verifier::ext_equal]
pub struct ReceiptView {
    pub data_service: Seq<u8>,
    pub service_provider: Seq<u8>,
    pub timestamp_ns: u64,
    pub nonce: u64,
    pub value: u128,
    pub metadata: Seq<u8>,
}

/// What a signed receipt says.
#[verifier::ext_equal]
pub struct SignedReceiptView {
    pub receipt: ReceiptView,
    pub signature: Seq<char>,
}

/// What a voucher says.
#[verifier::ext_equal]
pub struct RavView {
    pub collection_id: Seq<u8>,
    pub payer: Seq<u8>,
    pub service_provider: Seq<u8>,
    pub data_service: Seq<u8>,
    pub timestamp_ns: u64,
    pub value_aggregate: u128,
    pub metadata: Seq<u8>,
}

/// What a signed voucher says.
#[verifier::ext_equal]
pub struct SignedRavView {
    pub rav: RavView,
    pub signature: Seq<char>,
}

impl ReceiptView {
    /// The sizes that every receipt has.
    pub open spec fn wf(self) -> bool {
        &&& self.data_service.len() == 20
        &&& self.service_provider.len() == 20
        &&& self.metadata.len() <= usize::MAX
    }
}

impl RavView {
    /// The sizes that every voucher has.
    pub open spec fn wf(self) -> bool {
        &&& self.collection_id.len() == 32
        &&& self.payer.len() == 20
        &&& self.service_provider.len() == 20
        &&& self.data_service.len() == 20
        &&& self.metadata.len() <= usize::MAX
    }

    /// Whether the two vouchers differ at most in their metadata.
    pub open spec fn same_but_metadata(self, other: RavView) -> bool {
        self == (RavView { metadata: self.metadata, ..other })
    }
}

impl View for Receipt {
    type V = ReceiptView;

    open spec fn view(&self) -> ReceiptView {
        ReceiptView {
            data_service: self.data_service@,
            service_provider: self.service_provider@,
            timestamp_ns: self.timestamp_ns,
            nonce: self.nonce,
            value: self.value,
            metadata: self.metadata@,
        }
    }
}

impl View for SignedReceipt {
    type V = SignedReceiptView;

    open spec fn view(&self) -> SignedReceiptView {
        SignedReceiptView { receipt: self.receipt@, signature: self.signature@ }
    }
}

impl View for Rav {
    type V = RavView;

    open spec fn view(&self) -> RavView {
        RavView {
            collection_id: self.collection_id@,
            payer: self.payer@,
            service_provider: self.service_provider@,
            data_service: self.data_service@,
            timestamp_ns: self.timestamp_ns,
            value_aggregate: self.value_aggregate,
            metadata: self.metadata@,
        }
    }
}

impl View for SignedRav {
    type V = SignedRavView;

    open spec fn view(&self) -> SignedRavView {
        SignedRavView { rav: self.rav@, signature: self.signature@ }
    }
}

/// The payer (consumer) that receipt metadata names: its first 20 bytes.
pub open spec fn metadata_payer(metadata: Seq<u8>) -> Option<Seq<u8>> {
    if metadata.len() >= 20 {
        Some(metadata.take(20))
    } else {
        None
    }
}

/// Extracts the payer (consumer) address from receipt metadata.
pub fn payer_from_metadata(metadata: &Vec<u8>) -> (payer: Option<Address>)
    ensures
        match payer {
            Some(address) => metadata_payer(metadata@) == Some(address@),
            None => metadata_payer(metadata@) is None,
        },
{
    if metadata.len() >= 20 {
        assert(metadata@.take(20) == metadata@.subrange(0, 20));
        Some(Address::from_slice(vstd::slice::slice_subrange(metadata.as_slice(), 0, 20)))
    } else {
        None
    }
}

// ── EIP-712 ──────────────────────────────────────────────────────────────────

/// The digest of a string's UTF-8 bytes.
pub open spec fn text_digest(s: Seq<char>) -> Seq<u8> {
    keccak256_digest(encode_utf8(s))
}

/// What is hashed for a domain.
pub open spec fn domain_preimage(
    name: Seq<char>,
    chain_id: u64,
    verifying_contract: Seq<u8>,
) -> Seq<u8> {
    domain_words(
        text_digest(DOMAIN_TYPE_STRING@),
        text_digest(name),
        text_digest(DOMAIN_VERSION@),
        chain_id,
        verifying_contract,
    )
}

/// The EIP-712 domain separator.
pub open spec fn domain_digest(name: Seq<char>, chain_id: u64, verifying_contract: Seq<u8>) -> Seq<
    u8,
> {
    keccak256_digest(domain_preimage(name, chain_id, verifying_contract))
}

/// What is hashed for a receipt.
pub open spec fn receipt_preimage(r: ReceiptView) -> Seq<u8> {
    receipt_words(text_digest(RECEIPT_TYPE_STRING@), r, keccak256_digest(r.metadata))
}

/// The EIP-712 struct hash of a receipt.
pub open spec fn receipt_digest(r: ReceiptView) -> Seq<u8> {
    keccak256_digest(receipt_preimage(r))
}

/// What is hashed for a voucher.
pub open spec fn rav_preimage(rav: RavView) -> Seq<u8> {
    rav_words(text_digest(RAV_TYPE_STRING@), rav, keccak256_digest(rav.metadata))
}

/// The EIP-712 struct hash of a voucher.
pub open spec fn rav_digest(rav: RavView) -> Seq<u8> {
    keccak256_digest(rav_preimage(rav))
}

/// What is hashed for a struct in a domain: the two EIP-191 marker bytes, the domain separator
/// and the struct hash.
pub open spec fn message_preimage(domain_sep: Seq<u8>, struct_hash: Seq<u8>) -> Seq<u8> {
    seq![0x19u8, 0x01u8] + domain_sep + struct_hash
}

/// The digest that is signed for a struct in a domain.
pub open spec fn message_digest(domain_sep: Seq<u8>, struct_hash: Seq<u8>) -> Seq<u8> {
    keccak256_digest(message_preimage(domain_sep, struct_hash))
}

/// The EIP-712 domain separator of the named domain, version 1, on a chain and contract.
pub fn domain_separator(name: &str, chain_id: u64, verifying_contract: Address) -> (separator: B256)
    ensures
        separator@ == domain_digest(name@, chain_id, verifying_contract@),
{
    let type_hash = keccak256(DOMAIN_TYPE_STRING.as_bytes());
    let name_hash = keccak256(name.as_bytes());
    let version_hash = keccak256(DOMAIN_VERSION.as_bytes());
    let encoded = encode_domain(&type_hash, &name_hash, &version_hash, chain_id, &verifying_contract);
    keccak256(encoded.as_slice())
}

/// The digest that is signed for a receipt.
pub fn eip712_hash(domain_sep: B256, receipt: &Receipt) -> (hash: B256)
    ensures
        hash@ == message_digest(domain_sep@, receipt_digest(receipt@)),
{
    eip712_hash_raw(domain_sep, receipt_struct_hash(receipt))
}

/// The digest that is signed for a struct hash.
pub fn eip712_hash_raw(domain_sep: B256, struct_hash: B256) -> (hash: B256)
    ensures
        hash@ == message_digest(domain_sep@, struct_hash@),
{
    keccak256(eip712_message(&domain_sep, &struct_hash).as_slice())
}

/// The 66 bytes whose digest is signed for a struct hash.
pub fn eip712_message(domain_sep: &B256, struct_hash: &B256) -> (message: Vec<u8>)
    ensures
        message@ == message_preimage(domain_sep@, struct_hash@),
{
    let mut buf: Vec<u8> = Vec::new();
    buf.push(0x19);
    buf.push(0x01);
    buf.extend_from_slice(&domain_sep.0);
    buf.extend_from_slice(&struct_hash.0);
    assert(buf@ =~= message_preimage(domain_sep@, struct_hash@));
    buf
}

/// The EIP-712 struct hash of a receipt.
pub fn receipt_struct_hash(r: &Receipt) -> (hash: B256)
    ensures
        hash@ == receipt_digest(r@),
{
    let type_hash = keccak256(RECEIPT_TYPE_STRING.as_bytes());
    let metadata_hash = keccak256(r.metadata.as_slice());
    keccak256(encode_receipt(&type_hash, r, &metadata_hash).as_slice())
}

/// The EIP-712 struct hash of a voucher.
pub fn rav_struct_hash(rav: &Rav) -> (hash: B256)
    ensures
        hash@ == rav_digest(rav@),
{
    let type_hash = keccak256(RAV_TYPE_STRING.as_bytes());
    let metadata_hash = keccak256(rav.metadata.as_slice());
    keccak256(encode_rav(&type_hash, rav, &metadata_hash).as_slice())
}

/// The id of the collection of one payer, provider and service.
pub fn collection_id(payer: Address, service_provider: Address, data_service: Address) -> (id: B256)
    ensures
        id@ == keccak256_digest(collection_words(payer@, service_provider@, data_service@)),
{
    keccak256(encode_collection(&payer, &service_provider, &data_service).as_slice())
}

// ── Signer recovery ──────────────────────────────────────────────────────────

/// Why no signer could be recovered.
#[derive(Clone, Debug)]
pub enum SignatureError {
    /// The text is not hexadecimal; the reason in words.
    Hex(String),
    /// The signature has this many bytes.
    Length(usize),
    /// The last byte, as given, is no recovery id.
    RecoveryId(u8),
    /// No key fits the signature; the reason in words.
    Unrecoverable(String),
}

/// Why no signer could be recovered.
pub enum SignatureErrorView {
    Hex(Seq<char>),
    Length(usize),
    RecoveryId(u8),
    Unrecoverable(Seq<char>),
}

impl View for SignatureError {
    type V = SignatureErrorView;

    open spec fn view(&self) -> SignatureErrorView {
        match *self {
            SignatureError::Hex(text) => SignatureErrorView::Hex(text@),
            SignatureError::Length(n) => SignatureErrorView::Length(n),
            SignatureError::RecoveryId(v) => SignatureErrorView::RecoveryId(v),
            SignatureError::Unrecoverable(text) => SignatureErrorView::Unrecoverable(text@),
        }
    }
}

impl SignatureErrorView {
    /// The error in words.
    pub open spec fn text(self) -> Seq<char> {
        match self {
            SignatureErrorView::Hex(text) => text,
            SignatureErrorView::Length(n) => "signature must be 65 bytes, got "@ + decimal(n as nat),
            SignatureErrorView::RecoveryId(v) => "invalid recovery id "@ + decimal(v as nat),
            SignatureErrorView::Unrecoverable(text) => text,
        }
    }
}

impl SignatureError {
    /// The error in words.
    pub fn message(&self) -> (text: String)
        ensures
            text@ == self@.text(),
    {
        match self {
            SignatureError::Hex(text) => text.clone(),
            SignatureError::Length(n) => {
                let mut text = String::from_str("signature must be 65 bytes, got ");
                text.append(decimal_string(*n as u128).as_str());
                text
            },
            SignatureError::RecoveryId(v) => {
                let mut text = String::from_str("invalid recovery id ");
                text.append(decimal_string(*v as u128).as_str());
                text
            },
            SignatureError::Unrecoverable(text) => text.clone(),
        }
    }
}

/// The public key, in uncompressed SEC1 form, under which `signature` with `recovery_id` signs
/// `prehash`, where there is one.
pub uninterp spec fn recovered_key(
    prehash: Seq<u8>,
    signature: Seq<u8>,
    recovery_id: u8,
) -> Option<Seq<u8>>;

/// Calls `VerifyingKey::recover_from_prehash` of `k256` on `Signature::from_slice`, and
/// `to_encoded_point(false)` on the key.
///
/// Trusted: whether a key comes back, and which, is a function of the three arguments alone,
/// which `recovered_key` names; an uncompressed point has 65 bytes; the one error is worded
/// "signature error". Which key it is stays unsaid: that takes the arithmetic of secp256k1.
#[verifier::external_body]
fn recover_key(prehash: &B256, signature: &[u8], recovery_id: u8) -> (key: Result<Vec<u8>, String>)
    requires
        signature@.len() == 64,
        recovery_id <= 3,
    ensures
        match key {
            Ok(point) => recovered_key(prehash@, signature@, recovery_id) == Some(point@)
                && point@.len() == 65,
            Err(e) => recovered_key(prehash@, signature@, recovery_id) is None && e@
                == "signature error"@,
        },
{
    let id = k256::ecdsa::RecoveryId::from_byte(recovery_id).unwrap();
    let key = match k256::ecdsa::Signature::from_slice(signature) {
        Ok(rs) => k256::ecdsa::VerifyingKey::recover_from_prehash(&prehash.0, &rs, id),
        Err(e) => Err(e),
    };
    match key {
        Ok(key) => Ok(key.to_encoded_point(false).as_bytes().to_vec()),
        Err(e) => Err(e.to_string()),
    }
}

/// The recovery id that the last byte of a signature stands for: 27 and above count from 27.
pub open spec fn recovery_id(v: u8) -> u8 {
    if v >= 27 {
        (v - 27) as u8
    } else {
        v
    }
}

/// The 65 bytes of a signature in hex, with any number of `0x` in front, if they end with a
/// recovery id.
pub open spec fn signature_bytes(sig_hex: Seq<char>) -> Result<Seq<u8>, SignatureErrorView> {
    let digits = without_hex_prefix(sig_hex);
    match hex_bytes(digits) {
        None => Err(SignatureErrorView::Hex(hex_error_text(digits))),
        Some(bytes) => if bytes.len() != 65 {
            Err(SignatureErrorView::Length(bytes.len() as usize))
        } else if recovery_id(bytes[64]) > 3 {
            Err(SignatureErrorView::RecoveryId(bytes[64]))
        } else {
            Ok(bytes)
        },
    }
}

/// The address of an uncompressed public key: the last 20 bytes of the digest of its coordinates.
pub open spec fn key_address(key: Seq<u8>) -> Seq<u8> {
    keccak256_digest(key.skip(1)).skip(12)
}

/// The address of the recovered key, or the reason why there is none.
pub open spec fn signer_of_key(key: Result<Seq<u8>, Seq<char>>) -> Result<
    Seq<u8>,
    SignatureErrorView,
> {
    match key {
        Ok(key) => Ok(key_address(key)),
        Err(e) => Err(SignatureErrorView::Unrecoverable(e)),
    }
}

/// Who signed `hash` with the signature `sig_hex`.
pub open spec fn signer_of(hash: Seq<u8>, sig_hex: Seq<char>) -> Result<
    Seq<u8>,
    SignatureErrorView,
> {
    match signature_bytes(sig_hex) {
        Err(e) => Err(e),
        Ok(bytes) => signer_of_key(
            match recovered_key(hash, bytes.take(64), recovery_id(bytes[64])) {
                Some(key) => Ok(key),
                None => Err("signature error"@),
            },
        ),
    }
}

/// Reads a signature from hex.
pub fn decode_signature(sig_hex: &str) -> (decoded: Result<Vec<u8>, SignatureError>)
    ensures
        match decoded {
            Ok(bytes) => signature_bytes(sig_hex@) == Ok::<Seq<u8>, SignatureErrorView>(bytes@),
            Err(e) => signature_bytes(sig_hex@) == Err::<Seq<u8>, SignatureErrorView>(e@),
        },
{
    let digits = trim_hex_prefix(sig_hex);
    match hex_decode(digits) {
        Err(e) => Err(SignatureError::Hex(e)),
        Ok(bytes) => {
            if bytes.len() != 65 {
                return Err(SignatureError::Length(bytes.len()));
            }
            let v: u8 = bytes[64];
            let id: u8 = if v >= 27 {
                v - 27
            } else {
                v
            };
            if id > 3 {
                return Err(SignatureError::RecoveryId(v));
            }
            Ok(bytes)
        },
    }
}

/// The address in the last 20 bytes of a digest.
pub fn address_of_digest(digest: &B256) -> (address: Address)
    ensures
        address@ == digest@.skip(12),
{
    assert(digest@.skip(12) == digest@.subrange(12, 32));
    Address::from_slice(vstd::slice::slice_subrange(&digest.0, 12, 32))
}

/// Turns a recovered key into the signer's address.
pub fn signer_from_key(key: Result<Vec<u8>, String>) -> (signer: Result<Address, SignatureError>)
    requires
        key matches Ok(point) ==> point@.len() == 65,
    ensures
        ({
            let found = signer_of_key(
                match key {
                    Ok(point) => Ok(point@),
                    Err(e) => Err(e@),
                },
            );
            match signer {
                Ok(address) => found == Ok::<Seq<u8>, SignatureErrorView>(address@),
                Err(e) => found == Err::<Seq<u8>, SignatureErrorView>(e@),
            }
        }),
{
    match key {
        Err(e) => Err(SignatureError::Unrecoverable(e)),
        Ok(point) => {
            assert(point@.skip(1) == point@.subrange(1, 65));
            let coordinates = vstd::slice::slice_subrange(point.as_slice(), 1, 65);
            Ok(address_of_digest(&keccak256(coordinates)))
        },
    }
}

/// Recovers the address that signed `hash`.
pub fn recover_signer(hash: B256, sig_hex: &str) -> (signer: Result<Address, SignatureError>)
    ensures
        match signer {
            Ok(address) => signer_of(hash@, sig_hex@) == Ok::<Seq<u8>, SignatureErrorView>(
                address@,
            ),
            Err(e) => signer_of(hash@, sig_hex@) == Err::<Seq<u8>, SignatureErrorView>(e@),
        },
{
    let bytes = match decode_signature(sig_hex) {
        Ok(bytes) => bytes,
        Err(e) => {
            return Err(e);
        },
    };
    let v: u8 = bytes[64];
    let id: u8 = if v >= 27 {
        v - 27
    } else {
        v
    };
    assert(bytes@.take(64) == bytes@.subrange(0, 64));
    signer_from_key(recover_key(&hash, vstd::slice::slice_subrange(bytes.as_slice(), 0, 64), id))
}

// ── Signing ──────────────────────────────────────────────────────────────────

/// The public key, in uncompressed SEC1 form, of the secret key `secret`, where it is one.
pub uninterp spec fn public_key_of(secret: Seq<u8>) -> Option<Seq<u8>>;

/// The signature of `prehash` by `secret`, r and s, and its recovery id, where there is one.
pub uninterp spec fn prehash_signature(secret: Seq<u8>, prehash: Seq<u8>) -> Option<(Seq<u8>, u8)>;

/// Calls `verifying_key` of `k256` on `SigningKey::from_slice`, and `to_encoded_point(false)` on
/// the key.
///
/// Trusted: whether the bytes are a secret key, and its public key, is a function of the bytes
/// alone, which `public_key_of` names; an uncompressed point has 65 bytes. Which key it is stays
/// unsaid: that takes the arithmetic of secp256k1.
#[verifier::external_body]
fn public_key(secret: &B256) -> (key: Option<Vec<u8>>)
    ensures
        match key {
            Some(point) => public_key_of(secret@) == Some(point@) && point@.len() == 65,
            None => public_key_of(secret@) is None,
        },
{
    match k256::ecdsa::SigningKey::from_slice(&secret.0) {
        Ok(key) => Some(key.verifying_key().to_encoded_point(false).as_bytes().to_vec()),
        Err(_) => None,
    }
}

/// Calls `sign_prehash_recoverable` of `k256` on `SigningKey::from_slice`.
///
/// Trusted: the nonce is derived from the key and the digest, so whether there is a signature, and
/// which, is a function of the two arguments alone, which `prehash_signature` names; r and s have
/// 64 bytes and the recovery id is at most 3; recovering from the digest, the signature and the id
/// gives the public key of `secret`. That a secret key always finds a signature stays unsaid: the
/// call fails where r or s comes out as zero.
#[verifier::external_body]
fn sign_prehash(secret: &B256, prehash: &B256) -> (signed: Option<(Vec<u8>, u8)>)
    ensures
        match signed {
            Some((rs, id)) => prehash_signature(secret@, prehash@) == Some((rs@, id)) && rs@.len()
                == 64 && id <= 3 && public_key_of(secret@) is Some && recovered_key(
                prehash@,
                rs@,
                id,
            ) == public_key_of(secret@),
            None => prehash_signature(secret@, prehash@) is None,
        },
{
    let key = match k256::ecdsa::SigningKey::from_slice(&secret.0) {
        Ok(key) => key,
        Err(_) => return None,
    };
    match key.sign_prehash_recoverable(&prehash.0) {
        Ok((rs, id)) => Some((rs.to_bytes().to_vec(), id.to_byte())),
        Err(_) => None,
    }
}

/// A signature in hex: r, s and `v`, with or without `0x` in front.
pub open spec fn spelled_signature(rs: Seq<u8>, v: u8, prefixed: bool) -> Seq<char> {
    if prefixed {
        prefixed_hex(rs.push(v))
    } else {
        lower_hex(rs.push(v))
    }
}

/// The address of a secret key, where it is one.
pub fn eth_address(secret: &B256) -> (address: Option<Address>)
    ensures
        match address {
            Some(address) => public_key_of(secret@) matches Some(key) && address@ == key_address(
                key,
            ),
            None => public_key_of(secret@) is None,
        },
{
    match public_key(secret) {
        Some(point) => {
            assert(point@.skip(1) == point@.subrange(1, 65));
            let coordinates = vstd::slice::slice_subrange(point.as_slice(), 1, 65);
            Some(address_of_digest(&keccak256(coordinates)))
        },
        None => None,
    }
}

/// Signs `hash`: the signature in hex, with `0x` in front and the recovery id as it is.
///
/// Whoever recovers the signer gets the address of the secret key, in all four spellings: with
/// `0x` or without, and with the recovery id or 27 more at the end.
pub fn sign_hex(secret: &B256, hash: B256) -> (text: Option<String>)
    ensures
        match text {
            Some(text) => prehash_signature(secret@, hash@) matches Some((rs, id)) && text@
                == spelled_signature(rs, id, true),
            None => prehash_signature(secret@, hash@) is None,
        },
        text is Some ==> public_key_of(secret@) is Some,
        text is Some ==> forall|v: u8, prefixed: bool|
            {
                let id = prehash_signature(secret@, hash@).unwrap().1;
                v == id || v == id + 27
            } ==> signer_of(
                hash@,
                #[trigger] spelled_signature(
                    prehash_signature(secret@, hash@).unwrap().0,
                    v,
                    prefixed,
                ),
            ) == Ok::<Seq<u8>, SignatureErrorView>(key_address(public_key_of(secret@).unwrap())),
{
    let (rs, id) = match sign_prehash(secret, &hash) {
        Some(signed) => signed,
        None => {
            return None;
        },
    };
    let mut bytes = rs;
    let ghost before = bytes@;
    bytes.push(id);
    let mut text = String::from_str("0x");
    text.append(hex_encode(bytes.as_slice()).as_str());
    proof {
        reveal_strlit("0x");
        assert("0x"@ =~= seq!['0', 'x']);
        let key = public_key_of(secret@).unwrap();
        assert forall|v: u8, prefixed: bool| v == id || v == id + 27 implies signer_of(
            hash@,
            #[trigger] spelled_signature(before, v, prefixed),
        ) == Ok::<Seq<u8>, SignatureErrorView>(key_address(key)) by {
            every_spelling_recovers(hash@, before, id, key, v, prefixed);
        }
    }
    Some(text)
}

// ── Validation ───────────────────────────────────────────────────────────────

/// Why a receipt is refused.
#[derive(Clone, Debug)]
pub enum TapError {
    InvalidReceipt(String),
    ReceiptExpired,
    UnauthorizedSender(String),
}

/// Why a receipt is refused.
pub enum TapErrorView {
    InvalidReceipt(Seq<char>),
    ReceiptExpired,
    UnauthorizedSender(Seq<char>),
}

impl View for TapError {
    type V = TapErrorView;

    open spec fn view(&self) -> TapErrorView {
        match *self {
            TapError::InvalidReceipt(msg) => TapErrorView::InvalidReceipt(msg@),
            TapError::ReceiptExpired => TapErrorView::ReceiptExpired,
            TapError::UnauthorizedSender(s) => TapErrorView::UnauthorizedSender(s@),
        }
    }
}

impl TapErrorView {
    /// The refusal in words.
    pub open spec fn text(self) -> Seq<char> {
        match self {
            TapErrorView::InvalidReceipt(msg) => "invalid receipt: "@ + msg,
            TapErrorView::ReceiptExpired => "receipt expired"@,
            TapErrorView::UnauthorizedSender(s) => "unauthorized sender: "@ + s,
        }
    }
}

impl TapError {
    /// The refusal in words.
    pub fn message(&self) -> (text: String)
        ensures
            text@ == self@.text(),
    {
        match self {
            TapError::InvalidReceipt(msg) => {
                let mut text = String::from_str("invalid receipt: ");
                text.append(msg.as_str());
                text
            },
            TapError::ReceiptExpired => String::from_str("receipt expired"),
            TapError::UnauthorizedSender(s) => {
                let mut text = String::from_str("unauthorized sender: ");
                text.append(s.as_str());
                text
            },
        }
    }
}

/// A receipt that was accepted, with who signed it and who pays.
#[derive(Clone, Debug)]
pub struct ValidatedReceipt {
    pub receipt: Receipt,
    pub signer: Address,
    pub payer: Address,
    pub signature: String,
}

/// What a validated receipt says.
#[verifier::ext_equal]
pub struct ValidatedReceiptView {
    pub receipt: ReceiptView,
    pub signer: Seq<u8>,
    pub payer: Seq<u8>,
    pub signature: Seq<char>,
}

impl View for ValidatedReceipt {
    type V = ValidatedReceiptView;

    open spec fn view(&self) -> ValidatedReceiptView {
        ValidatedReceiptView {
            receipt: self.receipt@,
            signer: self.signer@,
            payer: self.payer@,
            signature: self.signature@,
        }
    }
}

/// How an address field that differs from what is expected is reported.
pub open spec fn mismatch_text(field: Seq<char>, expected: Seq<u8>, got: Seq<u8>) -> Seq<char> {
    field + " mismatch: expected "@ + checksum_text(expected) + ", got "@ + checksum_text(got)
}

/// What is wrong with the fields of a receipt, before its signature is looked at.
///
/// A receipt that is dated later than now is not too old.
pub open spec fn receipt_fault(
    r: ReceiptView,
    data_service: Seq<u8>,
    service_provider: Seq<u8>,
    max_age_ns: u64,
    now_ns: u64,
) -> Option<TapErrorView> {
    if r.data_service != data_service {
        Some(
            TapErrorView::InvalidReceipt(
                mismatch_text("data_service"@, data_service, r.data_service),
            ),
        )
    } else if r.service_provider != service_provider {
        Some(
            TapErrorView::InvalidReceipt(
                mismatch_text("service_provider"@, service_provider, r.service_provider),
            ),
        )
    } else if now_ns - r.timestamp_ns > max_age_ns {
        Some(TapErrorView::ReceiptExpired)
    } else {
        None
    }
}

/// Whether `signer` may issue receipts: one of `authorized_senders`, or anyone if there are none.
pub open spec fn sender_allowed(authorized_senders: Seq<Address>, signer: Seq<u8>) -> bool {
    authorized_senders.len() == 0 || exists|i: int|
        0 <= i < authorized_senders.len() && (#[trigger] authorized_senders[i])@ == signer
}

/// What becomes of a signed receipt once its signer is recovered, or not.
pub open spec fn authorization(
    signed: SignedReceiptView,
    recovered: Result<Seq<u8>, SignatureErrorView>,
    authorized_senders: Seq<Address>,
) -> Result<ValidatedReceiptView, TapErrorView> {
    match recovered {
        Err(e) => Err(
            TapErrorView::InvalidReceipt("signature recovery failed: "@ + e.text()),
        ),
        Ok(signer) => if !sender_allowed(authorized_senders, signer) {
            Err(TapErrorView::UnauthorizedSender(checksum_text(signer)))
        } else {
            Ok(
                ValidatedReceiptView {
                    receipt: signed.receipt,
                    signer,
                    payer: match metadata_payer(signed.receipt.metadata) {
                        Some(payer) => payer,
                        None => signer,
                    },
                    signature: signed.signature,
                },
            )
        },
    }
}

/// What becomes of a receipt as it was read: a signed receipt, or the reason why it is none.
pub open spec fn receipt_verdict(
    parsed: Result<SignedReceiptView, Seq<char>>,
    domain_sep: Seq<u8>,
    authorized_senders: Seq<Address>,
    data_service: Seq<u8>,
    service_provider: Seq<u8>,
    max_age_ns: u64,
    now_ns: u64,
) -> Result<ValidatedReceiptView, TapErrorView> {
    match parsed {
        Err(e) => Err(TapErrorView::InvalidReceipt(e)),
        Ok(signed) => match receipt_fault(
            signed.receipt,
            data_service,
            service_provider,
            max_age_ns,
            now_ns,
        ) {
            Some(fault) => Err(fault),
            None => authorization(
                signed,
                signer_of(
                    message_digest(domain_sep, receipt_digest(signed.receipt)),
                    signed.signature,
                ),
                authorized_senders,
            ),
        },
    }
}

/// The view of a validation's outcome.
pub open spec fn outcome_view(outcome: Result<ValidatedReceipt, TapError>) -> Result<
    ValidatedReceiptView,
    TapErrorView,
> {
    match outcome {
        Ok(v) => Ok(v@),
        Err(e) => Err(e@),
    }
}

fn mismatch(field: &str, expected: &Address, got: &Address) -> (error: TapError)
    ensures
        error@ == TapErrorView::InvalidReceipt(mismatch_text(field@, expected@, got@)),
{
    let mut msg = String::from_str(field);
    msg.append(" mismatch: expected ");
    msg.append(address_checksum(expected).as_str());
    msg.append(", got ");
    msg.append(address_checksum(got).as_str());
    TapError::InvalidReceipt(msg)
}

/// Checks the fields of a receipt: for this service and provider, and not too old.
pub fn check_receipt(
    r: &Receipt,
    data_service: Address,
    service_provider: Address,
    max_age_ns: u64,
    now_ns: u64,
) -> (checked: Result<(), TapError>)
    ensures
        match checked {
            Ok(_) => receipt_fault(r@, data_service@, service_provider@, max_age_ns, now_ns) is None,
            Err(e) => receipt_fault(r@, data_service@, service_provider@, max_age_ns, now_ns)
                == Some(e@),
        },
{
    if r.data_service != data_service {
        return Err(mismatch("data_service", &data_service, &r.data_service));
    }
    if r.service_provider != service_provider {
        return Err(mismatch("service_provider", &service_provider, &r.service_provider));
    }
    if now_ns.saturating_sub(r.timestamp_ns) > max_age_ns {
        return Err(TapError::ReceiptExpired);
    }
    Ok(())
}

/// Whether `signer` is among `senders`.
fn contains_address(senders: &[Address], signer: &Address) -> (found: bool)
    ensures
        found == exists|i: int| 0 <= i < senders@.len() && (#[trigger] senders@[i])@ == signer@,
{
    let mut i: usize = 0;
    while i < senders.len()
        invariant
            i <= senders@.len(),
            forall|k: int| 0 <= k < i ==> (#[trigger] senders@[k])@ != signer@,
        decreases senders@.len() - i,
    {
        if senders[i] == *signer {
            assert(senders@[i as int]@ == signer@);
            return true;
        }
        i += 1;
    }
    false
}

/// Decides on a signed receipt, given who signed it or why that is unknown.
pub fn authorize(
    signed: SignedReceipt,
    recovered: Result<Address, SignatureError>,
    authorized_senders: &[Address],
) -> (outcome: Result<ValidatedReceipt, TapError>)
    ensures
        outcome_view(outcome) == authorization(
            signed@,
            match recovered {
                Ok(signer) => Ok(signer@),
                Err(e) => Err(e@),
            },
            authorized_senders@,
        ),
        outcome matches Ok(v) ==> authorized_senders@.len() > 0 ==> exists|i: int|
            0 <= i < authorized_senders@.len() && (#[trigger] authorized_senders@[i]).0@
                == v.signer.0@,
{
    let signer = match recovered {
        Ok(signer) => signer,
        Err(e) => {
            let mut msg = String::from_str("signature recovery failed: ");
            msg.append(e.message().as_str());
            return Err(TapError::InvalidReceipt(msg));
        },
    };
    if !authorized_senders.is_empty() && !contains_address(authorized_senders, &signer) {
        return Err(TapError::UnauthorizedSender(address_checksum(&signer)));
    }
    let payer = match payer_from_metadata(&signed.receipt.metadata) {
        Some(payer) => payer,
        None => signer,
    };
    Ok(ValidatedReceipt { receipt: signed.receipt, signer, payer, signature: signed.signature })
}

/// Validates a receipt as it was read from a request: `parsed` is the signed receipt, or the
/// reason why the text is none.
pub fn validate_receipt(
    parsed: Result<SignedReceipt, String>,
    domain_sep: B256,
    authorized_senders: &[Address],
    data_service: Address,
    service_provider: Address,
    max_age_ns: u64,
    now_ns: u64,
) -> (outcome: Result<ValidatedReceipt, TapError>)
    ensures
        outcome_view(outcome) == receipt_verdict(
            match parsed {
                Ok(signed) => Ok(signed@),
                Err(e) => Err(e@),
            },
            domain_sep@,
            authorized_senders@,
            data_service@,
            service_provider@,
            max_age_ns,
            now_ns,
        ),
        outcome matches Ok(v) ==> {
            &&& v.receipt.data_service.0@ == data_service.0@
            &&& v.receipt.service_provider.0@ == service_provider.0@
            &&& now_ns <= v.receipt.timestamp_ns + max_age_ns
            &&& authorized_senders@.len() > 0 ==> exists|i: int|
                0 <= i < authorized_senders@.len() && (#[trigger] authorized_senders@[i]).0@
                    == v.signer.0@
        },
{
    let signed = match parsed {
        Ok(signed) => signed,
        Err(e) => {
            return Err(TapError::InvalidReceipt(e));
        },
    };
    match check_receipt(&signed.receipt, data_service, service_provider, max_age_ns, now_ns) {
        Ok(_) => {},
        Err(e) => {
            return Err(e);
        },
    }
    let msg_hash = eip712_hash(domain_sep, &signed.receipt);
    let recovered = recover_signer(msg_hash, signed.signature.as_str());
    authorize(signed, recovered, authorized_senders)
}

// ── Laws ─────────────────────────────────────────────────────────────────────

/// A receipt is accepted exactly when it can be read, is meant for this service and provider, is
/// not too old, and is signed by someone who may issue receipts; it is then handed on unchanged,
/// with that signer, and with the payer of its metadata or else the signer.
pub proof fn accepts_exactly(
    parsed: Result<SignedReceiptView, Seq<char>>,
    domain_sep: Seq<u8>,
    authorized_senders: Seq<Address>,
    data_service: Seq<u8>,
    service_provider: Seq<u8>,
    max_age_ns: u64,
    now_ns: u64,
)
    ensures
        ({
            let verdict = receipt_verdict(
                parsed,
                domain_sep,
                authorized_senders,
                data_service,
                service_provider,
                max_age_ns,
                now_ns,
            );
            &&& verdict is Ok <==> {
                &&& parsed is Ok
                &&& parsed->Ok_0.receipt.data_service == data_service
                &&& parsed->Ok_0.receipt.service_provider == service_provider
                &&& now_ns - parsed->Ok_0.receipt.timestamp_ns <= max_age_ns
                &&& signer_of(
                    message_digest(domain_sep, receipt_digest(parsed->Ok_0.receipt)),
                    parsed->Ok_0.signature,
                ) matches Ok(signer) && sender_allowed(authorized_senders, signer)
            }
            &&& verdict matches Ok(v) ==> {
                &&& v.receipt == parsed->Ok_0.receipt
                &&& v.signature == parsed->Ok_0.signature
                &&& signer_of(message_digest(domain_sep, receipt_digest(v.receipt)), v.signature)
                    == Ok::<Seq<u8>, SignatureErrorView>(v.signer)
                &&& v.payer == (match metadata_payer(v.receipt.metadata) {
                    Some(payer) => payer,
                    None => v.signer,
                })
            }
        }),
{
}

/// A receipt that is accepted now was accepted, and to the same effect, at any earlier time.
pub proof fn accepted_stays_accepted_earlier(
    parsed: Result<SignedReceiptView, Seq<char>>,
    domain_sep: Seq<u8>,
    authorized_senders: Seq<Address>,
    data_service: Seq<u8>,
    service_provider: Seq<u8>,
    max_age_ns: u64,
    now_ns: u64,
    earlier_ns: u64,
)
    requires
        earlier_ns <= now_ns,
        receipt_verdict(
            parsed,
            domain_sep,
            authorized_senders,
            data_service,
            service_provider,
            max_age_ns,
            now_ns,
        ) is Ok,
    ensures
        receipt_verdict(
            parsed,
            domain_sep,
            authorized_senders,
            data_service,
            service_provider,
            max_age_ns,
            earlier_ns,
        ) == receipt_verdict(
            parsed,
            domain_sep,
            authorized_senders,
            data_service,
            service_provider,
            max_age_ns,
            now_ns,
        ),
{
}

/// The last byte of a signature may be a recovery id or 27 more: the signer is the same.
pub proof fn recovery_id_offset_is_immaterial(hash: Seq<u8>, a_hex: Seq<char>, b_hex: Seq<char>)
    requires
        hex_bytes(without_hex_prefix(a_hex)) matches Some(a) && hex_bytes(
            without_hex_prefix(b_hex),
        ) matches Some(b) && a.len() == 65 && b.len() == 65 && a.take(64) == b.take(64) && a[64]
            <= 3 && b[64] == a[64] + 27,
    ensures
        signer_of(hash, a_hex) == signer_of(hash, b_hex),
{
}

/// A signature reads the same with `0x` in front.
pub proof fn signature_prefix_is_immaterial(hash: Seq<u8>, sig_hex: Seq<char>)
    ensures
        signer_of(hash, seq!['0', 'x'] + sig_hex) == signer_of(hash, sig_hex),
{
    assert((seq!['0', 'x'] + sig_hex).skip(2) =~= sig_hex);
    assert(without_hex_prefix(seq!['0', 'x'] + sig_hex) == without_hex_prefix(sig_hex));
}

/// A signature that recovers to a key under its recovery id gives that key's address in all four
/// spellings: with `0x` in front or without, and with the recovery id or 27 more at the end.
pub proof fn every_spelling_recovers(
    hash: Seq<u8>,
    rs: Seq<u8>,
    id: u8,
    key: Seq<u8>,
    v: u8,
    prefixed: bool,
)
    requires
        rs.len() == 64,
        id <= 3,
        recovered_key(hash, rs, id) == Some(key),
        v == id || v == id + 27,
    ensures
        signer_of(hash, spelled_signature(rs, v, prefixed)) == Ok::<Seq<u8>, SignatureErrorView>(
            key_address(key),
        ),
{
    let bytes = rs.push(v);
    hex_has_no_prefix(bytes);
    hex_reads_back(bytes);
    assert(bytes.take(64) =~= rs);
}

/// Whether `x` and `y` are two different byte strings with one digest.
pub open spec fn collide(x: Seq<u8>, y: Seq<u8>) -> bool {
    x != y && keccak256_digest(x) == keccak256_digest(y)
}

/// One signed digest stands for one receipt in one domain, unless a hash collision is at hand.
pub proof fn receipt_hash_binds(a_domain: Seq<u8>, a: ReceiptView, b_domain: Seq<u8>, b: ReceiptView)
    requires
        a.wf() && b.wf(),
        a_domain.len() == 32 && b_domain.len() == 32,
        message_digest(a_domain, receipt_digest(a)) == message_digest(b_domain, receipt_digest(b)),
    ensures
        (a_domain == b_domain && a == b) || collide(a.metadata, b.metadata) || collide(
            receipt_preimage(a),
            receipt_preimage(b),
        ) || collide(
            message_preimage(a_domain, receipt_digest(a)),
            message_preimage(b_domain, receipt_digest(b)),
        ),
{
    let x = message_preimage(a_domain, receipt_digest(a));
    let y = message_preimage(b_domain, receipt_digest(b));
    if x == y {
        assert(x.subrange(2, 34) =~= a_domain);
        assert(y.subrange(2, 34) =~= b_domain);
        assert(x.skip(34) =~= receipt_digest(a));
        assert(y.skip(34) =~= receipt_digest(b));
        if receipt_preimage(a) == receipt_preimage(b) {
            receipt_words_are_injective(
                text_digest(RECEIPT_TYPE_STRING@),
                a,
                keccak256_digest(a.metadata),
                b,
                keccak256_digest(b.metadata),
            );
            if a.metadata == b.metadata {
                assert(a =~= b);
            }
        }
    }
}

/// One domain separator stands for one name, chain and contract, unless a hash collision is at
/// hand.
pub proof fn domain_separator_binds(
    a_name: Seq<char>,
    a_chain: u64,
    a_contract: Seq<u8>,
    b_name: Seq<char>,
    b_chain: u64,
    b_contract: Seq<u8>,
)
    requires
        a_contract.len() == 20 && b_contract.len() == 20,
        domain_digest(a_name, a_chain, a_contract) == domain_digest(b_name, b_chain, b_contract),
    ensures
        (a_name == b_name && a_chain == b_chain && a_contract == b_contract) || collide(
            encode_utf8(a_name),
            encode_utf8(b_name),
        ) || collide(
            domain_preimage(a_name, a_chain, a_contract),
            domain_preimage(b_name, b_chain, b_contract),
        ),
{
    if domain_preimage(a_name, a_chain, a_contract) == domain_preimage(b_name, b_chain, b_contract) {
        domain_words_are_injective(
            text_digest(DOMAIN_TYPE_STRING@),
            text_digest(DOMAIN_VERSION@),
            (text_digest(a_name), a_chain, a_contract),
            (text_digest(b_name), b_chain, b_contract),
        );
        encode_utf8_decode_utf8(a_name);
        encode_utf8_decode_utf8(b_name);
    }
}

/// One collection id stands for one payer, provider and service, unless a hash collision is at
/// hand.
pub proof fn collection_id_binds(
    a: (Seq<u8>, Seq<u8>, Seq<u8>),
    b: (Seq<u8>, Seq<u8>, Seq<u8>),
)
    requires
        a.0.len() == 20 && a.1.len() == 20 && a.2.len() == 20,
        b.0.len() == 20 && b.1.len() == 20 && b.2.len() == 20,
        keccak256_digest(collection_words(a.0, a.1, a.2)) == keccak256_digest(
            collection_words(b.0, b.1, b.2),
        ),
    ensures
        a == b || collide(collection_words(a.0, a.1, a.2), collection_words(b.0, b.1, b.2)),
{
    if collection_words(a.0, a.1, a.2) == collection_words(b.0, b.1, b.2) {
        collection_words_are_injective(a, b);
    }
}

/// One struct hash stands for one voucher, unless a hash collision is at hand.
pub proof fn rav_hash_binds(a: RavView, b: RavView)
    requires
        a.wf() && b.wf(),
        rav_digest(a) == rav_digest(b),
    ensures
        a == b || collide(a.metadata, b.metadata) || collide(rav_preimage(a), rav_preimage(b)),
{
    if rav_preimage(a) == rav_preimage(b) {
        rav_words_are_injective(
            text_digest(RAV_TYPE_STRING@),
            a,
            keccak256_digest(a.metadata),
            b,
            keccak256_digest(b.metadata),
        );
        if a.metadata == b.metadata {
            assert(a =~= b);
        }
    }
}

// ── What is hashed, word by word ─────────────────────────────────────────────

/// The domain separator is the digest of five words: the digests of the domain's type, of its name
/// and of the version `1`, the chain id, and the contract.
pub proof fn domain_is_hashed_by_word(
    p: Seq<u8>,
    name: Seq<char>,
    chain_id: u64,
    verifying_contract: Seq<u8>,
)
    requires
        verifying_contract.len() == 20,
        p.len() == 160,
        word_at(
            p,
            0,
            keccak256_digest(
                encode_utf8(
                    "EIP712Domain(string name,string version,uint256 chainId,address verifyingContract)"@,
                ),
            ),
        ),
        word_at(p, 1, keccak256_digest(encode_utf8(name))),
        word_at(p, 2, keccak256_digest(encode_utf8("1"@))),
        uint_at(p, 3, chain_id as int),
        address_at(p, 4, verifying_contract),
    ensures
        domain_digest(name, chain_id, verifying_contract) == keccak256_digest(p),
{
    lemma_uint_at(p, 3, chain_id as nat);
    lemma_address_at(p, 4, verifying_contract);
    lemma_word_then(p, 0, text_digest(DOMAIN_TYPE_STRING@));
    lemma_word_then(p, 1, text_digest(name));
    lemma_word_then(p, 2, text_digest(DOMAIN_VERSION@));
    lemma_word_then(p, 3, uint_word(chain_id as nat));
    assert(p.skip(128) =~= p.subrange(128, 160));
    assert(p.skip(0) =~= p);
    assert(p == domain_preimage(name, chain_id, verifying_contract));
}

/// The struct hash of a receipt is the digest of seven words: the digest of the receipt's type, the
/// data service, the service provider, the time, the nonce, the value, and the digest of the
/// metadata.
pub proof fn receipt_is_hashed_by_word(p: Seq<u8>, r: ReceiptView)
    requires
        r.data_service.len() == 20 && r.service_provider.len() == 20,
        p.len() == 224,
        word_at(
            p,
            0,
            keccak256_digest(
                encode_utf8(
                    "Receipt(address data_service,address service_provider,uint64 timestamp_ns,uint64 nonce,uint128 value,bytes metadata)"@,
                ),
            ),
        ),
        address_at(p, 1, r.data_service),
        address_at(p, 2, r.service_provider),
        uint_at(p, 3, r.timestamp_ns as int),
        uint_at(p, 4, r.nonce as int),
        uint_at(p, 5, r.value as int),
        word_at(p, 6, keccak256_digest(r.metadata)),
    ensures
        receipt_preimage(r) == p,
        receipt_digest(r) == keccak256_digest(p),
{
    lemma_address_at(p, 1, r.data_service);
    lemma_address_at(p, 2, r.service_provider);
    lemma_uint_at(p, 3, r.timestamp_ns as nat);
    lemma_uint_at(p, 4, r.nonce as nat);
    lemma_uint_at(p, 5, r.value as nat);
    lemma_word_then(p, 0, text_digest(RECEIPT_TYPE_STRING@));
    lemma_word_then(p, 1, address_word(r.data_service));
    lemma_word_then(p, 2, address_word(r.service_provider));
    lemma_word_then(p, 3, uint_word(r.timestamp_ns as nat));
    lemma_word_then(p, 4, uint_word(r.nonce as nat));
    lemma_word_then(p, 5, uint_word(r.value as nat));
    assert(p.skip(192) =~= p.subrange(192, 224));
    assert(p.skip(0) =~= p);
}

/// The struct hash of a voucher is the digest of eight words: the digest of the voucher's type, the
/// collection id, the payer, the service provider, the data service, the time, the value, and the
/// digest of the metadata.
pub proof fn rav_is_hashed_by_word(p: Seq<u8>, rav: RavView)
    requires
        rav.collection_id.len() == 32,
        rav.payer.len() == 20 && rav.service_provider.len() == 20 && rav.data_service.len() == 20,
        p.len() == 256,
        word_at(
            p,
            0,
            keccak256_digest(
                encode_utf8(
                    "ReceiptAggregateVoucher(bytes32 collectionId,address payer,address serviceProvider,address dataService,uint64 timestampNs,uint128 valueAggregate,bytes metadata)"@,
                ),
            ),
        ),
        word_at(p, 1, rav.collection_id),
        address_at(p, 2, rav.payer),
        address_at(p, 3, rav.service_provider),
        address_at(p, 4, rav.data_service),
        uint_at(p, 5, rav.timestamp_ns as int),
        uint_at(p, 6, rav.value_aggregate as int),
        word_at(p, 7, keccak256_digest(rav.metadata)),
    ensures
        rav_preimage(rav) == p,
        rav_digest(rav) == keccak256_digest(p),
{
    lemma_word_then(p, 0, text_digest(RAV_TYPE_STRING@));
    lemma_rav_head_at(p, 1, rav);
    assert(p.skip(224) =~= p.subrange(224, 256));
    assert(p.skip(0) =~= p);
}

/// The id of a collection is the digest of three words: the payer, the service provider and the
/// data service.
pub proof fn collection_is_hashed_by_word(
    p: Seq<u8>,
    payer: Seq<u8>,
    service_provider: Seq<u8>,
    data_service: Seq<u8>,
)
    requires
        payer.len() == 20 && service_provider.len() == 20 && data_service.len() == 20,
        p.len() == 96,
        address_at(p, 0, payer),
        address_at(p, 1, service_provider),
        address_at(p, 2, data_service),
    ensures
        collection_words(payer, service_provider, data_service) == p,
{
    lemma_address_at(p, 0, payer);
    lemma_address_at(p, 1, service_provider);
    lemma_address_at(p, 2, data_service);
    lemma_word_then(p, 0, address_word(payer));
    lemma_word_then(p, 1, address_word(service_provider));
    assert(p.skip(64) =~= p.subrange(64, 96));
    assert(p.skip(0) =~= p);
}

/// What is signed is the digest of 66 bytes: 0x19, 0x01, the domain separator and the struct hash.
pub proof fn message_is_hashed_by_part(p: Seq<u8>, domain_sep: Seq<u8>, struct_hash: Seq<u8>)
    requires
        p.len() == 66,
        p[0] == 0x19,
        p[1] == 0x01,
        p.subrange(2, 34) == domain_sep,
        p.subrange(34, 66) == struct_hash,
    ensures
        message_digest(domain_sep, struct_hash) == keccak256_digest(p),
{
    assert(message_preimage(domain_sep, struct_hash) =~= p);
}

// ── What becomes of a signature and of a receipt ─────────────────────────────

/// A signature in hex stands for 65 bytes, the last of which is a recovery id from 0 to 3 or 27
/// more. Its signer is the address of the key that is recovered from the first 64 bytes and the id:
/// the digest of the key without its first byte, without the first twelve bytes. Anything else has
/// no signer, for the first reason there is.
pub proof fn signature_is_judged(hash: Seq<u8>, sig_hex: Seq<char>)
    ensures
        ({
            let digits = without_hex_prefix(sig_hex);
            let signer = signer_of(hash, sig_hex);
            match hex_bytes(digits) {
                None => signer == Err::<Seq<u8>, SignatureErrorView>(
                    SignatureErrorView::Hex(hex_error_text(digits)),
                ),
                Some(bytes) => {
                    &&& bytes.len() != 65 ==> signer == Err::<Seq<u8>, SignatureErrorView>(
                        SignatureErrorView::Length(bytes.len() as usize),
                    )
                    &&& bytes.len() == 65 && !(bytes[64] <= 3 || 27 <= bytes[64] <= 30) ==> signer
                        == Err::<Seq<u8>, SignatureErrorView>(
                        SignatureErrorView::RecoveryId(bytes[64]),
                    )
                    &&& forall|id: u8|
                        bytes.len() == 65 && id <= 3 && (bytes[64] == id || bytes[64] == id + 27)
                            ==> signer == (match #[trigger] recovered_key(
                            hash,
                            bytes.subrange(0, 64),
                            id,
                        ) {
                            Some(key) => Ok::<Seq<u8>, SignatureErrorView>(
                                keccak256_digest(key.skip(1)).skip(12),
                            ),
                            None => Err(SignatureErrorView::Unrecoverable("signature error"@)),
                        })
                },
            }
        }),
{
    let digits = without_hex_prefix(sig_hex);
    if hex_bytes(digits) is Some {
        let bytes = hex_bytes(digits).unwrap();
        if bytes.len() == 65 {
            assert(bytes.take(64) =~= bytes.subrange(0, 64));
        }
    }
}

/// A receipt that is accepted is signed by an authorised sender, where there are any: if the list
/// of senders is not empty, the signer is one of its entries. An empty list accepts every signer.
pub proof fn accepted_signer_is_listed(
    parsed: Result<SignedReceiptView, Seq<char>>,
    domain_sep: Seq<u8>,
    authorized_senders: Seq<Address>,
    data_service: Seq<u8>,
    service_provider: Seq<u8>,
    max_age_ns: u64,
    now_ns: u64,
)
    ensures
        receipt_verdict(
            parsed,
            domain_sep,
            authorized_senders,
            data_service,
            service_provider,
            max_age_ns,
            now_ns,
        ) matches Ok(v) ==> authorized_senders.len() > 0 ==> exists|i: int|
            0 <= i < authorized_senders.len() && (#[trigger] authorized_senders[i]).0@ == v.signer,
        receipt_verdict(
            parsed,
            domain_sep,
            Seq::empty(),
            data_service,
            service_provider,
            max_age_ns,
            now_ns,
        ) matches Err(e) ==> !(e is UnauthorizedSender),
{
}

/// Leaving senders off a list never lets anyone in, as long as one is left; an entry that signed is
/// let in by every list that holds it.
pub proof fn longer_list_accepts_more(
    signed: SignedReceiptView,
    domain_sep: Seq<u8>,
    fewer: Seq<Address>,
    more: Seq<Address>,
    data_service: Seq<u8>,
    service_provider: Seq<u8>,
    max_age_ns: u64,
    now_ns: u64,
)
    requires
        fewer.len() > 0,
        forall|i: int| 0 <= i < fewer.len() ==> more.contains(#[trigger] fewer[i]),
        receipt_verdict(
            Ok(signed),
            domain_sep,
            fewer,
            data_service,
            service_provider,
            max_age_ns,
            now_ns,
        ) is Ok,
    ensures
        receipt_verdict(
            Ok(signed),
            domain_sep,
            more,
            data_service,
            service_provider,
            max_age_ns,
            now_ns,
        ) == receipt_verdict(
            Ok(signed),
            domain_sep,
            fewer,
            data_service,
            service_provider,
            max_age_ns,
            now_ns,
        ),
{
    let v = receipt_verdict(
        Ok(signed),
        domain_sep,
        fewer,
        data_service,
        service_provider,
        max_age_ns,
        now_ns,
    )->Ok_0;
    let i = choose|i: int| 0 <= i < fewer.len() && (#[trigger] fewer[i])@ == v.signer;
    assert(more.contains(fewer[i]));
    let j = choose|j: int| 0 <= j < more.len() && more[j] == fewer[i];
    assert(more[j]@ == v.signer);
}

/// A receipt is judged by its fields in order, and the first fault decides what is reported: that
/// it cannot be read, its data service, its service provider, its age, its signature, its signer.
/// Without a fault it is accepted as it is, with its signer, and with the payer that the first
/// twenty bytes of its metadata name or else the signer.
pub proof fn receipt_is_judged(
    parsed: Result<SignedReceiptView, Seq<char>>,
    domain_sep: Seq<u8>,
    authorized_senders: Seq<Address>,
    data_service: Seq<u8>,
    service_provider: Seq<u8>,
    max_age_ns: u64,
    now_ns: u64,
)
    ensures
        ({
            let verdict = receipt_verdict(
                parsed,
                domain_sep,
                authorized_senders,
                data_service,
                service_provider,
                max_age_ns,
                now_ns,
            );
            match parsed {
                Err(reason) => verdict == Err::<ValidatedReceiptView, TapErrorView>(
                    TapErrorView::InvalidReceipt(reason),
                ),
                Ok(signed) => {
                    let r = signed.receipt;
                    let ours = r.data_service == data_service && r.service_provider
                        == service_provider;
                    let fresh = now_ns <= r.timestamp_ns + max_age_ns;
                    let recovered = signer_of(
                        message_digest(domain_sep, receipt_digest(r)),
                        signed.signature,
                    );
                    &&& r.data_service != data_service ==> verdict == Err::<
                        ValidatedReceiptView,
                        TapErrorView,
                    >(
                        TapErrorView::InvalidReceipt(
                            "data_service mismatch: expected "@ + checksum_text(data_service)
                                + ", got "@ + checksum_text(r.data_service),
                        ),
                    )
                    &&& r.data_service == data_service && r.service_provider != service_provider
                        ==> verdict == Err::<ValidatedReceiptView, TapErrorView>(
                        TapErrorView::InvalidReceipt(
                            "service_provider mismatch: expected "@ + checksum_text(
                                service_provider,
                            ) + ", got "@ + checksum_text(r.service_provider),
                        ),
                    )
                    &&& ours && !fresh ==> verdict == Err::<ValidatedReceiptView, TapErrorView>(
                        TapErrorView::ReceiptExpired,
                    )
                    &&& ours && fresh ==> match recovered {
                        Err(e) => verdict == Err::<ValidatedReceiptView, TapErrorView>(
                            TapErrorView::InvalidReceipt(
                                "signature recovery failed: "@ + e.text(),
                            ),
                        ),
                        Ok(signer) => if authorized_senders.len() == 0 || exists|i: int|
                            0 <= i < authorized_senders.len() && (
                            #[trigger] authorized_senders[i]).0@ == signer {
                            verdict == Ok::<ValidatedReceiptView, TapErrorView>(
                                ValidatedReceiptView {
                                    receipt: r,
                                    signer,
                                    payer: if r.metadata.len() >= 20 {
                                        r.metadata.subrange(0, 20)
                                    } else {
                                        signer
                                    },
                                    signature: signed.signature,
                                },
                            )
                        } else {
                            verdict == Err::<ValidatedReceiptView, TapErrorView>(
                                TapErrorView::UnauthorizedSender(checksum_text(signer)),
                            )
                        },
                    }
                },
            }
        }),
{
    reveal_strlit("data_service");
    reveal_strlit("service_provider");
    reveal_strlit(" mismatch: expected ");
    reveal_strlit("data_service mismatch: expected ");
    reveal_strlit("service_provider mismatch: expected ");
    assert("data_service mismatch: expected "@ =~= "data_service"@ + " mismatch: expected "@);
    assert("service_provider mismatch: expected "@ =~= "service_provider"@
        + " mismatch: expected "@);
    if let Ok(signed) = parsed {
        let m = signed.receipt.metadata;
        if m.len() >= 20 {
            assert(m.take(20) =~= m.subrange(0, 20));
        }
    }
}

/// Metadata names a payer exactly when it has twenty bytes or more: the first twenty, in order.
pub proof fn metadata_names_its_first_bytes(metadata: Seq<u8>)
    ensures
        metadata_payer(metadata) is Some <==> metadata.len() >= 20,
        metadata_payer(metadata) matches Some(payer) ==> {
            &&& payer.len() == 20
            &&& forall|k: int| 0 <= k < 20 ==> payer[k] == #[trigger] metadata[k]
        },
{
}

/// What errors say.
pub proof fn errors_are_worded(text: Seq<char>, n: usize, v: u8)
    ensures
        TapErrorView::InvalidReceipt(text).text() == "invalid receipt: "@ + text,
        TapErrorView::ReceiptExpired.text() == "receipt expired"@,
        TapErrorView::UnauthorizedSender(text).text() == "unauthorized sender: "@ + text,
        SignatureErrorView::Hex(text).text() == text,
        SignatureErrorView::Length(n).text() == "signature must be 65 bytes, got "@ + decimal(
            n as nat,
        ),
        SignatureErrorView::RecoveryId(v).text() == "invalid recovery id "@ + decimal(v as nat),
        SignatureErrorView::Unrecoverable(text).text() == text,
{
}

/// Receipts and vouchers stand for what their fields say, field by field.
pub proof fn fields_are_the_value(
    s: SignedReceipt,
    rav: SignedRav,
    v: ValidatedReceipt,
    outcome: Result<ValidatedReceipt, TapError>,
)
    ensures
        s@.signature == s.signature@,
        s@.receipt == s.receipt@,
        s@.receipt.data_service == s.receipt.data_service.0@,
        s@.receipt.service_provider == s.receipt.service_provider.0@,
        s@.receipt.timestamp_ns == s.receipt.timestamp_ns,
        s@.receipt.nonce == s.receipt.nonce,
        s@.receipt.value == s.receipt.value,
        s@.receipt.metadata == s.receipt.metadata@,
        rav@.signature == rav.signature@,
        rav@.rav == rav.rav@,
        rav@.rav.collection_id == rav.rav.collection_id.0@,
        rav@.rav.payer == rav.rav.payer.0@,
        rav@.rav.service_provider == rav.rav.service_provider.0@,
        rav@.rav.data_service == rav.rav.data_service.0@,
        rav@.rav.timestamp_ns == rav.rav.timestamp_ns,
        rav@.rav.value_aggregate == rav.rav.value_aggregate,
        rav@.rav.metadata == rav.rav.metadata@,
        v@.receipt == v.receipt@,
        v@.signer == v.signer.0@,
        v@.payer == v.payer.0@,
        v@.signature == v.signature@,
        outcome matches Ok(v) ==> outcome_view(outcome) == Ok::<ValidatedReceiptView, TapErrorView>(
            v@,
        ),
        outcome matches Err(TapError::InvalidReceipt(m)) ==> outcome_view(outcome) == Err::<
            ValidatedReceiptView,
            TapErrorView,
        >(TapErrorView::InvalidReceipt(m@)),
        outcome matches Err(TapError::ReceiptExpired) ==> outcome_view(outcome) == Err::<
            ValidatedReceiptView,
            TapErrorView,
        >(TapErrorView::ReceiptExpired),
        outcome matches Err(TapError::UnauthorizedSender(m)) ==> outcome_view(outcome) == Err::<
            ValidatedReceiptView,
            TapErrorView,
        >(TapErrorView::UnauthorizedSender(m@)),
{
}

/// Signature errors stand for what they carry.
pub proof fn signature_errors_are_the_value(e: SignatureError)
    ensures
        e matches SignatureError::Hex(text) ==> e@ == SignatureErrorView::Hex(text@),
        e matches SignatureError::Length(n) ==> e@ == SignatureErrorView::Length(n),
        e matches SignatureError::RecoveryId(v) ==> e@ == SignatureErrorView::RecoveryId(v),
        e matches SignatureError::Unrecoverable(text) ==> e@ == SignatureErrorView::Unrecoverable(
            text@,
        ),
{
}

/// A signature is spelled as its 64 bytes and `v`, two digits for each, with `0x` in front or not.
pub proof fn signatures_are_spelled_out(rs: Seq<u8>, v: u8)
    ensures
        spelled_signature(rs, v, false) == lower_hex(rs + seq![v]),
        spelled_signature(rs, v, true) == seq!['0', 'x'] + lower_hex(rs + seq![v]),
{
    assert(rs.push(v) =~= rs + seq![v]);
}

/// The 66 bytes that are hashed for a struct: 0x19, 0x01, the domain separator and the struct hash.
pub proof fn message_is_laid_out_by_part(domain_sep: Seq<u8>, struct_hash: Seq<u8>)
    requires
        domain_sep.len() == 32 && struct_hash.len() == 32,
    ensures
        ({
            let message = message_preimage(domain_sep, struct_hash);
            &&& message.len() == 66
            &&& message[0] == 0x19
            &&& message[1] == 0x01
            &&& message.subrange(2, 34) == domain_sep
            &&& message.subrange(34, 66) == struct_hash
        }),
{
    let message = message_preimage(domain_sep, struct_hash);
    assert(message.subrange(2, 34) =~= domain_sep);
    assert(message.subrange(34, 66) =~= struct_hash);
}

/// A signature in hex is read as the bytes that its digits stand for, if they are 65 and the last is
/// from 0 to 3 or from 27 to 30; else the first reason why not is given.
pub proof fn signature_is_read_as_its_bytes(sig_hex: Seq<char>)
    ensures
        ({
            let digits = without_hex_prefix(sig_hex);
            let read = signature_bytes(sig_hex);
            match hex_bytes(digits) {
                None => read == Err::<Seq<u8>, SignatureErrorView>(
                    SignatureErrorView::Hex(hex_error_text(digits)),
                ),
                Some(bytes) => {
                    let fits = bytes.len() == 65;
                    let ends = bytes[64] <= 3 || 27 <= bytes[64] <= 30;
                    &&& !fits ==> read == Err::<Seq<u8>, SignatureErrorView>(
                        SignatureErrorView::Length(bytes.len() as usize),
                    )
                    &&& fits && !ends ==> read == Err::<Seq<u8>, SignatureErrorView>(
                        SignatureErrorView::RecoveryId(bytes[64]),
                    )
                    &&& fits && ends ==> read == Ok::<Seq<u8>, SignatureErrorView>(bytes)
                },
            }
        }),
{
}

/// The address of a key is the digest of all its bytes but the first, without the first twelve
/// bytes; without a key the reason is handed on.
pub proof fn address_is_the_end_of_the_key_digest(key: Seq<u8>, reason: Seq<char>)
    requires
        key.len() == 65,
    ensures
        key_address(key) == keccak256_digest(key.subrange(1, 65)).skip(12),
        signer_of_key(Ok(key)) == Ok::<Seq<u8>, SignatureErrorView>(
            keccak256_digest(key.subrange(1, 65)).skip(12),
        ),
        signer_of_key(Err(reason)) == Err::<Seq<u8>, SignatureErrorView>(
            SignatureErrorView::Unrecoverable(reason),
        ),
{
    assert(key.skip(1) =~= key.subrange(1, 65));
}

/// The fields of a receipt are in order exactly when it is for this data service and this service
/// provider and is not older than allowed; a receipt of the future is not too old.
pub proof fn fields_are_checked_in_order(
    r: ReceiptView,
    data_service: Seq<u8>,
    service_provider: Seq<u8>,
    max_age_ns: u64,
    now_ns: u64,
)
    ensures
        ({
            let fault = receipt_fault(r, data_service, service_provider, max_age_ns, now_ns);
            let service_fits = r.data_service == data_service;
            let provider_fits = r.service_provider == service_provider;
            let fresh = now_ns <= r.timestamp_ns + max_age_ns;
            &&& fault is None <==> service_fits && provider_fits && fresh
            &&& !service_fits ==> fault == Some(
                TapErrorView::InvalidReceipt(
                    "data_service mismatch: expected "@ + checksum_text(data_service) + ", got "@
                        + checksum_text(r.data_service),
                ),
            )
            &&& service_fits && !provider_fits ==> fault == Some(
                TapErrorView::InvalidReceipt(
                    "service_provider mismatch: expected "@ + checksum_text(service_provider)
                        + ", got "@ + checksum_text(r.service_provider),
                ),
            )
            &&& service_fits && provider_fits && !fresh ==> fault == Some(
                TapErrorView::ReceiptExpired,
            )
        }),
{
    reveal_strlit("data_service");
    reveal_strlit("service_provider");
    reveal_strlit(" mismatch: expected ");
    reveal_strlit("data_service mismatch: expected ");
    reveal_strlit("service_provider mismatch: expected ");
    assert("data_service mismatch: expected "@ =~= "data_service"@ + " mismatch: expected "@);
    assert("service_provider mismatch: expected "@ =~= "service_provider"@
        + " mismatch: expected "@);
}

/// A signed receipt is let in exactly when its signer is known and is one of the senders, or there
/// are none; it is then handed on as it is, with the signer, and with the payer that the first
/// twenty bytes of its metadata name or else the signer.
pub proof fn only_listed_signers_are_let_in(
    signed: SignedReceiptView,
    recovered: Result<Seq<u8>, SignatureErrorView>,
    senders: Seq<Address>,
)
    ensures
        ({
            let outcome = authorization(signed, recovered, senders);
            match recovered {
                Err(e) => outcome == Err::<ValidatedReceiptView, TapErrorView>(
                    TapErrorView::InvalidReceipt("signature recovery failed: "@ + e.text()),
                ),
                Ok(signer) => {
                    let listed = exists|i: int|
                        0 <= i < senders.len() && (#[trigger] senders[i]).0@ == signer;
                    &&& senders.len() > 0 && !listed ==> outcome == Err::<
                        ValidatedReceiptView,
                        TapErrorView,
                    >(TapErrorView::UnauthorizedSender(checksum_text(signer)))
                    &&& senders.len() == 0 || listed ==> outcome == Ok::<
                        ValidatedReceiptView,
                        TapErrorView,
                    >(
                        ValidatedReceiptView {
                            receipt: signed.receipt,
                            signer,
                            payer: if signed.receipt.metadata.len() >= 20 {
                                signed.receipt.metadata.subrange(0, 20)
                            } else {
                                signer
                            },
                            signature: signed.signature,
                        },
                    )
                },
            }
        }),
{
    let m = signed.receipt.metadata;
    if m.len() >= 20 {
        assert(m.take(20) =~= m.subrange(0, 20));
    }
}

/// Refusals stand for what they carry.
pub proof fn refusals_are_the_value(e: TapError)
    ensures
        e matches TapError::InvalidReceipt(m) ==> e@ == TapErrorView::InvalidReceipt(m@),
        e is ReceiptExpired ==> e@ is ReceiptExpired,
        e matches TapError::UnauthorizedSender(s) ==> e@ == TapErrorView::UnauthorizedSender(s@),
{
}

/// The type strings and the version of the domain.
pub proof fn type_strings_are_spelled_out()
    ensures
        DOMAIN_TYPE_STRING@
            == "EIP712Domain(string name,string version,uint256 chainId,address verifyingContract)"@,
        DOMAIN_VERSION@ == "1"@,
        RECEIPT_TYPE_STRING@
            == "Receipt(address data_service,address service_provider,uint64 timestamp_ns,uint64 nonce,uint128 value,bytes metadata)"@,
        RAV_TYPE_STRING@
            == "ReceiptAggregateVoucher(bytes32 collectionId,address payer,address serviceProvider,address dataService,uint64 timestampNs,uint128 valueAggregate,bytes metadata)"@,
{
}

} // verus!
