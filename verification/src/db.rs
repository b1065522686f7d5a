//! The rows in which receipts and vouchers are kept, and what is read back from them.

use vstd::prelude::*;
use vstd::string::*;

use crate::primitives::{address_hex, prefixed_hex, word_hex, Address};
use crate::tap::{
    Rav, RavView, Receipt, ReceiptView, SignedReceipt, SignedReceiptView, ValidatedReceipt,
    ValidatedReceiptView,
};
use crate::text::{
    decimal, decimal_reads_back, decimal_string, lower_hex, parse_u128_or_zero, parsed_u128,
    u128_or_zero,
};

verus! {

// ── Integers in signed columns ───────────────────────────────────────────────

/// A `u64` in a signed 64-bit column: values beyond the column's range wrap around below zero.
pub open spec fn stored_u64(n: u64) -> int {
    if n <= i64::MAX {
        n as int
    } else {
        n - 0x1_0000_0000_0000_0000
    }
}

/// The `u64` that a signed 64-bit column holds.
pub open spec fn loaded_u64(n: i64) -> int {
    if n >= 0 {
        n as int
    } else {
        n + 0x1_0000_0000_0000_0000
    }
}

/// Turns a `u64` into what its column holds.
pub fn store_u64(n: u64) -> (column: i64)
    ensures
        column == stored_u64(n),
{
    assert(n <= 0x7fff_ffff_ffff_ffff ==> n as i64 == n) by (bit_vector);
    assert(n > 0x7fff_ffff_ffff_ffff ==> n as i64 == n - 0x1_0000_0000_0000_0000) by (bit_vector);
    n as i64
}

/// Turns what a column holds back into a `u64`.
pub fn load_u64(column: i64) -> (n: u64)
    ensures
        n == loaded_u64(column),
{
    assert(column >= 0 ==> column as u64 == column) by (bit_vector);
    assert(column < 0 ==> column as u64 == column + 0x1_0000_0000_0000_0000) by (bit_vector);
    column as u64
}

// ── Receipts ─────────────────────────────────────────────────────────────────

/// A row of `tap_receipts` as it is written.
#[derive(Clone, Debug)]
pub struct ReceiptRow {
    pub signer_address: String,
    pub payer_address: String,
    pub timestamp_ns: i64,
    pub nonce: i64,
    pub value: String,
    pub signature: String,
    pub metadata: Vec<u8>,
}

/// A row of `tap_receipts` as it is read.
#[derive(Clone, Debug)]
pub struct RawReceipt {
    pub payer_address: String,
    pub timestamp_ns: i64,
    pub nonce: i64,
    pub value: String,
    pub signature: String,
    pub metadata: Vec<u8>,
}

/// What a row of `tap_receipts` holds as it is written.
#[verifier::ext_equal]
pub struct ReceiptRowView {
    pub signer_address: Seq<char>,
    pub payer_address: Seq<char>,
    pub timestamp_ns: int,
    pub nonce: int,
    pub value: Seq<char>,
    pub signature: Seq<char>,
    pub metadata: Seq<u8>,
}

/// What is read of a row of `tap_receipts`.
#[verifier::ext_equal]
pub struct RawReceiptView {
    pub payer_address: Seq<char>,
    pub timestamp_ns: i64,
    pub nonce: i64,
    pub value: Seq<char>,
    pub signature: Seq<char>,
    pub metadata: Seq<u8>,
}

impl View for ReceiptRow {
    type V = ReceiptRowView;

    open spec fn view(&self) -> ReceiptRowView {
        ReceiptRowView {
            signer_address: self.signer_address@,
            payer_address: self.payer_address@,
            timestamp_ns: self.timestamp_ns as int,
            nonce: self.nonce as int,
            value: self.value@,
            signature: self.signature@,
            metadata: self.metadata@,
        }
    }
}

impl View for RawReceipt {
    type V = RawReceiptView;

    open spec fn view(&self) -> RawReceiptView {
        RawReceiptView {
            payer_address: self.payer_address@,
            timestamp_ns: self.timestamp_ns,
            nonce: self.nonce,
            value: self.value@,
            signature: self.signature@,
            metadata: self.metadata@,
        }
    }
}

impl RawReceiptView {
    /// Whether this is what a read gives of the written row.
    pub open spec fn reads(self, row: ReceiptRowView) -> bool {
        &&& self.payer_address == row.payer_address
        &&& self.timestamp_ns == row.timestamp_ns
        &&& self.nonce == row.nonce
        &&& self.value == row.value
        &&& self.signature == row.signature
        &&& self.metadata == row.metadata
    }
}

/// The row in which a validated receipt is kept.
pub open spec fn receipt_row_of(v: ValidatedReceiptView) -> ReceiptRowView {
    ReceiptRowView {
        signer_address: prefixed_hex(v.signer),
        payer_address: prefixed_hex(v.payer),
        timestamp_ns: stored_u64(v.receipt.timestamp_ns),
        nonce: stored_u64(v.receipt.nonce),
        value: decimal(v.receipt.value as nat),
        signature: v.signature,
        metadata: v.receipt.metadata,
    }
}

/// The signed receipt that a row stands for, with the addresses that the row leaves out.
pub open spec fn signed_receipt_of(
    row: RawReceiptView,
    data_service: Seq<u8>,
    service_provider: Seq<u8>,
) -> SignedReceiptView {
    SignedReceiptView {
        receipt: ReceiptView {
            data_service,
            service_provider,
            timestamp_ns: loaded_u64(row.timestamp_ns) as u64,
            nonce: loaded_u64(row.nonce) as u64,
            value: u128_or_zero(row.value),
            metadata: row.metadata,
        },
        signature: row.signature,
    }
}

/// Lays out a validated receipt as a row.
pub fn receipt_row(v: &ValidatedReceipt) -> (row: ReceiptRow)
    ensures
        row@ == receipt_row_of(v@),
{
    let metadata = vstd::slice::slice_to_vec(v.receipt.metadata.as_slice());
    ReceiptRow {
        signer_address: address_hex(&v.signer),
        payer_address: address_hex(&v.payer),
        timestamp_ns: store_u64(v.receipt.timestamp_ns),
        nonce: store_u64(v.receipt.nonce),
        value: decimal_string(v.receipt.value),
        signature: v.signature.clone(),
        metadata,
    }
}

/// Rebuilds the signed receipt of a row.
pub fn signed_receipt(row: &RawReceipt, data_service: Address, service_provider: Address) -> (signed:
    SignedReceipt)
    ensures
        signed@ == signed_receipt_of(row@, data_service@, service_provider@),
{
    let metadata = vstd::slice::slice_to_vec(row.metadata.as_slice());
    SignedReceipt {
        receipt: Receipt {
            data_service,
            service_provider,
            timestamp_ns: load_u64(row.timestamp_ns),
            nonce: load_u64(row.nonce),
            value: parse_u128_or_zero(row.value.as_str()),
            metadata,
        },
        signature: row.signature.clone(),
    }
}

// ── Vouchers ─────────────────────────────────────────────────────────────────

/// A row of `tap_ravs` as it is written; writing it marks the voucher as not redeemed.
#[derive(Clone, Debug)]
pub struct RavRow {
    pub collection_id: String,
    pub payer_address: String,
    pub service_provider: String,
    pub data_service: String,
    pub timestamp_ns: i64,
    pub value_aggregate: String,
    pub signature: String,
}

/// A row of `tap_ravs` as it is read for collection.
#[derive(Clone, Debug)]
pub struct RedeemableRav {
    pub collection_id: String,
    pub payer_address: String,
    pub service_provider: String,
    pub data_service: String,
    pub timestamp_ns: i64,
    pub value_aggregate: String,
    pub signature: String,
}

/// What a row of `tap_ravs` holds.
#[verifier::ext_equal]
pub struct RavRowView {
    pub collection_id: Seq<char>,
    pub payer_address: Seq<char>,
    pub service_provider: Seq<char>,
    pub data_service: Seq<char>,
    pub timestamp_ns: int,
    pub value_aggregate: Seq<char>,
    pub signature: Seq<char>,
}

impl View for RavRow {
    type V = RavRowView;

    open spec fn view(&self) -> RavRowView {
        RavRowView {
            collection_id: self.collection_id@,
            payer_address: self.payer_address@,
            service_provider: self.service_provider@,
            data_service: self.data_service@,
            timestamp_ns: self.timestamp_ns as int,
            value_aggregate: self.value_aggregate@,
            signature: self.signature@,
        }
    }
}

impl View for RedeemableRav {
    type V = RavRowView;

    open spec fn view(&self) -> RavRowView {
        RavRowView {
            collection_id: self.collection_id@,
            payer_address: self.payer_address@,
            service_provider: self.service_provider@,
            data_service: self.data_service@,
            timestamp_ns: self.timestamp_ns as int,
            value_aggregate: self.value_aggregate@,
            signature: self.signature@,
        }
    }
}

/// The row in which a signed voucher is kept. The row leaves the voucher's metadata out.
pub open spec fn rav_row_of(rav: RavView, signature: Seq<char>) -> RavRowView {
    RavRowView {
        collection_id: prefixed_hex(rav.collection_id),
        payer_address: prefixed_hex(rav.payer),
        service_provider: prefixed_hex(rav.service_provider),
        data_service: prefixed_hex(rav.data_service),
        timestamp_ns: stored_u64(rav.timestamp_ns),
        value_aggregate: decimal(rav.value_aggregate as nat),
        signature,
    }
}

/// Lays out a signed voucher as a row.
pub fn rav_row(rav: &Rav, signature: &str) -> (row: RavRow)
    ensures
        row@ == rav_row_of(rav@, signature@),
{
    RavRow {
        collection_id: word_hex(&rav.collection_id),
        payer_address: address_hex(&rav.payer),
        service_provider: address_hex(&rav.service_provider),
        data_service: address_hex(&rav.data_service),
        timestamp_ns: store_u64(rav.timestamp_ns),
        value_aggregate: decimal_string(rav.value_aggregate),
        signature: String::from_str(signature),
    }
}

// ── Laws ─────────────────────────────────────────────────────────────────────

/// A `u64` comes back from its column unchanged.
pub proof fn stored_u64_reads_back(n: u64, column: i64)
    requires
        column == stored_u64(n),
    ensures
        loaded_u64(column) == n,
{
}

/// Two nonces share a column value only if they are the same: a nonce is never taken for a replay
/// of another.
pub proof fn distinct_nonces_stay_distinct(a: u64, b: u64)
    ensures
        stored_u64(a) == stored_u64(b) <==> a == b,
{
}

/// A validated receipt that is written and read back is the same signed receipt.
pub proof fn stored_receipt_reads_back(v: ValidatedReceiptView, row: RawReceiptView)
    requires
        row.reads(receipt_row_of(v)),
    ensures
        signed_receipt_of(row, v.receipt.data_service, v.receipt.service_provider)
            == (SignedReceiptView { receipt: v.receipt, signature: v.signature }),
{
    decimal_reads_back(v.receipt.value);
    let back = signed_receipt_of(row, v.receipt.data_service, v.receipt.service_provider);
    assert(back =~= (SignedReceiptView { receipt: v.receipt, signature: v.signature }));
}

/// A column holds its value modulo 2^64, between `i64::MIN` and `i64::MAX`, and so does what is
/// read of it, between 0 and `u64::MAX`.
pub proof fn columns_hold_values_modulo(n: u64, column: i64)
    ensures
        i64::MIN <= stored_u64(n) <= i64::MAX,
        (n - stored_u64(n)) % 0x1_0000_0000_0000_0000 == 0,
        0 <= loaded_u64(column) <= u64::MAX,
        (loaded_u64(column) - column) % 0x1_0000_0000_0000_0000 == 0,
{
}

/// The row of a receipt holds, column by column: the signer and the payer as `0x` and lower-case
/// digits, the time and the nonce, the value in decimal, the signature and the metadata as they
/// are.
pub proof fn receipt_columns(v: ValidatedReceiptView)
    ensures
        ({
            let row = receipt_row_of(v);
            &&& row.signer_address == seq!['0', 'x'] + lower_hex(v.signer)
            &&& row.payer_address == seq!['0', 'x'] + lower_hex(v.payer)
            &&& row.timestamp_ns == stored_u64(v.receipt.timestamp_ns)
            &&& row.nonce == stored_u64(v.receipt.nonce)
            &&& row.value == decimal(v.receipt.value as nat)
            &&& row.signature == v.signature
            &&& row.metadata == v.receipt.metadata
        }),
{
}

/// A signed receipt is rebuilt from its row field by field: the time and the nonce from their own
/// columns, the value from the decimal, zero where that is no number, the signature and the
/// metadata as they are, and the two addresses as they are given.
pub proof fn receipt_fields_come_from_their_columns(
    row: RawReceiptView,
    data_service: Seq<u8>,
    service_provider: Seq<u8>,
)
    ensures
        ({
            let signed = signed_receipt_of(row, data_service, service_provider);
            &&& signed.receipt.data_service == data_service
            &&& signed.receipt.service_provider == service_provider
            &&& stored_u64(signed.receipt.timestamp_ns) == row.timestamp_ns
            &&& stored_u64(signed.receipt.nonce) == row.nonce
            &&& parsed_u128(row.value) matches Ok(value) ==> signed.receipt.value == value
            &&& parsed_u128(row.value) is Err ==> signed.receipt.value == 0
            &&& signed.receipt.metadata == row.metadata
            &&& signed.signature == row.signature
        }),
{
}

/// The row of a voucher holds, column by column: the collection id and the three addresses as `0x`
/// and lower-case digits, the time, the value in decimal, and the signature as it is.
pub proof fn rav_columns(rav: RavView, signature: Seq<char>)
    ensures
        ({
            let row = rav_row_of(rav, signature);
            &&& row.collection_id == seq!['0', 'x'] + lower_hex(rav.collection_id)
            &&& row.payer_address == seq!['0', 'x'] + lower_hex(rav.payer)
            &&& row.service_provider == seq!['0', 'x'] + lower_hex(rav.service_provider)
            &&& row.data_service == seq!['0', 'x'] + lower_hex(rav.data_service)
            &&& row.timestamp_ns == stored_u64(rav.timestamp_ns)
            &&& row.value_aggregate == decimal(rav.value_aggregate as nat)
            &&& row.signature == signature
        }),
{
}

/// Rows stand for their columns.
pub proof fn columns_are_the_value(
    written: ReceiptRow,
    read: RawReceipt,
    rav: RavRow,
    redeemable: RedeemableRav,
)
    ensures
        written@.signer_address == written.signer_address@,
        written@.payer_address == written.payer_address@,
        written@.timestamp_ns == written.timestamp_ns,
        written@.nonce == written.nonce,
        written@.value == written.value@,
        written@.signature == written.signature@,
        written@.metadata == written.metadata@,
        read@.payer_address == read.payer_address@,
        read@.timestamp_ns == read.timestamp_ns,
        read@.nonce == read.nonce,
        read@.value == read.value@,
        read@.signature == read.signature@,
        read@.metadata == read.metadata@,
        rav@.collection_id == rav.collection_id@,
        rav@.payer_address == rav.payer_address@,
        rav@.service_provider == rav.service_provider@,
        rav@.data_service == rav.data_service@,
        rav@.timestamp_ns == rav.timestamp_ns,
        rav@.value_aggregate == rav.value_aggregate@,
        rav@.signature == rav.signature@,
        redeemable@.collection_id == redeemable.collection_id@,
        redeemable@.payer_address == redeemable.payer_address@,
        redeemable@.service_provider == redeemable.service_provider@,
        redeemable@.data_service == redeemable.data_service@,
        redeemable@.timestamp_ns == redeemable.timestamp_ns,
        redeemable@.value_aggregate == redeemable.value_aggregate@,
        redeemable@.signature == redeemable.signature@,
{
}

/// A read gives of a written row exactly the columns that both have.
pub proof fn reads_agree_by_column(raw: RawReceiptView, row: ReceiptRowView)
    ensures
        raw.reads(row) <==> (raw.payer_address == row.payer_address && raw.timestamp_ns
            == row.timestamp_ns && raw.nonce == row.nonce && raw.value == row.value
            && raw.signature == row.signature && raw.metadata == row.metadata),
{
}

} // verus!
