//! On-chain collection of vouchers: the `collect()` payload of each, and the course of one
//! collection cycle over all that are not redeemed.

use vstd::prelude::*;
use vstd::string::*;

use crate::abi::{
    address_at, collect_words, collect_words_by_word, encode_collect, uint_at, word_at,
};
use crate::db::{load_u64, loaded_u64, rav_row_of, stored_u64, RavRowView, RedeemableRav};
use crate::primitives::{
    address_error_text, address_reads_back, hex_decode, hex_error_text, parse_address,
    parsed_address, prefixed_hex, B256,
};
use crate::tap::{Rav, RavView};
use crate::text::{
    decimal_reads_back, hex_bytes, hex_has_no_prefix, hex_reads_back, parse_u128_or_zero,
    trim_hex_prefix, u128_or_zero, without_hex_prefix,
};

verus! {

// ── Payload ──────────────────────────────────────────────────────────────────

/// The payment type under which vouchers are collected: IGraphPayments.PaymentTypes.QueryFee.
pub const QUERY_FEE: u8 = 0;

/// The seconds after which a transaction that is not confirmed counts as failed.
pub const CONFIRMATION_TIMEOUT_SECS: u64 = 120;

/// Why a stored voucher has no `collect()` payload.
#[derive(Clone, Debug)]
pub enum CollectDataError {
    /// The collection id is not hexadecimal; the reason in words.
    CollectionIdHex(String),
    /// The collection id is not 32 bytes.
    CollectionIdLength,
    /// The signature is not hexadecimal; the reason in words.
    SignatureHex(String),
    /// The payer is no address; the reason in words.
    Payer(String),
    /// The service provider is no address; the reason in words.
    ServiceProvider(String),
    /// The data service is no address; the reason in words.
    DataService(String),
}

/// Why a stored voucher has no `collect()` payload.
pub enum CollectDataErrorView {
    CollectionIdHex(Seq<char>),
    CollectionIdLength,
    SignatureHex(Seq<char>),
    Payer(Seq<char>),
    ServiceProvider(Seq<char>),
    DataService(Seq<char>),
}

impl View for CollectDataError {
    type V = CollectDataErrorView;

    open spec fn view(&self) -> CollectDataErrorView {
        match *self {
            CollectDataError::CollectionIdHex(e) => CollectDataErrorView::CollectionIdHex(e@),
            CollectDataError::CollectionIdLength => CollectDataErrorView::CollectionIdLength,
            CollectDataError::SignatureHex(e) => CollectDataErrorView::SignatureHex(e@),
            CollectDataError::Payer(e) => CollectDataErrorView::Payer(e@),
            CollectDataError::ServiceProvider(e) => CollectDataErrorView::ServiceProvider(e@),
            CollectDataError::DataService(e) => CollectDataErrorView::DataService(e@),
        }
    }
}

impl CollectDataErrorView {
    /// The error in words.
    pub open spec fn text(self) -> Seq<char> {
        match self {
            CollectDataErrorView::CollectionIdHex(e) => e,
            CollectDataErrorView::CollectionIdLength => "collection_id must be 32 bytes"@,
            CollectDataErrorView::SignatureHex(e) => e,
            CollectDataErrorView::Payer(e) => e,
            CollectDataErrorView::ServiceProvider(e) => e,
            CollectDataErrorView::DataService(e) => e,
        }
    }
}

impl CollectDataError {
    /// The error in words.
    pub fn message(&self) -> (text: String)
        ensures
            text@ == self@.text(),
    {
        match self {
            CollectDataError::CollectionIdHex(e) => e.clone(),
            CollectDataError::CollectionIdLength => String::from_str(
                "collection_id must be 32 bytes",
            ),
            CollectDataError::SignatureHex(e) => e.clone(),
            CollectDataError::Payer(e) => e.clone(),
            CollectDataError::ServiceProvider(e) => e.clone(),
            CollectDataError::DataService(e) => e.clone(),
        }
    }
}

/// The payload for a voucher whose fields are spelled out: `abi.encode(SignedRAV, 0)`, with no
/// metadata. The first field that cannot be read decides the error: the collection id, the
/// signature, the payer, the provider, the service.
pub open spec fn collect_data(
    collection_id_hex: Seq<char>,
    payer_hex: Seq<char>,
    service_provider_hex: Seq<char>,
    data_service_hex: Seq<char>,
    timestamp_ns: u64,
    value_aggregate: u128,
    signature_hex: Seq<char>,
) -> Result<Seq<u8>, CollectDataErrorView> {
    let id_digits = without_hex_prefix(collection_id_hex);
    let sig_digits = without_hex_prefix(signature_hex);
    if hex_bytes(id_digits) is None {
        Err(CollectDataErrorView::CollectionIdHex(hex_error_text(id_digits)))
    } else if hex_bytes(id_digits).unwrap().len() != 32 {
        Err(CollectDataErrorView::CollectionIdLength)
    } else if hex_bytes(sig_digits) is None {
        Err(CollectDataErrorView::SignatureHex(hex_error_text(sig_digits)))
    } else if parsed_address(payer_hex) is None {
        Err(CollectDataErrorView::Payer(address_error_text(payer_hex)))
    } else if parsed_address(service_provider_hex) is None {
        Err(CollectDataErrorView::ServiceProvider(address_error_text(service_provider_hex)))
    } else if parsed_address(data_service_hex) is None {
        Err(CollectDataErrorView::DataService(address_error_text(data_service_hex)))
    } else {
        Ok(
            collect_words(
                RavView {
                    collection_id: hex_bytes(id_digits).unwrap(),
                    payer: parsed_address(payer_hex).unwrap(),
                    service_provider: parsed_address(service_provider_hex).unwrap(),
                    data_service: parsed_address(data_service_hex).unwrap(),
                    timestamp_ns,
                    value_aggregate,
                    metadata: Seq::empty(),
                },
                hex_bytes(sig_digits).unwrap(),
                0,
            ),
        )
    }
}

/// Encodes the `collect()` payload of a voucher from its spelled-out fields.
pub fn encode_collect_data(
    collection_id_hex: &str,
    payer_hex: &str,
    service_provider_hex: &str,
    data_service_hex: &str,
    timestamp_ns: u64,
    value_aggregate: u128,
    signature_hex: &str,
) -> (data: Result<Vec<u8>, CollectDataError>)
    ensures
        ({
            let expected = collect_data(
                collection_id_hex@,
                payer_hex@,
                service_provider_hex@,
                data_service_hex@,
                timestamp_ns,
                value_aggregate,
                signature_hex@,
            );
            match data {
                Ok(bytes) => expected == Ok::<Seq<u8>, CollectDataErrorView>(bytes@),
                Err(e) => expected == Err::<Seq<u8>, CollectDataErrorView>(e@),
            }
        }),
{
    let id_bytes = match hex_decode(trim_hex_prefix(collection_id_hex)) {
        Ok(bytes) => bytes,
        Err(e) => {
            return Err(CollectDataError::CollectionIdHex(e));
        },
    };
    if id_bytes.len() != 32 {
        return Err(CollectDataError::CollectionIdLength);
    }
    let sig_bytes = match hex_decode(trim_hex_prefix(signature_hex)) {
        Ok(bytes) => bytes,
        Err(e) => {
            return Err(CollectDataError::SignatureHex(e));
        },
    };
    let payer = match parse_address(payer_hex) {
        Ok(address) => address,
        Err(e) => {
            return Err(CollectDataError::Payer(e));
        },
    };
    let service_provider = match parse_address(service_provider_hex) {
        Ok(address) => address,
        Err(e) => {
            return Err(CollectDataError::ServiceProvider(e));
        },
    };
    let data_service = match parse_address(data_service_hex) {
        Ok(address) => address,
        Err(e) => {
            return Err(CollectDataError::DataService(e));
        },
    };
    let rav = Rav {
        collection_id: B256::from_slice(id_bytes.as_slice()),
        payer,
        service_provider,
        data_service,
        timestamp_ns,
        value_aggregate,
        metadata: Vec::new(),
    };
    Ok(encode_collect(&rav, &sig_bytes, 0))
}

// ── One voucher ──────────────────────────────────────────────────────────────

/// What is done with one voucher.
#[derive(Clone, Debug)]
pub enum CollectDecision {
    /// Its value is below the minimum.
    Skip { value: u128 },
    /// It has no payload.
    Unencodable { error: CollectDataError },
    /// It is sent to the chain.
    Submit { value: u128, data: Vec<u8> },
}

/// What is done with one voucher.
pub enum CollectDecisionView {
    Skip { value: u128 },
    Unencodable { error: CollectDataErrorView },
    Submit { value: u128, data: Seq<u8> },
}

impl View for CollectDecision {
    type V = CollectDecisionView;

    open spec fn view(&self) -> CollectDecisionView {
        match *self {
            CollectDecision::Skip { value } => CollectDecisionView::Skip { value },
            CollectDecision::Unencodable { error } => CollectDecisionView::Unencodable {
                error: error@,
            },
            CollectDecision::Submit { value, data } => CollectDecisionView::Submit {
                value,
                data: data@,
            },
        }
    }
}

/// The payload of a voucher's row.
pub open spec fn row_collect_data(row: RavRowView) -> Result<Seq<u8>, CollectDataErrorView> {
    collect_data(
        row.collection_id,
        row.payer_address,
        row.service_provider,
        row.data_service,
        loaded_u64(row.timestamp_ns as i64) as u64,
        u128_or_zero(row.value_aggregate),
        row.signature,
    )
}

/// What is done with the voucher of a row: a value that cannot be read counts as zero.
pub open spec fn collect_decision(row: RavRowView, min_collect_value: u128) -> CollectDecisionView {
    let value = u128_or_zero(row.value_aggregate);
    if value < min_collect_value {
        CollectDecisionView::Skip { value }
    } else {
        match row_collect_data(row) {
            Ok(data) => CollectDecisionView::Submit { value, data },
            Err(error) => CollectDecisionView::Unencodable { error },
        }
    }
}

/// Decides on one voucher.
pub fn decide(rav: &RedeemableRav, min_collect_value: u128) -> (decision: CollectDecision)
    ensures
        decision@ == collect_decision(rav@, min_collect_value),
{
    let value = parse_u128_or_zero(rav.value_aggregate.as_str());
    if value < min_collect_value {
        return CollectDecision::Skip { value };
    }
    match encode_collect_data(
        rav.collection_id.as_str(),
        rav.payer_address.as_str(),
        rav.service_provider.as_str(),
        rav.data_service.as_str(),
        load_u64(rav.timestamp_ns),
        value,
        rav.signature.as_str(),
    ) {
        Ok(data) => CollectDecision::Submit { value, data },
        Err(error) => CollectDecision::Unencodable { error },
    }
}

// ── One cycle ────────────────────────────────────────────────────────────────

/// Where a cycle stands with the voucher at hand.
#[derive(Clone, Copy, Debug, PartialEq, Eq, Structural)]
pub enum CollectPhase {
    /// It has not been looked at.
    Ready,
    /// Its transaction is on its way.
    Submitted,
    /// Its transaction is confirmed and it is being marked as redeemed.
    Marking,
    /// The cycle is over.
    Over,
}

/// What happens to a cycle from outside.
#[derive(Clone, Copy, Debug, PartialEq, Eq, Structural)]
pub enum CollectEvent {
    /// Nothing stands in the way of the next voucher.
    Proceed,
    /// The transaction is confirmed.
    Confirmed,
    /// The transaction failed or timed out.
    Unconfirmed,
    /// The voucher is marked as redeemed.
    Marked,
    /// The voucher could not be marked.
    MarkFailed,
}

/// What a cycle asks for.
#[derive(Clone, Debug)]
pub enum CollectAction {
    /// Leave the voucher, whose value is too low, and proceed.
    Skip { value: u128 },
    /// Report that the voucher has no payload, and proceed.
    Unencodable { error: CollectDataError },
    /// Send the payload to the chain.
    Submit { value: u128, data: Vec<u8> },
    /// Mark the voucher as redeemed.
    MarkRedeemed { collection_id: String },
    /// Proceed.
    Continue,
    /// All vouchers are done with.
    Finish,
    /// Give up the cycle.
    Abort,
}

/// What a cycle asks for.
pub enum CollectActionView {
    Skip { value: u128 },
    Unencodable { error: CollectDataErrorView },
    Submit { value: u128, data: Seq<u8> },
    MarkRedeemed { collection_id: Seq<char> },
    Continue,
    Finish,
    Abort,
}

impl View for CollectAction {
    type V = CollectActionView;

    open spec fn view(&self) -> CollectActionView {
        match *self {
            CollectAction::Skip { value } => CollectActionView::Skip { value },
            CollectAction::Unencodable { error } => CollectActionView::Unencodable {
                error: error@,
            },
            CollectAction::Submit { value, data } => CollectActionView::Submit {
                value,
                data: data@,
            },
            CollectAction::MarkRedeemed { collection_id } => CollectActionView::MarkRedeemed {
                collection_id: collection_id@,
            },
            CollectAction::Continue => CollectActionView::Continue,
            CollectAction::Finish => CollectActionView::Finish,
            CollectAction::Abort => CollectActionView::Abort,
        }
    }
}

/// One pass over the vouchers that are not redeemed.
#[derive(Clone, Debug)]
pub struct CollectCycle {
    pub ravs: Vec<RedeemableRav>,
    pub min_collect_value: u128,
    /// The voucher at hand.
    pub next: usize,
    pub phase: CollectPhase,
}

/// The state of a cycle.
#[verifier::ext_equal]
pub struct CollectState {
    pub ravs: Seq<RavRowView>,
    pub min_collect_value: u128,
    pub next: nat,
    pub phase: CollectPhase,
}

impl View for CollectCycle {
    type V = CollectState;

    open spec fn view(&self) -> CollectState {
        CollectState {
            ravs: self.ravs@.map_values(|rav: RedeemableRav| rav@),
            min_collect_value: self.min_collect_value,
            next: self.next as nat,
            phase: self.phase,
        }
    }
}

impl CollectState {
    /// A voucher is at hand unless all are done with.
    pub open spec fn wf(self) -> bool {
        &&& self.next <= self.ravs.len()
        &&& (self.phase is Submitted || self.phase is Marking) ==> self.next < self.ravs.len()
    }

    /// Whether `event` can happen now.
    pub open spec fn accepts(self, event: CollectEvent) -> bool {
        match self.phase {
            CollectPhase::Ready => event is Proceed,
            CollectPhase::Submitted => event is Confirmed || event is Unconfirmed,
            CollectPhase::Marking => event is Marked || event is MarkFailed,
            CollectPhase::Over => false,
        }
    }

    /// The decision on the voucher at hand.
    pub open spec fn decision(self) -> CollectDecisionView {
        collect_decision(self.ravs[self.next as int], self.min_collect_value)
    }

    /// The state after `event`.
    pub open spec fn after(self, event: CollectEvent) -> CollectState {
        match event {
            CollectEvent::Proceed => if self.next == self.ravs.len() {
                CollectState { phase: CollectPhase::Over, ..self }
            } else if self.decision() is Submit {
                CollectState { phase: CollectPhase::Submitted, ..self }
            } else {
                CollectState { next: self.next + 1, ..self }
            },
            CollectEvent::Confirmed => CollectState { phase: CollectPhase::Marking, ..self },
            CollectEvent::Unconfirmed | CollectEvent::Marked => CollectState {
                next: self.next + 1,
                phase: CollectPhase::Ready,
                ..self
            },
            CollectEvent::MarkFailed => CollectState { phase: CollectPhase::Over, ..self },
        }
    }

    /// What is asked for after `event`.
    pub open spec fn action(self, event: CollectEvent) -> CollectActionView {
        match event {
            CollectEvent::Proceed => if self.next == self.ravs.len() {
                CollectActionView::Finish
            } else {
                match self.decision() {
                    CollectDecisionView::Skip { value } => CollectActionView::Skip { value },
                    CollectDecisionView::Unencodable { error } => CollectActionView::Unencodable {
                        error,
                    },
                    CollectDecisionView::Submit { value, data } => CollectActionView::Submit {
                        value,
                        data,
                    },
                }
            },
            CollectEvent::Confirmed => CollectActionView::MarkRedeemed {
                collection_id: self.ravs[self.next as int].collection_id,
            },
            CollectEvent::Unconfirmed | CollectEvent::Marked => CollectActionView::Continue,
            CollectEvent::MarkFailed => CollectActionView::Abort,
        }
    }
}

impl CollectCycle {
    /// A cycle over `ravs` that skips what is worth less than `min_collect_value`.
    pub fn new(ravs: Vec<RedeemableRav>, min_collect_value: u128) -> (cycle: CollectCycle)
        ensures
            cycle@.wf(),
            cycle@ == (CollectState {
                ravs: ravs@.map_values(|rav: RedeemableRav| rav@),
                min_collect_value,
                next: 0,
                phase: CollectPhase::Ready,
            }),
    {
        CollectCycle { ravs, min_collect_value, next: 0, phase: CollectPhase::Ready }
    }

    /// Takes in an event and says what is to be done.
    pub fn step(&mut self, event: CollectEvent) -> (action: CollectAction)
        requires
            old(self)@.wf(),
            old(self)@.accepts(event),
        ensures
            final(self)@.wf(),
            final(self)@ == old(self)@.after(event),
            action@ == old(self)@.action(event),
    {
        let total: usize = self.ravs.len();
        assert(self@.ravs.len() == total);
        match event {
            CollectEvent::Proceed => {
                if self.next == total {
                    self.phase = CollectPhase::Over;
                    return CollectAction::Finish;
                }
                assert(self@.ravs[self.next as int] == self.ravs@[self.next as int]@);
                match decide(&self.ravs[self.next], self.min_collect_value) {
                    CollectDecision::Skip { value } => {
                        self.next += 1;
                        CollectAction::Skip { value }
                    },
                    CollectDecision::Unencodable { error } => {
                        self.next += 1;
                        CollectAction::Unencodable { error }
                    },
                    CollectDecision::Submit { value, data } => {
                        self.phase = CollectPhase::Submitted;
                        CollectAction::Submit { value, data }
                    },
                }
            },
            CollectEvent::Confirmed => {
                self.phase = CollectPhase::Marking;
                assert(self@.ravs[self.next as int] == self.ravs@[self.next as int]@);
                CollectAction::MarkRedeemed {
                    collection_id: self.ravs[self.next].collection_id.clone(),
                }
            },
            CollectEvent::Unconfirmed => {
                self.next += 1;
                self.phase = CollectPhase::Ready;
                CollectAction::Continue
            },
            CollectEvent::Marked => {
                self.next += 1;
                self.phase = CollectPhase::Ready;
                CollectAction::Continue
            },
            CollectEvent::MarkFailed => {
                self.phase = CollectPhase::Over;
                CollectAction::Abort
            },
        }
    }
}

// ── Laws ─────────────────────────────────────────────────────────────────────

/// Whether `events` can happen, one after the other, from `state` on.
pub open spec fn possible(state: CollectState, events: Seq<CollectEvent>) -> bool
    decreases events.len(),
{
    events.len() == 0 || (possible(state, events.drop_last()) && reached(
        state,
        events.drop_last(),
    ).accepts(events.last()))
}

/// The state that `events` lead to from `state`.
pub open spec fn reached(state: CollectState, events: Seq<CollectEvent>) -> CollectState
    decreases events.len(),
{
    if events.len() == 0 {
        state
    } else {
        reached(state, events.drop_last()).after(events.last())
    }
}

/// The payloads that are sent to the chain in the course of `events`.
pub open spec fn submitted(state: CollectState, events: Seq<CollectEvent>) -> Seq<Seq<u8>>
    decreases events.len(),
{
    if events.len() == 0 {
        Seq::empty()
    } else {
        let before = submitted(state, events.drop_last());
        match reached(state, events.drop_last()).action(events.last()) {
            CollectActionView::Submit { value, data } => before.push(data),
            _ => before,
        }
    }
}

/// The collection ids that are marked as redeemed in the course of `events`.
pub open spec fn marked(state: CollectState, events: Seq<CollectEvent>) -> Seq<Seq<char>>
    decreases events.len(),
{
    if events.len() == 0 {
        Seq::empty()
    } else {
        let before = marked(state, events.drop_last());
        match reached(state, events.drop_last()).action(events.last()) {
            CollectActionView::MarkRedeemed { collection_id } => before.push(collection_id),
            _ => before,
        }
    }
}

/// The places of the vouchers that are marked as redeemed in the course of `events`.
pub open spec fn marked_at(state: CollectState, events: Seq<CollectEvent>) -> Seq<nat>
    decreases events.len(),
{
    if events.len() == 0 {
        Seq::empty()
    } else {
        let before = marked_at(state, events.drop_last());
        let now = reached(state, events.drop_last());
        match now.action(events.last()) {
            CollectActionView::MarkRedeemed { .. } => before.push(now.next),
            _ => before,
        }
    }
}

/// The payloads of those among the first `n` vouchers that are worth enough and have one.
pub open spec fn due(ravs: Seq<RavRowView>, min_collect_value: u128, n: nat) -> Seq<Seq<u8>>
    decreases n,
{
    if n == 0 {
        Seq::empty()
    } else {
        let before = due(ravs, min_collect_value, (n - 1) as nat);
        match collect_decision(ravs[n - 1], min_collect_value) {
            CollectDecisionView::Submit { value, data } => before.push(data),
            _ => before,
        }
    }
}

/// The state in which a cycle starts.
pub open spec fn cycle_start(ravs: Seq<RavRowView>, min_collect_value: u128) -> CollectState {
    CollectState { ravs, min_collect_value, next: 0, phase: CollectPhase::Ready }
}

/// Whatever happens, a cycle sends each payload that is due once, in the order of the vouchers,
/// and nothing else: at any time it has sent those of the vouchers it is past, and that of the
/// voucher at hand if it is waiting for it.
pub proof fn submits_what_is_due(
    ravs: Seq<RavRowView>,
    min_collect_value: u128,
    events: Seq<CollectEvent>,
)
    requires
        possible(cycle_start(ravs, min_collect_value), events),
    ensures
        ({
            let start = cycle_start(ravs, min_collect_value);
            let now = reached(start, events);
            &&& now.wf()
            &&& now.ravs == ravs
            &&& now.min_collect_value == min_collect_value
            &&& (now.phase is Submitted || now.phase is Marking) ==> now.decision() is Submit
            &&& (now.phase is Ready || now.phase is Submitted || now.phase is Marking) ==> submitted(
                start,
                events,
            ) == due(
                ravs,
                min_collect_value,
                if now.phase is Ready {
                    now.next
                } else {
                    now.next + 1
                },
            )
        }),
    decreases events.len(),
{
    if events.len() > 0 {
        submits_what_is_due(ravs, min_collect_value, events.drop_last());
    }
}

/// A cycle that finishes has sent every payload that is due.
pub proof fn finished_cycle_is_complete(
    ravs: Seq<RavRowView>,
    min_collect_value: u128,
    events: Seq<CollectEvent>,
)
    requires
        events.len() > 0,
        possible(cycle_start(ravs, min_collect_value), events),
        reached(cycle_start(ravs, min_collect_value), events.drop_last()).action(events.last())
            is Finish,
    ensures
        submitted(cycle_start(ravs, min_collect_value), events) == due(
            ravs,
            min_collect_value,
            ravs.len(),
        ),
{
    submits_what_is_due(ravs, min_collect_value, events.drop_last());
}

/// A voucher is asked to be marked as redeemed only when its own transaction has just been
/// confirmed: it is worth enough, and the payload that was sent is its own.
pub proof fn marks_only_what_is_confirmed(
    ravs: Seq<RavRowView>,
    min_collect_value: u128,
    events: Seq<CollectEvent>,
    id: Seq<char>,
)
    requires
        events.len() > 0,
        possible(cycle_start(ravs, min_collect_value), events),
        reached(cycle_start(ravs, min_collect_value), events.drop_last()).action(events.last())
            == (CollectActionView::MarkRedeemed { collection_id: id }),
    ensures
        events.last() is Confirmed,
        ({
            let start = cycle_start(ravs, min_collect_value);
            let at = reached(start, events.drop_last());
            &&& at.next < ravs.len()
            &&& ravs[at.next as int].collection_id == id
            &&& u128_or_zero(ravs[at.next as int].value_aggregate) >= min_collect_value
            &&& submitted(start, events.drop_last()).len() > 0
            &&& row_collect_data(ravs[at.next as int]) == Ok::<Seq<u8>, CollectDataErrorView>(
                submitted(start, events.drop_last()).last(),
            )
        }),
{
    submits_what_is_due(ravs, min_collect_value, events.drop_last());
}

/// No more vouchers are marked than payloads were sent.
pub proof fn marks_at_most_what_was_submitted(
    ravs: Seq<RavRowView>,
    min_collect_value: u128,
    events: Seq<CollectEvent>,
)
    requires
        possible(cycle_start(ravs, min_collect_value), events),
    ensures
        ({
            let start = cycle_start(ravs, min_collect_value);
            marked(start, events).len() <= submitted(start, events).len()
        }),
{
    lemma_marks_trail(ravs, min_collect_value, events);
}

proof fn lemma_marks_trail(
    ravs: Seq<RavRowView>,
    min_collect_value: u128,
    events: Seq<CollectEvent>,
)
    requires
        possible(cycle_start(ravs, min_collect_value), events),
    ensures
        ({
            let start = cycle_start(ravs, min_collect_value);
            let now = reached(start, events);
            &&& marked(start, events).len() <= submitted(start, events).len()
            &&& now.phase is Submitted ==> marked(start, events).len() < submitted(
                start,
                events,
            ).len()
        }),
    decreases events.len(),
{
    if events.len() > 0 {
        lemma_marks_trail(ravs, min_collect_value, events.drop_last());
    }
}

/// Each voucher is marked at most once, in the order of the vouchers, under its own id, and only if
/// it was to be sent.
pub proof fn marks_each_voucher_once(
    ravs: Seq<RavRowView>,
    min_collect_value: u128,
    events: Seq<CollectEvent>,
)
    requires
        possible(cycle_start(ravs, min_collect_value), events),
    ensures
        ({
            let start = cycle_start(ravs, min_collect_value);
            let at = marked_at(start, events);
            &&& marked(start, events).len() == at.len()
            &&& forall|i: int, j: int| 0 <= i < j < at.len() ==> at[i] < at[j]
            &&& forall|i: int|
                0 <= i < at.len() ==> {
                    &&& #[trigger] at[i] < ravs.len()
                    &&& marked(start, events)[i] == ravs[at[i] as int].collection_id
                    &&& collect_decision(ravs[at[i] as int], min_collect_value) is Submit
                }
        }),
{
    lemma_marks_ascend(ravs, min_collect_value, events);
}

proof fn lemma_marks_ascend(
    ravs: Seq<RavRowView>,
    min_collect_value: u128,
    events: Seq<CollectEvent>,
)
    requires
        possible(cycle_start(ravs, min_collect_value), events),
    ensures
        ({
            let start = cycle_start(ravs, min_collect_value);
            let now = reached(start, events);
            let at = marked_at(start, events);
            &&& marked(start, events).len() == at.len()
            &&& forall|i: int, j: int| 0 <= i < j < at.len() ==> at[i] < at[j]
            &&& forall|i: int|
                0 <= i < at.len() ==> {
                    &&& #[trigger] at[i] < ravs.len()
                    &&& at[i] <= now.next
                    &&& (now.phase is Ready || now.phase is Submitted) ==> at[i] < now.next
                    &&& marked(start, events)[i] == ravs[at[i] as int].collection_id
                    &&& collect_decision(ravs[at[i] as int], min_collect_value) is Submit
                }
        }),
    decreases events.len(),
{
    if events.len() > 0 {
        lemma_marks_ascend(ravs, min_collect_value, events.drop_last());
        submits_what_is_due(ravs, min_collect_value, events.drop_last());
    }
}

/// A cycle ends: over `n` vouchers it takes in at most `3 * n + 1` events, whatever they are.
pub proof fn cycle_ends(ravs: Seq<RavRowView>, min_collect_value: u128, events: Seq<CollectEvent>)
    requires
        possible(cycle_start(ravs, min_collect_value), events),
    ensures
        events.len() <= 3 * ravs.len() + 1,
{
    lemma_events_are_spent(ravs, min_collect_value, events);
    submits_what_is_due(ravs, min_collect_value, events);
}

proof fn lemma_events_are_spent(
    ravs: Seq<RavRowView>,
    min_collect_value: u128,
    events: Seq<CollectEvent>,
)
    requires
        possible(cycle_start(ravs, min_collect_value), events),
    ensures
        ({
            let now = reached(cycle_start(ravs, min_collect_value), events);
            match now.phase {
                CollectPhase::Ready => events.len() <= 3 * now.next,
                CollectPhase::Submitted => events.len() <= 3 * now.next + 1,
                CollectPhase::Marking => events.len() <= 3 * now.next + 2,
                CollectPhase::Over => events.len() <= 3 * ravs.len() + 1,
            }
        }),
    decreases events.len(),
{
    if events.len() > 0 {
        lemma_events_are_spent(ravs, min_collect_value, events.drop_last());
        submits_what_is_due(ravs, min_collect_value, events.drop_last());
    }
}

/// A voucher that was stored and is worth enough is sent as it was signed, but for its metadata,
/// if its signature can be read.
pub proof fn stored_rav_is_submitted(
    rav: RavView,
    signature: Seq<char>,
    min_collect_value: u128,
)
    requires
        rav.wf(),
        rav.value_aggregate >= min_collect_value,
        hex_bytes(without_hex_prefix(signature)) is Some,
    ensures
        collect_decision(rav_row_of(rav, signature), min_collect_value)
            == (CollectDecisionView::Submit {
            value: rav.value_aggregate,
            data: collect_words(
                RavView { metadata: Seq::empty(), ..rav },
                hex_bytes(without_hex_prefix(signature)).unwrap(),
                0,
            ),
        }),
{
    let id = rav.collection_id;
    hex_has_no_prefix(id);
    hex_reads_back(id);
    address_reads_back(rav.payer);
    address_reads_back(rav.service_provider);
    address_reads_back(rav.data_service);
    decimal_reads_back(rav.value_aggregate);
}

// ── What each event leads to ─────────────────────────────────────────────────

/// A cycle is given up only when a voucher cannot be marked: it asks to abort exactly then, and it
/// is over with vouchers left only then.
pub proof fn gives_up_only_when_marking_fails(
    ravs: Seq<RavRowView>,
    min_collect_value: u128,
    events: Seq<CollectEvent>,
)
    requires
        events.len() > 0,
        possible(cycle_start(ravs, min_collect_value), events),
    ensures
        ({
            let start = cycle_start(ravs, min_collect_value);
            let before = reached(start, events.drop_last());
            let now = reached(start, events);
            &&& before.action(events.last()) is Abort <==> events.last() is MarkFailed
            &&& now.phase is Over && now.next < ravs.len() ==> events.last() is MarkFailed
            &&& now.phase is Over ==> events.last() is MarkFailed || before.action(events.last())
                is Finish
            &&& before.action(events.last()) is Finish ==> now.next == ravs.len()
        }),
{
    submits_what_is_due(ravs, min_collect_value, events.drop_last());
    submits_what_is_due(ravs, min_collect_value, events);
}

/// A voucher that fails on chain, or that is marked, is behind: the cycle goes on to the next one,
/// whatever it is worth and whatever the minimum.
pub proof fn goes_on_after_each_voucher(state: CollectState)
    ensures
        state.action(CollectEvent::Unconfirmed) is Continue,
        state.action(CollectEvent::Marked) is Continue,
        state.after(CollectEvent::Unconfirmed).phase is Ready,
        state.after(CollectEvent::Marked).phase is Ready,
        state.after(CollectEvent::Unconfirmed).next == state.next + 1,
        state.after(CollectEvent::Marked).next == state.next + 1,
        forall|event: CollectEvent|
            {
                let after = #[trigger] state.after(event);
                after.ravs == state.ravs && after.min_collect_value == state.min_collect_value
            },
{
}

/// The vouchers are taken in turn. One that is worth too little, or that has no payload, is left
/// and the next is taken; one that is sent is waited for; when it is confirmed it is to be marked
/// under its own id. When none is left the cycle is over, and so it is when one cannot be marked.
pub proof fn takes_vouchers_in_turn(state: CollectState)
    ensures
        state.next == state.ravs.len() ==> {
            &&& state.action(CollectEvent::Proceed) is Finish
            &&& state.after(CollectEvent::Proceed).phase is Over
            &&& state.after(CollectEvent::Proceed).next == state.next
        },
        state.next < state.ravs.len() ==> {
            let decision = collect_decision(
                state.ravs[state.next as int],
                state.min_collect_value,
            );
            let action = state.action(CollectEvent::Proceed);
            let after = state.after(CollectEvent::Proceed);
            &&& decision matches CollectDecisionView::Skip { value } ==> action == (
            CollectActionView::Skip { value }) && after.next == state.next + 1 && after.phase
                == state.phase
            &&& decision matches CollectDecisionView::Unencodable { error } ==> action == (
            CollectActionView::Unencodable { error }) && after.next == state.next + 1
                && after.phase == state.phase
            &&& decision matches CollectDecisionView::Submit { value, data } ==> action == (
            CollectActionView::Submit { value, data }) && after.next == state.next && after.phase
                is Submitted
        },
        state.action(CollectEvent::Confirmed) == (CollectActionView::MarkRedeemed {
            collection_id: state.ravs[state.next as int].collection_id,
        }),
        state.after(CollectEvent::Confirmed).phase is Marking,
        state.after(CollectEvent::Confirmed).next == state.next,
        state.action(CollectEvent::MarkFailed) is Abort,
        state.after(CollectEvent::MarkFailed).phase is Over,
        state.after(CollectEvent::MarkFailed).next == state.next,
{
}

/// A cycle waits for what it asked for last, and only for that; when it is over, for nothing.
pub proof fn waits_for_what_it_asked_for(state: CollectState, event: CollectEvent)
    ensures
        state.phase is Ready ==> (state.accepts(event) <==> event is Proceed),
        state.phase is Submitted ==> (state.accepts(event) <==> event is Confirmed || event
            is Unconfirmed),
        state.phase is Marking ==> (state.accepts(event) <==> event is Marked || event
            is MarkFailed),
        state.phase is Over ==> !state.accepts(event),
{
}

/// A voucher is left alone exactly when its value, zero where it cannot be read, is below the
/// minimum; at the minimum and above it is sent, or reported where it has no payload.
pub proof fn minimum_decides(row: RavRowView, min_collect_value: u128)
    ensures
        ({
            let decision = collect_decision(row, min_collect_value);
            let value = u128_or_zero(row.value_aggregate);
            &&& decision is Skip <==> value < min_collect_value
            &&& decision matches CollectDecisionView::Skip { value: v } ==> v == value
            &&& decision matches CollectDecisionView::Submit { value: v, data } ==> v == value
        }),
{
}

/// The payload of a voucher whose fields can be read, word by word: `abi.encode(SignedRAV, 0)` with
/// every field in its place and no metadata. A voucher that is worth enough is sent with it.
pub proof fn payload_by_word(
    row: RavRowView,
    min_collect_value: u128,
    p: Seq<u8>,
    rav: RavView,
    signature: Seq<u8>,
)
    requires
        hex_bytes(without_hex_prefix(row.collection_id)) == Some(rav.collection_id),
        rav.collection_id.len() == 32,
        hex_bytes(without_hex_prefix(row.signature)) == Some(signature),
        parsed_address(row.payer_address) == Some(rav.payer),
        parsed_address(row.service_provider) == Some(rav.service_provider),
        parsed_address(row.data_service) == Some(rav.data_service),
        row.timestamp_ns == stored_u64(rav.timestamp_ns),
        u128_or_zero(row.value_aggregate) == rav.value_aggregate,
        rav.value_aggregate >= min_collect_value,
        p.len() % 32 == 0,
        416 + signature.len() <= p.len() < 448 + signature.len(),
        uint_at(p, 0, 0x40),
        uint_at(p, 1, 0),
        uint_at(p, 2, 0x40),
        uint_at(p, 3, 0x140),
        word_at(p, 4, rav.collection_id),
        address_at(p, 5, rav.payer),
        address_at(p, 6, rav.service_provider),
        address_at(p, 7, rav.data_service),
        uint_at(p, 8, rav.timestamp_ns as int),
        uint_at(p, 9, rav.value_aggregate as int),
        uint_at(p, 10, 0xe0),
        uint_at(p, 11, 0),
        uint_at(p, 12, signature.len() as int),
        p.subrange(416, 416 + signature.len() as int) == signature,
        forall|k: int| 416 + signature.len() <= k < p.len() ==> #[trigger] p[k] == 0,
    ensures
        collect_data(
            row.collection_id,
            row.payer_address,
            row.service_provider,
            row.data_service,
            rav.timestamp_ns,
            rav.value_aggregate,
            row.signature,
        ) == Ok::<Seq<u8>, CollectDataErrorView>(p),
        collect_decision(row, min_collect_value) == (CollectDecisionView::Submit {
            value: rav.value_aggregate,
            data: p,
        }),
{
    let bare = RavView { metadata: Seq::empty(), ..rav };
    collect_words_by_word(p, bare, signature, 0);
}

/// A field that cannot be read leaves a voucher without a payload, and the first such field is
/// reported: the collection id, its length, the signature, the payer, the provider, the service. If
/// all can be read there is a payload.
pub proof fn first_unreadable_field_is_reported(
    collection_id: Seq<char>,
    payer: Seq<char>,
    service_provider: Seq<char>,
    data_service: Seq<char>,
    timestamp_ns: u64,
    value: u128,
    signature: Seq<char>,
)
    ensures
        ({
            let data = collect_data(
                collection_id,
                payer,
                service_provider,
                data_service,
                timestamp_ns,
                value,
                signature,
            );
            let id_digits = without_hex_prefix(collection_id);
            let sig_digits = without_hex_prefix(signature);
            let id_reads = hex_bytes(id_digits) is Some;
            let id_fits = id_reads && hex_bytes(id_digits).unwrap().len() == 32;
            let sig_reads = id_fits && hex_bytes(sig_digits) is Some;
            let payer_reads = sig_reads && parsed_address(payer) is Some;
            let provider_reads = payer_reads && parsed_address(service_provider) is Some;
            let service_reads = provider_reads && parsed_address(data_service) is Some;
            &&& !id_reads <==> data == Err::<Seq<u8>, CollectDataErrorView>(
                CollectDataErrorView::CollectionIdHex(hex_error_text(id_digits)),
            )
            &&& id_reads && !id_fits <==> data == Err::<Seq<u8>, CollectDataErrorView>(
                CollectDataErrorView::CollectionIdLength,
            )
            &&& id_fits && !sig_reads <==> data == Err::<Seq<u8>, CollectDataErrorView>(
                CollectDataErrorView::SignatureHex(hex_error_text(sig_digits)),
            )
            &&& sig_reads && !payer_reads <==> data == Err::<Seq<u8>, CollectDataErrorView>(
                CollectDataErrorView::Payer(address_error_text(payer)),
            )
            &&& payer_reads && !provider_reads <==> data == Err::<Seq<u8>, CollectDataErrorView>(
                CollectDataErrorView::ServiceProvider(address_error_text(service_provider)),
            )
            &&& provider_reads && !service_reads <==> data == Err::<Seq<u8>, CollectDataErrorView>(
                CollectDataErrorView::DataService(address_error_text(data_service)),
            )
            &&& service_reads <==> data is Ok
        }),
{
}

/// A voucher that is worth enough is reported with the reason why it has no payload.
pub proof fn unencodable_is_reported(row: RavRowView, min_collect_value: u128, ts: u64)
    requires
        row.timestamp_ns == stored_u64(ts),
        u128_or_zero(row.value_aggregate) >= min_collect_value,
    ensures
        collect_data(
            row.collection_id,
            row.payer_address,
            row.service_provider,
            row.data_service,
            ts,
            u128_or_zero(row.value_aggregate),
            row.signature,
        ) matches Err(e) ==> collect_decision(row, min_collect_value) == (
        CollectDecisionView::Unencodable { error: e }),
{
}

/// What errors say.
pub proof fn errors_are_worded(text: Seq<char>)
    ensures
        CollectDataErrorView::CollectionIdHex(text).text() == text,
        CollectDataErrorView::CollectionIdLength.text() == "collection_id must be 32 bytes"@,
        CollectDataErrorView::SignatureHex(text).text() == text,
        CollectDataErrorView::Payer(text).text() == text,
        CollectDataErrorView::ServiceProvider(text).text() == text,
        CollectDataErrorView::DataService(text).text() == text,
{
}

/// Vouchers are collected as query fees, and waited for two minutes each.
pub proof fn terms_of_collection()
    ensures
        QUERY_FEE == 0,
        CONFIRMATION_TIMEOUT_SECS == 120,
{
}

/// Cycles, decisions, actions and errors stand for what they carry.
pub proof fn carried_values_are_the_value(
    cycle: CollectCycle,
    decision: CollectDecision,
    action: CollectAction,
    error: CollectDataError,
)
    ensures
        cycle@.ravs.len() == cycle.ravs@.len(),
        forall|i: int| 0 <= i < cycle.ravs@.len() ==> #[trigger] cycle@.ravs[i] == cycle.ravs@[i]@,
        cycle@.min_collect_value == cycle.min_collect_value,
        cycle@.next == cycle.next,
        cycle@.phase == cycle.phase,
        decision matches CollectDecision::Skip { value } ==> decision@ == (
        CollectDecisionView::Skip { value }),
        decision matches CollectDecision::Unencodable { error } ==> decision@ == (
        CollectDecisionView::Unencodable { error: error@ }),
        decision matches CollectDecision::Submit { value, data } ==> decision@ == (
        CollectDecisionView::Submit { value, data: data@ }),
        action matches CollectAction::Skip { value } ==> action@ == (CollectActionView::Skip {
            value,
        }),
        action matches CollectAction::Unencodable { error } ==> action@ == (
        CollectActionView::Unencodable { error: error@ }),
        action matches CollectAction::Submit { value, data } ==> action@ == (
        CollectActionView::Submit { value, data: data@ }),
        action matches CollectAction::MarkRedeemed { collection_id } ==> action@ == (
        CollectActionView::MarkRedeemed { collection_id: collection_id@ }),
        action is Continue ==> action@ is Continue,
        action is Finish ==> action@ is Finish,
        action is Abort ==> action@ is Abort,
        error matches CollectDataError::CollectionIdHex(e) ==> error@
            == CollectDataErrorView::CollectionIdHex(e@),
        error is CollectionIdLength ==> error@ is CollectionIdLength,
        error matches CollectDataError::SignatureHex(e) ==> error@
            == CollectDataErrorView::SignatureHex(e@),
        error matches CollectDataError::Payer(e) ==> error@ == CollectDataErrorView::Payer(e@),
        error matches CollectDataError::ServiceProvider(e) ==> error@
            == CollectDataErrorView::ServiceProvider(e@),
        error matches CollectDataError::DataService(e) ==> error@
            == CollectDataErrorView::DataService(e@),
{
}

} // verus!
