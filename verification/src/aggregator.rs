//! Aggregation of stored receipts into vouchers.
//!
//! For each payer with stored receipts:
//!   1. All its receipts are fetched.
//!   2. They are posted to the aggregator's /rav/aggregate endpoint.
//!   3. The voucher that comes back is stored.
//!   4. The receipts that the voucher covers are pruned.

use vstd::prelude::*;
use vstd::string::*;

use crate::config::Config;
use crate::db::{
    rav_row, rav_row_of, receipt_fields_come_from_their_columns, receipt_row_of, signed_receipt,
    signed_receipt_of, stored_receipt_reads_back, stored_u64, RavRow, RavRowView, RawReceipt,
    RawReceiptView,
};
use crate::primitives::{
    address_reads_back, parse_address, parsed_address, prefixed_hex, Address,
};
use crate::tap::{
    SignedRav, SignedRavView, SignedReceipt, SignedReceiptView, ValidatedReceiptView,
};
use crate::text::{decimal, u128_or_zero};

verus! {

// ── Request ──────────────────────────────────────────────────────────────────

/// Where receipts are posted to.
pub open spec fn endpoint_of(aggregator_url: Seq<char>) -> Seq<char> {
    aggregator_url + "/rav/aggregate"@
}

/// Where receipts are posted to.
pub fn aggregate_endpoint(aggregator_url: &str) -> (endpoint: String)
    ensures
        endpoint@ == endpoint_of(aggregator_url@),
{
    let mut endpoint = String::from_str(aggregator_url);
    endpoint.append("/rav/aggregate");
    endpoint
}

/// The signed receipts that rows stand for, in the order of the rows.
pub open spec fn signed_receipts_of(
    rows: Seq<RawReceiptView>,
    data_service: Seq<u8>,
    service_provider: Seq<u8>,
) -> Seq<SignedReceiptView> {
    rows.map_values(|row: RawReceiptView| signed_receipt_of(row, data_service, service_provider))
}

/// What a sequence of rows holds.
pub open spec fn rows_view(rows: Seq<RawReceipt>) -> Seq<RawReceiptView> {
    rows.map_values(|row: RawReceipt| row@)
}

/// What a sequence of signed receipts says.
pub open spec fn receipts_view(receipts: Seq<SignedReceipt>) -> Seq<SignedReceiptView> {
    receipts.map_values(|signed: SignedReceipt| signed@)
}

/// Rebuilds the signed receipts of rows.
pub fn signed_receipts(
    rows: &Vec<RawReceipt>,
    data_service: Address,
    service_provider: Address,
) -> (receipts: Vec<SignedReceipt>)
    ensures
        receipts_view(receipts@) == signed_receipts_of(
            rows_view(rows@),
            data_service@,
            service_provider@,
        ),
{
    let mut receipts: Vec<SignedReceipt> = Vec::new();
    let mut i: usize = 0;
    while i < rows.len()
        invariant
            i <= rows@.len(),
            receipts@.len() == i,
            forall|k: int|
                0 <= k < i ==> (#[trigger] receipts@[k])@ == signed_receipt_of(
                    rows@[k]@,
                    data_service@,
                    service_provider@,
                ),
        decreases rows@.len() - i,
    {
        receipts.push(signed_receipt(&rows[i], data_service, service_provider));
        i += 1;
    }
    assert(receipts_view(receipts@) =~= signed_receipts_of(
        rows_view(rows@),
        data_service@,
        service_provider@,
    ));
    receipts
}

/// What is posted to the aggregator.
#[derive(Clone, Debug)]
pub struct AggregateRequest {
    pub service_provider: Address,
    pub payer: Address,
    pub receipts: Vec<SignedReceipt>,
}

/// What is posted to the aggregator.
#[verifier::ext_equal]
pub struct AggregateRequestView {
    pub service_provider: Seq<u8>,
    pub payer: Seq<u8>,
    pub receipts: Seq<SignedReceiptView>,
}

impl View for AggregateRequest {
    type V = AggregateRequestView;

    open spec fn view(&self) -> AggregateRequestView {
        AggregateRequestView {
            service_provider: self.service_provider@,
            payer: self.payer@,
            receipts: receipts_view(self.receipts@),
        }
    }
}

// ── Pruning ──────────────────────────────────────────────────────────────────

/// Whether a prune up to the column value `up_to_ns` deletes a row of the column value `column`.
///
/// Times beyond `i64::MAX` are kept below zero, so all of them are later than any that is kept at
/// zero or above.
pub open spec fn prunes(up_to_ns: int, column: int) -> bool {
    if up_to_ns >= 0 {
        0 <= column <= up_to_ns
    } else {
        column >= 0 || column <= up_to_ns
    }
}

/// Whether `column` lies in one of `ranges`, whose bounds both count.
pub open spec fn in_ranges(ranges: Seq<(i64, i64)>, column: i64) -> bool {
    exists|k: int|
        0 <= k < ranges.len() && (#[trigger] ranges[k]).0 <= column && column <= ranges[k].1
}

/// The ranges of column values that a prune up to `up_to_ns` deletes.
pub fn prune_ranges(up_to_ns: i64) -> (ranges: Vec<(i64, i64)>)
    ensures
        forall|column: i64| #[trigger]
            in_ranges(ranges@, column) <==> prunes(up_to_ns as int, column as int),
{
    let mut ranges: Vec<(i64, i64)> = Vec::new();
    if up_to_ns >= 0 {
        ranges.push((0, up_to_ns));
        assert(ranges@[0] == (0i64, up_to_ns));
    } else {
        ranges.push((0, i64::MAX));
        ranges.push((i64::MIN, up_to_ns));
        assert(ranges@[0] == (0i64, i64::MAX) && ranges@[1] == (i64::MIN, up_to_ns));
    }
    ranges
}

// ── One payer ────────────────────────────────────────────────────────────────

/// How far the aggregation for one payer is.
#[derive(Clone, Copy, Debug, PartialEq, Eq, Structural)]
pub enum AggregatePhase {
    /// Its receipts are being fetched.
    Fetching,
    /// They are posted.
    Posting,
    /// The voucher, of the column value `up_to_ns`, is being stored.
    Storing { up_to_ns: i64 },
    /// The receipts that the column value `up_to_ns` covers are being pruned.
    Pruning { up_to_ns: i64 },
    /// It is over.
    Over,
}

/// What happens to an aggregation from outside. Failures come with the reason in words.
#[derive(Clone, Debug)]
pub enum AggregateEvent {
    Fetched { rows: Vec<RawReceipt> },
    FetchFailed { error: String },
    PostFailed { error: String },
    /// The aggregator did not answer with success.
    Refused { status: String, text: String },
    /// The aggregator's answer holds no voucher.
    Unreadable { error: String },
    Answered { signed: SignedRav },
    Stored,
    StoreFailed { error: String },
    Pruned { count: u64 },
    PruneFailed { error: String },
}

/// What an aggregation asks for.
#[derive(Clone, Debug)]
pub enum AggregateAction {
    Post { request: AggregateRequest },
    Store { row: RavRow },
    /// Delete the payer's receipts whose time is no later than the one that the column value
    /// `up_to_ns` stands for: those in the `prune_ranges` of it.
    Prune { payer_hex: String, up_to_ns: i64 },
    Finish,
    Fail { error: String },
}

/// What happens to an aggregation from outside.
pub enum AggregateEventView {
    Fetched { rows: Seq<RawReceiptView> },
    FetchFailed { error: Seq<char> },
    PostFailed { error: Seq<char> },
    Refused { status: Seq<char>, text: Seq<char> },
    Unreadable { error: Seq<char> },
    Answered { signed: SignedRavView },
    Stored,
    StoreFailed { error: Seq<char> },
    Pruned { count: u64 },
    PruneFailed { error: Seq<char> },
}

/// What an aggregation asks for.
pub enum AggregateActionView {
    Post { request: AggregateRequestView },
    Store { row: RavRowView },
    Prune { payer_hex: Seq<char>, up_to_ns: int },
    Finish,
    Fail { error: Seq<char> },
}

impl View for AggregateEvent {
    type V = AggregateEventView;

    open spec fn view(&self) -> AggregateEventView {
        match *self {
            AggregateEvent::Fetched { rows } => AggregateEventView::Fetched {
                rows: rows_view(rows@),
            },
            AggregateEvent::FetchFailed { error } => AggregateEventView::FetchFailed {
                error: error@,
            },
            AggregateEvent::PostFailed { error } => AggregateEventView::PostFailed {
                error: error@,
            },
            AggregateEvent::Refused { status, text } => AggregateEventView::Refused {
                status: status@,
                text: text@,
            },
            AggregateEvent::Unreadable { error } => AggregateEventView::Unreadable {
                error: error@,
            },
            AggregateEvent::Answered { signed } => AggregateEventView::Answered {
                signed: signed@,
            },
            AggregateEvent::Stored => AggregateEventView::Stored,
            AggregateEvent::StoreFailed { error } => AggregateEventView::StoreFailed {
                error: error@,
            },
            AggregateEvent::Pruned { count } => AggregateEventView::Pruned { count },
            AggregateEvent::PruneFailed { error } => AggregateEventView::PruneFailed {
                error: error@,
            },
        }
    }
}

impl View for AggregateAction {
    type V = AggregateActionView;

    open spec fn view(&self) -> AggregateActionView {
        match *self {
            AggregateAction::Post { request } => AggregateActionView::Post { request: request@ },
            AggregateAction::Store { row } => AggregateActionView::Store { row: row@ },
            AggregateAction::Prune { payer_hex, up_to_ns } => AggregateActionView::Prune {
                payer_hex: payer_hex@,
                up_to_ns: up_to_ns as int,
            },
            AggregateAction::Finish => AggregateActionView::Finish,
            AggregateAction::Fail { error } => AggregateActionView::Fail { error: error@ },
        }
    }
}

/// The aggregation for one payer.
#[derive(Clone, Debug)]
pub struct Aggregation {
    pub endpoint: String,
    pub service_provider: Address,
    pub data_service: Address,
    pub payer_hex: String,
    pub phase: AggregatePhase,
}

/// The state of the aggregation for one payer.
#[verifier::ext_equal]
pub struct AggregateState {
    pub endpoint: Seq<char>,
    pub service_provider: Seq<u8>,
    pub data_service: Seq<u8>,
    pub payer_hex: Seq<char>,
    pub phase: AggregatePhase,
}

impl View for Aggregation {
    type V = AggregateState;

    open spec fn view(&self) -> AggregateState {
        AggregateState {
            endpoint: self.endpoint@,
            service_provider: self.service_provider@,
            data_service: self.data_service@,
            payer_hex: self.payer_hex@,
            phase: self.phase,
        }
    }
}

impl AggregateState {
    /// Whether `event` can happen now.
    pub open spec fn accepts(self, event: AggregateEventView) -> bool {
        match self.phase {
            AggregatePhase::Fetching => event is Fetched || event is FetchFailed,
            AggregatePhase::Posting => event is PostFailed || event is Refused || event
                is Unreadable || event is Answered,
            AggregatePhase::Storing { .. } => event is Stored || event is StoreFailed,
            AggregatePhase::Pruning { .. } => event is Pruned || event is PruneFailed,
            AggregatePhase::Over => false,
        }
    }

    /// What is asked for after `event`.
    pub open spec fn action(self, event: AggregateEventView) -> AggregateActionView {
        match event {
            AggregateEventView::Fetched { rows } => if rows.len() == 0 {
                AggregateActionView::Finish
            } else {
                match parsed_address(self.payer_hex) {
                    Some(payer) => AggregateActionView::Post {
                        request: AggregateRequestView {
                            service_provider: self.service_provider,
                            payer,
                            receipts: signed_receipts_of(
                                rows,
                                self.data_service,
                                self.service_provider,
                            ),
                        },
                    },
                    None => AggregateActionView::Fail {
                        error: "invalid payer address in db: "@ + self.payer_hex,
                    },
                }
            },
            AggregateEventView::PostFailed { error } => AggregateActionView::Fail {
                error: "POST "@ + self.endpoint + " failed: "@ + error,
            },
            AggregateEventView::Refused { status, text } => AggregateActionView::Fail {
                error: "aggregator returned "@ + status + ": "@ + text,
            },
            AggregateEventView::Answered { signed } => AggregateActionView::Store {
                row: rav_row_of(signed.rav, signed.signature),
            },
            AggregateEventView::Stored => match self.phase {
                AggregatePhase::Storing { up_to_ns } => AggregateActionView::Prune {
                    payer_hex: self.payer_hex,
                    up_to_ns: up_to_ns as int,
                },
                _ => AggregateActionView::Finish,
            },
            AggregateEventView::Pruned { .. } => AggregateActionView::Finish,
            AggregateEventView::FetchFailed { error }
            | AggregateEventView::Unreadable { error }
            | AggregateEventView::StoreFailed { error }
            | AggregateEventView::PruneFailed { error } => AggregateActionView::Fail { error },
        }
    }

    /// The state after `event`.
    pub open spec fn after(self, event: AggregateEventView) -> AggregateState {
        let phase = match self.action(event) {
            AggregateActionView::Post { .. } => AggregatePhase::Posting,
            AggregateActionView::Store { row } => AggregatePhase::Storing {
                up_to_ns: row.timestamp_ns as i64,
            },
            AggregateActionView::Prune { up_to_ns, .. } => AggregatePhase::Pruning {
                up_to_ns: up_to_ns as i64,
            },
            AggregateActionView::Finish | AggregateActionView::Fail { .. } => AggregatePhase::Over,
        };
        AggregateState { phase, ..self }
    }
}

impl Aggregation {
    /// The aggregation for the payer `payer_hex`, whose receipts are to be fetched.
    pub fn new(
        endpoint: &str,
        service_provider: Address,
        data_service: Address,
        payer_hex: &str,
    ) -> (aggregation: Aggregation)
        ensures
            aggregation@ == (AggregateState {
                endpoint: endpoint@,
                service_provider: service_provider@,
                data_service: data_service@,
                payer_hex: payer_hex@,
                phase: AggregatePhase::Fetching,
            }),
    {
        Aggregation {
            endpoint: String::from_str(endpoint),
            service_provider,
            data_service,
            payer_hex: String::from_str(payer_hex),
            phase: AggregatePhase::Fetching,
        }
    }

    /// Decides on the rows that were fetched.
    fn post(&self, rows: &Vec<RawReceipt>) -> (action: AggregateAction)
        ensures
            action@ == self@.action(AggregateEventView::Fetched { rows: rows_view(rows@) }),
    {
        if rows.is_empty() {
            return AggregateAction::Finish;
        }
        let receipts = signed_receipts(rows, self.data_service, self.service_provider);
        match parse_address(self.payer_hex.as_str()) {
            Ok(payer) => AggregateAction::Post {
                request: AggregateRequest {
                    service_provider: self.service_provider,
                    payer,
                    receipts,
                },
            },
            Err(_) => {
                let mut error = String::from_str("invalid payer address in db: ");
                error.append(self.payer_hex.as_str());
                AggregateAction::Fail { error }
            },
        }
    }

    /// Takes in an event and says what is to be done.
    pub fn step(&mut self, event: AggregateEvent) -> (action: AggregateAction)
        requires
            old(self)@.accepts(event@),
        ensures
            final(self)@ == old(self)@.after(event@),
            action@ == old(self)@.action(event@),
    {
        let phase = self.phase;
        let action = match event {
            AggregateEvent::Fetched { rows } => self.post(&rows),
            AggregateEvent::PostFailed { error } => {
                let mut message = String::from_str("POST ");
                message.append(self.endpoint.as_str());
                message.append(" failed: ");
                message.append(error.as_str());
                AggregateAction::Fail { error: message }
            },
            AggregateEvent::Refused { status, text } => {
                let mut message = String::from_str("aggregator returned ");
                message.append(status.as_str());
                message.append(": ");
                message.append(text.as_str());
                AggregateAction::Fail { error: message }
            },
            AggregateEvent::Answered { signed } => AggregateAction::Store {
                row: rav_row(&signed.rav, signed.signature.as_str()),
            },
            AggregateEvent::Stored => match phase {
                AggregatePhase::Storing { up_to_ns } => AggregateAction::Prune {
                    payer_hex: self.payer_hex.clone(),
                    up_to_ns,
                },
                _ => AggregateAction::Finish,
            },
            AggregateEvent::Pruned { .. } => AggregateAction::Finish,
            AggregateEvent::FetchFailed { error } => AggregateAction::Fail { error },
            AggregateEvent::Unreadable { error } => AggregateAction::Fail { error },
            AggregateEvent::StoreFailed { error } => AggregateAction::Fail { error },
            AggregateEvent::PruneFailed { error } => AggregateAction::Fail { error },
        };
        self.phase = match &action {
            AggregateAction::Post { .. } => AggregatePhase::Posting,
            AggregateAction::Store { row } => AggregatePhase::Storing {
                up_to_ns: row.timestamp_ns,
            },
            AggregateAction::Prune { up_to_ns, .. } => AggregatePhase::Pruning {
                up_to_ns: *up_to_ns,
            },
            AggregateAction::Finish => AggregatePhase::Over,
            AggregateAction::Fail { .. } => AggregatePhase::Over,
        };
        action
    }
}

// ── One cycle ────────────────────────────────────────────────────────────────

/// The state in which the aggregation for `payer_hex` starts.
pub open spec fn aggregation_start(
    aggregator_url: Seq<char>,
    config: Config,
    payer_hex: Seq<char>,
) -> AggregateState {
    AggregateState {
        endpoint: endpoint_of(aggregator_url),
        service_provider: config.indexer.service_provider_address@,
        data_service: config.tap.data_service_address@,
        payer_hex,
        phase: AggregatePhase::Fetching,
    }
}

/// One cycle: an aggregation for each payer, in the order of `payers`. Each runs its course
/// whatever becomes of the others.
pub fn plan_cycle(aggregator_url: &str, config: &Config, payers: &Vec<String>) -> (plan: Vec<
    Aggregation,
>)
    ensures
        plan@.map_values(|aggregation: Aggregation| aggregation@) == payers@.map_values(
            |payer_hex: String| aggregation_start(aggregator_url@, *config, payer_hex@),
        ),
{
    let endpoint = aggregate_endpoint(aggregator_url);
    let mut plan: Vec<Aggregation> = Vec::new();
    let mut i: usize = 0;
    while i < payers.len()
        invariant
            endpoint@ == endpoint_of(aggregator_url@),
            i <= payers@.len(),
            plan@.len() == i,
            forall|k: int|
                0 <= k < i ==> (#[trigger] plan@[k])@ == aggregation_start(
                    aggregator_url@,
                    *config,
                    payers@[k]@,
                ),
        decreases payers@.len() - i,
    {
        plan.push(
            Aggregation::new(
                endpoint.as_str(),
                config.indexer.service_provider_address,
                config.tap.data_service_address,
                payers[i].as_str(),
            ),
        );
        i += 1;
    }
    assert(plan@.map_values(|aggregation: Aggregation| aggregation@) =~= payers@.map_values(
        |payer_hex: String| aggregation_start(aggregator_url@, *config, payer_hex@),
    ));
    plan
}

// ── Laws ─────────────────────────────────────────────────────────────────────

/// Whether `events` can happen, one after the other, from `state` on.
pub open spec fn possible(state: AggregateState, events: Seq<AggregateEventView>) -> bool
    decreases events.len(),
{
    events.len() == 0 || (possible(state, events.drop_last()) && reached(
        state,
        events.drop_last(),
    ).accepts(events.last()))
}

/// The state that `events` lead to from `state`.
pub open spec fn reached(state: AggregateState, events: Seq<AggregateEventView>) -> AggregateState
    decreases events.len(),
{
    if events.len() == 0 {
        state
    } else {
        reached(state, events.drop_last()).after(events.last())
    }
}

proof fn lemma_reached_keeps(state: AggregateState, events: Seq<AggregateEventView>)
    ensures
        reached(state, events).payer_hex == state.payer_hex,
    decreases events.len(),
{
    if events.len() > 0 {
        lemma_reached_keeps(state, events.drop_last());
    }
}

/// Receipts are pruned only when the voucher that the aggregator answered with has just been
/// stored, only those of the payer at hand, and of these exactly those of no later time than the
/// voucher's.
pub proof fn prunes_only_what_is_stored(
    start: AggregateState,
    events: Seq<AggregateEventView>,
    payer_hex: Seq<char>,
    up_to_ns: int,
)
    requires
        start.phase is Fetching,
        events.len() > 0,
        possible(start, events),
        reached(start, events.drop_last()).action(events.last()) == (AggregateActionView::Prune {
            payer_hex,
            up_to_ns,
        }),
    ensures
        payer_hex == start.payer_hex,
        events.last() is Stored,
        events.len() >= 2,
        ({
            let answer = events[events.len() - 2];
            &&& answer matches AggregateEventView::Answered { signed } && up_to_ns == stored_u64(
                signed.rav.timestamp_ns,
            ) && reached(start, events.drop_last().drop_last()).action(answer)
                == (AggregateActionView::Store { row: rav_row_of(signed.rav, signed.signature) })
                && (forall|receipt_ns: u64|
                prunes(up_to_ns, #[trigger] stored_u64(receipt_ns)) <==> receipt_ns
                    <= signed.rav.timestamp_ns)
        }),
{
    let before = events.drop_last();
    lemma_reached_keeps(start, before);
    assert(reached(start, before).phase is Storing);
    assert(before.len() > 0);
    assert(before.last() == events[events.len() - 2]);
}

/// An aggregation ends after at most four events, whatever they are.
pub proof fn aggregation_ends(start: AggregateState, events: Seq<AggregateEventView>)
    requires
        start.phase is Fetching,
        possible(start, events),
    ensures
        events.len() <= 4,
{
    lemma_phase_counts(start, events);
}

proof fn lemma_phase_counts(start: AggregateState, events: Seq<AggregateEventView>)
    requires
        start.phase is Fetching,
        possible(start, events),
    ensures
        match reached(start, events).phase {
            AggregatePhase::Fetching => events.len() == 0,
            AggregatePhase::Posting => events.len() == 1,
            AggregatePhase::Storing { .. } => events.len() == 2,
            AggregatePhase::Pruning { .. } => events.len() == 3,
            AggregatePhase::Over => events.len() <= 4,
        },
    decreases events.len(),
{
    if events.len() > 0 {
        lemma_phase_counts(start, events.drop_last());
    }
}

/// The receipts that a prune deletes are exactly those of no later time than the voucher's.
pub proof fn pruned_receipts_are_covered(receipt_ns: u64, rav_ns: u64)
    ensures
        prunes(stored_u64(rav_ns), stored_u64(receipt_ns)) <==> receipt_ns <= rav_ns,
{
}

/// What is posted for validated receipts that were stored is those receipts with their
/// signatures, unchanged and in the order of the rows.
pub proof fn posts_receipts_as_validated(
    receipts: Seq<ValidatedReceiptView>,
    rows: Seq<RawReceiptView>,
    data_service: Seq<u8>,
    service_provider: Seq<u8>,
)
    requires
        rows.len() == receipts.len(),
        forall|i: int|
            0 <= i < rows.len() ==> (#[trigger] rows[i]).reads(receipt_row_of(receipts[i])),
        forall|i: int|
            0 <= i < rows.len() ==> (#[trigger] receipts[i]).receipt.data_service == data_service
                && receipts[i].receipt.service_provider == service_provider,
    ensures
        signed_receipts_of(rows, data_service, service_provider) == receipts.map_values(
            |v: ValidatedReceiptView|
                SignedReceiptView { receipt: v.receipt, signature: v.signature },
        ),
{
    let posted = signed_receipts_of(rows, data_service, service_provider);
    let signed = receipts.map_values(
        |v: ValidatedReceiptView|
            SignedReceiptView { receipt: v.receipt, signature: v.signature },
    );
    assert forall|i: int| 0 <= i < rows.len() implies posted[i] == signed[i] by {
        assert(rows[i].reads(receipt_row_of(receipts[i])));
        stored_receipt_reads_back(receipts[i], rows[i]);
    }
    assert(posted =~= signed);
}

/// The payer of a stored receipt is understood: the receipts that are fetched for it are posted
/// under its address.
pub proof fn stored_payer_is_understood(
    state: AggregateState,
    payer: Seq<u8>,
    rows: Seq<RawReceiptView>,
)
    requires
        payer.len() == 20,
        state.payer_hex == prefixed_hex(payer),
        rows.len() > 0,
    ensures
        state.action(AggregateEventView::Fetched { rows }) matches AggregateActionView::Post {
            request,
        } && request.payer == payer,
{
    address_reads_back(payer);
}

// ── What each event leads to ─────────────────────────────────────────────────

/// All the receipts that were fetched are posted: as many as there are rows, each with the time,
/// the nonce, the value, the metadata and the signature of the row at its place, in one request
/// for the payer, the provider and the service at hand.
pub proof fn posts_every_row(state: AggregateState, rows: Seq<RawReceiptView>, payer: Seq<u8>)
    requires
        rows.len() > 0,
        parsed_address(state.payer_hex) == Some(payer),
    ensures
        state.action(AggregateEventView::Fetched { rows }) matches AggregateActionView::Post {
            request,
        } && {
            &&& request.payer == payer
            &&& request.service_provider == state.service_provider
            &&& request.receipts.len() == rows.len()
            &&& forall|i: int|
                0 <= i < rows.len() ==> {
                    let posted = #[trigger] request.receipts[i];
                    &&& posted.signature == rows[i].signature
                    &&& posted.receipt.data_service == state.data_service
                    &&& posted.receipt.service_provider == state.service_provider
                    &&& stored_u64(posted.receipt.timestamp_ns) == rows[i].timestamp_ns
                    &&& stored_u64(posted.receipt.nonce) == rows[i].nonce
                    &&& posted.receipt.value == u128_or_zero(rows[i].value)
                    &&& posted.receipt.metadata == rows[i].metadata
                }
        },
{
    let receipts = signed_receipts_of(rows, state.data_service, state.service_provider);
    assert forall|i: int| 0 <= i < rows.len() implies {
        let posted = #[trigger] receipts[i];
        &&& posted.signature == rows[i].signature
        &&& posted.receipt.data_service == state.data_service
        &&& posted.receipt.service_provider == state.service_provider
        &&& stored_u64(posted.receipt.timestamp_ns) == rows[i].timestamp_ns
        &&& stored_u64(posted.receipt.nonce) == rows[i].nonce
        &&& posted.receipt.value == u128_or_zero(rows[i].value)
        &&& posted.receipt.metadata == rows[i].metadata
    } by {
        receipt_fields_come_from_their_columns(
            rows[i],
            state.data_service,
            state.service_provider,
        );
    }
}

/// One more row is one more receipt at the end of what is posted; the others stay as they are.
pub proof fn one_more_row_is_one_more_receipt(
    state: AggregateState,
    rows: Seq<RawReceiptView>,
    row: RawReceiptView,
)
    requires
        rows.len() > 0,
        state.action(AggregateEventView::Fetched { rows }) is Post,
    ensures
        state.action(AggregateEventView::Fetched { rows: rows.push(row) }) is Post,
        ({
            let before = state.action(AggregateEventView::Fetched { rows })->request;
            let after = state.action(AggregateEventView::Fetched { rows: rows.push(row) })->request;
            &&& after.receipts.len() == before.receipts.len() + 1
            &&& after.receipts.subrange(0, before.receipts.len() as int) == before.receipts
            &&& after.payer == before.payer
            &&& after.service_provider == before.service_provider
        }),
{
    let before = signed_receipts_of(rows, state.data_service, state.service_provider);
    let after = signed_receipts_of(rows.push(row), state.data_service, state.service_provider);
    assert(after.subrange(0, before.len() as int) =~= before);
}

/// Without rows there is nothing to do; with rows of a payer that is no address the aggregation
/// fails and names the payer.
pub proof fn nothing_else_is_posted(state: AggregateState, rows: Seq<RawReceiptView>)
    ensures
        rows.len() == 0 ==> state.action(AggregateEventView::Fetched { rows })
            == AggregateActionView::Finish,
        rows.len() > 0 && parsed_address(state.payer_hex) is None ==> state.action(
            AggregateEventView::Fetched { rows },
        ) == (AggregateActionView::Fail {
            error: "invalid payer address in db: "@ + state.payer_hex,
        }),
{
}

/// The voucher that the aggregator answers with is stored as it is: its id, its three addresses,
/// its time, its value and its signature, each in its own column.
pub proof fn stores_the_answer(state: AggregateState, signed: SignedRavView)
    ensures
        state.action(AggregateEventView::Answered { signed }) matches AggregateActionView::Store {
            row,
        } && {
            &&& row.collection_id == prefixed_hex(signed.rav.collection_id)
            &&& row.payer_address == prefixed_hex(signed.rav.payer)
            &&& row.service_provider == prefixed_hex(signed.rav.service_provider)
            &&& row.data_service == prefixed_hex(signed.rav.data_service)
            &&& row.timestamp_ns == stored_u64(signed.rav.timestamp_ns)
            &&& row.value_aggregate == decimal(signed.rav.value_aggregate as nat)
            &&& row.signature == signed.signature
        },
        state.after(AggregateEventView::Answered { signed }).phase matches AggregatePhase::Storing {
            up_to_ns,
        } && up_to_ns == stored_u64(signed.rav.timestamp_ns),
{
}

/// Once the voucher is stored, the receipts of the payer at hand are pruned up to its time, and
/// once they are pruned the aggregation is over.
pub proof fn prunes_then_ends(state: AggregateState, up: i64, count: u64)
    requires
        state.phase == (AggregatePhase::Storing { up_to_ns: up }),
    ensures
        state.action(AggregateEventView::Stored) == (AggregateActionView::Prune {
            payer_hex: state.payer_hex,
            up_to_ns: up as int,
        }),
        state.after(AggregateEventView::Stored).phase == (AggregatePhase::Pruning { up_to_ns: up }),
        state.after(AggregateEventView::Stored).action(AggregateEventView::Pruned { count })
            == AggregateActionView::Finish,
        state.after(AggregateEventView::Stored).after(AggregateEventView::Pruned { count }).phase
            == AggregatePhase::Over,
{
}

/// What fails ends the aggregation at once, with the reason: what was being done is left undone,
/// and nothing is stored or pruned after it.
pub proof fn failures_end_it(
    state: AggregateState,
    error: Seq<char>,
    status: Seq<char>,
    text: Seq<char>,
)
    ensures
        state.action(AggregateEventView::FetchFailed { error }) == (AggregateActionView::Fail {
            error,
        }),
        state.action(AggregateEventView::PostFailed { error }) == (AggregateActionView::Fail {
            error: "POST "@ + state.endpoint + " failed: "@ + error,
        }),
        state.action(AggregateEventView::Refused { status, text }) == (AggregateActionView::Fail {
            error: "aggregator returned "@ + status + ": "@ + text,
        }),
        state.action(AggregateEventView::Unreadable { error }) == (AggregateActionView::Fail {
            error,
        }),
        state.action(AggregateEventView::StoreFailed { error }) == (AggregateActionView::Fail {
            error,
        }),
        state.action(AggregateEventView::PruneFailed { error }) == (AggregateActionView::Fail {
            error,
        }),
        forall|event: AggregateEventView|
            state.action(event) is Fail || state.action(event) is Finish ==> (#[trigger] state.after(
                event,
            )).phase == AggregatePhase::Over,
{
}

/// An aggregation waits for what it asked for last, and only for that; when it is over, for
/// nothing. What it was set up with never changes.
pub proof fn waits_for_what_it_asked_for(state: AggregateState, event: AggregateEventView)
    ensures
        state.phase is Fetching ==> (state.accepts(event) <==> event is Fetched || event
            is FetchFailed),
        state.phase is Posting ==> (state.accepts(event) <==> event is PostFailed || event
            is Refused || event is Unreadable || event is Answered),
        state.phase is Storing ==> (state.accepts(event) <==> event is Stored || event
            is StoreFailed),
        state.phase is Pruning ==> (state.accepts(event) <==> event is Pruned || event
            is PruneFailed),
        state.phase is Over ==> !state.accepts(event),
        state.action(event) is Post ==> state.after(event).phase is Posting,
        state.action(event) is Store ==> state.after(event).phase is Storing,
        state.action(event) is Prune ==> state.after(event).phase is Pruning,
        state.after(event).endpoint == state.endpoint,
        state.after(event).service_provider == state.service_provider,
        state.after(event).data_service == state.data_service,
        state.after(event).payer_hex == state.payer_hex,
{
}

/// An aggregation starts with its payer's receipts to be fetched, for the provider and the service
/// of the configuration, and posts to `/rav/aggregate` under the aggregator's URL.
pub proof fn starts_from_the_configuration(
    aggregator_url: Seq<char>,
    config: Config,
    payer_hex: Seq<char>,
)
    ensures
        ({
            let start = aggregation_start(aggregator_url, config, payer_hex);
            &&& start.endpoint == aggregator_url + "/rav/aggregate"@
            &&& start.service_provider == config.indexer.service_provider_address.0@
            &&& start.data_service == config.tap.data_service_address.0@
            &&& start.payer_hex == payer_hex
            &&& start.phase is Fetching
        }),
        endpoint_of(aggregator_url) == aggregator_url + "/rav/aggregate"@,
{
}

/// Rows and receipts stand for what they hold, place by place.
pub proof fn places_are_kept(
    rows: Seq<RawReceipt>,
    receipts: Seq<SignedReceipt>,
    views: Seq<RawReceiptView>,
    data_service: Seq<u8>,
    service_provider: Seq<u8>,
)
    ensures
        rows_view(rows).len() == rows.len(),
        forall|i: int| 0 <= i < rows.len() ==> #[trigger] rows_view(rows)[i] == rows[i]@,
        receipts_view(receipts).len() == receipts.len(),
        forall|i: int|
            0 <= i < receipts.len() ==> #[trigger] receipts_view(receipts)[i] == receipts[i]@,
        signed_receipts_of(views, data_service, service_provider).len() == views.len(),
        forall|i: int|
            0 <= i < views.len() ==> #[trigger] signed_receipts_of(
                views,
                data_service,
                service_provider,
            )[i] == signed_receipt_of(views[i], data_service, service_provider),
{
}

/// Aggregations, requests, events and actions stand for what they carry.
pub proof fn carried_values_are_the_value(
    aggregation: Aggregation,
    request: AggregateRequest,
    event: AggregateEvent,
    action: AggregateAction,
)
    ensures
        aggregation@.endpoint == aggregation.endpoint@,
        aggregation@.service_provider == aggregation.service_provider.0@,
        aggregation@.data_service == aggregation.data_service.0@,
        aggregation@.payer_hex == aggregation.payer_hex@,
        aggregation@.phase == aggregation.phase,
        request@.service_provider == request.service_provider.0@,
        request@.payer == request.payer.0@,
        request@.receipts.len() == request.receipts@.len(),
        forall|i: int|
            0 <= i < request.receipts@.len() ==> #[trigger] request@.receipts[i]
                == request.receipts@[i]@,
        event matches AggregateEvent::Fetched { rows } ==> event@ == (AggregateEventView::Fetched {
            rows: rows_view(rows@),
        }),
        event matches AggregateEvent::FetchFailed { error } ==> event@ == (
        AggregateEventView::FetchFailed { error: error@ }),
        event matches AggregateEvent::PostFailed { error } ==> event@ == (
        AggregateEventView::PostFailed { error: error@ }),
        event matches AggregateEvent::Refused { status, text } ==> event@ == (
        AggregateEventView::Refused { status: status@, text: text@ }),
        event matches AggregateEvent::Unreadable { error } ==> event@ == (
        AggregateEventView::Unreadable { error: error@ }),
        event matches AggregateEvent::Answered { signed } ==> event@ == (
        AggregateEventView::Answered { signed: signed@ }),
        event is Stored ==> event@ is Stored,
        event matches AggregateEvent::StoreFailed { error } ==> event@ == (
        AggregateEventView::StoreFailed { error: error@ }),
        event matches AggregateEvent::Pruned { count } ==> event@ == (AggregateEventView::Pruned {
            count,
        }),
        event matches AggregateEvent::PruneFailed { error } ==> event@ == (
        AggregateEventView::PruneFailed { error: error@ }),
        action matches AggregateAction::Post { request } ==> action@ == (
        AggregateActionView::Post { request: request@ }),
        action matches AggregateAction::Store { row } ==> action@ == (AggregateActionView::Store {
            row: row@,
        }),
        action matches AggregateAction::Prune { payer_hex, up_to_ns } ==> action@ == (
        AggregateActionView::Prune { payer_hex: payer_hex@, up_to_ns: up_to_ns as int }),
        action is Finish ==> action@ is Finish,
        action matches AggregateAction::Fail { error } ==> action@ == (AggregateActionView::Fail {
            error: error@,
        }),
{
}

/// A column value lies in ranges exactly when it is within the bounds, both included, of one of
/// them.
pub proof fn ranges_hold_what_is_within_bounds(
    ranges: Seq<(i64, i64)>,
    first: i64,
    last: i64,
    column: i64,
)
    ensures
        !in_ranges(Seq::empty(), column),
        in_ranges(ranges.push((first, last)), column) <==> in_ranges(ranges, column) || (first
            <= column && column <= last),
{
    let longer = ranges.push((first, last));
    if in_ranges(ranges, column) {
        let k = choose|k: int|
            0 <= k < ranges.len() && (#[trigger] ranges[k]).0 <= column && column <= ranges[k].1;
        assert(longer[k] == ranges[k]);
    }
    if first <= column && column <= last {
        assert(longer[ranges.len() as int] == (first, last));
    }
    if in_ranges(longer, column) {
        let k = choose|k: int|
            0 <= k < longer.len() && (#[trigger] longer[k]).0 <= column && column <= longer[k].1;
        if k < ranges.len() {
            assert(ranges[k] == longer[k]);
        }
    }
}

} // verus!
