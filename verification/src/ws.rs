//! The WebSocket session: admission by receipt, and the relay of the upstream feed.
//!
//! A consumer connects to `/ws/{chain}/{topic}?receipt=<TAP-Receipt JSON>`. The receipt is
//! validated and persisted before the upgrade: no receipt, no stream. The upstream feed is then
//! opened and every message of it is relayed.

use vstd::prelude::*;
use vstd::string::*;

use crate::config::{BackendConfig, Config};
use crate::db::{receipt_row, receipt_row_of, stored_u64, ReceiptRow, ReceiptRowView};
use crate::primitives::{prefixed_hex, B256};
use crate::tap::{
    accepted_signer_is_listed, message_digest, outcome_view, receipt_digest, receipt_verdict,
    signer_of, validate_receipt, SignedReceipt, SignedReceiptView, TapError,
    TapErrorView, ValidatedReceipt, ValidatedReceiptView,
};
use crate::text::{decimal, trim_trailing, without_trailing};

verus! {

// ── Admission ────────────────────────────────────────────────────────────────

/// The query of a session request.
#[derive(Clone, Debug)]
pub struct WsQuery {
    /// TAP v2 receipt (same JSON shape as the `TAP-Receipt` header), url-encoded.
    pub receipt: String,
}

/// HTTP 402.
pub const PAYMENT_REQUIRED: u16 = 402;

/// HTTP 500.
pub const INTERNAL_SERVER_ERROR: u16 = 500;

/// How a request is turned down.
#[derive(Clone, Debug)]
pub struct Rejection {
    pub status: u16,
    pub message: String,
}

/// How a request is turned down.
#[verifier::ext_equal]
pub struct RejectionView {
    pub status: u16,
    pub message: Seq<char>,
}

impl View for Rejection {
    type V = RejectionView;

    open spec fn view(&self) -> RejectionView {
        RejectionView { status: self.status, message: self.message@ }
    }
}

/// What came of writing a receipt's row.
#[derive(Clone, Debug)]
pub enum InsertOutcome {
    Inserted,
    /// The nonce has been used before.
    DuplicateNonce,
    /// The row could not be written; the reason in words.
    Failed { error: String },
}

/// What came of writing a receipt's row.
pub enum InsertOutcomeView {
    Inserted,
    DuplicateNonce,
    Failed { error: Seq<char> },
}

impl View for InsertOutcome {
    type V = InsertOutcomeView;

    open spec fn view(&self) -> InsertOutcomeView {
        match *self {
            InsertOutcome::Inserted => InsertOutcomeView::Inserted,
            InsertOutcome::DuplicateNonce => InsertOutcomeView::DuplicateNonce,
            InsertOutcome::Failed { error } => InsertOutcomeView::Failed { error: error@ },
        }
    }
}

/// What a session request asks for next.
#[derive(Clone, Debug)]
pub enum SessionAction {
    /// Write the receipt's row.
    Insert { row: ReceiptRow },
    /// Upgrade the connection and relay the feed at `upstream`.
    Upgrade { upstream: String },
    /// Turn the request down.
    Reject { rejection: Rejection },
}

/// What a session request asks for next.
pub enum SessionActionView {
    Insert { row: ReceiptRowView },
    Upgrade { upstream: Seq<char> },
    Reject { rejection: RejectionView },
}

impl View for SessionAction {
    type V = SessionActionView;

    open spec fn view(&self) -> SessionActionView {
        match *self {
            SessionAction::Insert { row } => SessionActionView::Insert { row: row@ },
            SessionAction::Upgrade { upstream } => SessionActionView::Upgrade {
                upstream: upstream@,
            },
            SessionAction::Reject { rejection } => SessionActionView::Reject {
                rejection: rejection@,
            },
        }
    }
}

/// The feed of a chain and topic: `<base>/ws/<chain>@<topic>?token=<token>`, where slashes at the
/// end of the base do not count.
pub open spec fn upstream_of(
    base: Seq<char>,
    chain: Seq<char>,
    topic: Seq<char>,
    token: Seq<char>,
) -> Seq<char> {
    without_trailing(base, '/') + "/ws/"@ + chain + "@"@ + topic + "?token="@ + token
}

/// The URL of the upstream feed.
pub fn upstream_url(backend: &BackendConfig, chain: &str, topic: &str) -> (url: String)
    ensures
        url@ == upstream_of(backend.pinax_ws_base@, chain@, topic@, backend.pinax_token@),
{
    let mut url = String::from_str(trim_trailing(backend.pinax_ws_base.as_str(), '/'));
    url.append("/ws/");
    url.append(chain);
    url.append("@");
    url.append(topic);
    url.append("?token=");
    url.append(backend.pinax_token.as_str());
    url
}

/// What a validated or refused receipt leads to.
pub open spec fn receipt_action(
    outcome: Result<ValidatedReceiptView, TapErrorView>,
) -> SessionActionView {
    match outcome {
        Ok(v) => SessionActionView::Insert { row: receipt_row_of(v) },
        Err(e) => SessionActionView::Reject {
            rejection: RejectionView { status: PAYMENT_REQUIRED, message: e.text() },
        },
    }
}

/// What the attempt to write a receipt's row leads to.
pub open spec fn insert_action(
    outcome: InsertOutcomeView,
    upstream: Seq<char>,
) -> SessionActionView {
    match outcome {
        InsertOutcomeView::Inserted => SessionActionView::Upgrade { upstream },
        InsertOutcomeView::DuplicateNonce => SessionActionView::Reject {
            rejection: RejectionView {
                status: PAYMENT_REQUIRED,
                message: "receipt nonce already used"@,
            },
        },
        InsertOutcomeView::Failed { error } => SessionActionView::Reject {
            rejection: RejectionView { status: INTERNAL_SERVER_ERROR, message: error },
        },
    }
}

/// The verdict on a receipt under a configuration.
pub open spec fn config_verdict(
    parsed: Result<SignedReceiptView, Seq<char>>,
    config: Config,
    domain_sep: Seq<u8>,
    now_ns: u64,
) -> Result<ValidatedReceiptView, TapErrorView> {
    receipt_verdict(
        parsed,
        domain_sep,
        config.tap.authorized_senders@,
        config.tap.data_service_address@,
        config.indexer.service_provider_address@,
        config.tap.max_receipt_age_ns,
        now_ns,
    )
}

/// Turns the outcome of a validation into the next action.
pub fn after_validation(outcome: Result<ValidatedReceipt, TapError>) -> (action: SessionAction)
    ensures
        action@ == receipt_action(outcome_view(outcome)),
{
    match outcome {
        Ok(v) => SessionAction::Insert { row: receipt_row(&v) },
        Err(e) => SessionAction::Reject {
            rejection: Rejection { status: PAYMENT_REQUIRED, message: e.message() },
        },
    }
}

/// The first action for a session request: `parsed` is the signed receipt of its query, or the
/// reason why the query holds none.
pub fn request_session(
    parsed: Result<SignedReceipt, String>,
    config: &Config,
    domain_sep: B256,
    now_ns: u64,
) -> (action: SessionAction)
    ensures
        action@ == receipt_action(
            config_verdict(
                match parsed {
                    Ok(signed) => Ok(signed@),
                    Err(e) => Err(e@),
                },
                *config,
                domain_sep@,
                now_ns,
            ),
        ),
{
    after_validation(
        validate_receipt(
            parsed,
            domain_sep,
            config.tap.authorized_senders.as_slice(),
            config.tap.data_service_address,
            config.indexer.service_provider_address,
            config.tap.max_receipt_age_ns,
            now_ns,
        ),
    )
}

/// The second action for a session request, once its receipt's row is written or not.
pub fn after_insert(
    outcome: InsertOutcome,
    backend: &BackendConfig,
    chain: &str,
    topic: &str,
) -> (action: SessionAction)
    ensures
        action@ == insert_action(
            outcome@,
            upstream_of(backend.pinax_ws_base@, chain@, topic@, backend.pinax_token@),
        ),
{
    match outcome {
        InsertOutcome::Inserted => SessionAction::Upgrade {
            upstream: upstream_url(backend, chain, topic),
        },
        InsertOutcome::DuplicateNonce => SessionAction::Reject {
            rejection: Rejection {
                status: PAYMENT_REQUIRED,
                message: String::from_str("receipt nonce already used"),
            },
        },
        InsertOutcome::Failed { error } => SessionAction::Reject {
            rejection: Rejection { status: INTERNAL_SERVER_ERROR, message: error },
        },
    }
}

// ── Relay ────────────────────────────────────────────────────────────────────

/// What the consumer is told when the feed cannot be opened, for the reason `error`.
pub open spec fn connect_failed_of(error: Seq<char>) -> Seq<char> {
    "{\"error\":\"upstream connect failed: "@ + error + "\"}"@
}

/// What the consumer is told when the feed cannot be opened.
pub fn connect_failed_message(error: &str) -> (text: String)
    ensures
        text@ == connect_failed_of(error@),
{
    let mut text = String::from_str("{\"error\":\"upstream connect failed: ");
    text.append(error);
    text.append("\"}");
    text
}

/// A message that carries data.
#[derive(Clone, Debug)]
pub enum Frame {
    Text { text: String },
    Binary { bytes: Vec<u8> },
}

/// A message that carries data.
pub enum FrameView {
    Text { text: Seq<char> },
    Binary { bytes: Seq<u8> },
}

impl View for Frame {
    type V = FrameView;

    open spec fn view(&self) -> FrameView {
        match *self {
            Frame::Text { text } => FrameView::Text { text: text@ },
            Frame::Binary { bytes } => FrameView::Binary { bytes: bytes@ },
        }
    }
}

/// Where a relay stands.
#[derive(Clone, Copy, Debug, PartialEq, Eq, Structural)]
pub enum RelayPhase {
    /// Both sides are listened to.
    Listening,
    /// A message is on its way to the consumer.
    Sending,
    /// The session is over.
    Closed,
}

/// What happens to a relay from outside.
#[derive(Clone, Debug)]
pub enum RelayEvent {
    /// The feed sends data.
    UpstreamData { frame: Frame },
    /// The feed sends a ping, pong or raw frame, which is not billable.
    UpstreamControl,
    /// The feed closes or ends.
    UpstreamClosed,
    /// The feed breaks.
    UpstreamFailed,
    /// The consumer sends something; the subscription is in the path, so it is ignored.
    ClientMessage,
    /// The consumer closes or is gone.
    ClientClosed,
    /// The consumer's side breaks.
    ClientFailed,
    /// The message reached the consumer's side.
    Sent,
    /// The message could not be sent.
    SendFailed,
}

/// What happens to a relay from outside.
pub enum RelayEventView {
    UpstreamData { frame: FrameView },
    UpstreamControl,
    UpstreamClosed,
    UpstreamFailed,
    ClientMessage,
    ClientClosed,
    ClientFailed,
    Sent,
    SendFailed,
}

impl View for RelayEvent {
    type V = RelayEventView;

    open spec fn view(&self) -> RelayEventView {
        match *self {
            RelayEvent::UpstreamData { frame } => RelayEventView::UpstreamData { frame: frame@ },
            RelayEvent::UpstreamControl => RelayEventView::UpstreamControl,
            RelayEvent::UpstreamClosed => RelayEventView::UpstreamClosed,
            RelayEvent::UpstreamFailed => RelayEventView::UpstreamFailed,
            RelayEvent::ClientMessage => RelayEventView::ClientMessage,
            RelayEvent::ClientClosed => RelayEventView::ClientClosed,
            RelayEvent::ClientFailed => RelayEventView::ClientFailed,
            RelayEvent::Sent => RelayEventView::Sent,
            RelayEvent::SendFailed => RelayEventView::SendFailed,
        }
    }
}

/// What a relay asks for.
#[derive(Clone, Debug)]
pub enum RelayAction {
    /// Send the message to the consumer.
    Send { frame: Frame },
    /// Wait for either side.
    Wait,
    /// Close the feed.
    Close,
}

/// What a relay asks for.
pub enum RelayActionView {
    Send { frame: FrameView },
    Wait,
    Close,
}

impl View for RelayAction {
    type V = RelayActionView;

    open spec fn view(&self) -> RelayActionView {
        match *self {
            RelayAction::Send { frame } => RelayActionView::Send { frame: frame@ },
            RelayAction::Wait => RelayActionView::Wait,
            RelayAction::Close => RelayActionView::Close,
        }
    }
}

/// The relay of one session.
#[derive(Clone, Debug)]
pub struct Relay {
    /// How many messages reached the consumer's side.
    pub delivered: u64,
    pub phase: RelayPhase,
}

/// The state of a relay.
#[verifier::ext_equal]
pub struct RelayState {
    pub delivered: nat,
    pub phase: RelayPhase,
}

impl View for Relay {
    type V = RelayState;

    open spec fn view(&self) -> RelayState {
        RelayState { delivered: self.delivered as nat, phase: self.phase }
    }
}

impl RelayState {
    /// Whether `event` can happen now.
    pub open spec fn accepts(self, event: RelayEventView) -> bool {
        match self.phase {
            RelayPhase::Listening => !(event is Sent || event is SendFailed),
            RelayPhase::Sending => event is Sent || event is SendFailed,
            RelayPhase::Closed => false,
        }
    }

    /// What is asked for after `event`.
    pub open spec fn action(self, event: RelayEventView) -> RelayActionView {
        match event {
            RelayEventView::UpstreamData { frame } => RelayActionView::Send { frame },
            RelayEventView::UpstreamControl
            | RelayEventView::ClientMessage
            | RelayEventView::Sent => RelayActionView::Wait,
            RelayEventView::UpstreamClosed
            | RelayEventView::UpstreamFailed
            | RelayEventView::ClientClosed
            | RelayEventView::ClientFailed
            | RelayEventView::SendFailed => RelayActionView::Close,
        }
    }

    /// The state after `event`.
    pub open spec fn after(self, event: RelayEventView) -> RelayState {
        RelayState {
            delivered: if event is Sent {
                self.delivered + 1
            } else {
                self.delivered
            },
            phase: match self.action(event) {
                RelayActionView::Send { .. } => RelayPhase::Sending,
                RelayActionView::Wait => RelayPhase::Listening,
                RelayActionView::Close => RelayPhase::Closed,
            },
        }
    }
}

impl Relay {
    /// A relay that has delivered nothing yet.
    pub fn new() -> (relay: Relay)
        ensures
            relay@ == (RelayState { delivered: 0, phase: RelayPhase::Listening }),
    {
        Relay { delivered: 0, phase: RelayPhase::Listening }
    }

    /// Takes in an event and says what is to be done.
    pub fn step(&mut self, event: RelayEvent) -> (action: RelayAction)
        requires
            old(self)@.accepts(event@),
            event is Sent ==> old(self).delivered < u64::MAX,
        ensures
            final(self)@ == old(self)@.after(event@),
            action@ == old(self)@.action(event@),
    {
        match event {
            RelayEvent::UpstreamData { frame } => {
                self.phase = RelayPhase::Sending;
                RelayAction::Send { frame }
            },
            RelayEvent::Sent => {
                self.delivered += 1;
                self.phase = RelayPhase::Listening;
                RelayAction::Wait
            },
            RelayEvent::UpstreamControl => RelayAction::Wait,
            RelayEvent::ClientMessage => RelayAction::Wait,
            RelayEvent::UpstreamClosed => self.close(),
            RelayEvent::UpstreamFailed => self.close(),
            RelayEvent::ClientClosed => self.close(),
            RelayEvent::ClientFailed => self.close(),
            RelayEvent::SendFailed => self.close(),
        }
    }

    fn close(&mut self) -> (action: RelayAction)
        ensures
            final(self)@ == (RelayState { phase: RelayPhase::Closed, ..old(self)@ }),
            action is Close,
    {
        self.phase = RelayPhase::Closed;
        RelayAction::Close
    }
}

// ── Laws ─────────────────────────────────────────────────────────────────────

/// No receipt, no stream: a request is upgraded only after its receipt was accepted and its row
/// freshly written, and the row is that of the accepted receipt.
pub proof fn streams_only_for_stored_receipts(
    parsed: Result<SignedReceiptView, Seq<char>>,
    config: Config,
    domain_sep: Seq<u8>,
    now_ns: u64,
    outcome: InsertOutcomeView,
    upstream: Seq<char>,
)
    ensures
        !(receipt_action(config_verdict(parsed, config, domain_sep, now_ns)) is Upgrade),
        receipt_action(config_verdict(parsed, config, domain_sep, now_ns))
            matches SessionActionView::Insert { row } ==> config_verdict(
            parsed,
            config,
            domain_sep,
            now_ns,
        ) matches Ok(v) && row == receipt_row_of(v) && Ok::<SignedReceiptView, Seq<char>>(
            SignedReceiptView { receipt: v.receipt, signature: v.signature },
        ) == parsed,
        insert_action(outcome, upstream) is Upgrade <==> outcome is Inserted,
{
}

/// A request that is turned down is answered with 402 and the reason if its receipt is refused or
/// its nonce was used before, and with 500 only if the row could not be written.
pub proof fn refusals_are_answered(
    verdict: Result<ValidatedReceiptView, TapErrorView>,
    outcome: InsertOutcomeView,
    upstream: Seq<char>,
)
    ensures
        receipt_action(verdict) is Reject <==> verdict is Err,
        verdict matches Err(e) ==> receipt_action(verdict) == (SessionActionView::Reject {
            rejection: RejectionView { status: 402, message: e.text() },
        }),
        insert_action(outcome, upstream) matches SessionActionView::Reject { rejection } ==> {
            &&& rejection.status == 402 <==> outcome is DuplicateNonce
            &&& rejection.status == 500 <==> outcome is Failed
        },
{
}

/// Whether `events` can happen, one after the other, from `state` on.
pub open spec fn possible(state: RelayState, events: Seq<RelayEventView>) -> bool
    decreases events.len(),
{
    events.len() == 0 || (possible(state, events.drop_last()) && reached(
        state,
        events.drop_last(),
    ).accepts(events.last()))
}

/// The state that `events` lead to from `state`.
pub open spec fn reached(state: RelayState, events: Seq<RelayEventView>) -> RelayState
    decreases events.len(),
{
    if events.len() == 0 {
        state
    } else {
        reached(state, events.drop_last()).after(events.last())
    }
}

/// The data that the feed sends in the course of `events`.
pub open spec fn upstream_data(events: Seq<RelayEventView>) -> Seq<FrameView>
    decreases events.len(),
{
    if events.len() == 0 {
        Seq::empty()
    } else {
        match events.last() {
            RelayEventView::UpstreamData { frame } => upstream_data(events.drop_last()).push(frame),
            _ => upstream_data(events.drop_last()),
        }
    }
}

/// The messages that are sent to the consumer in the course of `events`.
pub open spec fn sent(state: RelayState, events: Seq<RelayEventView>) -> Seq<FrameView>
    decreases events.len(),
{
    if events.len() == 0 {
        Seq::empty()
    } else {
        match reached(state, events.drop_last()).action(events.last()) {
            RelayActionView::Send { frame } => sent(state, events.drop_last()).push(frame),
            _ => sent(state, events.drop_last()),
        }
    }
}

/// The state in which a relay starts.
pub open spec fn relay_start() -> RelayState {
    RelayState { delivered: 0, phase: RelayPhase::Listening }
}

/// Every data message of the feed is sent to the consumer, once, in order and unchanged, and
/// nothing else is.
pub proof fn relays_every_message(events: Seq<RelayEventView>)
    ensures
        sent(relay_start(), events) == upstream_data(events),
    decreases events.len(),
{
    if events.len() > 0 {
        relays_every_message(events.drop_last());
    }
}

/// What counts as delivered is what was sent, but for the last message, which may be on its way
/// or have failed.
pub proof fn counts_what_is_delivered(events: Seq<RelayEventView>)
    requires
        possible(relay_start(), events),
    ensures
        ({
            let now = reached(relay_start(), events);
            let n = sent(relay_start(), events).len();
            &&& now.phase is Listening ==> now.delivered == n
            &&& now.phase is Sending ==> now.delivered + 1 == n
            &&& now.phase is Closed ==> now.delivered == n || now.delivered + 1 == n
            &&& now.phase is Closed && now.delivered + 1 == n ==> events.last() is SendFailed
        }),
    decreases events.len(),
{
    if events.len() > 0 {
        counts_what_is_delivered(events.drop_last());
    }
}

/// Only data that arrives is billed: a session's count never exceeds the feed's data messages.
pub proof fn bills_no_more_than_data(events: Seq<RelayEventView>)
    requires
        possible(relay_start(), events),
    ensures
        reached(relay_start(), events).delivered <= upstream_data(events).len(),
{
    counts_what_is_delivered(events);
    relays_every_message(events);
}

// ── What each event leads to ─────────────────────────────────────────────────

/// Whether `event` is the end of a session: the feed or the consumer closes or breaks, or a message
/// cannot be sent.
pub open spec fn is_an_end(event: RelayEventView) -> bool {
    event is UpstreamClosed || event is UpstreamFailed || event is ClientClosed || event
        is ClientFailed || event is SendFailed
}

/// A session goes on until either side ends it: as long as neither the feed nor the consumer closes
/// or breaks, and every message can be sent, the relay is not closed, however many messages,
/// keep-alives and other frames there have been. Each of the five ends closes it.
pub proof fn relay_ends_only_when_a_side_ends(events: Seq<RelayEventView>)
    requires
        possible(relay_start(), events),
    ensures
        (forall|i: int|
            0 <= i < events.len() ==> !((#[trigger] events[i]) is UpstreamClosed || events[i]
                is UpstreamFailed || events[i] is ClientClosed || events[i] is ClientFailed
                || events[i] is SendFailed)) <==> !(reached(relay_start(), events).phase is Closed),
    decreases events.len(),
{
    if events.len() > 0 {
        let before = events.drop_last();
        relay_ends_only_when_a_side_ends(before);
        assert(reached(relay_start(), before).accepts(events.last()));
        assert(!(reached(relay_start(), before).phase is Closed));
        assert forall|i: int| 0 <= i < before.len() implies !is_an_end(#[trigger] events[i]) by {
            assert(before[i] == events[i]);
        }
        if !is_an_end(events.last()) {
            assert forall|i: int| 0 <= i < events.len() implies !is_an_end(#[trigger] events[i]) by {
            }
        } else {
            assert(is_an_end(events[events.len() - 1]));
        }
    }
}

/// A data message is sent on, as it is; a message that was sent counts; anything else that is no
/// end changes nothing; an end closes the session and leaves the count.
pub proof fn relay_answers_each_event(state: RelayState, frame: FrameView, event: RelayEventView)
    ensures
        state.action(RelayEventView::UpstreamData { frame }) == (RelayActionView::Send { frame }),
        state.after(RelayEventView::UpstreamData { frame }) == (RelayState {
            delivered: state.delivered,
            phase: RelayPhase::Sending,
        }),
        state.action(RelayEventView::Sent) is Wait,
        state.after(RelayEventView::Sent) == (RelayState {
            delivered: state.delivered + 1,
            phase: RelayPhase::Listening,
        }),
        event is UpstreamControl || event is ClientMessage ==> state.action(event) is Wait
            && state.after(event) == (RelayState {
            delivered: state.delivered,
            phase: RelayPhase::Listening,
        }),
        event is UpstreamClosed || event is UpstreamFailed || event is ClientClosed || event
            is ClientFailed || event is SendFailed ==> state.action(event) is Close && state.after(
            event,
        ) == (RelayState { delivered: state.delivered, phase: RelayPhase::Closed }),
{
}

/// Keep-alives of the feed and frames of the consumer make no difference: a listening relay is in
/// the same state after one as before it.
pub proof fn other_frames_make_no_difference(state: RelayState)
    requires
        state.phase is Listening,
    ensures
        state.accepts(RelayEventView::UpstreamControl),
        state.accepts(RelayEventView::ClientMessage),
        state.after(RelayEventView::UpstreamControl) == state,
        state.after(RelayEventView::ClientMessage) == state,
{
}

/// While a message is on its way only its fate is waited for; else anything but that; and nothing
/// once the session is closed.
pub proof fn waits_for_what_it_asked_for(state: RelayState, event: RelayEventView)
    ensures
        state.phase is Listening ==> (state.accepts(event) <==> !(event is Sent) && !(event
            is SendFailed)),
        state.phase is Sending ==> (state.accepts(event) <==> event is Sent || event is SendFailed),
        state.phase is Closed ==> !state.accepts(event),
{
}

/// A session starts with nothing delivered, listening to both sides.
pub proof fn session_starts_listening()
    ensures
        relay_start().delivered == 0,
        relay_start().phase is Listening,
{
}

/// A request is judged under its configuration: by the senders, the service, the provider and the
/// age that it sets. If it is accepted its row is to be written; if not it is answered 402 with the
/// reason.
pub proof fn request_is_judged_by_the_configuration(
    parsed: Result<SignedReceiptView, Seq<char>>,
    config: Config,
    domain_sep: Seq<u8>,
    now_ns: u64,
)
    ensures
        ({
            let verdict = receipt_verdict(
                parsed,
                domain_sep,
                config.tap.authorized_senders@,
                config.tap.data_service_address.0@,
                config.indexer.service_provider_address.0@,
                config.tap.max_receipt_age_ns,
                now_ns,
            );
            let action = receipt_action(config_verdict(parsed, config, domain_sep, now_ns));
            &&& verdict matches Err(e) ==> action == (SessionActionView::Reject {
                rejection: RejectionView { status: 402, message: e.text() },
            })
            &&& verdict matches Ok(v) ==> action matches SessionActionView::Insert { row } && {
                &&& row.signer_address == prefixed_hex(v.signer)
                &&& row.payer_address == prefixed_hex(v.payer)
                &&& row.timestamp_ns == stored_u64(v.receipt.timestamp_ns)
                &&& row.nonce == stored_u64(v.receipt.nonce)
                &&& row.value == decimal(v.receipt.value as nat)
                &&& row.signature == v.signature
                &&& row.metadata == v.receipt.metadata
            }
        }),
{
}

/// A session whose receipt is accepted was for this service and provider, in time, and by an
/// authorised sender where the configuration names any.
pub proof fn admitted_sessions_are_paid_for(
    signed: SignedReceiptView,
    config: Config,
    domain_sep: Seq<u8>,
    now_ns: u64,
)
    requires
        receipt_action(config_verdict(Ok(signed), config, domain_sep, now_ns)) is Insert,
    ensures
        signed.receipt.data_service == config.tap.data_service_address.0@,
        signed.receipt.service_provider == config.indexer.service_provider_address.0@,
        now_ns <= signed.receipt.timestamp_ns + config.tap.max_receipt_age_ns,
        signer_of(message_digest(domain_sep, receipt_digest(signed.receipt)), signed.signature)
            matches Ok(signer) && (config.tap.authorized_senders@.len() > 0 ==> exists|i: int|
            0 <= i < config.tap.authorized_senders@.len() && (
            #[trigger] config.tap.authorized_senders@[i]).0@ == signer),
{
    accepted_signer_is_listed(
        Ok(signed),
        domain_sep,
        config.tap.authorized_senders@,
        config.tap.data_service_address@,
        config.indexer.service_provider_address@,
        config.tap.max_receipt_age_ns,
        now_ns,
    );
}

/// A row that is written opens the stream; a nonce that was used before is answered 402, and a row
/// that could not be written 500 with the reason.
pub proof fn row_decides_on_the_stream(error: Seq<char>, upstream: Seq<char>)
    ensures
        insert_action(InsertOutcomeView::Inserted, upstream) == (SessionActionView::Upgrade {
            upstream,
        }),
        insert_action(InsertOutcomeView::DuplicateNonce, upstream) == (SessionActionView::Reject {
            rejection: RejectionView { status: 402, message: "receipt nonce already used"@ },
        }),
        insert_action(InsertOutcomeView::Failed { error }, upstream) == (SessionActionView::Reject {
            rejection: RejectionView { status: 500, message: error },
        }),
{
}

/// The feed is at the base URL without the slashes at its end, `/ws/`, the chain, `@`, the topic,
/// `?token=` and the token.
pub proof fn feed_is_at_its_url(
    base: Seq<char>,
    slashes: nat,
    chain: Seq<char>,
    topic: Seq<char>,
    token: Seq<char>,
)
    requires
        base.len() > 0 ==> base[base.len() - 1] != '/',
    ensures
        upstream_of(base + Seq::new(slashes, |i: int| '/'), chain, topic, token) == base + "/ws/"@
            + chain + "@"@ + topic + "?token="@ + token,
    decreases slashes,
{
    let spelled = base + Seq::new(slashes, |i: int| '/');
    if slashes > 0 {
        let fewer = (slashes - 1) as nat;
        assert(spelled.drop_last() =~= base + Seq::new(fewer, |i: int| '/'));
        feed_is_at_its_url(base, fewer, chain, topic, token);
    } else {
        assert(spelled =~= base);
    }
}

/// What the consumer is told when the feed cannot be opened.
pub proof fn connect_failures_are_worded(error: Seq<char>)
    ensures
        connect_failed_of(error) == "{\"error\":\"upstream connect failed: "@ + error + "\"}"@,
{
}

/// Frames, events, actions and answers stand for what they carry.
pub proof fn carried_values_are_the_value(
    frame: Frame,
    event: RelayEvent,
    action: RelayAction,
    relay: Relay,
    rejection: Rejection,
    outcome: InsertOutcome,
    session: SessionAction,
)
    ensures
        frame matches Frame::Text { text } ==> frame@ == (FrameView::Text { text: text@ }),
        frame matches Frame::Binary { bytes } ==> frame@ == (FrameView::Binary { bytes: bytes@ }),
        event matches RelayEvent::UpstreamData { frame } ==> event@ == (
        RelayEventView::UpstreamData { frame: frame@ }),
        event is UpstreamControl ==> event@ is UpstreamControl,
        event is UpstreamClosed ==> event@ is UpstreamClosed,
        event is UpstreamFailed ==> event@ is UpstreamFailed,
        event is ClientMessage ==> event@ is ClientMessage,
        event is ClientClosed ==> event@ is ClientClosed,
        event is ClientFailed ==> event@ is ClientFailed,
        event is Sent ==> event@ is Sent,
        event is SendFailed ==> event@ is SendFailed,
        action matches RelayAction::Send { frame } ==> action@ == (RelayActionView::Send {
            frame: frame@,
        }),
        action is Wait ==> action@ is Wait,
        action is Close ==> action@ is Close,
        relay@.delivered == relay.delivered,
        relay@.phase == relay.phase,
        rejection@.status == rejection.status,
        rejection@.message == rejection.message@,
        outcome is Inserted ==> outcome@ is Inserted,
        outcome is DuplicateNonce ==> outcome@ is DuplicateNonce,
        outcome matches InsertOutcome::Failed { error } ==> outcome@ == (
        InsertOutcomeView::Failed { error: error@ }),
        session matches SessionAction::Insert { row } ==> session@ == (SessionActionView::Insert {
            row: row@,
        }),
        session matches SessionAction::Upgrade { upstream } ==> session@ == (
        SessionActionView::Upgrade { upstream: upstream@ }),
        session matches SessionAction::Reject { rejection } ==> session@ == (
        SessionActionView::Reject { rejection: rejection@ }),
{
}

/// What is accepted is written to its row, column by column, and what is refused is answered 402;
/// a configuration judges by its own senders, service, provider and age.
pub proof fn verdicts_become_actions(
    outcome: Result<ValidatedReceiptView, TapErrorView>,
    parsed: Result<SignedReceiptView, Seq<char>>,
    config: Config,
    domain_sep: Seq<u8>,
    now_ns: u64,
)
    ensures
        outcome matches Err(e) ==> receipt_action(outcome) == (SessionActionView::Reject {
            rejection: RejectionView { status: 402, message: e.text() },
        }),
        outcome matches Ok(v) ==> receipt_action(outcome) matches SessionActionView::Insert { row }
            && {
            &&& row.signer_address == prefixed_hex(v.signer)
            &&& row.payer_address == prefixed_hex(v.payer)
            &&& row.timestamp_ns == stored_u64(v.receipt.timestamp_ns)
            &&& row.nonce == stored_u64(v.receipt.nonce)
            &&& row.value == decimal(v.receipt.value as nat)
            &&& row.signature == v.signature
            &&& row.metadata == v.receipt.metadata
        },
        config_verdict(parsed, config, domain_sep, now_ns) == receipt_verdict(
            parsed,
            domain_sep,
            config.tap.authorized_senders@,
            config.tap.data_service_address.0@,
            config.indexer.service_provider_address.0@,
            config.tap.max_receipt_age_ns,
            now_ns,
        ),
        PAYMENT_REQUIRED == 402,
        INTERNAL_SERVER_ERROR == 500,
{
}

} // verus!
