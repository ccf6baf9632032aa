//! The feed client's rules.
//!
//! Talking to the feed is somebody else's work: a driver opens the
//! connection, writes and reads frames, and reports each outcome as a
//! [`FeedEvent`]. What to do next is decided here. [`FeedClient::step`]
//! takes the event and answers with the [`FeedAction`] to perform, so the
//! sequence of updates that a consumer sees is fixed by this module alone.

use crate::data_format::{ChartData, Violation};
use crate::data_format::{lemma_malformed_bar_is_refused, lemma_normalized_is_canonical};
use vstd::prelude::*;
use vstd::string::*;

verus! {

/// `serde_json::Error`, carried from the encoder to the place where it is
/// turned into a [`FeedError`]; nothing of it is read.
#[verifier::external_type_specification]
#[verifier::external_body]
pub struct ExJsonError(serde_json::Error);

/// What a subscription request asks of the feed.
#[derive(Clone, Copy, Debug, PartialEq, Eq, Structural)]
pub enum Action {
    Subscribe,
    Unsubscribe,
}

/// A request to start or stop the updates of one symbol. Built once and
/// never changed.
#[derive(Clone, Debug, PartialEq, Eq)]
pub struct SubscriptionRequest {
    pub action: Action,
    pub symbol: String,
}

/// Why the feed did not deliver.
#[derive(Clone, Debug, PartialEq, Eq)]
pub enum FeedError {
    /// The connection could not be opened, or it broke. Ends the stream.
    Connection { cause: String },
    /// A frame could not be written. Ends the stream.
    Send { cause: String },
    /// A text frame of `payload_len` bytes was not a snapshot; `message`
    /// is the parser's. The stream goes on.
    Decode { payload_len: usize, message: String },
    /// A text frame of `payload_len` bytes parsed as a snapshot that
    /// breaks a rule of the series model. Nothing of it is kept; the
    /// stream goes on.
    InvariantViolation { payload_len: usize, violation: Violation },
}

/// One frame as the driver read it.
#[derive(Debug, PartialEq, Eq)]
pub enum Frame {
    /// A text frame of `payload_len` bytes, with what the parser made of
    /// it: a snapshot, unchecked, or the parser's message.
    Text { payload_len: usize, parsed: Result<ChartData, String> },
    Binary,
    Ping,
    Pong,
    Close,
}

/// What happened to the last action.
#[derive(Debug, PartialEq, Eq)]
pub enum FeedEvent {
    /// The consumer wants the feed.
    Start,
    /// The connection is open.
    Connected,
    /// The connection could not be opened.
    ConnectFailed { cause: String },
    /// The frame was written.
    Sent,
    /// The frame could not be written.
    SendFailed { cause: String },
    /// A frame arrived.
    Received(Frame),
    /// Reading failed, or the connection broke.
    TransportFailed { cause: String },
    /// The peer is gone: there is nothing more to read.
    Ended,
    /// The consumer is done with the feed.
    Stop,
}

/// What the driver is to do next.
#[derive(Debug, PartialEq, Eq)]
pub enum FeedAction {
    /// Open the connection.
    Connect,
    /// Write `frame` as one text frame.
    Send { frame: String },
    /// Read the next frame.
    Receive,
    /// Hand the element to the consumer, then read the next frame.
    Deliver(Result<ChartData, FeedError>),
    /// The sequence is over. An error, if there is one, is its last
    /// element. Close the connection.
    Finish(Option<FeedError>),
    /// The event did not belong to this moment; nothing changes.
    Nothing,
}

/// Where a client stands.
#[derive(Clone, Copy, Debug, PartialEq, Eq, Structural)]
pub enum Phase {
    /// Not started.
    Idle,
    /// Waiting for the connection.
    Connecting,
    /// Waiting for subscription frame `next` to be written.
    Subscribing { next: usize },
    /// Reading updates.
    Streaming,
    /// Over. A new client is needed to go on.
    Closed,
}

/// The rules of one connection to the feed.
pub struct FeedClient {
    phase: Phase,
    frames: Vec<String>,
}

/// The JSON string literal for `text`, quotes and escapes included, as
/// `serde_json::to_string` gives it; `None` where it gives an error.
pub uninterp spec fn json_string_literal(text: Seq<char>) -> Option<Seq<char>>;

/// `serde_json::to_string` on a string slice. The result, success or not,
/// depends on the text alone, and is known here only by its name.
#[verifier::external_body]
fn quote_json(text: &str) -> (quoted: Result<String, serde_json::Error>)
    ensures
        match quoted {
            Ok(literal) => json_string_literal(text@) == Some(literal@),
            Err(_) => json_string_literal(text@) is None,
        },
{
    serde_json::to_string(text)
}

impl Action {
    /// The word for the action on the wire.
    pub open spec fn wire_name(self) -> Seq<char> {
        match self {
            Action::Subscribe => "subscribe"@,
            Action::Unsubscribe => "unsubscribe"@,
        }
    }

    /// The word for the action on the wire.
    pub fn name(&self) -> (word: &'static str)
        ensures
            word@ == self.wire_name(),
    {
        match self {
            Action::Subscribe => "subscribe",
            Action::Unsubscribe => "unsubscribe",
        }
    }
}

/// The text of a subscription frame, given the symbol as a JSON string
/// literal: `{"action":"<word>","symbol":<literal>}`.
pub open spec fn subscription_text(action: Action, quoted_symbol: Seq<char>) -> Seq<char> {
    "{\"action\":\""@ + action.wire_name() + "\",\"symbol\":"@ + quoted_symbol + "}"@
}

/// Puts a subscription frame together from the action and the symbol's
/// JSON string literal.
pub fn subscription_frame(action: Action, quoted_symbol: &str) -> (frame: String)
    ensures
        frame@ == subscription_text(action, quoted_symbol@),
{
    let mut frame = String::from_str("{\"action\":\"");
    frame.append(action.name());
    frame.append("\",\"symbol\":");
    frame.append(quoted_symbol);
    frame.append("}");
    frame
}

impl SubscriptionRequest {
    /// A request for `symbol`.
    pub fn new(action: Action, symbol: String) -> (request: Self)
        ensures
            request.action == action,
            request.symbol == symbol,
    {
        SubscriptionRequest { action, symbol }
    }

    /// The frame that carries the request, where the symbol can be written
    /// as a JSON string.
    pub open spec fn wire_text(self) -> Option<Seq<char>> {
        match json_string_literal(self.symbol@) {
            Some(literal) => Some(subscription_text(self.action, literal)),
            None => None,
        }
    }

    /// Encodes the request as the text of one frame. Fails with
    /// [`FeedError::Send`] exactly where the symbol cannot be written as a
    /// JSON string.
    pub fn encode(&self) -> (encoded: Result<String, FeedError>)
        ensures
            match encoded {
                Ok(frame) => self.wire_text() == Some(frame@),
                Err(e) => self.wire_text() is None && e is Send,
            },
    {
        match quote_json(self.symbol.as_str()) {
            Ok(literal) => Ok(subscription_frame(self.action, literal.as_str())),
            Err(_) => Err(
                FeedError::Send { cause: String::from_str("symbol is not encodable as JSON") },
            ),
        }
    }
}

/// Whether `update` is what a text frame comes to: a parser failure is
/// reported with the frame's length and the parser's message; a snapshot
/// that breaks a rule is reported with the rule; any other snapshot is
/// delivered as its normalized series.
pub open spec fn is_update_of(
    payload_len: usize,
    parsed: Result<ChartData, String>,
    update: Result<ChartData, FeedError>,
) -> bool {
    match parsed {
        Err(parser_message) => update matches Err(FeedError::Decode { payload_len: n, message })
            && n == payload_len && message@ == parser_message@,
        Ok(snapshot) => match snapshot@.normalized() {
            Ok(series) => update matches Ok(delivered) && delivered@ == series,
            Err(rule) => update matches Err(
                FeedError::InvariantViolation { payload_len: n, violation },
            ) && n == payload_len && violation == rule,
        },
    }
}

/// Turns what the parser made of a text frame into the element that the
/// consumer gets.
pub fn decode_update(payload_len: usize, parsed: Result<ChartData, String>) -> (update: Result<
    ChartData,
    FeedError,
>)
    ensures
        is_update_of(payload_len, parsed, update),
{
    match parsed {
        Err(message) => Err(FeedError::Decode { payload_len, message }),
        Ok(snapshot) => match snapshot.normalized() {
            Ok(series) => Ok(series),
            Err(violation) => Err(FeedError::InvariantViolation { payload_len, violation }),
        },
    }
}

/// Whether `action` asks to write the frame `text`.
pub open spec fn sends(action: FeedAction, text: Seq<char>) -> bool {
    action matches FeedAction::Send { frame } && frame@ == text
}

/// Whether `action` hands the consumer what the text frame comes to.
pub open spec fn delivers(
    action: FeedAction,
    payload_len: usize,
    parsed: Result<ChartData, String>,
) -> bool {
    action matches FeedAction::Deliver(update) && is_update_of(payload_len, parsed, update)
}

/// Whether `action` ends the stream with a connection error for `cause`.
pub open spec fn fails_connection(action: FeedAction, cause: String) -> bool {
    action matches FeedAction::Finish(Some(FeedError::Connection { cause: reported }))
        && reported@ == cause@
}

/// Whether `action` ends the stream with a send error for `cause`.
pub open spec fn fails_send(action: FeedAction, cause: String) -> bool {
    action matches FeedAction::Finish(Some(FeedError::Send { cause: reported })) && reported@
        == cause@
}

/// Whether `action` ends the stream without an error.
pub open spec fn finishes_quietly(action: FeedAction) -> bool {
    action matches FeedAction::Finish(None)
}

/// The transition rule: from phase `pre`, with the subscription frames
/// `frames` to send, `event` leads to phase `post` and asks for `action`.
///
/// A client connects, sends its subscription frames one by one, then
/// reads. Every text frame becomes exactly one element for the consumer
/// and never ends the stream; binary, ping and pong frames are passed
/// over; a close frame, the end of the input and a transport failure end
/// the stream, the last with a final connection error. A consumer that
/// is done ends it at once, wherever the client stands. An event that
/// does not belong to the phase changes nothing.
pub open spec fn transition(
    pre: Phase,
    frames: Seq<Seq<char>>,
    event: FeedEvent,
    post: Phase,
    action: FeedAction,
) -> bool {
    match (pre, event) {
        (Phase::Idle, FeedEvent::Start) => post == Phase::Connecting && action is Connect,
        (Phase::Connecting, FeedEvent::Connected) => if frames.len() == 0 {
            post == Phase::Streaming && action is Receive
        } else {
            post == (Phase::Subscribing { next: 0 }) && sends(action, frames[0])
        },
        (Phase::Connecting, FeedEvent::ConnectFailed { cause }) => post == Phase::Closed
            && fails_connection(action, cause),
        (Phase::Subscribing { next }, FeedEvent::Sent) => if next + 1 < frames.len() {
            post == (Phase::Subscribing { next: (next + 1) as usize }) && sends(
                action,
                frames[next + 1],
            )
        } else {
            post == Phase::Streaming && action is Receive
        },
        (Phase::Subscribing { .. }, FeedEvent::SendFailed { cause }) => post == Phase::Closed
            && fails_send(action, cause),
        (Phase::Streaming, FeedEvent::Received(Frame::Text { payload_len, parsed })) => post
            == Phase::Streaming && delivers(action, payload_len, parsed),
        (Phase::Streaming, FeedEvent::Received(Frame::Close)) => post == Phase::Closed
            && finishes_quietly(action),
        (Phase::Streaming, FeedEvent::Received(_)) => post == Phase::Streaming
            && action is Receive,
        (Phase::Streaming, FeedEvent::Ended) => post == Phase::Closed && finishes_quietly(action),
        (Phase::Connecting, FeedEvent::TransportFailed { cause }) => post == Phase::Closed
            && fails_connection(action, cause),
        (Phase::Subscribing { .. }, FeedEvent::TransportFailed { cause }) => post == Phase::Closed
            && fails_connection(action, cause),
        (Phase::Streaming, FeedEvent::TransportFailed { cause }) => post == Phase::Closed
            && fails_connection(action, cause),
        (Phase::Closed, _) => post == Phase::Closed && action is Nothing,
        (_, FeedEvent::Stop) => post == Phase::Closed && finishes_quietly(action),
        _ => post == pre && action is Nothing,
    }
}

impl FeedClient {
    #[verifier::type_invariant]
    spec fn holds_its_place(self) -> bool {
        self.phase matches Phase::Subscribing { next } ==> next < self.frames@.len()
    }

    /// Where the client stands.
    pub closed spec fn phase_of(self) -> Phase {
        self.phase
    }

    /// The subscription frames that the client sends once connected, in
    /// order.
    pub closed spec fn frame_texts(self) -> Seq<Seq<char>> {
        Seq::new(self.frames@.len(), |i: int| self.frames@[i]@)
    }

    /// A client that will subscribe to `symbols`, in order, once it is
    /// connected. Fails with [`FeedError::Send`] exactly where one of the
    /// symbols cannot be written as a JSON string.
    pub fn new(symbols: &Vec<String>) -> (made: Result<FeedClient, FeedError>)
        ensures
            match made {
                Ok(client) => {
                    &&& client.phase_of() == Phase::Idle
                    &&& client.frame_texts().len() == symbols@.len()
                    &&& forall|i: int|
                        0 <= i < symbols@.len() ==> json_string_literal(symbols@[i]@) is Some
                            && #[trigger] client.frame_texts()[i] == subscription_text(
                            Action::Subscribe,
                            json_string_literal(symbols@[i]@)->0,
                        )
                },
                Err(e) => e is Send && exists|i: int|
                    0 <= i < symbols@.len() && json_string_literal(
                        (#[trigger] symbols@[i])@,
                    ) is None,
            },
    {
        let n = symbols.len();
        let mut frames: Vec<String> = Vec::new();
        let mut i: usize = 0;
        while i < n
            invariant
                i <= n,
                n == symbols@.len(),
                frames@.len() == i,
                forall|k: int| 0 <= k < i ==> json_string_literal(symbols@[k]@) is Some,
                forall|k: int|
                    0 <= k < i ==> (#[trigger] frames@[k])@ == subscription_text(
                        Action::Subscribe,
                        json_string_literal(symbols@[k]@)->0,
                    ),
            decreases n - i,
        {
            match quote_json(symbols[i].as_str()) {
                Ok(literal) => {
                    frames.push(subscription_frame(Action::Subscribe, literal.as_str()));
                },
                Err(_) => {
                    return Err(
                        FeedError::Send {
                            cause: String::from_str("symbol is not encodable as JSON"),
                        },
                    );
                },
            }
            i += 1;
        }
        let client = FeedClient { phase: Phase::Idle, frames };
        assert forall|k: int| 0 <= k < symbols@.len() implies json_string_literal(
            symbols@[k]@,
        ) is Some && #[trigger] client.frame_texts()[k] == subscription_text(
            Action::Subscribe,
            json_string_literal(symbols@[k]@)->0,
        ) by {
            assert(client.frame_texts()[k] == client.frames@[k]@);
        }
        Ok(client)
    }

    /// Where the client stands.
    pub fn phase(&self) -> (phase: Phase)
        ensures
            phase == self.phase_of(),
    {
        self.phase
    }

    /// Takes the outcome of the last action and answers with the next one,
    /// by the rule of [`transition`]. The frames to send never change.
    pub fn step(&mut self, event: FeedEvent) -> (action: FeedAction)
        ensures
            final(self).frame_texts() == old(self).frame_texts(),
            transition(
                old(self).phase_of(),
                old(self).frame_texts(),
                event,
                final(self).phase_of(),
                action,
            ),
    {
        proof {
            use_type_invariant(&*self);
        }
        match (self.phase, event) {
            (Phase::Idle, FeedEvent::Start) => {
                self.phase = Phase::Connecting;
                FeedAction::Connect
            },
            (Phase::Connecting, FeedEvent::Connected) => {
                if self.frames.len() == 0 {
                    self.phase = Phase::Streaming;
                    FeedAction::Receive
                } else {
                    self.phase = Phase::Subscribing { next: 0 };
                    FeedAction::Send { frame: self.frames[0].clone() }
                }
            },
            (Phase::Connecting, FeedEvent::ConnectFailed { cause }) => {
                self.phase = Phase::Closed;
                FeedAction::Finish(Some(FeedError::Connection { cause }))
            },
            (Phase::Subscribing { next }, FeedEvent::Sent) => {
                let count = self.frames.len();
                if next + 1 < count {
                    self.phase = Phase::Subscribing { next: next + 1 };
                    FeedAction::Send { frame: self.frames[next + 1].clone() }
                } else {
                    self.phase = Phase::Streaming;
                    FeedAction::Receive
                }
            },
            (Phase::Subscribing { .. }, FeedEvent::SendFailed { cause }) => {
                self.phase = Phase::Closed;
                FeedAction::Finish(Some(FeedError::Send { cause }))
            },
            (Phase::Streaming, FeedEvent::Received(Frame::Text { payload_len, parsed })) => {
                FeedAction::Deliver(decode_update(payload_len, parsed))
            },
            (Phase::Streaming, FeedEvent::Received(Frame::Close)) => {
                self.phase = Phase::Closed;
                FeedAction::Finish(None)
            },
            (Phase::Streaming, FeedEvent::Received(_)) => FeedAction::Receive,
            (Phase::Streaming, FeedEvent::Ended) => {
                self.phase = Phase::Closed;
                FeedAction::Finish(None)
            },
            (Phase::Connecting, FeedEvent::TransportFailed { cause }) => {
                self.phase = Phase::Closed;
                FeedAction::Finish(Some(FeedError::Connection { cause }))
            },
            (Phase::Subscribing { .. }, FeedEvent::TransportFailed { cause }) => {
                self.phase = Phase::Closed;
                FeedAction::Finish(Some(FeedError::Connection { cause }))
            },
            (Phase::Streaming, FeedEvent::TransportFailed { cause }) => {
                self.phase = Phase::Closed;
                FeedAction::Finish(Some(FeedError::Connection { cause }))
            },
            (Phase::Closed, _) => FeedAction::Nothing,
            (_, FeedEvent::Stop) => {
                self.phase = Phase::Closed;
                FeedAction::Finish(None)
            },
            _ => FeedAction::Nothing,
        }
    }
}

/// A text frame never ends the stream, whatever it holds: a streaming
/// client answers it with exactly one element for the consumer and goes on
/// streaming.
pub proof fn lemma_text_frame_keeps_streaming(
    frames: Seq<Seq<char>>,
    payload_len: usize,
    parsed: Result<ChartData, String>,
    post: Phase,
    action: FeedAction,
)
    requires
        transition(
            Phase::Streaming,
            frames,
            FeedEvent::Received(Frame::Text { payload_len, parsed }),
            post,
            action,
        ),
    ensures
        post == Phase::Streaming,
        action matches FeedAction::Deliver(update) && is_update_of(payload_len, parsed, update),
        parsed is Err ==> action matches FeedAction::Deliver(Err(FeedError::Decode { .. })),
{
}

/// A snapshot with a bar that breaks the price order is never delivered:
/// the consumer gets an invariant violation in its place.
pub proof fn lemma_malformed_snapshot_is_reported(
    payload_len: usize,
    snapshot: ChartData,
    update: Result<ChartData, FeedError>,
    i: int,
)
    requires
        is_update_of(payload_len, Ok(snapshot), update),
        0 <= i < snapshot@.data.len(),
        !snapshot@.data[i].price_ordered(),
    ensures
        update matches Err(FeedError::InvariantViolation { payload_len: n, violation })
            && n == payload_len && snapshot@.violation() == Some(violation),
{
    lemma_malformed_bar_is_refused(snapshot@, i);
}

/// What is delivered is a series as the model wants it.
pub proof fn lemma_delivered_series_is_canonical(
    payload_len: usize,
    parsed: Result<ChartData, String>,
    update: Result<ChartData, FeedError>,
)
    requires
        is_update_of(payload_len, parsed, update),
        update is Ok,
    ensures
        update->Ok_0@.canonical(),
{
    lemma_normalized_is_canonical(parsed->Ok_0@);
}

/// A consumer that is done ends the stream from any phase but the last,
/// without an error.
pub proof fn lemma_stop_closes(
    pre: Phase,
    frames: Seq<Seq<char>>,
    post: Phase,
    action: FeedAction,
)
    requires
        pre != Phase::Closed,
        transition(pre, frames, FeedEvent::Stop, post, action),
    ensures
        post == Phase::Closed,
        action matches FeedAction::Finish(None),
{
}

/// A closed client stays closed and asks for nothing more.
pub proof fn lemma_closed_is_final(
    frames: Seq<Seq<char>>,
    event: FeedEvent,
    post: Phase,
    action: FeedAction,
)
    requires
        transition(Phase::Closed, frames, event, post, action),
    ensures
        post == Phase::Closed,
        action is Nothing,
{
}

/// The stream ends only on a close frame, on the end of the input, on a
/// failure of the transport or where the consumer is done: any other event
/// leaves a streaming client streaming.
pub proof fn lemma_stream_ends_only_on_disconnect(
    frames: Seq<Seq<char>>,
    event: FeedEvent,
    post: Phase,
    action: FeedAction,
)
    requires
        transition(Phase::Streaming, frames, event, post, action),
    ensures
        post == Phase::Streaming || post == Phase::Closed,
        post == Phase::Closed <==> (event is Ended || event is TransportFailed || event is Stop
            || event == FeedEvent::Received(Frame::Close)),
        event is TransportFailed ==> action matches FeedAction::Finish(
            Some(FeedError::Connection { .. }),
        ),
{
}

} // verus!
