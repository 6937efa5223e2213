//! Per-connection logic: sub-protocol negotiation and the per-message
//! state machine. The surrounding process performs the transport and
//! device actions this module decides on.

use vstd::prelude::*;
use crate::decode::{decode, decode_model, str_eq, DecodeError};
use crate::json::json_parse;
use crate::protocol::{format_command, format_spec};

verus! {

/// State of one client connection after the handshake.
#[derive(Clone, Copy, PartialEq, Eq, Structural, Debug)]
pub enum ConnState {
    /// Messages are being received and handled.
    Open,
    /// A close frame was handled; the handler exits.
    Closed,
}

/// One incoming websocket message, as the handler reads it.
pub enum Msg {
    /// A close control frame.
    Close,
    /// A ping control frame, with its payload.
    Ping(Vec<u8>),
    /// A text frame holding one command payload.
    Text(String),
    /// Any other message kind.
    Other,
}

/// Model of an incoming message.
pub ghost enum MsgView {
    Close,
    Ping { payload: Seq<u8> },
    Text { body: Seq<char> },
    Other,
}

impl View for Msg {
    type V = MsgView;

    open spec fn view(&self) -> MsgView {
        match self {
            Msg::Close => MsgView::Close,
            Msg::Ping(p) => MsgView::Ping { payload: p@ },
            Msg::Text(t) => MsgView::Text { body: t@ },
            Msg::Other => MsgView::Other,
        }
    }
}

/// The one action the surrounding process must perform after a message
/// is handled.
pub enum Reply {
    /// Send a close acknowledgement.
    CloseAck,
    /// Send a pong carrying the ping's own payload.
    Pong(Vec<u8>),
    /// Write this formatted command string to the register device.
    DeviceWrite(String),
    /// Log this decode failure locally; nothing is sent to the client.
    LogDecodeError(DecodeError),
    /// Echo the message back unchanged.
    EchoBack,
}

/// Model of a reply.
pub ghost enum ReplyView {
    CloseAck,
    Pong { payload: Seq<u8> },
    DeviceWrite { line: Seq<char> },
    LogDecodeError { err: DecodeError },
    EchoBack,
}

impl View for Reply {
    type V = ReplyView;

    open spec fn view(&self) -> ReplyView {
        match self {
            Reply::CloseAck => ReplyView::CloseAck,
            Reply::Pong(p) => ReplyView::Pong { payload: p@ },
            Reply::DeviceWrite(s) => ReplyView::DeviceWrite { line: s@ },
            Reply::LogDecodeError(e) => ReplyView::LogDecodeError { err: *e },
            Reply::EchoBack => ReplyView::EchoBack,
        }
    }
}

/// The sub-protocol a client must request at the handshake.
pub open spec fn required_protocol() -> Seq<char> {
    "cashregisterbridge"@
}

/// Whether a handshake is accepted: true exactly when the client's
/// requested sub-protocol list names the required protocol; the
/// connection then enters the `Open` state, and is rejected otherwise.
#[verifier::loop_isolation(false)]
pub fn protocol_accepted(protocols: &Vec<String>) -> (r: bool)
    ensures
        r == exists|i: int| 0 <= i < protocols@.len() && #[trigger] protocols@[i]@
            == required_protocol(),
{
    let mut i: usize = 0;
    while i < protocols.len()
        invariant
            i <= protocols@.len(),
            forall|k: int| 0 <= k < i ==> #[trigger] protocols@[k]@ != required_protocol(),
        decreases protocols@.len() - i,
    {
        if str_eq(protocols[i].as_str(), "cashregisterbridge") {
            return true;
        }
        i = i + 1;
    }
    false
}

/// The per-message decision: the next connection state and the one
/// action to perform. A close is acknowledged and ends the connection; a
/// ping is answered by a pong with the identical payload; a text frame
/// is decoded and, on success, its formatted command is written to the
/// device, while a decode failure is only logged; anything else is
/// echoed back. Only a close leaves the `Open` state.
pub open spec fn step_spec(m: MsgView) -> (ConnState, ReplyView) {
    match m {
        MsgView::Close => (ConnState::Closed, ReplyView::CloseAck),
        MsgView::Ping { payload } => (ConnState::Open, ReplyView::Pong { payload }),
        MsgView::Text { body } => match decode_model(json_parse(body)) {
            Ok(c) => (ConnState::Open, ReplyView::DeviceWrite { line: format_spec(c) }),
            Err(e) => (ConnState::Open, ReplyView::LogDecodeError { err: e }),
        },
        MsgView::Other => (ConnState::Open, ReplyView::EchoBack),
    }
}

/// Handles one message received in the `Open` state.
pub fn step(m: Msg) -> (r: (ConnState, Reply))
    ensures
        (r.0, r.1@) == step_spec(m@),
{
    match m {
        Msg::Close => (ConnState::Closed, Reply::CloseAck),
        Msg::Ping(p) => (ConnState::Open, Reply::Pong(p)),
        Msg::Text(t) => match decode(t.as_str()) {
            Ok(c) => (ConnState::Open, Reply::DeviceWrite(format_command(&c))),
            Err(e) => (ConnState::Open, Reply::LogDecodeError(e)),
        },
        Msg::Other => (ConnState::Open, Reply::EchoBack),
    }
}

/// A ping always yields a pong carrying the identical payload, and
/// leaves the connection open, so command handling continues.
pub proof fn lemma_ping_yields_pong(payload: Seq<u8>)
    ensures
        step_spec(MsgView::Ping { payload }) == (ConnState::Open, ReplyView::Pong { payload }),
{
}

/// The replies of a run of messages handled in arrival order from the
/// `Open` state; handling stops after a close message.
pub open spec fn run_spec(msgs: Seq<MsgView>) -> Seq<ReplyView>
    decreases msgs.len(),
{
    if msgs.len() == 0 {
        Seq::empty()
    } else {
        let s = step_spec(msgs[0]);
        seq![s.1] + if s.0 is Closed {
            Seq::<ReplyView>::empty()
        } else {
            run_spec(msgs.drop_first())
        }
    }
}

/// The device writes among a sequence of replies, in order.
pub open spec fn device_writes(reps: Seq<ReplyView>) -> Seq<Seq<char>>
    decreases reps.len(),
{
    if reps.len() == 0 {
        Seq::empty()
    } else {
        (match reps[0] {
            ReplyView::DeviceWrite { line } => seq![line],
            _ => Seq::<Seq<char>>::empty(),
        }) + device_writes(reps.drop_first())
    }
}

/// The formatted commands a message run ought to write: one per text
/// frame that decodes, in arrival order.
pub open spec fn expected_writes(msgs: Seq<MsgView>) -> Seq<Seq<char>>
    decreases msgs.len(),
{
    if msgs.len() == 0 {
        Seq::empty()
    } else {
        (match msgs[0] {
            MsgView::Text { body } => match decode_model(json_parse(body)) {
                Ok(c) => seq![format_spec(c)],
                Err(_) => Seq::<Seq<char>>::empty(),
            },
            _ => Seq::<Seq<char>>::empty(),
        }) + expected_writes(msgs.drop_first())
    }
}

/// Commands submitted on one connection are written in submission
/// order: over any run without a close frame, the device writes are
/// exactly the formatted commands of the text frames that decode, in
/// arrival order. Pings, echoes and decode failures leave that order
/// untouched.
pub proof fn lemma_writes_in_submission_order(msgs: Seq<MsgView>)
    requires
        forall|i: int| 0 <= i < msgs.len() ==> !(#[trigger] msgs[i] is Close),
    ensures
        device_writes(run_spec(msgs)) == expected_writes(msgs),
    decreases msgs.len(),
{
    if msgs.len() > 0 {
        let tail = msgs.drop_first();
        assert(forall|i: int| 0 <= i < tail.len() ==> !(#[trigger] tail[i] is Close)) by {
            assert(forall|i: int| 0 <= i < tail.len() ==> tail[i] == msgs[i + 1]);
        }
        lemma_writes_in_submission_order(tail);
        let s = step_spec(msgs[0]);
        assert(!(msgs[0] is Close));
        assert(s.0 is Open);
        assert(run_spec(msgs) == seq![s.1] + run_spec(tail));
        let reps = seq![s.1] + run_spec(tail);
        assert(reps.drop_first() =~= run_spec(tail));
        assert(reps[0] == s.1);
        assert(device_writes(reps) == (match s.1 {
            ReplyView::DeviceWrite { line } => seq![line],
            _ => Seq::<Seq<char>>::empty(),
        }) + device_writes(run_spec(tail)));
    }
}

} // verus!
