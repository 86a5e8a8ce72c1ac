//! The per-connection session: decodes inbound frames, dispatches them to
//! the canvas store, encodes the replies and broadcasts, and runs the
//! liveness-probe cycle.
//!
//! The session is a state machine, `Connecting -> Active -> Closing ->
//! Closed`, with no transitions out of `Closed`. The transport layer owns
//! the socket and the timers; it feeds this module events and plain bytes
//! and carries out the returned decisions — which frames to write, when to
//! echo a probe, and when to force-close a silent connection.

use vstd::prelude::*;
use vstd::string::StringExecFns;

use crate::canvas::{
    apply_update, in_bounds, lemma_index_in_range, lemma_wf_grid_size, oob_failure, Broadcast,
    Canvas, CellUpdated, GetCell, ListenerConnected, ListenerDisconnected, ListenerId, UpdateCell,
};
use crate::codec::{
    decode_request, decode_request_spec, encode_request_spec, encode_response,
    encode_response_spec, lemma_request_round_trip, RequestPacket, ResponsePacket, ResponseView,
};
use crate::errors::{decode_error_chars, out_of_bounds_chars, DecodeError};
use crate::{Color, Coord};

verus! {

/// Milliseconds between two liveness probes.
pub const PING_INTERVAL_MS: u64 = 5000;

/// Milliseconds of silence after which a connection counts as dead.
pub const PING_TIMEOUT_MS: u64 = 10000;

/// Where a session stands in its life.
#[derive(Clone, Copy, PartialEq, Eq, Structural, Debug)]
pub enum SessionState {
    /// The connection exists; the listener is not yet registered.
    Connecting,
    /// Registered; frames and broadcasts flow.
    Active,
    /// Departing; the listener is unregistered on this path.
    Closing,
    /// Gone for good. No transitions leave this state.
    Closed,
}

/// How a forced close presents itself to the peer.
#[derive(Clone, Copy, PartialEq, Eq, Structural, Debug)]
pub enum CloseCode {
    Normal,
    Abnormal,
}

/// The session's instruction to the transport to close the connection.
#[derive(Clone, Debug)]
pub struct CloseReason {
    pub code: CloseCode,
    pub description: String,
}

/// What one liveness tick decides.
#[derive(Clone, Debug)]
pub enum PingAction {
    /// The peer answered recently enough: send the next probe.
    SendPing,
    /// The timeout window passed with no acknowledgment: force-close.
    Close(CloseReason),
}

/// One inbound transport event, as the transport layer hands it over.
#[derive(Clone, Debug)]
pub enum StreamEvent {
    /// A binary data frame: one request of the wire protocol.
    Binary(Vec<u8>),
    /// A liveness probe from the peer, to be echoed back.
    Ping(Vec<u8>),
    /// The peer's acknowledgment of this session's probe.
    Pong,
    /// The peer announced it is closing; the runtime tears the session down
    /// through [`Client::stopping`] afterwards.
    Close,
}

/// Everything one inbound event asks the transport to send.
#[derive(Clone, Debug)]
pub struct HandleOutcome {
    /// An encoded response frame for this connection.
    pub reply: Option<Vec<u8>>,
    /// A liveness acknowledgment to echo, with the probe's payload.
    pub pong: Option<Vec<u8>>,
    /// The fan-out of a successful write, addressed to every registered
    /// listener.
    pub broadcast: Option<Broadcast>,
}

/// The reply frame, if any, that a data frame earns against a given store
/// state: an error frame for undecodable bytes or an out-of-bounds address,
/// the cell data for a read, and nothing for a successful write — whose
/// answer is the broadcast instead.
pub open spec fn frame_response(c: Canvas, bytes: Seq<u8>) -> Option<ResponseView> {
    match decode_request_spec(bytes) {
        Err(e) => Some(ResponseView::Error { message: decode_error_chars(e) }),
        Ok(RequestPacket::GetCell { x, y }) => {
            if in_bounds(c.spec_width(), c.spec_height(), x, y) {
                Some(ResponseView::CellData { x, y, color: c.cell(x, y) })
            } else {
                let e = oob_failure(c.spec_width(), c.spec_height(), x, y);
                Some(
                    ResponseView::Error {
                        message: out_of_bounds_chars(e.axis, e.limit, e.value),
                    },
                )
            }
        },
        Ok(RequestPacket::SetCell { x, y, color }) => {
            if in_bounds(c.spec_width(), c.spec_height(), x, y) {
                None
            } else {
                let e = oob_failure(c.spec_width(), c.spec_height(), x, y);
                Some(
                    ResponseView::Error {
                        message: out_of_bounds_chars(e.axis, e.limit, e.value),
                    },
                )
            }
        },
    }
}

/// The grid after a data frame: only a decodable, in-bounds write changes it.
pub open spec fn frame_grid(c: Canvas, bytes: Seq<u8>) -> Seq<u8> {
    match decode_request_spec(bytes) {
        Ok(RequestPacket::SetCell { x, y, color }) => apply_update(
            c.spec_width(),
            c.spec_height(),
            c.grid(),
            UpdateCell { x, y, color },
        ),
        _ => c.grid(),
    }
}

/// Whether a data frame is a successful write, and therefore fans out one
/// `CellUpdated` notification.
pub open spec fn frame_broadcasts(c: Canvas, bytes: Seq<u8>) -> Option<CellUpdated> {
    match decode_request_spec(bytes) {
        Ok(RequestPacket::SetCell { x, y, color }) => {
            if in_bounds(c.spec_width(), c.spec_height(), x, y) {
                Some(CellUpdated { x, y, color })
            } else {
                None
            }
        },
        _ => None,
    }
}

/// A malformed frame is harmless: bytes that decode to no request change no
/// cell, fan out no broadcast, and earn exactly the error frame naming the
/// decode failure. The connection itself never pays for them.
pub proof fn lemma_malformed_frame_is_harmless(c: Canvas, bytes: Seq<u8>, e: DecodeError)
    requires
        decode_request_spec(bytes) == Err::<RequestPacket, DecodeError>(e),
    ensures
        frame_grid(c, bytes) == c.grid(),
        frame_broadcasts(c, bytes) is None,
        frame_response(c, bytes) == Some(ResponseView::Error { message: decode_error_chars(e) }),
{
}

/// Read-after-write over the wire: after the store has taken a well-formed,
/// in-bounds write frame, a read frame for the same cell is answered with
/// exactly the color just written.
pub proof fn lemma_wire_read_after_write(
    before: Canvas,
    after: Canvas,
    x: Coord,
    y: Coord,
    color: Color,
)
    requires
        before.wf(),
        in_bounds(before.spec_width(), before.spec_height(), x, y),
        after.spec_config() == before.spec_config(),
        after.grid() == frame_grid(
            before,
            encode_request_spec(RequestPacket::SetCell { x, y, color }),
        ),
    ensures
        frame_response(after, encode_request_spec(RequestPacket::GetCell { x, y })) == Some(
            ResponseView::CellData { x, y, color },
        ),
{
    lemma_request_round_trip(RequestPacket::SetCell { x, y, color });
    lemma_request_round_trip(RequestPacket::GetCell { x, y });
    lemma_wf_grid_size(before);
    lemma_index_in_range(before.spec_width(), before.spec_height(), x, y);
    assert(after.cell(x, y) == color);
}

/// One session, adapting one streaming connection to the store.
#[derive(Clone, Copy, PartialEq, Eq, Structural, Debug)]
pub struct Client {
    state: SessionState,
    listener: ListenerId,
    last_pong_time: u64,
}

impl Client {
    /// Where the session stands.
    pub closed spec fn spec_state(&self) -> SessionState {
        self.state
    }

    /// The identity under which this session's outbound channel is
    /// registered with the store.
    pub closed spec fn spec_listener(&self) -> ListenerId {
        self.listener
    }

    /// When the last liveness acknowledgment arrived, in the transport
    /// clock's milliseconds.
    pub closed spec fn spec_last_pong(&self) -> u64 {
        self.last_pong_time
    }

    /// Where the session stands, for the layer driving it.
    pub fn state(&self) -> (s: SessionState)
        ensures
            s == self.spec_state(),
    {
        self.state
    }

    /// When the last liveness acknowledgment arrived, for the layer driving
    /// the probe timer.
    pub fn last_pong(&self) -> (t: u64)
        ensures
            t == self.spec_last_pong(),
    {
        self.last_pong_time
    }

    /// A fresh session for a connection that just opened; the clock reading
    /// starts the liveness window.
    pub fn new(listener: ListenerId, now_ms: u64) -> (c: Client)
        ensures
            c.spec_state() == SessionState::Connecting,
            c.spec_listener() == listener,
            c.spec_last_pong() == now_ms,
    {
        Client { state: SessionState::Connecting, listener, last_pong_time: now_ms }
    }

    /// On connect: registers this session's listener with the store and
    /// becomes active. From here on the store addresses every broadcast to
    /// this session too.
    pub fn started(&mut self, canvas: &mut Canvas)
        requires
            old(self).spec_state() == SessionState::Connecting,
            old(canvas).wf(),
        ensures
            final(self).spec_state() == SessionState::Active,
            final(self).spec_listener() == old(self).spec_listener(),
            final(self).spec_last_pong() == old(self).spec_last_pong(),
            final(canvas).wf(),
            final(canvas).spec_config() == old(canvas).spec_config(),
            final(canvas).grid() == old(canvas).grid(),
            final(canvas).listener_set() == old(canvas).listener_set().insert(
                old(self).spec_listener(),
            ),
    {
        canvas.listener_connected(ListenerConnected { addr: self.listener });
        self.state = SessionState::Active;
    }

    /// On the way out, for any reason — client close, liveness timeout,
    /// transport error: unregisters this session's listener. Mandatory on
    /// every exit path; safe even if the listener was never registered.
    pub fn stopping(&mut self, canvas: &mut Canvas)
        requires
            old(self).spec_state() != SessionState::Closed,
            old(canvas).wf(),
        ensures
            final(self).spec_state() == SessionState::Closing,
            final(self).spec_listener() == old(self).spec_listener(),
            final(self).spec_last_pong() == old(self).spec_last_pong(),
            final(canvas).wf(),
            final(canvas).spec_config() == old(canvas).spec_config(),
            final(canvas).grid() == old(canvas).grid(),
            final(canvas).listener_set() == old(canvas).listener_set().remove(
                old(self).spec_listener(),
            ),
    {
        canvas.listener_disconnected(ListenerDisconnected { addr: self.listener });
        self.state = SessionState::Closing;
    }

    /// After the unregistration has completed, the session is closed for
    /// good; nothing transitions out of `Closed`.
    pub fn stopped(&mut self)
        requires
            old(self).spec_state() == SessionState::Closing,
        ensures
            final(self).spec_state() == SessionState::Closed,
            final(self).spec_listener() == old(self).spec_listener(),
            final(self).spec_last_pong() == old(self).spec_last_pong(),
    {
        self.state = SessionState::Closed;
    }

    /// One turn of the liveness-probe cycle, run every `PING_INTERVAL_MS`.
    /// If the last acknowledgment is older than the timeout window, the
    /// session moves to `Closing` and tells the transport to close the
    /// connection abnormally, naming the reason; otherwise it asks for the
    /// next probe to be sent and nothing changes.
    pub fn ping_tick(&mut self, now_ms: u64) -> (a: PingAction)
        requires
            old(self).spec_state() == SessionState::Active,
            now_ms >= old(self).spec_last_pong(),
        ensures
            final(self).spec_listener() == old(self).spec_listener(),
            final(self).spec_last_pong() == old(self).spec_last_pong(),
            now_ms - old(self).spec_last_pong() > PING_TIMEOUT_MS ==> {
                &&& final(self).spec_state() == SessionState::Closing
                &&& a matches PingAction::Close(r) && r.code == CloseCode::Abnormal
                    && r.description@ == "ping timed out"@
            },
            now_ms - old(self).spec_last_pong() <= PING_TIMEOUT_MS ==> {
                &&& *final(self) == *old(self)
                &&& a is SendPing
            },
    {
        if now_ms - self.last_pong_time > PING_TIMEOUT_MS {
            self.state = SessionState::Closing;
            let mut description = String::new();
            description.append("ping timed out");
            PingAction::Close(CloseReason { code: CloseCode::Abnormal, description })
        } else {
            PingAction::SendPing
        }
    }

    /// Records the peer's liveness acknowledgment, restarting the timeout
    /// window at the given clock reading.
    pub fn on_pong(&mut self, now_ms: u64)
        ensures
            final(self).spec_state() == old(self).spec_state(),
            final(self).spec_listener() == old(self).spec_listener(),
            final(self).spec_last_pong() == now_ms,
    {
        self.last_pong_time = now_ms;
    }

    /// Answers a read: the cell's data, or an error frame naming the axis
    /// that broke its bound.
    pub fn get_cell(&self, canvas: &Canvas, x: Coord, y: Coord) -> (f: Vec<u8>)
        requires
            canvas.wf(),
        ensures
            in_bounds(canvas.spec_width(), canvas.spec_height(), x, y) ==> f@
                == encode_response_spec(
                ResponseView::CellData { x, y, color: canvas.cell(x, y) },
            ),
            !in_bounds(canvas.spec_width(), canvas.spec_height(), x, y) ==> f@
                == encode_response_spec(
                ResponseView::Error {
                    message: out_of_bounds_chars(
                        oob_failure(canvas.spec_width(), canvas.spec_height(), x, y).axis,
                        oob_failure(canvas.spec_width(), canvas.spec_height(), x, y).limit,
                        oob_failure(canvas.spec_width(), canvas.spec_height(), x, y).value,
                    ),
                },
            ),
    {
        match canvas.get_cell(GetCell { x, y }) {
            Ok(color) => encode_response(&ResponsePacket::CellData { x, y, color }),
            Err(e) => encode_response(&ResponsePacket::Error { message: e.message() }),
        }
    }

    /// Applies a write: on success there is no direct reply — the broadcast
    /// carries the news to every registered listener, this session included;
    /// an out-of-bounds write earns an error frame and changes nothing.
    pub fn set_cell(&self, canvas: &mut Canvas, x: Coord, y: Coord, color: Color) -> (out: (
        Option<Vec<u8>>,
        Option<Broadcast>,
    ))
        requires
            old(canvas).wf(),
        ensures
            final(canvas).wf(),
            final(canvas).spec_config() == old(canvas).spec_config(),
            final(canvas).listeners() == old(canvas).listeners(),
            final(canvas).grid() == apply_update(
                old(canvas).spec_width(),
                old(canvas).spec_height(),
                old(canvas).grid(),
                UpdateCell { x, y, color },
            ),
            in_bounds(old(canvas).spec_width(), old(canvas).spec_height(), x, y) ==> {
                &&& out.0 is None
                &&& out.1 matches Some(b) && b.update == (CellUpdated { x, y, color })
                    && b.listeners@ == old(canvas).listeners() && (forall|l: ListenerId|
                    b.listeners@.contains(l) <==> old(canvas).listener_set().contains(l))
            },
            !in_bounds(old(canvas).spec_width(), old(canvas).spec_height(), x, y) ==> {
                &&& out.1 is None
                &&& *final(canvas) == *old(canvas)
                &&& out.0 matches Some(f) && f@ == encode_response_spec(
                    ResponseView::Error {
                        message: out_of_bounds_chars(
                            oob_failure(old(canvas).spec_width(), old(canvas).spec_height(), x, y).axis,
                            oob_failure(old(canvas).spec_width(), old(canvas).spec_height(), x, y).limit,
                            oob_failure(old(canvas).spec_width(), old(canvas).spec_height(), x, y).value,
                        ),
                    },
                )
            },
    {
        match canvas.update_cell(UpdateCell { x, y, color }) {
            Ok(b) => (None, Some(b)),
            Err(e) => (
                Some(encode_response(&ResponsePacket::Error { message: e.message() })),
                None,
            ),
        }
    }

    /// Handles one data frame end to end: decode, dispatch, encode. A frame
    /// that does not decode earns an error frame and nothing more — never a
    /// closed connection, and the session's own state never moves here.
    pub fn handle_packet(&self, canvas: &mut Canvas, bytes: &[u8]) -> (out: HandleOutcome)
        requires
            old(canvas).wf(),
        ensures
            final(canvas).wf(),
            final(canvas).spec_config() == old(canvas).spec_config(),
            final(canvas).listeners() == old(canvas).listeners(),
            final(canvas).grid() == frame_grid(*old(canvas), bytes@),
            out.pong is None,
            match frame_response(*old(canvas), bytes@) {
                Some(w) => out.reply matches Some(f) && f@ == encode_response_spec(w),
                None => out.reply is None,
            },
            match frame_broadcasts(*old(canvas), bytes@) {
                Some(n) => out.broadcast matches Some(b) && b.update == n && b.listeners@ == old(
                    canvas,
                ).listeners() && (forall|l: ListenerId|
                    b.listeners@.contains(l) <==> old(canvas).listener_set().contains(l)),
                None => out.broadcast is None,
            },
    {
        match decode_request(bytes) {
            Err(e) => {
                let reply = encode_response(&ResponsePacket::Error { message: e.message() });
                HandleOutcome { reply: Some(reply), pong: None, broadcast: None }
            },
            Ok(RequestPacket::GetCell { x, y }) => {
                let reply = self.get_cell(canvas, x, y);
                HandleOutcome { reply: Some(reply), pong: None, broadcast: None }
            },
            Ok(RequestPacket::SetCell { x, y, color }) => {
                let (reply, broadcast) = self.set_cell(canvas, x, y, color);
                HandleOutcome { reply, pong: None, broadcast }
            },
        }
    }

    /// Routes one transport event: data frames go through the codec and the
    /// store; a probe from the peer is echoed; an acknowledgment restarts
    /// the liveness window; a close notice changes nothing here — the
    /// runtime follows it with [`Client::stopping`].
    pub fn handle(&mut self, canvas: &mut Canvas, event: StreamEvent, now_ms: u64) -> (out:
        HandleOutcome)
        requires
            old(canvas).wf(),
        ensures
            final(self).spec_state() == old(self).spec_state(),
            final(self).spec_listener() == old(self).spec_listener(),
            final(canvas).wf(),
            final(canvas).spec_config() == old(canvas).spec_config(),
            final(canvas).listeners() == old(canvas).listeners(),
            event matches StreamEvent::Binary(bytes) ==> {
                &&& final(self).spec_last_pong() == old(self).spec_last_pong()
                &&& final(canvas).grid() == frame_grid(*old(canvas), bytes@)
                &&& out.pong is None
                &&& match frame_response(*old(canvas), bytes@) {
                    Some(w) => out.reply matches Some(f) && f@ == encode_response_spec(w),
                    None => out.reply is None,
                }
                &&& match frame_broadcasts(*old(canvas), bytes@) {
                    Some(n) => out.broadcast matches Some(b) && b.update == n
                        && b.listeners@ == old(canvas).listeners(),
                    None => out.broadcast is None,
                }
            },
            event matches StreamEvent::Ping(payload) ==> {
                &&& *final(self) == *old(self)
                &&& *final(canvas) == *old(canvas)
                &&& out.reply is None
                &&& out.broadcast is None
                &&& out.pong matches Some(p) && p@ == payload@
            },
            event is Pong ==> {
                &&& final(self).spec_last_pong() == now_ms
                &&& *final(canvas) == *old(canvas)
                &&& out.reply is None && out.pong is None && out.broadcast is None
            },
            event is Close ==> {
                &&& *final(self) == *old(self)
                &&& *final(canvas) == *old(canvas)
                &&& out.reply is None && out.pong is None && out.broadcast is None
            },
    {
        match event {
            StreamEvent::Binary(bytes) => self.handle_packet(canvas, bytes.as_slice()),
            StreamEvent::Ping(payload) => HandleOutcome {
                reply: None,
                pong: Some(payload),
                broadcast: None,
            },
            StreamEvent::Pong => {
                self.on_pong(now_ms);
                HandleOutcome { reply: None, pong: None, broadcast: None }
            },
            StreamEvent::Close => HandleOutcome { reply: None, pong: None, broadcast: None },
        }
    }

    /// Forwards a store broadcast to this connection: the notification,
    /// encoded as a `CellUpdated` frame.
    pub fn cell_updated(&self, msg: CellUpdated) -> (f: Vec<u8>)
        ensures
            f@ == encode_response_spec(
                ResponseView::CellUpdated { x: msg.x, y: msg.y, color: msg.color },
            ),
    {
        encode_response(&ResponsePacket::CellUpdated { x: msg.x, y: msg.y, color: msg.color })
    }
}

} // verus!
