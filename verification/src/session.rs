//! The session core: the per-connection state machine that routes frames,
//! enforces the lifecycle, and keeps each direction's decisions explicit, so
//! that the surrounding transport only performs what it is told.

use vstd::prelude::*;

use crate::codec::{spec_export, spec_import, CodecError, Frame, FrameView, Payload, PayloadView};
use crate::subprotocol::BlimpSubprotocol;

verus! {

/// Lifecycle of a negotiated session.
#[derive(Debug, Clone, Copy, PartialEq, Eq, Structural)]
pub enum SessionState {
    Connected,
    Closing,
    Closed,
}

/// Why a send, receive or close failed.
#[derive(Debug, Clone, Copy, PartialEq, Eq, Structural)]
pub enum SessionError {
    ConnectionClosed,
    StreamExhausted,
    TransportError,
    Codec(CodecError),
}

/// What the transport hands the receiving direction: one frame, the orderly
/// end of the stream, or a transport failure.
#[derive(Debug, Clone, PartialEq)]
pub enum RecvEvent {
    Frame(Frame),
    StreamEnd,
    TransportFailure,
}

/// The mathematical value of a receive event.
pub enum RecvEventView {
    Frame(FrameView),
    StreamEnd,
    TransportFailure,
}

impl View for RecvEvent {
    type V = RecvEventView;

    open spec fn view(&self) -> RecvEventView {
        match self {
            RecvEvent::Frame(f) => RecvEventView::Frame(f@),
            RecvEvent::StreamEnd => RecvEventView::StreamEnd,
            RecvEvent::TransportFailure => RecvEventView::TransportFailure,
        }
    }
}

/// What the receiving direction decides for one event: deliver a decoded
/// payload, keep waiting for the next frame, or fail.
#[derive(Debug, Clone, PartialEq)]
pub enum RecvStep {
    Deliver(Payload),
    KeepWaiting,
    Fail(SessionError),
}

/// The mathematical value of a receive decision.
pub enum RecvStepView {
    Deliver(PayloadView),
    KeepWaiting,
    Fail(SessionError),
}

impl View for RecvStep {
    type V = RecvStepView;

    open spec fn view(&self) -> RecvStepView {
        match self {
            RecvStep::Deliver(p) => RecvStepView::Deliver(p@),
            RecvStep::KeepWaiting => RecvStepView::KeepWaiting,
            RecvStep::Fail(e) => RecvStepView::Fail(*e),
        }
    }
}

/// The per-connection session core: the subprotocol negotiated once at
/// handshake time, immutable thereafter, and the lifecycle state.
#[derive(Debug, Clone, Copy, PartialEq, Eq, Structural)]
pub struct Session {
    pub subprotocol: BlimpSubprotocol,
    pub state: SessionState,
}

/// What the sending direction does with one outgoing payload: only a
/// connected session sends, and the payload is framed under the session's
/// fixed flavour.
pub open spec fn spec_send(s: Session, p: PayloadView) -> Result<FrameView, SessionError> {
    if s.state != SessionState::Connected {
        Err(SessionError::ConnectionClosed)
    } else {
        match spec_export(s.subprotocol.flavour, p) {
            Ok(f) => Ok(f),
            Err(e) => Err(SessionError::Codec(e)),
        }
    }
}

/// What one receive event does to the session and what the caller gets: a
/// close frame ends the session, control frames are skipped, data frames are
/// decoded under the session's flavour, stream end and transport failure end
/// the session, and nothing is received once the session left the connected
/// state.
pub open spec fn spec_recv_step(s: Session, ev: RecvEventView) -> (Session, RecvStepView) {
    if s.state != SessionState::Connected {
        (s, RecvStepView::Fail(SessionError::ConnectionClosed))
    } else {
        match ev {
            RecvEventView::Frame(FrameView::Close) => (
                Session { state: SessionState::Closed, ..s },
                RecvStepView::Fail(SessionError::ConnectionClosed),
            ),
            RecvEventView::Frame(FrameView::Ping(_)) => (s, RecvStepView::KeepWaiting),
            RecvEventView::Frame(FrameView::Pong(_)) => (s, RecvStepView::KeepWaiting),
            RecvEventView::Frame(f) => match spec_import(s.subprotocol.flavour, f) {
                Ok(p) => (s, RecvStepView::Deliver(p)),
                Err(e) => (s, RecvStepView::Fail(SessionError::Codec(e))),
            },
            RecvEventView::StreamEnd => (
                Session { state: SessionState::Closed, ..s },
                RecvStepView::Fail(SessionError::StreamExhausted),
            ),
            RecvEventView::TransportFailure => (
                Session { state: SessionState::Closed, ..s },
                RecvStepView::Fail(SessionError::TransportError),
            ),
        }
    }
}

/// What closing does: a connected session starts closing and yields the close
/// frame to write; closing a session again is a caller error and fails.
pub open spec fn spec_close(s: Session) -> (Session, Result<FrameView, SessionError>) {
    if s.state == SessionState::Connected {
        (Session { state: SessionState::Closing, ..s }, Ok(FrameView::Close))
    } else {
        (s, Err(SessionError::ConnectionClosed))
    }
}

impl Session {
    /// A fresh session bound to the subprotocol the handshake negotiated.
    pub fn new(subprotocol: BlimpSubprotocol) -> (s: Session)
        ensures
            s.subprotocol == subprotocol,
            s.state == SessionState::Connected,
    {
        Session { subprotocol, state: SessionState::Connected }
    }

    /// Frames one outgoing payload under the session's flavour; fails fast
    /// once the session is no longer connected.
    pub fn prepare_send(&self, payload: Payload) -> (r: Result<Frame, SessionError>)
        ensures
            match spec_send(*self, payload@) {
                Ok(fv) => r matches Ok(f) && f@ == fv,
                Err(e) => r matches Err(e2) && e2 == e,
            },
    {
        if self.state == SessionState::Connected {
            match self.subprotocol.export_packet(payload) {
                Ok(f) => Ok(f),
                Err(e) => Err(SessionError::Codec(e)),
            }
        } else {
            Err(SessionError::ConnectionClosed)
        }
    }

    /// Applies one receive-direction event to the session.
    pub fn on_recv_event(&mut self, event: RecvEvent) -> (r: RecvStep)
        ensures
            *final(self) == spec_recv_step(*old(self), event@).0,
            r@ == spec_recv_step(*old(self), event@).1,
    {
        if self.state != SessionState::Connected {
            return RecvStep::Fail(SessionError::ConnectionClosed);
        }
        match event {
            RecvEvent::Frame(frame) => match frame {
                Frame::Close => {
                    self.state = SessionState::Closed;
                    RecvStep::Fail(SessionError::ConnectionClosed)
                },
                Frame::Ping(_) => RecvStep::KeepWaiting,
                Frame::Pong(_) => RecvStep::KeepWaiting,
                data => match self.subprotocol.import_packet(data) {
                    Ok(p) => RecvStep::Deliver(p),
                    Err(e) => RecvStep::Fail(SessionError::Codec(e)),
                },
            },
            RecvEvent::StreamEnd => {
                self.state = SessionState::Closed;
                RecvStep::Fail(SessionError::StreamExhausted)
            },
            RecvEvent::TransportFailure => {
                self.state = SessionState::Closed;
                RecvStep::Fail(SessionError::TransportError)
            },
        }
    }

    /// Starts closing the session; yields the close frame the transport must
    /// write. Closing a session that is no longer connected fails.
    pub fn close(&mut self) -> (r: Result<Frame, SessionError>)
        ensures
            *final(self) == spec_close(*old(self)).0,
            match spec_close(*old(self)).1 {
                Ok(fv) => r matches Ok(f) && f@ == fv,
                Err(e) => r matches Err(e2) && e2 == e,
            },
    {
        if self.state == SessionState::Connected {
            self.state = SessionState::Closing;
            Ok(Frame::Close)
        } else {
            Err(SessionError::ConnectionClosed)
        }
    }

    /// Records that the transport is done with this session: the close
    /// handshake completed, or a failure was observed while writing. The
    /// session is unusable afterwards.
    pub fn mark_closed(&mut self)
        ensures
            final(self).subprotocol == old(self).subprotocol,
            final(self).state == SessionState::Closed,
    {
        self.state = SessionState::Closed;
    }
}

/// After a successful close, every subsequent receive fails with
/// `ConnectionClosed`, whatever the transport delivers, and so does every
/// subsequent send.
pub proof fn lemma_closed_session_fails_fast(s: Session, ev: RecvEventView, p: PayloadView)
    requires
        spec_close(s).1 is Ok,
    ensures
        spec_recv_step(spec_close(s).0, ev).1 == RecvStepView::Fail(SessionError::ConnectionClosed),
        spec_recv_step(spec_close(s).0, ev).0 == spec_close(s).0,
        spec_send(spec_close(s).0, p) == Err::<FrameView, SessionError>(
            SessionError::ConnectionClosed,
        ),
{
}

/// A frame prepared by the sending side is delivered unchanged by the
/// receiving side of a peer session bound to the same subprotocol, and
/// leaves the receiver's state untouched.
pub proof fn lemma_send_recv_delivers(sender: Session, receiver: Session, p: PayloadView)
    requires
        receiver.state == SessionState::Connected,
        sender.subprotocol == receiver.subprotocol,
        spec_send(sender, p) is Ok,
    ensures
        spec_recv_step(receiver, RecvEventView::Frame(spec_send(sender, p)->Ok_0)).1
            == RecvStepView::Deliver(p),
        spec_recv_step(receiver, RecvEventView::Frame(spec_send(sender, p)->Ok_0)).0 == receiver,
{
    crate::codec::lemma_export_import_round_trip(sender.subprotocol.flavour, p);
}

} // verus!
