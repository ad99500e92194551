//! The codec boundary: wrapping serialized messages in wire frames and
//! unwrapping received frames, with the frame kind and the negotiated
//! flavour required to agree.

use vstd::prelude::*;

use crate::subprotocol::{BlimpSubprotocol, BlimpSubprotocolFlavour};

verus! {

/// One discrete unit of transport-level data.
#[derive(Debug, Clone, PartialEq)]
pub enum Frame {
    Binary(Vec<u8>),
    Text(String),
    Ping(Vec<u8>),
    Pong(Vec<u8>),
    Close,
}

/// The mathematical value of a frame.
pub enum FrameView {
    Binary(Seq<u8>),
    Text(Seq<char>),
    Ping(Seq<u8>),
    Pong(Seq<u8>),
    Close,
}

impl View for Frame {
    type V = FrameView;

    open spec fn view(&self) -> FrameView {
        match self {
            Frame::Binary(b) => FrameView::Binary(b@),
            Frame::Text(t) => FrameView::Text(t@),
            Frame::Ping(b) => FrameView::Ping(b@),
            Frame::Pong(b) => FrameView::Pong(b@),
            Frame::Close => FrameView::Close,
        }
    }
}

/// The serialized form of one message, before framing: compact bytes under
/// the binary flavour, readable text under the JSON flavour.
#[derive(Debug, Clone, PartialEq)]
pub enum Payload {
    Bytes(Vec<u8>),
    Text(String),
}

/// The mathematical value of a payload.
pub enum PayloadView {
    Bytes(Seq<u8>),
    Text(Seq<char>),
}

impl View for Payload {
    type V = PayloadView;

    open spec fn view(&self) -> PayloadView {
        match self {
            Payload::Bytes(b) => PayloadView::Bytes(b@),
            Payload::Text(t) => PayloadView::Text(t@),
        }
    }
}

/// Why encoding or decoding failed. The serialization causes are attached by
/// the caller that ran the serializer; this layer decides only whether the
/// physical kinds agree.
#[derive(Debug, Clone, Copy, PartialEq, Eq, Structural)]
pub enum CodecError {
    FlavourMismatch,
    SerializationError,
    DeserializationError,
}

/// What wrapping a payload yields: each flavour accepts exactly the payload
/// kind it serializes to, and produces the matching frame kind.
pub open spec fn spec_export(f: BlimpSubprotocolFlavour, p: PayloadView) -> Result<
    FrameView,
    CodecError,
> {
    match (f, p) {
        (BlimpSubprotocolFlavour::Postcard, PayloadView::Bytes(b)) => Ok(FrameView::Binary(b)),
        (BlimpSubprotocolFlavour::Json, PayloadView::Text(t)) => Ok(FrameView::Text(t)),
        _ => Err(CodecError::FlavourMismatch),
    }
}

/// What unwrapping a frame yields: a binary frame only under the binary
/// flavour, a text frame only under the JSON flavour, and a mismatch for
/// every other combination, whatever the payload holds.
pub open spec fn spec_import(f: BlimpSubprotocolFlavour, fr: FrameView) -> Result<
    PayloadView,
    CodecError,
> {
    match (f, fr) {
        (BlimpSubprotocolFlavour::Postcard, FrameView::Binary(b)) => Ok(PayloadView::Bytes(b)),
        (BlimpSubprotocolFlavour::Json, FrameView::Text(t)) => Ok(PayloadView::Text(t)),
        _ => Err(CodecError::FlavourMismatch),
    }
}

impl BlimpSubprotocol {
    /// Wraps one serialized message in the wire frame its flavour mandates;
    /// a payload of the wrong physical kind is refused, never coerced.
    pub fn export_packet(&self, payload: Payload) -> (r: Result<Frame, CodecError>)
        ensures
            match spec_export(self.flavour, payload@) {
                Ok(fv) => r matches Ok(f) && f@ == fv,
                Err(e) => r matches Err(e2) && e2 == e,
            },
    {
        match (self.flavour, payload) {
            (BlimpSubprotocolFlavour::Postcard, Payload::Bytes(b)) => Ok(Frame::Binary(b)),
            (BlimpSubprotocolFlavour::Json, Payload::Text(t)) => Ok(Frame::Text(t)),
            _ => Err(CodecError::FlavourMismatch),
        }
    }

    /// Unwraps one received data frame under this subprotocol's flavour; a
    /// frame of the wrong physical kind fails with a mismatch, never coerced.
    pub fn import_packet(&self, frame: Frame) -> (r: Result<Payload, CodecError>)
        ensures
            match spec_import(self.flavour, frame@) {
                Ok(pv) => r matches Ok(p) && p@ == pv,
                Err(e) => r matches Err(e2) && e2 == e,
            },
    {
        match (self.flavour, frame) {
            (BlimpSubprotocolFlavour::Postcard, Frame::Binary(b)) => Ok(Payload::Bytes(b)),
            (BlimpSubprotocolFlavour::Json, Frame::Text(t)) => Ok(Payload::Text(t)),
            _ => Err(CodecError::FlavourMismatch),
        }
    }
}

/// Decoding a binary frame under the JSON flavour, or a text frame under the
/// binary flavour, fails with a flavour mismatch regardless of the payload.
pub proof fn lemma_import_rejects_mismatched_frame(b: Seq<u8>, t: Seq<char>)
    ensures
        spec_import(BlimpSubprotocolFlavour::Json, FrameView::Binary(b)) == Err::<
            PayloadView,
            CodecError,
        >(CodecError::FlavourMismatch),
        spec_import(BlimpSubprotocolFlavour::Postcard, FrameView::Text(t)) == Err::<
            PayloadView,
            CodecError,
        >(CodecError::FlavourMismatch),
{
}

/// A frame produced by wrapping a payload unwraps back to that payload under
/// the same flavour.
pub proof fn lemma_export_import_round_trip(f: BlimpSubprotocolFlavour, p: PayloadView)
    requires
        spec_export(f, p) is Ok,
    ensures
        spec_import(f, spec_export(f, p)->Ok_0) == Ok::<PayloadView, CodecError>(p),
{
}

} // verus!
