use blimp_ground_ws_interface::{
    BlimpSubprotocol, BlimpSubprotocolFlavour, CodecError, Frame, Payload, RecvEvent, RecvStep,
    Session, SessionError, SessionState,
};

fn postcard_session() -> Session {
    Session::new(BlimpSubprotocol { version: 1, flavour: BlimpSubprotocolFlavour::Postcard })
}

fn json_session() -> Session {
    Session::new(BlimpSubprotocol { version: 1, flavour: BlimpSubprotocolFlavour::Json })
}

#[test]
fn test_flavour_frame_mismatch() {
    // A binary frame under the JSON flavour, and a text frame under the
    // binary flavour, always fail with a mismatch, whatever the payload.
    let json = BlimpSubprotocol { version: 1, flavour: BlimpSubprotocolFlavour::Json };
    let postcard = BlimpSubprotocol { version: 1, flavour: BlimpSubprotocolFlavour::Postcard };
    assert_eq!(
        json.import_packet(Frame::Binary(vec![1, 2, 3])),
        Err(CodecError::FlavourMismatch)
    );
    assert_eq!(
        json.import_packet(Frame::Binary(Vec::new())),
        Err(CodecError::FlavourMismatch)
    );
    assert_eq!(
        postcard.import_packet(Frame::Text(String::from("{\"x\": 1}"))),
        Err(CodecError::FlavourMismatch)
    );
    assert_eq!(
        postcard.export_packet(Payload::Text(String::from("{}"))),
        Err(CodecError::FlavourMismatch)
    );
    assert_eq!(
        json.export_packet(Payload::Bytes(vec![0])),
        Err(CodecError::FlavourMismatch)
    );
}

#[test]
fn test_codec_round_trip() {
    let postcard = BlimpSubprotocol { version: 1, flavour: BlimpSubprotocolFlavour::Postcard };
    let frame = postcard.export_packet(Payload::Bytes(vec![9, 8, 7])).unwrap();
    assert_eq!(frame, Frame::Binary(vec![9, 8, 7]));
    assert_eq!(postcard.import_packet(frame), Ok(Payload::Bytes(vec![9, 8, 7])));

    let json = BlimpSubprotocol { version: 1, flavour: BlimpSubprotocolFlavour::Json };
    let frame = json.export_packet(Payload::Text(String::from("[1,2]"))).unwrap();
    assert_eq!(frame, Frame::Text(String::from("[1,2]")));
    assert_eq!(json.import_packet(frame), Ok(Payload::Text(String::from("[1,2]"))));
}

#[test]
fn test_recv_delivers_matching_frame() {
    let mut s = postcard_session();
    let step = s.on_recv_event(RecvEvent::Frame(Frame::Binary(vec![4, 5])));
    assert_eq!(step, RecvStep::Deliver(Payload::Bytes(vec![4, 5])));
    assert_eq!(s.state, SessionState::Connected);

    let mut s = json_session();
    let step = s.on_recv_event(RecvEvent::Frame(Frame::Text(String::from("true"))));
    assert_eq!(step, RecvStep::Deliver(Payload::Text(String::from("true"))));
}

#[test]
fn test_recv_skips_control_frames() {
    let mut s = postcard_session();
    assert_eq!(
        s.on_recv_event(RecvEvent::Frame(Frame::Ping(vec![1]))),
        RecvStep::KeepWaiting
    );
    assert_eq!(
        s.on_recv_event(RecvEvent::Frame(Frame::Pong(Vec::new()))),
        RecvStep::KeepWaiting
    );
    assert_eq!(s.state, SessionState::Connected);
}

#[test]
fn test_recv_mismatched_frame_fails() {
    let mut s = json_session();
    assert_eq!(
        s.on_recv_event(RecvEvent::Frame(Frame::Binary(vec![1, 2]))),
        RecvStep::Fail(SessionError::Codec(CodecError::FlavourMismatch))
    );
}

#[test]
fn test_recv_close_frame_ends_session() {
    let mut s = postcard_session();
    assert_eq!(
        s.on_recv_event(RecvEvent::Frame(Frame::Close)),
        RecvStep::Fail(SessionError::ConnectionClosed)
    );
    assert_eq!(s.state, SessionState::Closed);
}

#[test]
fn test_recv_stream_end_and_transport_failure() {
    let mut s = postcard_session();
    assert_eq!(
        s.on_recv_event(RecvEvent::StreamEnd),
        RecvStep::Fail(SessionError::StreamExhausted)
    );
    assert_eq!(s.state, SessionState::Closed);

    let mut s = postcard_session();
    assert_eq!(
        s.on_recv_event(RecvEvent::TransportFailure),
        RecvStep::Fail(SessionError::TransportError)
    );
    assert_eq!(s.state, SessionState::Closed);
}

#[test]
fn test_recv_after_close_fails_fast() {
    // Closed-session behavior: after close, a receive fails with
    // ConnectionClosed instead of hanging or decoding anything.
    let mut s = postcard_session();
    assert_eq!(s.close(), Ok(Frame::Close));
    assert_eq!(s.state, SessionState::Closing);
    assert_eq!(
        s.on_recv_event(RecvEvent::Frame(Frame::Binary(vec![1]))),
        RecvStep::Fail(SessionError::ConnectionClosed)
    );
    s.mark_closed();
    assert_eq!(
        s.on_recv_event(RecvEvent::Frame(Frame::Binary(vec![1]))),
        RecvStep::Fail(SessionError::ConnectionClosed)
    );
}

#[test]
fn test_send_after_close_fails_fast() {
    let mut s = postcard_session();
    assert_eq!(s.close(), Ok(Frame::Close));
    assert_eq!(
        s.prepare_send(Payload::Bytes(vec![1])),
        Err(SessionError::ConnectionClosed)
    );
}

#[test]
fn test_close_twice_is_an_error() {
    let mut s = postcard_session();
    assert_eq!(s.close(), Ok(Frame::Close));
    assert_eq!(s.close(), Err(SessionError::ConnectionClosed));
    let mut s = postcard_session();
    s.mark_closed();
    assert_eq!(s.close(), Err(SessionError::ConnectionClosed));
}

#[test]
fn test_send_frames_payload() {
    let s = postcard_session();
    assert_eq!(
        s.prepare_send(Payload::Bytes(vec![1, 2, 3])),
        Ok(Frame::Binary(vec![1, 2, 3]))
    );
    let s = json_session();
    assert_eq!(
        s.prepare_send(Payload::Text(String::from("null"))),
        Ok(Frame::Text(String::from("null")))
    );
    // A payload of the wrong physical kind is refused, never coerced.
    assert_eq!(
        s.prepare_send(Payload::Bytes(vec![1])),
        Err(SessionError::Codec(CodecError::FlavourMismatch))
    );
}
