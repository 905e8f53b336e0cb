use std::convert::TryFrom;
use websocket::WebSocketError;
use websocket_transport::transport::{flush_outcome, send_outcome};
use websocket_transport::{
    Async, AsyncSink, CloseData, LoopbackChannel, RawFrame, RawFrameChannel, TransportError,
    TransportOwnedMessage,
};

#[test]
fn bytes_become_a_binary_message() {
    let message: TransportOwnedMessage = vec![1u8, 2, 3].into();
    assert_eq!(message, TransportOwnedMessage::Binary(vec![1, 2, 3]));
}

#[test]
fn a_string_becomes_a_text_message() {
    let message: TransportOwnedMessage = String::from("abc").into();
    assert_eq!(message, TransportOwnedMessage::Text(String::from("abc")));
}

#[test]
fn messages_become_data_frames() {
    assert_eq!(
        RawFrame::from(TransportOwnedMessage::Binary(vec![7])),
        RawFrame::Binary(vec![7])
    );
    assert_eq!(
        RawFrame::from(TransportOwnedMessage::Text(String::from("x"))),
        RawFrame::Text(String::from("x"))
    );
}

#[test]
fn data_frames_become_messages() {
    assert_eq!(
        TransportOwnedMessage::try_from(RawFrame::Binary(vec![7])),
        Ok(TransportOwnedMessage::Binary(vec![7]))
    );
    assert_eq!(
        TransportOwnedMessage::try_from(RawFrame::Text(String::from("x"))),
        Ok(TransportOwnedMessage::Text(String::from("x")))
    );
}

#[test]
fn control_frames_are_handed_back() {
    let close = RawFrame::Close(Some(CloseData { status_code: 1001, reason: String::from("away") }));
    assert_eq!(TransportOwnedMessage::try_from(close.clone()), Err(close));
    assert_eq!(
        TransportOwnedMessage::try_from(RawFrame::Close(None)),
        Err(RawFrame::Close(None))
    );
    assert_eq!(
        TransportOwnedMessage::try_from(RawFrame::Ping(vec![1])),
        Err(RawFrame::Ping(vec![1]))
    );
    assert_eq!(
        TransportOwnedMessage::try_from(RawFrame::Pong(vec![2])),
        Err(RawFrame::Pong(vec![2]))
    );
}

#[test]
fn message_round_trip() {
    let message = TransportOwnedMessage::Text(String::from("round"));
    assert_eq!(
        TransportOwnedMessage::try_from(RawFrame::from(message.clone())),
        Ok(message)
    );
}

#[test]
fn channel_errors_are_wrapped() {
    let wrapped = TransportError::from(WebSocketError::ProtocolError("bad frame"));
    assert!(matches!(
        wrapped,
        TransportError::WebSocketError(WebSocketError::ProtocolError("bad frame"))
    ));
}

#[test]
fn send_outcome_maps_each_case() {
    assert!(matches!(send_outcome(Ok(AsyncSink::Ready)), Ok(AsyncSink::Ready)));
    match send_outcome(Ok(AsyncSink::NotReady(RawFrame::Binary(vec![1, 2])))) {
        Ok(AsyncSink::NotReady(back)) => assert_eq!(back, TransportOwnedMessage::Binary(vec![1, 2])),
        other => panic!("unexpected {:?}", other),
    }
    match send_outcome(Ok(AsyncSink::NotReady(RawFrame::Text(String::from("t"))))) {
        Ok(AsyncSink::NotReady(back)) => {
            assert_eq!(back, TransportOwnedMessage::Text(String::from("t")))
        }
        other => panic!("unexpected {:?}", other),
    }
    assert!(matches!(
        send_outcome(Err(WebSocketError::NoDataAvailable)),
        Err(TransportError::WebSocketError(WebSocketError::NoDataAvailable))
    ));
}

#[test]
fn flush_outcome_maps_each_case() {
    assert!(matches!(flush_outcome(Ok(Async::Ready(()))), Ok(Async::Ready(()))));
    assert!(matches!(flush_outcome(Ok(Async::NotReady)), Ok(Async::NotReady)));
    assert!(matches!(
        flush_outcome(Err(WebSocketError::DataFrameError("short"))),
        Err(TransportError::WebSocketError(WebSocketError::DataFrameError("short")))
    ));
}

#[test]
fn loopback_echoes_in_order() {
    let mut channel = LoopbackChannel::new(2, false);
    assert!(matches!(channel.offer_frame(RawFrame::Binary(vec![1])), Ok(AsyncSink::Ready)));
    assert!(matches!(channel.offer_frame(RawFrame::Binary(vec![2])), Ok(AsyncSink::Ready)));
    match channel.offer_frame(RawFrame::Binary(vec![3])) {
        Ok(AsyncSink::NotReady(back)) => assert_eq!(back, RawFrame::Binary(vec![3])),
        other => panic!("unexpected {:?}", other),
    }
    assert_eq!(channel.in_flight(), 2);
    assert!(matches!(channel.flush(), Ok(Async::Ready(()))));
    assert!(matches!(channel.poll_frame(), Ok(Async::NotReady)));
    assert_eq!(channel.in_flight(), 0);
    assert!(matches!(channel.poll_frame(), Ok(Async::Ready(Some(RawFrame::Binary(b)))) if b == vec![1]));
    assert!(matches!(channel.poll_frame(), Ok(Async::Ready(Some(RawFrame::Binary(b)))) if b == vec![2]));
    assert!(matches!(channel.poll_frame(), Ok(Async::NotReady)));
}

#[test]
fn loopback_peer_adds_pings() {
    let mut channel = LoopbackChannel::new(2, true);
    assert!(matches!(channel.offer_frame(RawFrame::Text(String::from("a"))), Ok(AsyncSink::Ready)));
    channel.deliver();
    assert!(matches!(channel.poll_frame(), Ok(Async::Ready(Some(RawFrame::Ping(p)))) if p.is_empty()));
    assert!(matches!(channel.poll_frame(), Ok(Async::Ready(Some(RawFrame::Text(t)))) if t == "a"));
    assert!(matches!(channel.poll_frame(), Ok(Async::NotReady)));
}
