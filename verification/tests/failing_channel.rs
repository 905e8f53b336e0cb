use websocket::WebSocketError;
use websocket_transport::{
    Async, AsyncSink, RawFrame, RawFrameChannel, TransportError, TransportOwnedMessage,
    WebSocketTransport,
};

/// A channel that plays a script: what each poll, offer and flush answers.
struct Scripted {
    polls: Vec<Result<Async<Option<RawFrame>>, WebSocketError>>,
    offer_fails: bool,
    flush_fails: bool,
    flush_ready: bool,
    taken: Vec<RawFrame>,
}

impl Scripted {
    fn new(mut polls: Vec<Result<Async<Option<RawFrame>>, WebSocketError>>) -> Scripted {
        polls.reverse();
        Scripted { polls, offer_fails: false, flush_fails: false, flush_ready: true, taken: Vec::new() }
    }
}

impl RawFrameChannel for Scripted {
    fn poll_frame(&mut self) -> Result<Async<Option<RawFrame>>, WebSocketError> {
        self.polls.pop().unwrap_or(Ok(Async::NotReady))
    }

    fn offer_frame(&mut self, frame: RawFrame) -> Result<AsyncSink<RawFrame>, WebSocketError> {
        if self.offer_fails {
            Err(WebSocketError::ProtocolError("offer"))
        } else {
            self.taken.push(frame);
            Ok(AsyncSink::Ready)
        }
    }

    fn flush(&mut self) -> Result<Async<()>, WebSocketError> {
        if self.flush_fails {
            Err(WebSocketError::ProtocolError("flush"))
        } else if self.flush_ready {
            Ok(Async::Ready(()))
        } else {
            Ok(Async::NotReady)
        }
    }
}

#[test]
fn end_of_the_channel_ends_the_stream() {
    let channel = Scripted::new(vec![
        Ok(Async::Ready(Some(RawFrame::Pong(vec![1])))),
        Ok(Async::Ready(None)),
    ]);
    let mut transport = WebSocketTransport::from(channel);
    assert!(matches!(transport.poll(), Ok(Async::Ready(None))));
    assert!(!transport.is_closed());
}

#[test]
fn poll_error_is_passed_on() {
    let channel = Scripted::new(vec![
        Err(WebSocketError::NoDataAvailable),
        Ok(Async::Ready(Some(RawFrame::Binary(vec![1])))),
    ]);
    let mut transport = WebSocketTransport::from(channel);
    assert!(matches!(
        transport.poll(),
        Err(TransportError::WebSocketError(WebSocketError::NoDataAvailable))
    ));
    // No retry happened inside the call: the frame behind the error is still to come.
    match transport.poll() {
        Ok(Async::Ready(Some(message))) => {
            assert_eq!(message, TransportOwnedMessage::Binary(vec![1]))
        }
        other => panic!("unexpected {:?}", other),
    }
}

#[test]
fn flush_error_after_a_ping_is_passed_on() {
    let mut channel = Scripted::new(vec![Ok(Async::Ready(Some(RawFrame::Ping(vec![5]))))]);
    channel.flush_fails = true;
    let mut transport = WebSocketTransport::from(channel);
    assert!(matches!(
        transport.poll(),
        Err(TransportError::WebSocketError(WebSocketError::ProtocolError("flush")))
    ));
    assert_eq!(transport.pending_pongs(), 0);
    assert_eq!(transport.into_inner().taken, vec![RawFrame::Pong(vec![5])]);
}

#[test]
fn offer_error_is_passed_on() {
    let mut channel = Scripted::new(vec![Ok(Async::Ready(Some(RawFrame::Ping(vec![5]))))]);
    channel.offer_fails = true;
    let mut transport = WebSocketTransport::from(channel);
    assert!(matches!(
        transport.poll(),
        Err(TransportError::WebSocketError(WebSocketError::ProtocolError("offer")))
    ));
    assert!(matches!(
        transport.start_send(TransportOwnedMessage::Binary(vec![1])),
        Err(TransportError::WebSocketError(WebSocketError::ProtocolError("offer")))
    ));
}

#[test]
fn flush_error_after_a_close_is_passed_on_and_the_stream_stays_ended() {
    let mut channel = Scripted::new(vec![
        Ok(Async::Ready(Some(RawFrame::Close(None)))),
        Ok(Async::Ready(Some(RawFrame::Binary(vec![1])))),
    ]);
    channel.flush_fails = true;
    let mut transport = WebSocketTransport::from(channel);
    assert!(matches!(
        transport.poll(),
        Err(TransportError::WebSocketError(WebSocketError::ProtocolError("flush")))
    ));
    assert!(transport.is_closed());
    assert!(matches!(transport.poll(), Ok(Async::Ready(None))));
}

#[test]
fn flush_readiness_is_passed_on() {
    let mut channel = Scripted::new(vec![]);
    channel.flush_ready = false;
    let mut transport = WebSocketTransport::from(channel);
    assert!(matches!(transport.poll_complete(), Ok(Async::NotReady)));
    assert!(matches!(transport.close(), Ok(Async::NotReady)));
    // A flush that is not ready does not stop the receive loop.
    let mut channel = Scripted::new(vec![
        Ok(Async::Ready(Some(RawFrame::Ping(vec![1])))),
        Ok(Async::Ready(Some(RawFrame::Text(String::from("after"))))),
    ]);
    channel.flush_ready = false;
    let mut transport = WebSocketTransport::from(channel);
    match transport.poll() {
        Ok(Async::Ready(Some(message))) => {
            assert_eq!(message, TransportOwnedMessage::Text(String::from("after")))
        }
        other => panic!("unexpected {:?}", other),
    }
    assert_eq!(transport.into_inner().taken, vec![RawFrame::Pong(vec![1])]);
}
