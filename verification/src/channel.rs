//! What the transport asks of the channel below it.

use crate::frame::{FrameView, RawFrame};
use vstd::prelude::*;
use websocket::WebSocketError;

verus! {

/// The outcome of a poll that does not block: a value, or none yet.
#[derive(Clone, Debug, PartialEq, Eq)]
pub enum Async<T> {
    Ready(T),
    NotReady,
}

/// The outcome of offering an item for sending: taken, or handed back
/// because the receiver has no room yet.
#[derive(Clone, Debug, PartialEq, Eq)]
pub enum AsyncSink<T> {
    Ready,
    NotReady(T),
}

/// A two-way channel of raw frames that never blocks its caller.
///
/// The two spec functions are the channel's model. `sent` is the wire: every
/// frame that the channel took for sending, oldest first. `inbound` holds the
/// frames that the channel has ready: it hands them out front first, and
/// sending and flushing leave them alone. More may come in only at a poll
/// that finds none ready or fails, which is what lets a receive call finish.
///
/// `flushes` is what a flush may do: it relates the channel before a flush,
/// the channel after it and the answer that the flush gave.
///
/// The bodies given here are placeholders for channels that are written
/// outside verification and state no model. Nothing is proved from them:
/// generic code knows of a channel only what the methods' contracts say.
pub trait RawFrameChannel {
    open spec fn sent(&self) -> Seq<FrameView> {
        Seq::empty()
    }

    open spec fn inbound(&self) -> Seq<FrameView> {
        Seq::empty()
    }

    open spec fn flushes(&self, after: &Self, flushed: Result<Async<()>, WebSocketError>) -> bool {
        true
    }

    /// The next inbound frame, if one is ready; `None` once the peer's
    /// frames have ended. Only a channel with no frame ready reports that it
    /// is not ready or has ended.
    fn poll_frame(&mut self) -> (polled: Result<Async<Option<RawFrame>>, WebSocketError>)
        ensures
            final(self).sent() == old(self).sent(),
            old(self).inbound().len() > 0 ==> polled is Err || polled matches Ok(
                Async::Ready(Some(_)),
            ),
            polled matches Ok(Async::Ready(Some(frame))) ==> {
                &&& old(self).inbound().len() > 0
                &&& frame@ == old(self).inbound()[0]
                &&& final(self).inbound() == old(self).inbound().skip(1)
            },
    ;

    /// Offers a frame for sending. A channel with no room hands the frame
    /// back and takes nothing.
    fn offer_frame(&mut self, frame: RawFrame) -> (offered: Result<
        AsyncSink<RawFrame>,
        WebSocketError,
    >)
        ensures
            final(self).inbound() == old(self).inbound(),
            match offered {
                Ok(AsyncSink::Ready) => final(self).sent() == old(self).sent().push(frame@),
                Ok(AsyncSink::NotReady(back)) => back@ == frame@ && final(self).sent() == old(
                    self,
                ).sent(),
                Err(_) => final(self).sent() == old(self).sent(),
            },
    ;

    /// Pushes what was taken for sending towards the peer.
    fn flush(&mut self) -> (flushed: Result<Async<()>, WebSocketError>)
        ensures
            old(self).flushes(&*final(self), flushed),
            final(self).sent() == old(self).sent(),
            final(self).inbound() == old(self).inbound(),
    ;
}

} // verus!
