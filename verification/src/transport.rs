//! The transport itself: a filter over the inbound frames and a queue of
//! pongs that goes out ahead of every application write.

use crate::channel::{Async, AsyncSink, RawFrameChannel};
use crate::error::TransportError;
use crate::frame::{pongs, FrameView, RawFrame};
use crate::message::{frame_of, message_of, TransportOwnedMessage};
use std::collections::VecDeque;
use vstd::prelude::*;
use vstd::std_specs::convert::FromSpecImpl;
use websocket::WebSocketError;

verus! {

/// What became of one inbound frame.
#[derive(Debug)]
pub enum Received {
    /// A ping or a pong: dealt with, nothing for the caller.
    Consumed,
    /// A data frame: its message goes to the caller.
    Message(TransportOwnedMessage),
    /// A close frame: the stream has ended.
    Closed,
}

/// A transport of application messages over a channel of raw frames.
pub struct WebSocketTransport<T> {
    pings: VecDeque<Vec<u8>>,
    upstream: T,
    closed: bool,
}

/// How a round of answering pings changes the wire and the queue.
///
/// The wire grew by the pongs of the first `k` payloads of `queue`, in their
/// order, and by nothing else. What is left of the queue is the rest of it.
/// Only where the channel failed may the payload that was being offered at
/// that moment be gone from both.
pub open spec fn drained(
    wire_before: Seq<FrameView>,
    queue: Seq<Seq<u8>>,
    wire_after: Seq<FrameView>,
    queue_after: Seq<Seq<u8>>,
    failed: bool,
) -> bool {
    let k = wire_after.len() - wire_before.len();
    &&& 0 <= k <= queue.len()
    &&& wire_after == wire_before + pongs(queue.take(k))
    &&& (queue_after == queue.skip(k) || (failed && k < queue.len() && queue_after == queue.skip(
        k + 1,
    )))
}

/// Whether a frame is one that the transport deals with in silence and reads
/// on from: a ping or a pong.
pub open spec fn silent(frame: FrameView) -> bool {
    frame is Ping || frame is Pong
}

/// The payloads of the pings among `frames`, in their order.
pub open spec fn ping_payloads(frames: Seq<FrameView>) -> Seq<Seq<u8>>
    decreases frames.len(),
{
    if frames.len() == 0 {
        Seq::empty()
    } else {
        match frames.last() {
            FrameView::Ping(payload) => ping_payloads(frames.drop_last()).push(payload),
            _ => ping_payloads(frames.drop_last()),
        }
    }
}

/// A pong that comes in leaves no trace: it is read past in silence, it
/// carries no message for the caller, and it adds nothing to the payloads
/// that are to be answered.
pub proof fn lemma_pong_is_transparent(frames: Seq<FrameView>, payload: Seq<u8>)
    ensures
        silent(FrameView::Pong(payload)),
        message_of(FrameView::Pong(payload)) is None,
        ping_payloads(frames.push(FrameView::Pong(payload))) == ping_payloads(frames),
{
    assert(frames.push(FrameView::Pong(payload)).drop_last() =~= frames);
}

/// Pongs keep the order of their pings: after a round in which the channel
/// did not fail, what the round put on the wire, followed by the pongs of what
/// still waits, is the pongs of the whole queue in its order.
pub proof fn lemma_drained_keeps_order(
    wire_before: Seq<FrameView>,
    queue: Seq<Seq<u8>>,
    wire_after: Seq<FrameView>,
    queue_after: Seq<Seq<u8>>,
)
    requires
        drained(wire_before, queue, wire_after, queue_after, false),
    ensures
        wire_after.skip(wire_before.len() as int) + pongs(queue_after) == pongs(queue),
{
    let k = wire_after.len() - wire_before.len();
    assert(wire_after.skip(wire_before.len() as int) =~= pongs(queue.take(k)));
    assert(pongs(queue.take(k)) + pongs(queue.skip(k)) =~= pongs(queue));
}

/// Two rounds, with one more payload queued in between, are one round on the
/// longer queue.
pub proof fn lemma_drained_twice(
    w0: Seq<FrameView>,
    q0: Seq<Seq<u8>>,
    w1: Seq<FrameView>,
    q1: Seq<Seq<u8>>,
    more: Seq<Seq<u8>>,
    w2: Seq<FrameView>,
    q2: Seq<Seq<u8>>,
    failed: bool,
)
    requires
        drained(w0, q0, w1, q1, false),
        drained(w1, q1 + more, w2, q2, failed),
    ensures
        drained(w0, q0 + more, w2, q2, failed),
{
    let k1 = w1.len() - w0.len();
    let k2 = w2.len() - w1.len();
    let q = q0 + more;
    assert(q1 =~= q0.skip(k1));
    assert(q.take(k1 + k2) =~= q0.take(k1) + (q1 + more).take(k2));
    assert(pongs(q.take(k1 + k2)) =~= pongs(q0.take(k1)) + pongs((q1 + more).take(k2)));
    assert(w2 =~= w0 + pongs(q.take(k1 + k2)));
    assert(q.skip(k1 + k2) =~= (q1 + more).skip(k2));
    if k2 < (q1 + more).len() {
        assert(q.skip(k1 + k2 + 1) =~= (q1 + more).skip(k2 + 1));
    }
}

/// What the transport returns for each outcome of offering a message's frame
/// to the channel: taken stays taken, a frame handed back becomes the message
/// again, and an error of the channel is wrapped.
pub fn send_outcome(offered: Result<AsyncSink<RawFrame>, WebSocketError>) -> (sent: Result<
    AsyncSink<TransportOwnedMessage>,
    TransportError,
>)
    requires
        offered matches Ok(AsyncSink::NotReady(back)) ==> message_of(back@) is Some,
    ensures
        match offered {
            Ok(AsyncSink::Ready) => sent matches Ok(AsyncSink::Ready),
            Ok(AsyncSink::NotReady(back)) => sent matches Ok(AsyncSink::NotReady(item))
                && frame_of(item@) == back@,
            Err(err) => sent matches Err(TransportError::WebSocketError(e)) && e == err,
        },
{
    match offered {
        Ok(AsyncSink::Ready) => Ok(AsyncSink::Ready),
        Ok(AsyncSink::NotReady(back)) => match TransportOwnedMessage::try_from(back) {
            Ok(item) => Ok(AsyncSink::NotReady(item)),
            Err(_) => unreached(),
        },
        Err(err) => Err(TransportError::from(err)),
    }
}

/// The channel's answer to a flush as the transport passes it on: the same
/// readiness, or the channel's error, wrapped.
pub open spec fn passed_on(flushed: Result<Async<()>, WebSocketError>) -> Result<
    Async<()>,
    TransportError,
> {
    match flushed {
        Ok(ready) => Ok(ready),
        Err(err) => Err(TransportError::WebSocketError(err)),
    }
}

/// What the transport returns for each outcome of flushing the channel: the
/// same readiness, or the channel's error, wrapped.
pub fn flush_outcome(flushed: Result<Async<()>, WebSocketError>) -> (done: Result<
    Async<()>,
    TransportError,
>)
    ensures
        done == passed_on(flushed),
        match flushed {
            Ok(Async::Ready(_)) => done matches Ok(Async::Ready(_)),
            Ok(Async::NotReady) => done matches Ok(Async::NotReady),
            Err(err) => done matches Err(TransportError::WebSocketError(e)) && e == err,
        },
{
    match flushed {
        Ok(ready) => Ok(ready),
        Err(err) => Err(TransportError::from(err)),
    }
}

impl<T: RawFrameChannel> WebSocketTransport<T> {
    /// The channel below.
    pub closed spec fn channel(&self) -> T {
        self.upstream
    }

    /// The payloads of the pings that still wait for their pong, oldest first.
    pub closed spec fn pending(&self) -> Seq<Seq<u8>> {
        self.pings@.map_values(|payload: Vec<u8>| payload@)
    }

    /// Whether a close frame has come in.
    pub closed spec fn ended(&self) -> bool {
        self.closed
    }

    /// Every frame that the channel below took for sending, oldest first.
    pub open spec fn wire(&self) -> Seq<FrameView> {
        self.channel().sent()
    }

    /// What one receive call does when it takes the first `n` of the frames
    /// that the channel had ready.
    ///
    /// All of them but the last are pings and pongs; the last may also be the
    /// data frame whose message is returned, or the close frame that ends the
    /// stream. The pings among them joined the queue in their order, and the
    /// queue was answered as far as the channel took the pongs. Where the call
    /// stopped at a data frame or a close frame, the channel is left with the
    /// frames behind it. Short of a failure the call stops nowhere else
    /// before it has taken every frame that was ready.
    pub open spec fn polled(
        before: Self,
        after: Self,
        next: Result<Async<Option<TransportOwnedMessage>>, TransportError>,
        n: int,
    ) -> bool {
        let inbound = before.channel().inbound();
        let stopped = after.ended() || next matches Ok(Async::Ready(Some(_)));
        &&& 0 <= n <= inbound.len()
        &&& (forall|i: int|
            0 <= i < n ==> silent(#[trigger] inbound[i]) || (i == n - 1 && stopped))
        &&& drained(
            before.wire(),
            before.pending() + ping_payloads(inbound.take(n)),
            after.wire(),
            after.pending(),
            next is Err,
        )
        &&& (after.ended() <==> n > 0 && inbound[n - 1] is Close)
        &&& (after.ended() ==> next is Err || next matches Ok(Async::Ready(None)))
        &&& (next matches Ok(Async::Ready(Some(message))) ==> {
            &&& n > 0
            &&& message_of(inbound[n - 1]) == Some(message@)
        })
        &&& (stopped ==> after.channel().inbound() == inbound.skip(n))
        &&& (!stopped && next is Ok ==> n == inbound.len())
    }

    /// The number of pings that still wait for their pong.
    pub fn pending_pongs(&self) -> (count: usize)
        ensures
            count == self.pending().len(),
    {
        self.pings.len()
    }

    /// Whether a close frame has come in.
    pub fn is_closed(&self) -> (closed: bool)
        ensures
            closed == self.ended(),
    {
        self.closed
    }

    /// Gives the channel back. Pongs that were still queued are dropped.
    pub fn into_inner(self) -> (channel: T)
        ensures
            channel == self.channel(),
    {
        self.upstream
    }

    /// Settles the pong that was just taken off the front of the queue and
    /// offered to the channel, given what the channel said. A pong that was
    /// handed back returns to the front of the queue, and the round stops.
    /// Returns whether the round goes on.
    pub fn settle_pong(&mut self, offered: Result<AsyncSink<RawFrame>, WebSocketError>) -> (goes_on:
        Result<bool, TransportError>)
        ensures
            final(self).channel() == old(self).channel(),
            final(self).ended() == old(self).ended(),
            match offered {
                Ok(AsyncSink::NotReady(RawFrame::Pong(data))) => {
                    &&& goes_on matches Ok(false)
                    &&& final(self).pending() == seq![data@] + old(self).pending()
                },
                Ok(_) => {
                    &&& goes_on matches Ok(true)
                    &&& final(self).pending() == old(self).pending()
                },
                Err(err) => {
                    &&& goes_on matches Err(TransportError::WebSocketError(e)) && e == err
                    &&& final(self).pending() == old(self).pending()
                },
            },
    {
        match offered {
            Ok(AsyncSink::NotReady(RawFrame::Pong(data))) => {
                self.pings.push_front(data);
                assert(self.pending() =~= seq![data@] + old(self).pending());
                Ok(false)
            },
            Ok(_) => Ok(true),
            Err(err) => Err(TransportError::from(err)),
        }
    }

    /// Offers a message for sending.
    ///
    /// While a ping waits for its pong the message is handed back and nothing
    /// changes. Otherwise the message's frame is offered to the channel: the
    /// wire grows by exactly that frame if the channel takes it, and not at
    /// all if the channel hands it back or fails.
    pub fn start_send(&mut self, item: TransportOwnedMessage) -> (sent: Result<
        AsyncSink<TransportOwnedMessage>,
        TransportError,
    >)
        ensures
            final(self).pending() == old(self).pending(),
            final(self).ended() == old(self).ended(),
            final(self).channel().inbound() == old(self).channel().inbound(),
            old(self).pending().len() > 0 ==> {
                &&& sent matches Ok(AsyncSink::NotReady(back)) && back == item
                &&& *final(self) == *old(self)
            },
            old(self).pending().len() == 0 ==> match sent {
                Ok(AsyncSink::Ready) => final(self).wire() == old(self).wire().push(
                    frame_of(item@),
                ),
                Ok(AsyncSink::NotReady(back)) => back@ == item@ && final(self).wire() == old(
                    self,
                ).wire(),
                Err(_) => final(self).wire() == old(self).wire(),
            },
    {
        if self.pings.len() != 0 {
            return Ok(AsyncSink::NotReady(item));
        }
        let offered = self.upstream.offer_frame(RawFrame::from(item));
        send_outcome(offered)
    }

    /// Answers the queued pings, oldest first, for as long as the channel
    /// takes the pongs, then flushes the channel and returns what the flush
    /// said. A pong that the channel hands back returns to the front of the
    /// queue, and none behind it is tried.
    pub fn poll_complete(&mut self) -> (done: Result<Async<()>, TransportError>)
        ensures
            final(self).ended() == old(self).ended(),
            final(self).channel().inbound() == old(self).channel().inbound(),
            drained(
                old(self).wire(),
                old(self).pending(),
                final(self).wire(),
                final(self).pending(),
                done is Err,
            ),
    {
        let ghost w0 = self.wire();
        let ghost q0 = self.pending();
        let ghost i0 = self.channel().inbound();
        let ghost e0 = self.ended();
        assert(q0.take(0) =~= Seq::<Seq<u8>>::empty());
        assert(q0.skip(0) =~= q0);
        assert(w0 + pongs(q0.take(0)) =~= w0);
        loop
            invariant
                w0 == old(self).wire(),
                q0 == old(self).pending(),
                i0 == old(self).channel().inbound(),
                e0 == old(self).ended(),
                self.ended() == e0,
                self.channel().inbound() == i0,
                drained(w0, q0, self.wire(), self.pending(), false),
                self.pending() == q0.skip(self.wire().len() - w0.len()),
            decreases self.pings@.len(),
        {
            let ghost w1 = self.wire();
            let ghost q1 = self.pending();
            let ghost k = w1.len() - w0.len();
            match self.pings.pop_front() {
                None => {
                    break ;
                },
                Some(data) => {
                    assert(self.pending() =~= q1.skip(1));
                    assert(data@ == q1[0]);
                    assert(q1.skip(1) =~= q0.skip(k + 1));
                    let offered = self.upstream.offer_frame(RawFrame::Pong(data));
                    proof {
                        if offered matches Ok(AsyncSink::Ready) {
                            assert(q0.take(k + 1) =~= q0.take(k).push(q1[0]));
                            assert(pongs(q0.take(k + 1)) =~= pongs(q0.take(k)).push(
                                FrameView::Pong(q1[0]),
                            ));
                            assert(self.wire() =~= w0 + pongs(q0.take(k + 1)));
                        }
                    }
                    match self.settle_pong(offered) {
                        Ok(true) => {},
                        Ok(false) => {
                            assert(self.pending() =~= q1);
                            break ;
                        },
                        Err(err) => {
                            return Err(err);
                        },
                    }
                },
            }
        }
        flush_outcome(self.upstream.flush())
    }

    /// Finishes what the channel still has to write: the channel is flushed
    /// once, and the flush's answer is passed on. No close frame is sent in
    /// answer, and the queue of pongs is left alone.
    pub fn close(&mut self) -> (done: Result<Async<()>, TransportError>)
        ensures
            exists|flushed: Result<Async<()>, WebSocketError>|
                {
                    &&& #[trigger] old(self).channel().flushes(&final(self).channel(), flushed)
                    &&& done == passed_on(flushed)
                },
            final(self).ended() == old(self).ended(),
            final(self).pending() == old(self).pending(),
            final(self).wire() == old(self).wire(),
            final(self).channel().inbound() == old(self).channel().inbound(),
    {
        let flushed = self.upstream.flush();
        assert(old(self).channel().flushes(&self.channel(), flushed));
        flush_outcome(flushed)
    }

    /// Deals with one inbound frame.
    ///
    /// A ping joins the back of the queue and a round of answering follows;
    /// a pong only sets off such a round. Neither reaches the caller. A close
    /// frame ends the stream, once the channel has been flushed. A data frame
    /// changes nothing and is handed on as its message.
    pub fn receive_frame(&mut self, frame: RawFrame) -> (received: Result<Received, TransportError>)
        ensures
            final(self).channel().inbound() == old(self).channel().inbound(),
            match frame@ {
                FrameView::Ping(payload) => {
                    &&& final(self).ended() == old(self).ended()
                    &&& drained(
                        old(self).wire(),
                        old(self).pending().push(payload),
                        final(self).wire(),
                        final(self).pending(),
                        received is Err,
                    )
                    &&& (received is Err || received matches Ok(Received::Consumed))
                },
                FrameView::Pong(_) => {
                    &&& final(self).ended() == old(self).ended()
                    &&& drained(
                        old(self).wire(),
                        old(self).pending(),
                        final(self).wire(),
                        final(self).pending(),
                        received is Err,
                    )
                    &&& (received is Err || received matches Ok(Received::Consumed))
                },
                FrameView::Close(_) => {
                    &&& final(self).ended()
                    &&& final(self).pending() == old(self).pending()
                    &&& final(self).wire() == old(self).wire()
                    &&& (received is Err || received matches Ok(Received::Closed))
                },
                _ => {
                    &&& *final(self) == *old(self)
                    &&& received matches Ok(Received::Message(message))
                    &&& Some(message@) == message_of(frame@)
                },
            },
    {
        match frame {
            RawFrame::Ping(data) => {
                self.pings.push_back(data);
                assert(self.pending() =~= old(self).pending().push(data@));
                match self.poll_complete() {
                    Ok(_) => Ok(Received::Consumed),
                    Err(err) => Err(err),
                }
            },
            RawFrame::Pong(_) => {
                match self.poll_complete() {
                    Ok(_) => Ok(Received::Consumed),
                    Err(err) => Err(err),
                }
            },
            RawFrame::Close(_) => {
                self.closed = true;
                match self.close() {
                    Ok(_) => Ok(Received::Closed),
                    Err(err) => Err(err),
                }
            },
            data_frame => match TransportOwnedMessage::try_from(data_frame) {
                Ok(message) => Ok(Received::Message(message)),
                Err(_) => unreached(),
            },
        }
    }

    /// The next application message.
    ///
    /// Once a close frame has come in, every call reports the end of the
    /// stream and touches nothing. Before that, frames are taken from the
    /// channel until one of them is a data frame or a close frame, or the
    /// channel has none ready, has ended or has failed. The pings among them
    /// are answered in the order in which they came, and only their pongs
    /// reach the wire.
    pub fn poll(&mut self) -> (next: Result<Async<Option<TransportOwnedMessage>>, TransportError>)
        ensures
            old(self).ended() ==> {
                &&& next matches Ok(Async::Ready(None))
                &&& *final(self) == *old(self)
            },
            !old(self).ended() ==> exists|n: int| Self::polled(*old(self), *final(self), next, n),
    {
        if self.closed {
            return Ok(Async::Ready(None));
        }
        let ghost w0 = self.wire();
        let ghost q0 = self.pending();
        let ghost inbound = self.channel().inbound();
        let ghost mut n: int = 0;
        proof {
            assert(inbound.take(0) =~= Seq::<FrameView>::empty());
            assert(q0 + ping_payloads(inbound.take(0)) =~= q0);
            assert(q0.take(0) =~= Seq::<Seq<u8>>::empty());
            assert(q0.skip(0) =~= q0);
            assert(w0 + pongs(q0.take(0)) =~= w0);
            assert(inbound.skip(0) =~= inbound);
        }
        loop
            invariant
                w0 == old(self).wire(),
                q0 == old(self).pending(),
                inbound == old(self).channel().inbound(),
                !old(self).ended(),
                !self.ended(),
                0 <= n <= inbound.len(),
                self.channel().inbound() == inbound.skip(n),
                forall|i: int| 0 <= i < n ==> silent(#[trigger] inbound[i]),
                drained(w0, q0 + ping_payloads(inbound.take(n)), self.wire(), self.pending(), false),
            decreases inbound.len() - n,
        {
            let ghost w1 = self.wire();
            let ghost q1 = self.pending();
            let frame = match self.upstream.poll_frame() {
                Err(err) => {
                    let failed = Err(TransportError::from(err));
                    assert(Self::polled(*old(self), *self, failed, n));
                    return failed;
                },
                Ok(Async::NotReady) => {
                    assert(Self::polled(*old(self), *self, Ok(Async::NotReady), n));
                    return Ok(Async::NotReady);
                },
                Ok(Async::Ready(None)) => {
                    assert(Self::polled(*old(self), *self, Ok(Async::Ready(None)), n));
                    return Ok(Async::Ready(None));
                },
                Ok(Async::Ready(Some(frame))) => frame,
            };
            let ghost more: Seq<Seq<u8>> = match frame@ {
                FrameView::Ping(payload) => seq![payload],
                _ => Seq::empty(),
            };
            proof {
                assert(frame@ == inbound[n]);
                assert(inbound.skip(n).skip(1) =~= inbound.skip(n + 1));
                assert(inbound.take(n + 1).drop_last() =~= inbound.take(n));
                assert(inbound.take(n + 1).last() == inbound[n]);
                assert(ping_payloads(inbound.take(n + 1)) =~= ping_payloads(inbound.take(n)) + more);
                assert(q0 + ping_payloads(inbound.take(n + 1)) =~= (q0 + ping_payloads(
                    inbound.take(n),
                )) + more);
                assert(q1 + Seq::<Seq<u8>>::empty() =~= q1);
                if let FrameView::Ping(payload) = frame@ {
                    assert(q1 + more =~= q1.push(payload));
                }
            }
            let received = self.receive_frame(frame);
            proof {
                if silent(frame@) {
                    lemma_drained_twice(
                        w0,
                        q0 + ping_payloads(inbound.take(n)),
                        w1,
                        q1,
                        more,
                        self.wire(),
                        self.pending(),
                        received is Err,
                    );
                }
                n = n + 1;
            }
            match received {
                Err(err) => {
                    let failed = Err(err);
                    assert(Self::polled(*old(self), *self, failed, n));
                    return failed;
                },
                Ok(Received::Consumed) => {},
                Ok(Received::Message(message)) => {
                    let next = Ok(Async::Ready(Some(message)));
                    assert(Self::polled(*old(self), *self, next, n));
                    return next;
                },
                Ok(Received::Closed) => {
                    assert(Self::polled(*old(self), *self, Ok(Async::Ready(None)), n));
                    return Ok(Async::Ready(None));
                },
            }
        }
    }
}

impl<T: RawFrameChannel> From<T> for WebSocketTransport<T> {
    /// Wraps a channel. The queue of pongs starts empty, and nothing is read
    /// or written.
    fn from(transport: T) -> (wrapped: WebSocketTransport<T>)
        ensures
            wrapped.channel() == transport,
            wrapped.pending() == Seq::<Seq<u8>>::empty(),
            !wrapped.ended(),
    {
        let wrapped = WebSocketTransport { pings: VecDeque::new(), upstream: transport, closed: false };
        assert(wrapped.pending() =~= Seq::<Seq<u8>>::empty());
        wrapped
    }
}

/// The queue inside a transport has no value that a spec function could
/// write down, so the conversion makes no promise through `from_spec`: what
/// `from` returns is stated by its own `ensures`.
impl<T: RawFrameChannel> FromSpecImpl<T> for WebSocketTransport<T> {
    open spec fn obeys_from_spec() -> bool {
        false
    }

    open spec fn from_spec(transport: T) -> WebSocketTransport<T> {
        arbitrary()
    }
}

/// A pong goes out before the data: if a ping with `payload` comes in while
/// `queue` is waiting, a round of answering follows, and a message is then
/// taken for sending (for which the queue must be empty and which puts the
/// message's frame at the end of the wire), then the pong with `payload` is on
/// the wire strictly before that frame, right behind the pongs of `queue`.
pub proof fn lemma_pong_precedes_data(
    wire_before: Seq<FrameView>,
    queue: Seq<Seq<u8>>,
    payload: Seq<u8>,
    wire_answered: Seq<FrameView>,
    queue_left: Seq<Seq<u8>>,
    frame: FrameView,
    wire_after: Seq<FrameView>,
)
    requires
        drained(wire_before, queue.push(payload), wire_answered, queue_left, false),
        queue_left.len() == 0,
        wire_after == wire_answered.push(frame),
    ensures
        wire_before.len() + queue.len() < wire_after.len() - 1,
        wire_after[wire_before.len() + queue.len() as int] == FrameView::Pong(payload),
        wire_after[wire_after.len() - 1] == frame,
        forall|i: int|
            0 <= i < queue.len() ==> wire_after[wire_before.len() + i] == FrameView::Pong(
                queue[i],
            ),
{
    let full = queue.push(payload);
    let k = wire_answered.len() - wire_before.len();
    assert(full.skip(k).len() == 0);
    assert(k == full.len());
    assert(full.take(k) =~= full);
    assert forall|i: int| 0 <= i < full.len() implies wire_after[wire_before.len() + i]
        == FrameView::Pong(full[i]) by {
        assert(pongs(full)[i] == FrameView::Pong(full[i]));
    }
    assert(full[queue.len() as int] == payload);
    assert forall|i: int| 0 <= i < queue.len() implies wire_after[wire_before.len() + i]
        == FrameView::Pong(queue[i]) by {
        assert(full[i] == queue[i]);
    }
}

} // verus!
