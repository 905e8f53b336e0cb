//! A channel held in memory whose peer sends back whatever it is sent. It
//! stands in for a connection where none is at hand.

use crate::channel::{Async, AsyncSink, RawFrameChannel};
use crate::frame::{FrameView, RawFrame};
use std::collections::VecDeque;
use vstd::prelude::*;
use websocket::WebSocketError;

verus! {

/// The views of a queue of frames, front first.
pub open spec fn views(frames: Seq<RawFrame>) -> Seq<FrameView> {
    frames.map_values(|frame: RawFrame| frame@)
}

/// What the peer sends back for the frames it was sent: each of them, in
/// order, with an empty ping in front of each where the peer adds pings.
pub open spec fn echoed(frames: Seq<FrameView>, with_pings: bool) -> Seq<FrameView>
    decreases frames.len(),
{
    if frames.len() == 0 {
        Seq::empty()
    } else if with_pings {
        echoed(frames.drop_last(), with_pings).push(FrameView::Ping(Seq::empty())).push(
            frames.last(),
        )
    } else {
        echoed(frames.drop_last(), with_pings).push(frames.last())
    }
}

/// An echoing peer behind a channel with room for a fixed number of frames.
///
/// A frame that is offered waits on the way out. The peer takes what waits
/// there, and sends it back, at the moment at which the channel is polled and
/// has nothing ready: that poll reports not-ready, and the next ones hand the
/// echoes out.
pub struct LoopbackChannel {
    inbound: VecDeque<RawFrame>,
    outbound: VecDeque<RawFrame>,
    room: usize,
    with_pings: bool,
    taken: Ghost<Seq<FrameView>>,
}

impl LoopbackChannel {
    /// The frames that are ready to be polled, next one first.
    pub closed spec fn ready(&self) -> Seq<FrameView> {
        views(self.inbound@)
    }

    /// The frames that wait for the peer to take them, oldest first.
    pub closed spec fn waiting(&self) -> Seq<FrameView> {
        views(self.outbound@)
    }

    /// How many frames may wait on the way out at one time.
    pub closed spec fn capacity(&self) -> nat {
        self.room as nat
    }

    /// Whether the peer puts an empty ping in front of each frame it echoes.
    pub closed spec fn adds_pings(&self) -> bool {
        self.with_pings
    }

    /// Every frame that the channel ever took for sending, oldest first.
    pub closed spec fn log(&self) -> Seq<FrameView> {
        self.taken@
    }

    /// A channel with nothing in it, with room for `room` frames on the way
    /// out; with `with_pings` the peer puts an empty ping in front of each
    /// frame that it echoes.
    pub fn new(room: usize, with_pings: bool) -> (channel: LoopbackChannel)
        ensures
            channel.ready() == Seq::<FrameView>::empty(),
            channel.waiting() == Seq::<FrameView>::empty(),
            channel.log() == Seq::<FrameView>::empty(),
            channel.capacity() == room,
            channel.adds_pings() == with_pings,
    {
        let channel = LoopbackChannel {
            inbound: VecDeque::new(),
            outbound: VecDeque::new(),
            room,
            with_pings,
            taken: Ghost(Seq::empty()),
        };
        assert(channel.ready() =~= Seq::<FrameView>::empty());
        assert(channel.waiting() =~= Seq::<FrameView>::empty());
        channel
    }

    /// Puts a frame behind those that are ready to be polled, as if the peer
    /// had sent it of its own accord.
    pub fn inject(&mut self, frame: RawFrame)
        ensures
            final(self).ready() == old(self).ready().push(frame@),
            final(self).waiting() == old(self).waiting(),
            final(self).log() == old(self).log(),
            final(self).capacity() == old(self).capacity(),
            final(self).adds_pings() == old(self).adds_pings(),
    {
        self.inbound.push_back(frame);
        assert(self.ready() =~= old(self).ready().push(frame@));
    }

    /// How many frames wait for the peer to take them.
    pub fn in_flight(&self) -> (count: usize)
        ensures
            count == self.waiting().len(),
    {
        self.outbound.len()
    }

    /// The peer's turn: it takes every frame that waits on the way out and
    /// sends it back, behind what is already ready.
    pub fn deliver(&mut self)
        ensures
            final(self).ready() == old(self).ready() + echoed(
                old(self).waiting(),
                old(self).adds_pings(),
            ),
            final(self).waiting() == Seq::<FrameView>::empty(),
            final(self).log() == old(self).log(),
            final(self).capacity() == old(self).capacity(),
            final(self).adds_pings() == old(self).adds_pings(),
    {
        let ghost r0 = self.ready();
        let ghost w0 = self.waiting();
        let ghost mut done: Seq<FrameView> = Seq::empty();
        proof {
            assert(r0 + echoed(done, self.with_pings) =~= r0);
            assert(done + self.waiting() =~= w0);
        }
        loop
            invariant
                r0 == old(self).ready(),
                w0 == old(self).waiting(),
                self.room == old(self).room,
                self.with_pings == old(self).with_pings,
                self.taken == old(self).taken,
                w0 == done + self.waiting(),
                self.ready() == r0 + echoed(done, self.with_pings),
            ensures
                self.outbound@.len() == 0,
            decreases self.outbound@.len(),
        {
            let ghost before = self.waiting();
            let ghost ready_before = self.ready();
            match self.outbound.pop_front() {
                None => {
                    break ;
                },
                Some(frame) => {
                    if self.with_pings {
                        self.inbound.push_back(RawFrame::Ping(Vec::new()));
                    }
                    self.inbound.push_back(frame);
                    proof {
                        let next = done.push(frame@);
                        assert(self.waiting() =~= before.skip(1));
                        assert(frame@ == before[0]);
                        assert(next + self.waiting() =~= w0);
                        assert(next.drop_last() =~= done);
                        assert(next.last() == frame@);
                        if self.with_pings {
                            assert(self.ready() =~= ready_before.push(
                                FrameView::Ping(Seq::empty()),
                            ).push(frame@));
                        } else {
                            assert(self.ready() =~= ready_before.push(frame@));
                        }
                        assert(self.ready() =~= r0 + echoed(next, self.with_pings));
                        done = next;
                    }
                },
            }
        }
        assert(self.waiting() =~= Seq::<FrameView>::empty());
        assert(done =~= w0);
    }
}

impl RawFrameChannel for LoopbackChannel {
    open spec fn sent(&self) -> Seq<FrameView> {
        self.log()
    }

    open spec fn inbound(&self) -> Seq<FrameView> {
        self.ready()
    }

    open spec fn flushes(&self, after: &Self, flushed: Result<Async<()>, WebSocketError>) -> bool {
        *after == *self && flushed matches Ok(Async::Ready(_))
    }

    /// Hands out the frame at the front of those that are ready. With none
    /// ready the peer takes its turn and the poll reports not-ready. The
    /// channel never ends and never fails.
    fn poll_frame(&mut self) -> (polled: Result<Async<Option<RawFrame>>, WebSocketError>)
        ensures
            final(self).log() == old(self).log(),
            final(self).capacity() == old(self).capacity(),
            final(self).adds_pings() == old(self).adds_pings(),
            old(self).ready().len() > 0 ==> {
                &&& polled matches Ok(Async::Ready(Some(frame))) && frame@ == old(self).ready()[0]
                &&& final(self).ready() == old(self).ready().skip(1)
                &&& final(self).waiting() == old(self).waiting()
            },
            old(self).ready().len() == 0 ==> {
                &&& polled matches Ok(Async::NotReady)
                &&& final(self).ready() == echoed(old(self).waiting(), old(self).adds_pings())
                &&& final(self).waiting() == Seq::<FrameView>::empty()
            },
    {
        match self.inbound.pop_front() {
            Some(frame) => {
                assert(self.ready() =~= old(self).ready().skip(1));
                Ok(Async::Ready(Some(frame)))
            },
            None => {
                self.deliver();
                assert(old(self).ready() + echoed(old(self).waiting(), old(self).adds_pings())
                    =~= echoed(old(self).waiting(), old(self).adds_pings()));
                Ok(Async::NotReady)
            },
        }
    }

    /// Takes the frame if fewer frames than there is room for wait on the way
    /// out, and hands it back otherwise.
    fn offer_frame(&mut self, frame: RawFrame) -> (offered: Result<
        AsyncSink<RawFrame>,
        WebSocketError,
    >)
        ensures
            final(self).ready() == old(self).ready(),
            final(self).capacity() == old(self).capacity(),
            final(self).adds_pings() == old(self).adds_pings(),
            old(self).waiting().len() < old(self).capacity() ==> {
                &&& offered matches Ok(AsyncSink::Ready)
                &&& final(self).waiting() == old(self).waiting().push(frame@)
            },
            old(self).waiting().len() >= old(self).capacity() ==> {
                &&& offered matches Ok(AsyncSink::NotReady(back)) && back == frame
                &&& final(self).waiting() == old(self).waiting()
            },
    {
        if self.outbound.len() < self.room {
            self.taken = Ghost(self.taken@.push(frame@));
            self.outbound.push_back(frame);
            assert(self.waiting() =~= old(self).waiting().push(frame@));
            Ok(AsyncSink::Ready)
        } else {
            Ok(AsyncSink::NotReady(frame))
        }
    }

    /// There is nothing to push: always ready, and nothing changes.
    fn flush(&mut self) -> (flushed: Result<Async<()>, WebSocketError>)
        ensures
            *final(self) == *old(self),
            flushed matches Ok(Async::Ready(_)),
    {
        Ok(Async::Ready(()))
    }
}

} // verus!
