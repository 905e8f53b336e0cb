//! The frames that travel over the underlying channel.

use vstd::prelude::*;

verus! {

/// What a close frame may carry: a status code and a reason phrase.
#[derive(Clone, Debug, PartialEq, Eq)]
pub struct CloseData {
    pub status_code: u16,
    pub reason: String,
}

/// One frame of the underlying channel.
#[derive(Clone, Debug, PartialEq, Eq)]
pub enum RawFrame {
    /// Application text.
    Text(String),
    /// Application bytes.
    Binary(Vec<u8>),
    /// The peer ends the connection.
    Close(Option<CloseData>),
    /// A ping, to be answered with a pong of the same payload.
    Ping(Vec<u8>),
    /// The answer to a ping.
    Pong(Vec<u8>),
}

/// The mathematical value of a [`RawFrame`].
pub enum FrameView {
    Text(Seq<char>),
    Binary(Seq<u8>),
    Close(Option<(u16, Seq<char>)>),
    Ping(Seq<u8>),
    Pong(Seq<u8>),
}

impl View for CloseData {
    type V = (u16, Seq<char>);

    open spec fn view(&self) -> (u16, Seq<char>) {
        (self.status_code, self.reason@)
    }
}

impl View for RawFrame {
    type V = FrameView;

    open spec fn view(&self) -> FrameView {
        match *self {
            RawFrame::Text(text) => FrameView::Text(text@),
            RawFrame::Binary(data) => FrameView::Binary(data@),
            RawFrame::Close(None) => FrameView::Close(None),
            RawFrame::Close(Some(data)) => FrameView::Close(Some(data@)),
            RawFrame::Ping(data) => FrameView::Ping(data@),
            RawFrame::Pong(data) => FrameView::Pong(data@),
        }
    }
}

/// The pong frames that answer `payloads`, one for each, in the same order.
pub open spec fn pongs(payloads: Seq<Seq<u8>>) -> Seq<FrameView> {
    payloads.map_values(|payload: Seq<u8>| FrameView::Pong(payload))
}

} // verus!
