//! The messages that the layer above the transport sees.

use crate::frame::{FrameView, RawFrame};
use vstd::prelude::*;
use vstd::std_specs::convert::{FromSpecImpl, TryFromSpecImpl};

verus! {

/// An application payload: bytes or text.
#[derive(Clone, Debug, PartialEq, Eq)]
pub enum TransportOwnedMessage {
    Binary(Vec<u8>),
    Text(String),
}

/// The mathematical value of a [`TransportOwnedMessage`].
pub enum MessageView {
    Binary(Seq<u8>),
    Text(Seq<char>),
}

impl View for TransportOwnedMessage {
    type V = MessageView;

    open spec fn view(&self) -> MessageView {
        match *self {
            TransportOwnedMessage::Binary(data) => MessageView::Binary(data@),
            TransportOwnedMessage::Text(text) => MessageView::Text(text@),
        }
    }
}

/// The frame that carries a message.
pub open spec fn frame_of(message: MessageView) -> FrameView {
    match message {
        MessageView::Binary(data) => FrameView::Binary(data),
        MessageView::Text(text) => FrameView::Text(text),
    }
}

/// The message that a frame carries, if it is a data frame.
pub open spec fn message_of(frame: FrameView) -> Option<MessageView> {
    match frame {
        FrameView::Binary(data) => Some(MessageView::Binary(data)),
        FrameView::Text(text) => Some(MessageView::Text(text)),
        _ => None,
    }
}

/// The frame that a message is sent as.
pub open spec fn into_frame(item: TransportOwnedMessage) -> RawFrame {
    match item {
        TransportOwnedMessage::Binary(data) => RawFrame::Binary(data),
        TransportOwnedMessage::Text(text) => RawFrame::Text(text),
    }
}

/// The message that a data frame is received as; a control frame is handed
/// back as it came.
pub open spec fn from_frame(item: RawFrame) -> Result<TransportOwnedMessage, RawFrame> {
    match item {
        RawFrame::Binary(data) => Ok(TransportOwnedMessage::Binary(data)),
        RawFrame::Text(text) => Ok(TransportOwnedMessage::Text(text)),
        other => Err(other),
    }
}

impl From<Vec<u8>> for TransportOwnedMessage {
    fn from(data: Vec<u8>) -> (message: TransportOwnedMessage) {
        TransportOwnedMessage::Binary(data)
    }
}

impl FromSpecImpl<Vec<u8>> for TransportOwnedMessage {
    open spec fn obeys_from_spec() -> bool {
        true
    }

    open spec fn from_spec(data: Vec<u8>) -> TransportOwnedMessage {
        TransportOwnedMessage::Binary(data)
    }
}

impl From<String> for TransportOwnedMessage {
    fn from(text: String) -> (message: TransportOwnedMessage) {
        TransportOwnedMessage::Text(text)
    }
}

impl FromSpecImpl<String> for TransportOwnedMessage {
    open spec fn obeys_from_spec() -> bool {
        true
    }

    open spec fn from_spec(text: String) -> TransportOwnedMessage {
        TransportOwnedMessage::Text(text)
    }
}

impl From<TransportOwnedMessage> for RawFrame {
    fn from(item: TransportOwnedMessage) -> (frame: RawFrame) {
        match item {
            TransportOwnedMessage::Binary(data) => RawFrame::Binary(data),
            TransportOwnedMessage::Text(text) => RawFrame::Text(text),
        }
    }
}

impl FromSpecImpl<TransportOwnedMessage> for RawFrame {
    open spec fn obeys_from_spec() -> bool {
        true
    }

    open spec fn from_spec(item: TransportOwnedMessage) -> RawFrame {
        into_frame(item)
    }
}

impl TryFrom<RawFrame> for TransportOwnedMessage {
    type Error = RawFrame;

    /// A data frame becomes the message it carries; a control frame is handed
    /// back as it came.
    fn try_from(item: RawFrame) -> (converted: Result<TransportOwnedMessage, RawFrame>) {
        match item {
            RawFrame::Binary(data) => Ok(TransportOwnedMessage::Binary(data)),
            RawFrame::Text(text) => Ok(TransportOwnedMessage::Text(text)),
            other => Err(other),
        }
    }
}

impl TryFromSpecImpl<RawFrame> for TransportOwnedMessage {
    open spec fn obeys_try_from_spec() -> bool {
        true
    }

    open spec fn try_from_spec(item: RawFrame) -> Result<TransportOwnedMessage, RawFrame> {
        from_frame(item)
    }
}

/// A message that is turned into a frame and back is the message it was, and
/// the frame in between carries exactly that message.
pub proof fn lemma_message_round_trip(item: TransportOwnedMessage)
    ensures
        from_frame(into_frame(item)) == Ok::<TransportOwnedMessage, RawFrame>(item),
        into_frame(item)@ == frame_of(item@),
        message_of(frame_of(item@)) == Some(item@),
{
}

/// Only data frames turn into messages: a ping, a pong or a close never does.
pub proof fn lemma_control_frames_stay(item: RawFrame)
    ensures
        from_frame(item) is Ok <==> message_of(item@) is Some,
        from_frame(item) matches Ok(message) ==> message_of(item@) == Some(message@),
        from_frame(item) matches Err(other) ==> other == item,
{
}

} // verus!
