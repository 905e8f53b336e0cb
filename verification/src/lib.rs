//! A transport over a raw WebSocket frame channel that hands application
//! payloads to the layer above and deals with the control frames itself:
//! every ping is answered with a pong of the same payload, pongs are dropped,
//! and a close frame ends the stream.

pub mod channel;
pub mod error;
pub mod frame;
pub mod loopback;
pub mod message;
pub mod transport;

pub use channel::{Async, AsyncSink, RawFrameChannel};
pub use error::TransportError;
pub use frame::{CloseData, FrameView, RawFrame};
pub use loopback::LoopbackChannel;
pub use message::{MessageView, TransportOwnedMessage};
pub use transport::{Received, WebSocketTransport};
