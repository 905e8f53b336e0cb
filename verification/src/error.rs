//! The one error of the transport: whatever the underlying channel reported.

use vstd::prelude::*;
use vstd::std_specs::convert::FromSpecImpl;
use websocket::WebSocketError;

verus! {

/// `websocket::WebSocketError`, the error of the underlying channel. Nothing
/// is claimed of its contents: a value of it is only carried through.
#[verifier::external_type_specification]
#[verifier::external_body]
pub struct ExWebSocketError(websocket::WebSocketError);

/// An error of the transport. The transport adds no failures of its own.
#[derive(Debug)]
pub enum TransportError {
    WebSocketError(WebSocketError),
}

impl From<WebSocketError> for TransportError {
    fn from(err: WebSocketError) -> (wrapped: TransportError) {
        TransportError::WebSocketError(err)
    }
}

impl FromSpecImpl<WebSocketError> for TransportError {
    open spec fn obeys_from_spec() -> bool {
        true
    }

    open spec fn from_spec(err: WebSocketError) -> TransportError {
        TransportError::WebSocketError(err)
    }
}

} // verus!
