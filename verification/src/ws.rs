//! Messages pushed to browsers over a WebSocket.

use vstd::prelude::*;

verus! {

/// A message for a WebSocket connection: a text frame, or the close frame.
#[derive(Debug, Clone)]
pub enum WsMessage {
    Text(String),
    Close,
}

} // verus!
