//! A WebSocket request guard: the pending upgrade of the connection and the
//! handler registered to run on it once upgraded.

mod websocket;

pub use websocket::{RunError, Websocket};

use vstd::prelude::*;

verus! {

/// The upgraded HTTP connection, declared to Verus; nothing inside it is read.
#[verifier::external_type_specification]
#[verifier::external_body]
pub struct ExUpgraded(hyper::upgrade::Upgraded);

/// Transports admitted to carry a WebSocket connection: sendable between
/// threads. The byte-stream capabilities a transport also needs (tokio's
/// `AsyncRead + AsyncWrite + Unpin`) are required where the stream is driven,
/// outside the verified code.
pub trait AsyncReadWrite: Send {

}

impl AsyncReadWrite for hyper::upgrade::Upgraded {

}

} // verus!
