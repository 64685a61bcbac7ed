//! The request guard of an upgraded route.

use vstd::prelude::*;

use crate::handshake::{check_handshake, switching_protocols, Response, Status};
use crate::headers::HeaderMap;

verus! {

/// A WebSocket request: the pending upgrade `U` of its connection and the
/// handler `H`, if one has been registered, that runs once it is upgraded.
pub struct Websocket<U, H> {
    upgrade: U,
    handler: Option<H>,
}

/// Why a WebSocket cannot be run.
#[derive(Debug, Clone, Copy, PartialEq, Eq, Structural)]
pub enum RunError {
    /// No handler was registered with `handle`.
    NoHandler,
}

impl<U, H> Websocket<U, H> {
    /// The pending upgrade.
    pub closed spec fn pending_upgrade(&self) -> U {
        self.upgrade
    }

    /// The handler registered last, if any.
    pub closed spec fn registered_handler(&self) -> Option<H> {
        self.handler
    }

    /// The guard for a request whose connection will be upgraded by `upgrade`;
    /// no handler is registered yet.
    pub fn from_data(upgrade: U) -> (ws: Self)
        ensures
            ws.pending_upgrade() == upgrade,
            ws.registered_handler() is None,
    {
        Websocket { upgrade, handler: None }
    }

    /// Registers the handler that runs on the upgraded connection, in place of
    /// any registered before.
    pub fn handle(&mut self, handler: H)
        ensures
            final(self).registered_handler() == Some(handler),
            final(self).pending_upgrade() == old(self).pending_upgrade(),
    {
        self.handler = Some(handler);
    }

    /// Takes the guard apart to run it: the pending upgrade together with the
    /// handler to run on it, or `NoHandler` (with the upgrade) when none was
    /// registered.
    pub fn into_run(self) -> (r: (U, Result<H, RunError>))
        ensures
            r.0 == self.pending_upgrade(),
            match self.registered_handler() {
                Some(h) => r.1 == Ok::<H, RunError>(h),
                None => r.1 == Err::<H, RunError>(RunError::NoHandler),
            },
    {
        match self.handler {
            Some(h) => (self.upgrade, Ok(h)),
            None => (self.upgrade, Err(RunError::NoHandler)),
        }
    }

    /// Answers the handshake request with `request_headers`: `426` unless it
    /// asks for a WebSocket upgrade, `400` unless its version is `13` and it
    /// gives a key, and otherwise `101 Switching Protocols` with the accept
    /// value of the key, handing this guard on to be upgraded.
    pub fn respond_to(self, request_headers: &HeaderMap) -> (r: Result<Response<Self>, Status>)
        requires
            crate::handshake::key_hashable(request_headers@),
        ensures
            match r {
                Ok(resp) => {
                    &&& crate::handshake::handshake_spec(request_headers@) matches Ok(accept)
                    &&& resp.status == Status::SwitchingProtocols
                    &&& resp.headers@ == crate::handshake::switching_headers(accept)
                    &&& accept.len() == 28
                    &&& resp.upgrade == Some(self)
                },
                Err(status) => crate::handshake::handshake_spec(request_headers@) == Err::<
                    Seq<char>,
                    Status,
                >(status),
            },
    {
        match check_handshake(request_headers) {
            Ok(accept) => Ok(switching_protocols(accept, Some(self))),
            Err(status) => Err(status),
        }
    }
}

} // verus!
