//! Server side of the WebSocket opening handshake (RFC 6455) and the
//! bookkeeping around an upgraded connection, with verified contracts.

pub mod accept;
pub mod ascii;
pub mod handshake;
pub mod headers;
pub mod tungstenite;
pub mod websocket;
