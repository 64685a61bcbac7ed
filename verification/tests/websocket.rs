use rocket_websocket::handshake::Status;
use rocket_websocket::headers::{Header, HeaderMap};
use rocket_websocket::tungstenite::{self, EchoAction, EchoWorker, Incoming, MessageKind};
use rocket_websocket::websocket::{RunError, Websocket};

fn request(pairs: &[(&str, &str)]) -> HeaderMap {
    let mut m = HeaderMap::new();
    for (n, v) in pairs {
        m.add(Header::new(n, v));
    }
    m
}

fn handshake_request() -> HeaderMap {
    request(&[
        ("Upgrade", "websocket"),
        ("Sec-WebSocket-Version", "13"),
        ("Sec-WebSocket-Key", "dGhlIHNhbXBsZSBub25jZQ=="),
    ])
}

#[test]
fn run_without_handler_fails() {
    let ws: Websocket<u32, &str> = Websocket::from_data(7);
    let (upgrade, handler) = ws.into_run();
    assert_eq!(upgrade, 7);
    assert_eq!(handler, Err(RunError::NoHandler));
}

#[test]
fn run_uses_last_registered_handler() {
    let mut ws: Websocket<u32, &str> = Websocket::from_data(7);
    ws.handle("first");
    ws.handle("second");
    let (upgrade, handler) = ws.into_run();
    assert_eq!(upgrade, 7);
    assert_eq!(handler, Ok("second"));
}

#[test]
fn respond_to_accepted_request() {
    let mut ws: Websocket<u32, &str> = Websocket::from_data(3);
    ws.handle("echo");
    let resp = match ws.respond_to(&handshake_request()) {
        Ok(resp) => resp,
        Err(_) => panic!("handshake refused"),
    };
    assert_eq!(resp.status, Status::SwitchingProtocols);
    assert_eq!(resp.status.code(), 101);
    assert_eq!(resp.headers.len(), 3);
    assert_eq!(resp.headers.get_one("connection"), Some("Upgrade"));
    assert_eq!(resp.headers.get_one("upgrade"), Some("websocket"));
    assert_eq!(resp.headers.get_one("Sec-WebSocket-Accept"), Some("s3pPLMBiTxaQ9kYGzzhZRbK+xOo="));
    let ws = resp.upgrade.expect("connection handed on");
    assert_eq!(ws.into_run(), (3, Ok("echo")));
}

#[test]
fn respond_to_refused_request() {
    let ws: Websocket<u32, &str> = Websocket::from_data(3);
    assert!(matches!(ws.respond_to(&HeaderMap::new()), Err(Status::UpgradeRequired)));
    let ws: Websocket<u32, &str> = Websocket::from_data(3);
    let h = request(&[("Upgrade", "WEBSOCKET"), ("Sec-WebSocket-Version", "7"), ("Sec-WebSocket-Key", "k")]);
    assert!(matches!(ws.respond_to(&h), Err(Status::BadRequest)));
}

#[test]
fn echo_guard_responds_like_the_handler_guard() {
    let ws = tungstenite::Websocket::from_data("body");
    let resp = match ws.respond_to(&handshake_request()) {
        Ok(resp) => resp,
        Err(_) => panic!("handshake refused"),
    };
    assert_eq!(resp.status, Status::SwitchingProtocols);
    assert_eq!(resp.headers.get_one("sec-websocket-accept"), Some("s3pPLMBiTxaQ9kYGzzhZRbK+xOo="));
    assert_eq!(resp.upgrade.expect("guard handed on").into_data(), "body");
    let ws = tungstenite::Websocket::from_data("body");
    let h = request(&[("Upgrade", "websocket"), ("Sec-WebSocket-Version", "13")]);
    assert!(matches!(ws.respond_to(&h), Err(Status::BadRequest)));
}

fn run(events: &[Incoming]) -> Vec<EchoAction> {
    let mut w = EchoWorker::new();
    events.iter().map(|e| w.step(*e)).collect()
}

#[test]
fn echo_forwards_leading_text_messages() {
    let t = Incoming::Message(MessageKind::Text);
    let b = Incoming::Message(MessageKind::Binary);
    assert_eq!(run(&[t, t, b, t]), vec![EchoAction::Forward, EchoAction::Forward, EchoAction::Finish, EchoAction::Finish]);
    assert_eq!(run(&[t, Incoming::End, t]), vec![EchoAction::Forward, EchoAction::Finish, EchoAction::Finish]);
    assert_eq!(run(&[Incoming::Message(MessageKind::Ping), t]), vec![EchoAction::Finish, EchoAction::Finish]);
    assert_eq!(run(&[Incoming::Message(MessageKind::Close)]), vec![EchoAction::Finish]);
}

#[test]
fn echo_aborts_on_read_error() {
    let t = Incoming::Message(MessageKind::Text);
    assert_eq!(run(&[t, Incoming::ReadError, t]), vec![EchoAction::Forward, EchoAction::Abort, EchoAction::Finish]);
    let mut w = EchoWorker::new();
    assert!(!w.done());
    assert_eq!(w.step(Incoming::ReadError), EchoAction::Abort);
    assert!(w.done());
}
