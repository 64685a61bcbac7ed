//! The server's decision on a WebSocket opening handshake: which request
//! headers it checks, the status it refuses with, and the headers it answers
//! an accepted request with.

use vstd::prelude::*;

use crate::accept::convert_key;
use crate::ascii::{eq_ignore_ascii_case, str_eq};
use crate::headers::{Header, HeaderMap};

verus! {

/// The HTTP statuses the handshake answers with.
#[derive(Debug, Clone, Copy, PartialEq, Eq, Structural)]
pub enum Status {
    /// 101: the connection switches to the WebSocket protocol.
    SwitchingProtocols,
    /// 400: the handshake request is malformed.
    BadRequest,
    /// 426: the request does not ask for a WebSocket upgrade.
    UpgradeRequired,
}

impl Status {
    /// The numeric HTTP code of a status.
    pub open spec fn code_spec(self) -> u16 {
        match self {
            Status::SwitchingProtocols => 101,
            Status::BadRequest => 400,
            Status::UpgradeRequired => 426,
        }
    }

    /// The numeric HTTP code of this status.
    pub fn code(&self) -> (c: u16)
        ensures
            c == self.code_spec(),
    {
        match self {
            Status::SwitchingProtocols => 101,
            Status::BadRequest => 400,
            Status::UpgradeRequired => 426,
        }
    }
}

/// A response to an accepted handshake: its status, its headers, and the
/// connection that is handed on to be upgraded once the response is sent.
pub struct Response<W> {
    pub status: Status,
    pub headers: HeaderMap,
    pub upgrade: Option<W>,
}

/// The value the request gives a header, or the empty text where it has none.
pub open spec fn header_or_empty(headers: Seq<(Seq<char>, Seq<char>)>, name: Seq<char>) -> Seq<char> {
    match crate::headers::get_one_spec(headers, name) {
        Some(v) => v,
        None => Seq::empty(),
    }
}

/// The `Upgrade` header asks for the WebSocket protocol (ASCII case ignored).
pub open spec fn upgrade_requested(headers: Seq<(Seq<char>, Seq<char>)>) -> bool {
    crate::ascii::eq_ignore_ascii_case_spec(header_or_empty(headers, "upgrade"@), "websocket"@)
}

/// The version is exactly `13` and a non-empty key is given.
pub open spec fn well_formed_request(headers: Seq<(Seq<char>, Seq<char>)>) -> bool {
    &&& header_or_empty(headers, "sec-websocket-version"@) == "13"@
    &&& header_or_empty(headers, "sec-websocket-key"@).len() > 0
}

/// The client's key.
pub open spec fn client_key(headers: Seq<(Seq<char>, Seq<char>)>) -> Seq<char> {
    header_or_empty(headers, "sec-websocket-key"@)
}

/// What the server answers a handshake request with: the status it refuses
/// with, or the accept value of an accepted request.
pub open spec fn handshake_spec(headers: Seq<(Seq<char>, Seq<char>)>) -> Result<Seq<char>, Status> {
    if !upgrade_requested(headers) {
        Err(Status::UpgradeRequired)
    } else if !well_formed_request(headers) {
        Err(Status::BadRequest)
    } else {
        Ok(crate::accept::accept_value(client_key(headers)))
    }
}

/// The headers of the response to an accepted handshake, in order.
pub open spec fn switching_headers(accept: Seq<char>) -> Seq<(Seq<char>, Seq<char>)> {
    seq![("Connection"@, "Upgrade"@), ("Upgrade"@, "websocket"@), ("sec-websocket-accept"@, accept)]
}

/// The request's key is short enough to hash (a machine limit).
pub open spec fn key_hashable(headers: Seq<(Seq<char>, Seq<char>)>) -> bool {
    crate::accept::key_within_limit(client_key(headers))
}

fn header_value<'a>(headers: &'a HeaderMap, name: &str) -> (v: &'a str)
    ensures
        v@ == header_or_empty(headers@, name@),
{
    match headers.get_one(name) {
        Some(v) => v,
        None => {
            let e: &str = "";
            proof {
                reveal_strlit("");
            }
            e
        },
    }
}

/// Checks a handshake request: `426 Upgrade Required` unless the `Upgrade`
/// header is `websocket` ignoring case; otherwise `400 Bad Request` unless the
/// version is `13` and a key is given; otherwise the accept value of the key.
pub fn check_handshake(headers: &HeaderMap) -> (r: Result<String, Status>)
    requires
        key_hashable(headers@),
    ensures
        match r {
            Ok(accept) => {
                &&& handshake_spec(headers@) == Ok::<Seq<char>, Status>(accept@)
                &&& accept@.len() == 28
            },
            Err(status) => handshake_spec(headers@) == Err::<Seq<char>, Status>(status),
        },
{
    let upgrade_present = eq_ignore_ascii_case(header_value(headers, "upgrade"), "websocket");
    let correct_version_match = str_eq(header_value(headers, "sec-websocket-version"), "13");
    let sec_websocket_accept = header_value(headers, "sec-websocket-key");
    if !upgrade_present {
        Err(Status::UpgradeRequired)
    } else if !correct_version_match || sec_websocket_accept.is_empty() {
        Err(Status::BadRequest)
    } else {
        Ok(convert_key(sec_websocket_accept))
    }
}

/// The response to an accepted handshake: `101 Switching Protocols` with the
/// `Connection`, `Upgrade` and `sec-websocket-accept` headers, carrying the
/// connection to upgrade.
pub fn switching_protocols<W>(accept: String, upgrade: Option<W>) -> (resp: Response<W>)
    ensures
        resp.status == Status::SwitchingProtocols,
        resp.headers@ == switching_headers(accept@),
        resp.upgrade == upgrade,
{
    let mut headers = HeaderMap::new();
    headers.add(Header::new("Connection", "Upgrade"));
    headers.add(Header::new("Upgrade", "websocket"));
    headers.add(Header::new("sec-websocket-accept", accept.as_str()));
    assert(headers@ =~= switching_headers(accept@));
    Response { status: Status::SwitchingProtocols, headers, upgrade }
}

/// The response to an accepted handshake holds three headers, and looking
/// them up by name answers `Connection: Upgrade`, `Upgrade: websocket` and
/// `sec-websocket-accept` with the accept value.
pub proof fn lemma_switching_headers_lookup(accept: Seq<char>)
    ensures
        switching_headers(accept).len() == 3,
        crate::headers::get_one_spec(switching_headers(accept), "connection"@) == Some("Upgrade"@),
        crate::headers::get_one_spec(switching_headers(accept), "upgrade"@) == Some("websocket"@),
        crate::headers::get_one_spec(switching_headers(accept), "sec-websocket-accept"@) == Some(accept),
{
    reveal_strlit("Connection");
    reveal_strlit("connection");
    reveal_strlit("Upgrade");
    reveal_strlit("upgrade");
    reveal_strlit("sec-websocket-accept");
    let h = switching_headers(accept);
    let (c, u, a) = ("connection"@, "upgrade"@, "sec-websocket-accept"@);
    assert(crate::ascii::eq_ignore_ascii_case_spec("Connection"@, c));
    assert(crate::ascii::eq_ignore_ascii_case_spec("Upgrade"@, u));
    assert(crate::ascii::eq_ignore_ascii_case_spec("sec-websocket-accept"@, a));
    assert(!crate::ascii::eq_ignore_ascii_case_spec("Connection"@, u));
    assert(!crate::ascii::eq_ignore_ascii_case_spec("Connection"@, a));
    assert(!crate::ascii::eq_ignore_ascii_case_spec("Upgrade"@, a));
    assert(h.drop_first() =~= seq![("Upgrade"@, "websocket"@), ("sec-websocket-accept"@, accept)]);
    assert(h.drop_first().drop_first() =~= seq![("sec-websocket-accept"@, accept)]);
    assert(crate::headers::get_one_spec(h.drop_first(), u) == Some("websocket"@));
    assert(crate::headers::get_one_spec(h.drop_first().drop_first(), a) == Some(accept));
    assert(crate::headers::get_one_spec(h.drop_first(), a) == Some(accept));
}

/// The three answers to a handshake. With `up`, `version` and `key` the
/// values the request gives the `upgrade`, `sec-websocket-version` and
/// `sec-websocket-key` headers (the empty text where it gives none): the
/// answer is `426 Upgrade Required` exactly when `up` is not `websocket`
/// ignoring ASCII case; `400 Bad Request` exactly when it is, but `version` is
/// not exactly `13` or `key` is empty; and otherwise the accept value of
/// `key`, whatever characters the key holds.
pub proof fn lemma_handshake_outcomes(headers: Seq<(Seq<char>, Seq<char>)>)
    ensures
        ({
            let up = match crate::headers::get_one_spec(headers, "upgrade"@) {
                Some(v) => v,
                None => Seq::<char>::empty(),
            };
            let version = match crate::headers::get_one_spec(headers, "sec-websocket-version"@) {
                Some(v) => v,
                None => Seq::<char>::empty(),
            };
            let key = match crate::headers::get_one_spec(headers, "sec-websocket-key"@) {
                Some(v) => v,
                None => Seq::<char>::empty(),
            };
            &&& handshake_spec(headers) == Err::<Seq<char>, Status>(Status::UpgradeRequired)
                <==> !crate::ascii::eq_ignore_ascii_case_spec(up, "websocket"@)
            &&& handshake_spec(headers) == Err::<Seq<char>, Status>(Status::BadRequest) <==> (
            crate::ascii::eq_ignore_ascii_case_spec(up, "websocket"@) && (version != "13"@ || key.len()
                == 0))
            &&& handshake_spec(headers) is Ok <==> (crate::ascii::eq_ignore_ascii_case_spec(up, "websocket"@)
                && version == "13"@ && key.len() > 0)
            &&& handshake_spec(headers) is Ok ==> handshake_spec(headers) == Ok::<Seq<char>, Status>(
                crate::accept::accept_value(key),
            )
        }),
{
}

/// A browser's ordinary handshake, `Upgrade: websocket`,
/// `Sec-WebSocket-Version: 13` and `Sec-WebSocket-Key: key`, is accepted with
/// the accept value of its key for every non-empty key.
pub proof fn lemma_browser_handshake_accepted(key: Seq<char>)
    requires
        key.len() > 0,
    ensures
        handshake_spec(
            seq![
                ("Upgrade"@, "websocket"@),
                ("Sec-WebSocket-Version"@, "13"@),
                ("Sec-WebSocket-Key"@, key),
            ],
        ) == Ok::<Seq<char>, Status>(crate::accept::accept_value(key)),
{
    reveal_strlit("Upgrade");
    reveal_strlit("upgrade");
    reveal_strlit("websocket");
    reveal_strlit("Sec-WebSocket-Version");
    reveal_strlit("sec-websocket-version");
    reveal_strlit("Sec-WebSocket-Key");
    reveal_strlit("sec-websocket-key");
    reveal_strlit("13");
    let h = seq![("Upgrade"@, "websocket"@), ("Sec-WebSocket-Version"@, "13"@), ("Sec-WebSocket-Key"@, key)];
    assert(crate::ascii::eq_ignore_ascii_case_spec("Upgrade"@, "upgrade"@));
    assert(crate::ascii::eq_ignore_ascii_case_spec("websocket"@, "websocket"@));
    assert(crate::ascii::eq_ignore_ascii_case_spec("Sec-WebSocket-Version"@, "sec-websocket-version"@));
    assert(crate::ascii::eq_ignore_ascii_case_spec("Sec-WebSocket-Key"@, "sec-websocket-key"@));
    assert(h.drop_first() =~= seq![("Sec-WebSocket-Version"@, "13"@), ("Sec-WebSocket-Key"@, key)]);
    assert(h.drop_first().drop_first() =~= seq![("Sec-WebSocket-Key"@, key)]);
    assert(header_or_empty(h, "upgrade"@) == "websocket"@);
    let v = "sec-websocket-version"@;
    let k = "sec-websocket-key"@;
    assert(!crate::ascii::eq_ignore_ascii_case_spec("Upgrade"@, v));
    assert(!crate::ascii::eq_ignore_ascii_case_spec("Upgrade"@, k));
    assert(!crate::ascii::eq_ignore_ascii_case_spec("Sec-WebSocket-Version"@, k));
    assert(crate::headers::get_one_spec(h.drop_first(), v) == Some("13"@));
    assert(crate::headers::get_one_spec(h, v) == Some("13"@));
    assert(crate::headers::get_one_spec(h.drop_first().drop_first(), k) == Some(key));
    assert(crate::headers::get_one_spec(h.drop_first(), k) == Some(key));
    assert(crate::headers::get_one_spec(h, k) == Some(key));
}

/// The answer to a handshake depends only on the values the request gives the
/// `upgrade`, `sec-websocket-version` and `sec-websocket-key` headers (the
/// empty text where it gives none): every other header is ignored.
pub proof fn lemma_handshake_depends_only_on_three_headers(
    a: Seq<(Seq<char>, Seq<char>)>,
    b: Seq<(Seq<char>, Seq<char>)>,
)
    requires
        header_or_empty(a, "upgrade"@) == header_or_empty(b, "upgrade"@),
        header_or_empty(a, "sec-websocket-version"@) == header_or_empty(b, "sec-websocket-version"@),
        header_or_empty(a, "sec-websocket-key"@) == header_or_empty(b, "sec-websocket-key"@),
    ensures
        handshake_spec(a) == handshake_spec(b),
        key_hashable(a) == key_hashable(b),
{
}

/// The answer to a handshake does not depend on the ASCII case in which the
/// request spells its header names.
pub proof fn lemma_handshake_ignores_name_case(
    a: Seq<(Seq<char>, Seq<char>)>,
    b: Seq<(Seq<char>, Seq<char>)>,
)
    requires
        crate::headers::same_up_to_name_case(a, b),
    ensures
        handshake_spec(a) == handshake_spec(b),
{
    crate::headers::lemma_get_one_name_case(a, b, "upgrade"@);
    crate::headers::lemma_get_one_name_case(a, b, "sec-websocket-version"@);
    crate::headers::lemma_get_one_name_case(a, b, "sec-websocket-key"@);
}

} // verus!
