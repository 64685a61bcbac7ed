//! The echoing WebSocket guard: after the handshake a worker reads messages
//! from the connection and writes every leading text message back, stopping at
//! the first message that is not text.

use vstd::prelude::*;

use crate::handshake::{check_handshake, switching_protocols, Response, Status};
use crate::headers::HeaderMap;

verus! {

/// A request whose body `D` holds the connection to upgrade.
pub struct Websocket<D> {
    data: D,
}

impl<D> Websocket<D> {
    /// The request body holding the connection.
    pub closed spec fn body(&self) -> D {
        self.data
    }

    /// The guard for a request with body `data`.
    pub fn from_data(data: D) -> (ws: Self)
        ensures
            ws.body() == data,
    {
        Websocket { data }
    }

    /// Gives back the request body, to upgrade its connection.
    pub fn into_data(self) -> (data: D)
        ensures
            data == self.body(),
    {
        self.data
    }

    /// Answers the handshake request with `request_headers`: `426` unless it
    /// asks for a WebSocket upgrade, `400` unless its version is `13` and it
    /// gives a key, and otherwise `101 Switching Protocols` with the accept
    /// value of the key, handing this guard on so that its echo worker is
    /// spawned.
    pub fn respond_to(self, request_headers: &HeaderMap) -> (r: Result<Response<Self>, Status>)
        requires
            crate::handshake::key_hashable(request_headers@),
        ensures
            match r {
                Ok(resp) => {
                    &&& crate::handshake::handshake_spec(request_headers@) matches Ok(accept)
                    &&& resp.status == Status::SwitchingProtocols
                    &&& resp.headers@ == crate::handshake::switching_headers(accept)
                    &&& accept.len() == 28
                    &&& resp.upgrade == Some(self)
                },
                Err(status) => crate::handshake::handshake_spec(request_headers@) == Err::<
                    Seq<char>,
                    Status,
                >(status),
            },
    {
        match check_handshake(request_headers) {
            Ok(accept) => Ok(switching_protocols(accept, Some(self))),
            Err(status) => Err(status),
        }
    }
}

/// The kinds of WebSocket message.
#[derive(Debug, Clone, Copy, PartialEq, Eq, Structural)]
pub enum MessageKind {
    Text,
    Binary,
    Ping,
    Pong,
    Close,
    Frame,
}

/// What reading the connection yields next.
#[derive(Debug, Clone, Copy, PartialEq, Eq, Structural)]
pub enum Incoming {
    /// A message of the given kind.
    Message(MessageKind),
    /// The read failed.
    ReadError,
    /// The connection has no more messages.
    End,
}

/// What the worker does with what it read.
#[derive(Debug, Clone, Copy, PartialEq, Eq, Structural)]
pub enum EchoAction {
    /// Write the message back.
    Forward,
    /// Stop reading and close the writing half; nothing more is written.
    Finish,
    /// A read failed: the worker gives up with a failure.
    Abort,
}

/// The echo worker's state: whether it has stopped reading.
pub struct EchoWorker {
    done: bool,
}

/// The worker's next state and action, given whether it had stopped and what it read.
pub open spec fn echo_step(done: bool, event: Incoming) -> (bool, EchoAction) {
    if done {
        (true, EchoAction::Finish)
    } else {
        match event {
            Incoming::Message(MessageKind::Text) => (false, EchoAction::Forward),
            Incoming::Message(_) => (true, EchoAction::Finish),
            Incoming::End => (true, EchoAction::Finish),
            Incoming::ReadError => (true, EchoAction::Abort),
        }
    }
}

/// The actions taken on a sequence of reads, starting in state `done`.
pub open spec fn echo_run(done: bool, events: Seq<Incoming>) -> Seq<EchoAction>
    decreases events.len(),
{
    if events.len() == 0 {
        Seq::empty()
    } else {
        let (next, action) = echo_step(done, events[0]);
        seq![action] + echo_run(next, events.drop_first())
    }
}

/// Length of the longest prefix of `events` made of text messages.
pub open spec fn text_prefix_len(events: Seq<Incoming>) -> nat
    decreases events.len(),
{
    if events.len() > 0 && events[0] == Incoming::Message(MessageKind::Text) {
        1 + text_prefix_len(events.drop_first())
    } else {
        0
    }
}

impl EchoWorker {
    /// Whether the worker has stopped reading.
    pub closed spec fn is_done(&self) -> bool {
        self.done
    }

    /// A worker that has not read anything yet.
    pub fn new() -> (w: EchoWorker)
        ensures
            !w.is_done(),
    {
        EchoWorker { done: false }
    }

    /// Whether the worker has stopped reading.
    pub fn done(&self) -> (d: bool)
        ensures
            d == self.is_done(),
    {
        self.done
    }

    /// Decides what to do with the next read: text messages are written back
    /// for as long as no other message came; the first message that is not
    /// text, or the end of the connection, finishes the worker, and a failed
    /// read aborts it. A stopped worker only finishes.
    pub fn step(&mut self, event: Incoming) -> (action: EchoAction)
        ensures
            (final(self).is_done(), action) == echo_step(old(self).is_done(), event),
    {
        if self.done {
            return EchoAction::Finish;
        }
        match event {
            Incoming::Message(MessageKind::Text) => EchoAction::Forward,
            Incoming::Message(_) => {
                self.done = true;
                EchoAction::Finish
            },
            Incoming::End => {
                self.done = true;
                EchoAction::Finish
            },
            Incoming::ReadError => {
                self.done = true;
                EchoAction::Abort
            },
        }
    }
}

/// A stopped worker takes no action but `Finish`, whatever it reads.
pub proof fn lemma_stopped_worker_finishes(events: Seq<Incoming>)
    ensures
        echo_run(true, events).len() == events.len(),
        forall|i: int| 0 <= i < events.len() ==> #[trigger] echo_run(true, events)[i] == EchoAction::Finish,
    decreases events.len(),
{
    if events.len() > 0 {
        lemma_stopped_worker_finishes(events.drop_first());
        let rest = echo_run(true, events.drop_first());
        assert forall|i: int| 0 <= i < events.len() implies #[trigger] echo_run(true, events)[i] == EchoAction::Finish by {
            if i > 0 {
                assert(echo_run(true, events)[i] == rest[i - 1]);
            }
        }
    }
}

/// A fresh worker writes back exactly the leading text messages: the action
/// on the `i`-th read is `Forward` if and only if every read up to and
/// including it was a text message (the run of text messages ends at the
/// first read that is not one). The read that ends the run of text
/// messages aborts the worker if it failed and finishes it otherwise, and
/// every later read finishes it.
pub proof fn lemma_echo_forwards_text_prefix(events: Seq<Incoming>)
    ensures
        echo_run(false, events).len() == events.len(),
        text_prefix_len(events) <= events.len(),
        forall|i: int| 0 <= i < text_prefix_len(events) ==> #[trigger] events[i] == Incoming::Message(MessageKind::Text),
        text_prefix_len(events) < events.len() ==> events[text_prefix_len(events) as int]
            != Incoming::Message(MessageKind::Text),
        forall|i: int|
            0 <= i < events.len() ==> (#[trigger] echo_run(false, events)[i] == EchoAction::Forward
                <==> i < text_prefix_len(events)),
        text_prefix_len(events) < events.len() ==> echo_run(false, events)[text_prefix_len(events) as int] == (
        if events[text_prefix_len(events) as int] == Incoming::ReadError {
            EchoAction::Abort
        } else {
            EchoAction::Finish
        }),
        forall|i: int|
            text_prefix_len(events) < i < events.len() ==> #[trigger] echo_run(false, events)[i]
                == EchoAction::Finish,
    decreases events.len(),
{
    if events.len() > 0 {
        let rest = events.drop_first();
        let (next, action) = echo_step(false, events[0]);
        let run = echo_run(false, events);
        assert(run == seq![action] + echo_run(next, rest));
        if events[0] == Incoming::Message(MessageKind::Text) {
            lemma_echo_forwards_text_prefix(rest);
            assert forall|i: int| 0 <= i < text_prefix_len(events) implies #[trigger] events[i]
                == Incoming::Message(MessageKind::Text) by {
                if i > 0 {
                    assert(events[i] == rest[i - 1]);
                }
            }
            assert forall|i: int| 0 <= i < events.len() implies (#[trigger] run[i] == EchoAction::Forward
                <==> i < text_prefix_len(events)) by {
                if i > 0 {
                    assert(run[i] == echo_run(false, rest)[i - 1]);
                }
            }
            assert forall|i: int| text_prefix_len(events) < i < events.len() implies #[trigger] run[i]
                == EchoAction::Finish by {
                assert(run[i] == echo_run(false, rest)[i - 1]);
            }
            if text_prefix_len(events) < events.len() {
                assert(events[text_prefix_len(events) as int] == rest[text_prefix_len(rest) as int]);
            }
        } else {
            lemma_stopped_worker_finishes(rest);
            assert forall|i: int| 0 < i < events.len() implies #[trigger] run[i] == EchoAction::Finish by {
                assert(run[i] == echo_run(true, rest)[i - 1]);
            }
            match events[0] {
                Incoming::Message(k) => {
                    assert(k != MessageKind::Text);
                },
                _ => {},
            }
        }
    }
}

} // verus!
