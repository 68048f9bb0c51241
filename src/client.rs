use vstd::prelude::*;
use crate::framing::FramingError;
use crate::id::{IdView, RequestId};
use crate::msg::{ClientError, Message, Notification, Request, Response};
use crate::table::PendingTable;

verus! {

/// How to start the language server: the program to run.
pub struct LspClientStartArg {
    pub program: String,
}

/// Hands out request ids: 0, 1, 2, ... in order, each once.
pub struct IdCounter {
    next: i32,
}

impl IdCounter {
    /// The id that the next call hands out.
    pub closed spec fn next_id(&self) -> int {
        self.next as int
    }

    pub fn new() -> (r: IdCounter)
        ensures
            r.next_id() == 0,
    {
        IdCounter { next: 0 }
    }

    /// The next id, or `None` once every non-negative `i32` has been used.
    pub fn get_new_id(&mut self) -> (r: Option<RequestId>)
        ensures
            old(self).next_id() < i32::MAX ==> (r matches Some(id) && id@ == IdView::Int(
                old(self).next_id(),
            ) && final(self).next_id() == old(self).next_id() + 1),
            old(self).next_id() >= i32::MAX ==> r is None && final(self).next_id()
                == old(self).next_id(),
    {
        if self.next == i32::MAX {
            return None;
        }
        let id = RequestId::from_i32(self.next);
        self.next = self.next + 1;
        Some(id)
    }
}

/// The life of a client: the server is being started, the `initialize`
/// handshake is under way, requests may be sent, or it has stopped.
#[derive(Debug, Clone, Copy, PartialEq, Eq, Structural)]
pub enum Phase {
    Starting,
    Initializing,
    Ready,
    Stopped,
}

/// The client's own state: its phase, its id counter, the id of the
/// `initialize` request, and what the server said it can do.
pub struct Session {
    phase: Phase,
    ids: IdCounter,
    init_id: Option<RequestId>,
    capabilities: Option<serde_json::Value>,
}

impl Session {
    pub closed spec fn spec_phase(&self) -> Phase {
        self.phase
    }

    pub closed spec fn spec_next_id(&self) -> int {
        self.ids.next_id()
    }

    pub closed spec fn spec_init_id(&self) -> Option<IdView> {
        match self.init_id {
            Some(id) => Some(id@),
            None => None,
        }
    }

    pub closed spec fn spec_capabilities(&self) -> Option<serde_json::Value> {
        self.capabilities
    }

    /// A client whose server is being started.
    pub fn new() -> (r: Session)
        ensures
            r.spec_phase() == Phase::Starting,
            r.spec_next_id() == 0,
            r.spec_init_id() is None,
            r.spec_capabilities() is None,
    {
        Session { phase: Phase::Starting, ids: IdCounter::new(), init_id: None, capabilities: None }
    }

    pub fn phase(&self) -> (r: Phase)
        ensures
            r == self.spec_phase(),
    {
        self.phase
    }

    /// The id of the `initialize` request, once it is made.
    pub fn init_id(&self) -> (r: Option<&RequestId>)
        ensures
            match r {
                Some(id) => self.spec_init_id() == Some(id@),
                None => self.spec_init_id() is None,
            },
    {
        match &self.init_id {
            Some(id) => Some(id),
            None => None,
        }
    }

    /// What the server said it can do, once the handshake is done.
    pub fn capabilities(&self) -> (r: Option<&serde_json::Value>)
        ensures
            match self.spec_capabilities() {
                Some(c) => r == Some(&c),
                None => r is None,
            },
    {
        match &self.capabilities {
            Some(c) => Some(c),
            None => None,
        }
    }

    /// The server runs: the `initialize` request with these params is the
    /// first message, under the first id.
    pub fn begin_initialize(&mut self, params: serde_json::Value) -> (r: Option<Request>)
        ensures
            old(self).spec_phase() == Phase::Starting && old(self).spec_next_id() < i32::MAX
                ==> (r matches Some(q) && q.id@ == IdView::Int(old(self).spec_next_id())
                && q.method@ == "initialize"@ && q.params == params && final(self).spec_phase()
                == Phase::Initializing && final(self).spec_init_id() == Some(q.id@)
                && final(self).spec_next_id() == old(self).spec_next_id() + 1
                && final(self).spec_capabilities() == old(self).spec_capabilities()),
            !(old(self).spec_phase() == Phase::Starting && old(self).spec_next_id() < i32::MAX)
                ==> r is None && *final(self) == *old(self),
    {
        if self.phase != Phase::Starting {
            return None;
        }
        match self.ids.get_new_id() {
            None => None,
            Some(id) => {
                self.init_id = Some(id.copy_id());
                self.phase = Phase::Initializing;
                Some(Request::new(id, "initialize".to_owned(), params))
            },
        }
    }

    /// The answer to `initialize` came: with a result, its capabilities are
    /// kept, the client is ready, and the `initialized` notification (with
    /// the given params) is the next message; with an error the client stops.
    pub fn on_initialize_response(&mut self, resp: Response, initialized_params: serde_json::Value) -> (r:
        Result<Notification, ClientError>)
        requires
            resp.wf(),
            old(self).spec_phase() == Phase::Initializing,
            old(self).spec_init_id() == Some(resp.id@),
        ensures
            final(self).spec_next_id() == old(self).spec_next_id(),
            final(self).spec_init_id() == old(self).spec_init_id(),
            resp.result matches Some(c) ==> (r matches Ok(n) && n.method@ == "initialized"@
                && n.params == initialized_params && final(self).spec_phase() == Phase::Ready
                && final(self).spec_capabilities() == Some(c)),
            resp.error matches Some(e) ==> r == Err::<Notification, ClientError>(
                ClientError::Protocol(e),
            ) && final(self).spec_phase() == Phase::Stopped && final(self).spec_capabilities()
                == old(self).spec_capabilities(),
    {
        match resp.error {
            Some(e) => {
                self.phase = Phase::Stopped;
                Err(ClientError::Protocol(e))
            },
            None => match resp.result {
                Some(c) => {
                    self.capabilities = Some(c);
                    self.phase = Phase::Ready;
                    Ok(Notification::new("initialized".to_owned(), initialized_params))
                },
                None => {
                    self.phase = Phase::Stopped;
                    Err(ClientError::Cancelled)
                },
            },
        }
    }

    /// A request after the handshake: under the next id, or `None` when the
    /// client is not ready or the ids are spent.
    pub fn next_request(&mut self, method: String, params: serde_json::Value) -> (r: Option<Request>)
        ensures
            old(self).spec_phase() == Phase::Ready && old(self).spec_next_id() < i32::MAX ==> (r matches Some(
                q,
            ) && q.id@ == IdView::Int(old(self).spec_next_id()) && q.method == method && q.params
                == params && final(self).spec_next_id() == old(self).spec_next_id() + 1),
            !(old(self).spec_phase() == Phase::Ready && old(self).spec_next_id() < i32::MAX) ==> r is None,
            final(self).spec_phase() == old(self).spec_phase(),
            final(self).spec_init_id() == old(self).spec_init_id(),
            final(self).spec_capabilities() == old(self).spec_capabilities(),
    {
        if self.phase != Phase::Ready {
            return None;
        }
        match self.ids.get_new_id() {
            None => None,
            Some(id) => Some(Request::new(id, method, params)),
        }
    }

    /// The client stops, when the server is torn down.
    pub fn stop(&mut self)
        ensures
            final(self).spec_phase() == Phase::Stopped,
            final(self).spec_next_id() == old(self).spec_next_id(),
    {
        self.phase = Phase::Stopped;
    }
}

/// What the reader got from the stream.
pub enum ReadEvent {
    Message(Message),
    /// The server closed its output before a new frame.
    End,
    /// A malformed frame.
    Framing(FramingError),
    /// A frame whose body is not a JSON-RPC message; it holds the body.
    Undecodable(String),
}

/// What the reader does next.
pub enum ReaderAction<S> {
    /// Deliver the response into the slot that waited for its id.
    Deliver(S, Response),
    /// A response that nobody waits for: dropped.
    Drop(Response),
    /// A request or notification of the server's, for whoever handles those.
    Forward(Message),
    /// The reader stops: every slot that still waited is to be failed with
    /// the error.
    Stop(ClientError, Vec<S>),
}

/// The reader stops with this error and hands out every slot that waited;
/// the table is closed to new requests.
pub open spec fn stops_with<S>(r: ReaderAction<S>, e: ClientError, waiting: Map<IdView, S>) -> bool {
    match r {
        ReaderAction::Stop(err, slots) => err == e && waiting.dom().finite() && slots@.len()
            == waiting.len() && forall|k: IdView| #[trigger]
            waiting.contains_key(k) ==> slots@.contains(waiting[k]),
        _ => false,
    }
}

/// One step of the reader: routes a response to its waiting slot, passes on
/// what the server sends of its own accord, and on the end of the stream or a
/// bad frame stops and hands out every waiting slot to be failed.
pub fn reader_step<S>(table: &mut PendingTable<S>, event: ReadEvent) -> (r: ReaderAction<S>)
    requires
        old(table).wf(),
    ensures
        final(table).wf(),
        match event {
            ReadEvent::Message(_) => final(table).is_closed() == old(table).is_closed(),
            _ => true,
        },
        match event {
            ReadEvent::Message(Message::Response(resp)) => if old(table)@.contains_key(resp.id@) {
                r == ReaderAction::Deliver(old(table)@[resp.id@], resp) && final(table)@ == old(
                    table,
                )@.remove(resp.id@)
            } else {
                r == ReaderAction::<S>::Drop(resp) && final(table)@ == old(table)@
            },
            ReadEvent::Message(m) => r == ReaderAction::<S>::Forward(m) && final(table)@ == old(
                table,
            )@,
            ReadEvent::End => stops_with(r, ClientError::EndOfStream, old(table)@) && final(table)@.is_empty()
                && final(table).is_closed(),
            ReadEvent::Framing(f) => stops_with(r, ClientError::Framing(f), old(table)@) && final(table)@.is_empty()
                && final(table).is_closed(),
            ReadEvent::Undecodable(text) => stops_with(r, ClientError::Decode(text), old(table)@) && final(table)@.is_empty()
                && final(table).is_closed(),
        },
{
    match event {
        ReadEvent::Message(Message::Response(resp)) => match table.fulfill(&resp.id) {
            Some(slot) => ReaderAction::Deliver(slot, resp),
            None => ReaderAction::Drop(resp),
        },
        ReadEvent::Message(m) => ReaderAction::Forward(m),
        ReadEvent::End => ReaderAction::Stop(ClientError::EndOfStream, table.drain()),
        ReadEvent::Framing(f) => ReaderAction::Stop(ClientError::Framing(f), table.drain()),
        ReadEvent::Undecodable(text) => ReaderAction::Stop(ClientError::Decode(text), table.drain()),
    }
}

} // verus!
