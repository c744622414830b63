//! The log server's state: the registry of connected sessions, and what the
//! server decides when it is started and when a log call arrives.

use std::collections::hash_map::Entry;
use std::collections::HashMap;
use vstd::prelude::*;
use vstd::std_specs::iter::IteratorSpec;
use vstd::string::*;
use crate::entry::{is_identifier_text, is_timestamp_text, LogEntry};
use crate::level::LogLevel;
use crate::stack::{capture_frames, clean_trace_text, has_external, StackFrame};
use crate::text::{decimal_text, push_decimal};
use crate::value::{all_distinct_keys, have_distinct_keys, StructuredValue};

verus! {

broadcast use vstd::std_specs::hash::group_hash_axioms;

/// The state of one log server. `S` is the sink of a connected session: what
/// a frame is pushed into.
pub struct SlogX<S> {
    clients: HashMap<u64, S>,
    next_client_id: u64,
    service_name: String,
    initialized: bool,
}

/// What a server's state holds.
pub struct ServerView<S> {
    /// The connected sessions, each under its identifier.
    pub sessions: Map<u64, S>,
    /// The identifier that the next session will get.
    pub next_id: nat,
    /// The name of the service that the server logs for.
    pub service_name: Seq<char>,
    /// The server was started.
    pub initialized: bool,
}

impl<S> View for SlogX<S> {
    type V = ServerView<S>;

    closed spec fn view(&self) -> ServerView<S> {
        ServerView {
            sessions: self.clients@,
            next_id: self.next_client_id as nat,
            service_name: self.service_name@,
            initialized: self.initialized,
        }
    }
}

impl<S> ServerView<S> {
    /// The registry is finite, and every identifier in it was handed out
    /// before: it lies below the next one.
    pub open spec fn wf(self) -> bool {
        &&& self.sessions.dom().finite()
        &&& forall|id: u64| self.sessions.contains_key(id) ==> id < self.next_id
    }

    /// The state of a server that was never started: no session, the default
    /// service name.
    pub open spec fn fresh(self) -> bool {
        &&& self.sessions == Map::<u64, S>::empty()
        &&& self.next_id == 0
        &&& self.service_name == "rust-service"@
        &&& !self.initialized
    }

    /// The state after a start under `service_name`.
    pub open spec fn started(self, service_name: Seq<char>) -> ServerView<S> {
        ServerView { service_name, initialized: true, ..self }
    }

    /// The state after a session was registered.
    pub open spec fn with_session(self, session: S) -> ServerView<S> {
        ServerView {
            sessions: self.sessions.insert(self.next_id as u64, session),
            next_id: self.next_id + 1,
            ..self
        }
    }

    /// The state after the session `id` was removed, if it was there.
    pub open spec fn without_session(self, id: u64) -> ServerView<S> {
        ServerView { sessions: self.sessions.remove(id), ..self }
    }

    /// The state after all sessions in `ids` were removed.
    pub open spec fn without_sessions(self, ids: Set<u64>) -> ServerView<S> {
        ServerView { sessions: self.sessions.remove_keys(ids), ..self }
    }

    /// A log call is broadcast: the server was started and a session is connected.
    pub open spec fn accepts_logs(self) -> bool {
        self.initialized && self.sessions.len() > 0
    }
}

/// A record that is ready to be pushed to the connected sessions.
#[derive(Debug)]
pub struct Outgoing {
    /// The record.
    pub entry: LogEntry,
    /// The frame of the record: the same text for every session.
    pub payload: String,
}

impl Outgoing {
    /// The record is that of a log call with the given level and arguments,
    /// made by `service` at the given place; it carries an identifier, a
    /// timestamp and a stack trace, and the payload is its frame.
    pub open spec fn is_outgoing(
        self,
        level: LogLevel,
        args: Vec<StructuredValue>,
        service: Seq<char>,
        file: Seq<char>,
        line: u32,
        function: Seq<char>,
    ) -> bool {
        &&& self.entry.records(level, args, service, Some(file), Some(line), Some(function))
        &&& is_identifier_text(self.entry.id@)
        &&& is_timestamp_text(self.entry.timestamp@)
        &&& self.entry.stacktrace is Some
        &&& self.payload@ == self.entry.frame_text()
    }

    /// Builds the record of a log call made by `service_name`, whose captured
    /// stack is `frames`, and encodes it once. Arguments in which a mapping
    /// holds a key twice cannot be serialized: for them nothing is built.
    pub fn prepare(
        frames: &Vec<StackFrame>,
        level: LogLevel,
        args: Vec<StructuredValue>,
        service_name: &str,
        file: &str,
        line: u32,
        function: &str,
    ) -> (r: Option<Outgoing>)
        ensures
            r is Some <==> all_distinct_keys(args@),
            r is Some ==> r->0.is_outgoing(level, args, service_name@, file@, line, function@),
            r is Some && has_external(frames@) ==> r->0.entry.stacktrace->0@ == clean_trace_text(
                frames@,
            ),
    {
        if !have_distinct_keys(&args) {
            return None;
        }
        let entry = LogEntry::with_frames(
            frames,
            level,
            args,
            service_name,
            Some(file),
            Some(line),
            Some(function),
        );
        let payload = entry.to_frame();
        Some(Outgoing { entry, payload })
    }
}

/// One push of a broadcast: a frame for one session.
#[derive(Debug)]
pub struct Delivery {
    /// The session to push to.
    pub session: u64,
    /// The frame to push.
    pub frame: String,
}

/// The sessions that a sequence of deliveries addresses, in order.
pub open spec fn delivery_targets(deliveries: Seq<Delivery>) -> Seq<u64> {
    Seq::new(deliveries.len(), |i: int| deliveries[i].session)
}

/// `deliveries` is a broadcast of `payload` to `sessions`: every session is
/// addressed exactly once, no other is, and every frame is the payload.
pub open spec fn is_broadcast(deliveries: Seq<Delivery>, sessions: Set<u64>, payload: Seq<char>) -> bool {
    &&& delivery_targets(deliveries).no_duplicates()
    &&& delivery_targets(deliveries).to_set() == sessions
    &&& forall|i: int| 0 <= i < deliveries.len() ==> (#[trigger] deliveries[i]).frame@ == payload
}

/// The address that a server listens on for `port`.
pub open spec fn listen_address(port: u16) -> Seq<char> {
    "127.0.0.1:"@ + decimal_text(port as nat)
}

impl<S> SlogX<S> {
    /// The state is well formed.
    pub open spec fn wf(&self) -> bool {
        self@.wf()
    }

    /// Creates a server that is not started and has no session.
    pub fn new() -> (r: Self)
        ensures
            r@.fresh(),
            r.wf(),
    {
        SlogX {
            clients: HashMap::new(),
            next_client_id: 0,
            service_name: String::from_str("rust-service"),
            initialized: false,
        }
    }

    /// Starts the server: records the service name, marks the server as
    /// initialized, and returns the address on which to listen.
    pub fn start(&mut self, port: u16, service_name: &str) -> (address: String)
        ensures
            final(self)@ == old(self)@.started(service_name@),
            address@ == listen_address(port),
    {
        self.service_name = String::from_str(service_name);
        self.initialized = true;
        let mut address = String::from_str("127.0.0.1:");
        push_decimal(&mut address, port as u64);
        address
    }

    /// Tells whether the server was started.
    pub fn is_initialized(&self) -> (r: bool)
        ensures
            r == self@.initialized,
    {
        self.initialized
    }

    /// The number of connected sessions.
    pub fn client_count(&self) -> (r: usize)
        ensures
            r == self@.sessions.len(),
    {
        self.clients.len()
    }

    /// The name of the service.
    pub fn service_name(&self) -> (r: String)
        ensures
            r@ == self@.service_name,
    {
        self.service_name.clone()
    }

    /// Tells whether another session can get an identifier.
    pub fn has_free_id(&self) -> (r: bool)
        ensures
            r == (self@.next_id < u64::MAX),
    {
        self.next_client_id < u64::MAX
    }

    /// Registers a session under the next identifier and returns the identifier.
    pub fn insert(&mut self, session: S) -> (id: u64)
        requires
            old(self).wf(),
            old(self)@.next_id < u64::MAX,
        ensures
            id == old(self)@.next_id,
            !old(self)@.sessions.contains_key(id),
            final(self)@ == old(self)@.with_session(session),
            final(self)@.sessions.len() == old(self)@.sessions.len() + 1,
            final(self).wf(),
    {
        let id: u64 = self.next_client_id;
        self.next_client_id = id + 1;
        self.clients.insert(id, session);
        id
    }

    /// Removes the session `id` and returns it; does nothing where no such
    /// session is connected.
    pub fn remove(&mut self, id: u64) -> (r: Option<S>)
        ensures
            final(self)@ == old(self)@.without_session(id),
            r == old(self)@.sessions.get(id),
            old(self)@.sessions.contains_key(id) ==> final(self)@.sessions.len() == old(
                self,
            )@.sessions.len() - 1,
            !old(self)@.sessions.contains_key(id) ==> final(self)@ == old(self)@,
            old(self).wf() ==> final(self).wf(),
    {
        let removed = self.clients.remove(&id);
        proof {
            if !old(self)@.sessions.contains_key(id) {
                assert(self.clients@ =~= old(self)@.sessions);
            }
        }
        removed
    }

    /// The identifiers of the connected sessions, each once, in no particular order.
    pub fn session_ids(&self) -> (ids: Vec<u64>)
        ensures
            ids@.no_duplicates(),
            ids@.to_set() == self@.sessions.dom(),
    {
        let mut ids: Vec<u64> = Vec::new();
        let ghost keys = vstd::std_specs::hash::spec_keys_iter(&self.clients).remaining().unref();
        for id in iter: self.clients.keys()
            invariant
                keys == iter.seq().unref(),
                keys.len() == iter.seq().len(),
                ids@ == keys.take(iter.index()),
        {
            ids.push(*id);
            assert(ids@ =~= keys.take(iter.index() + 1));
        }
        assert(ids@ =~= keys);
        ids
    }

    /// Removes every session whose identifier is in `failed`; identifiers of
    /// sessions that are not connected are passed over.
    pub fn prune(&mut self, failed: &Vec<u64>)
        ensures
            final(self)@ == old(self)@.without_sessions(failed@.to_set()),
            old(self).wf() ==> final(self).wf(),
    {
        let mut i: usize = 0;
        proof {
            assert(failed@.take(0).to_set() =~= Set::<u64>::empty());
            assert(self.clients@ =~= old(self)@.sessions.remove_keys(Set::<u64>::empty()));
        }
        while i < failed.len()
            invariant
                i <= failed.len(),
                self@ == old(self)@.without_sessions(failed@.take(i as int).to_set()),
            decreases failed.len() - i,
        {
            let id: u64 = failed[i];
            self.clients.remove(&id);
            proof {
                let before = failed@.take(i as int).to_set();
                let after = failed@.take(i + 1).to_set();
                assert(failed@.take(i + 1) =~= failed@.take(i as int).push(id));
                failed@.take(i as int).lemma_push_to_set_commute(id);
                assert(after =~= before.insert(id));
                assert(self.clients@ =~= old(self)@.sessions.remove_keys(after));
            }
            i = i + 1;
        }
        proof {
            assert(failed@.take(i as int) =~= failed@);
        }
    }

    /// The sink of the session `id`, to push a frame into; `None` where no
    /// such session is connected. Whatever the caller does to the sink, the
    /// rest of the state stays as it is.
    pub fn session_mut(&mut self, id: u64) -> (r: Option<&mut S>)
        ensures
            r is Some <==> old(self)@.sessions.contains_key(id),
            match r {
                Some(sink) => {
                    &&& *sink == old(self)@.sessions[id]
                    &&& final(self)@ == (ServerView {
                        sessions: old(self)@.sessions.insert(id, *final(sink)),
                        ..old(self)@
                    })
                },
                None => final(self)@ == old(self)@,
            },
            old(self).wf() ==> final(self).wf(),
    {
        match self.clients.entry(id) {
            Entry::Occupied(occupied) => Some(occupied.into_mut()),
            Entry::Vacant(_) => {
                assert(old(self)@.sessions.remove(id) =~= old(self)@.sessions);
                None
            },
        }
    }

    /// Plans the broadcast of `payload`: one delivery for each connected
    /// session, each with a copy of the payload, in no particular order.
    pub fn fan_out(&self, payload: &str) -> (deliveries: Vec<Delivery>)
        ensures
            is_broadcast(deliveries@, self@.sessions.dom(), payload@),
            deliveries@.len() == self@.sessions.len(),
    {
        let ids = self.session_ids();
        let mut deliveries: Vec<Delivery> = Vec::new();
        let mut i: usize = 0;
        while i < ids.len()
            invariant
                i <= ids.len(),
                deliveries@.len() == i,
                forall|j: int| 0 <= j < i ==> (#[trigger] deliveries@[j]).session == ids@[j],
                forall|j: int| 0 <= j < i ==> (#[trigger] deliveries@[j]).frame@ == payload@,
            decreases ids.len() - i,
        {
            deliveries.push(Delivery { session: ids[i], frame: String::from_str(payload) });
            i = i + 1;
        }
        proof {
            assert(delivery_targets(deliveries@) =~= ids@);
            ids@.unique_seq_to_set();
        }
        deliveries
    }

    /// Tells whether a log call would be broadcast now.
    pub fn accepts_logs(&self) -> (r: bool)
        ensures
            r == self@.accepts_logs(),
    {
        self.initialized && self.clients.len() > 0
    }

    /// Handles a log call. Where the server is not started or no session is
    /// connected, nothing is built and nothing is to be sent; nor where the
    /// arguments cannot be serialized. Otherwise a record is built for the
    /// call and encoded once; the result holds the record and the frame to
    /// push to every session.
    pub fn log(
        &self,
        level: LogLevel,
        args: Vec<StructuredValue>,
        file: &str,
        line: u32,
        function: &str,
    ) -> (r: Option<Outgoing>)
        ensures
            r is Some <==> self@.accepts_logs() && all_distinct_keys(args@),
            r is Some ==> r->0.is_outgoing(level, args, self@.service_name, file@, line, function@),
    {
        if !self.accepts_logs() {
            return None;
        }
        let frames = capture_frames();
        Outgoing::prepare(&frames, level, args, self.service_name.as_str(), file, line, function)
    }
}

impl<S> SlogX<S> {
    /// Handles a log call at the debug level.
    pub fn debug(&self, args: Vec<StructuredValue>, file: &str, line: u32, function: &str) -> (r:
        Option<Outgoing>)
        ensures
            r is Some <==> self@.accepts_logs() && all_distinct_keys(args@),
            r is Some ==> r->0.is_outgoing(LogLevel::Debug, args, self@.service_name, file@, line, function@),
    {
        self.log(LogLevel::Debug, args, file, line, function)
    }

    /// Handles a log call at the info level.
    pub fn info(&self, args: Vec<StructuredValue>, file: &str, line: u32, function: &str) -> (r:
        Option<Outgoing>)
        ensures
            r is Some <==> self@.accepts_logs() && all_distinct_keys(args@),
            r is Some ==> r->0.is_outgoing(LogLevel::Info, args, self@.service_name, file@, line, function@),
    {
        self.log(LogLevel::Info, args, file, line, function)
    }

    /// Handles a log call at the warn level.
    pub fn warn(&self, args: Vec<StructuredValue>, file: &str, line: u32, function: &str) -> (r:
        Option<Outgoing>)
        ensures
            r is Some <==> self@.accepts_logs() && all_distinct_keys(args@),
            r is Some ==> r->0.is_outgoing(LogLevel::Warn, args, self@.service_name, file@, line, function@),
    {
        self.log(LogLevel::Warn, args, file, line, function)
    }

    /// Handles a log call at the error level.
    pub fn error(&self, args: Vec<StructuredValue>, file: &str, line: u32, function: &str) -> (r:
        Option<Outgoing>)
        ensures
            r is Some <==> self@.accepts_logs() && all_distinct_keys(args@),
            r is Some ==> r->0.is_outgoing(LogLevel::Error, args, self@.service_name, file@, line, function@),
    {
        self.log(LogLevel::Error, args, file, line, function)
    }
}

/// Starts `instance` where `is_dev` is set, and returns the address on which
/// to listen; does nothing and returns `None` where it is not.
pub fn init<S>(instance: &mut SlogX<S>, is_dev: bool, port: u16, service_name: &str) -> (r: Option<
    String,
>)
    ensures
        is_dev ==> final(instance)@ == old(instance)@.started(service_name@) && r is Some && r->0@
            == listen_address(port),
        !is_dev ==> final(instance)@ == old(instance)@ && r is None,
{
    if !is_dev {
        return None;
    }
    Some(instance.start(port, service_name))
}

/// Tells whether `instance` was started.
pub fn is_initialized<S>(instance: &SlogX<S>) -> (r: bool)
    ensures
        r == instance@.initialized,
{
    instance.is_initialized()
}

/// The number of sessions connected to `instance`.
pub fn client_count<S>(instance: &SlogX<S>) -> (r: usize)
    ensures
        r == instance@.sessions.len(),
{
    instance.client_count()
}

/// The name of the service that `instance` logs for.
pub fn service_name<S>(instance: &SlogX<S>) -> (r: String)
    ensures
        r@ == instance@.service_name,
{
    instance.service_name()
}

} // verus!
