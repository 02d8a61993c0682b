//! The decisions of the event loop.
//!
//! The loop itself belongs to the caller: it waits for readiness, accepts
//! streams, reads and writes. For every readiness event it asks `dispatch`
//! what to do, reports a new stream with `accept_connection` and the bytes of
//! a read with `handle_connection`, and writes the line it gets back to the
//! recipients named with it.
use vstd::prelude::*;
use slab::Slab;
use crate::broadcast::{chat_text, format_event, left_line, line_for, Broadcast};
use crate::connection::{
    decode, lemma_read_keeps, lemma_registration, Connection, ConnectionError, ConnectionView,
    Message,
};
use crate::pool::{
    is_roster, lemma_insert_wf, lemma_remove_wf, lemma_roster_len, lemma_update_wf, slab_contains,
    slab_get_mut, slab_insert, slab_keys, slab_new, slab_remove, slab_vacant_key, slab_view,
    PoolView,
};
use crate::wire::MessageView;

verus! {

/// The largest number of connections that are served at a time. Connection
/// ids are below it.
pub const MAX_CONNECTIONS: usize = 128;

/// The token of the listening socket. It lies outside the range of
/// connection ids.
pub const SOCKET: usize = MAX_CONNECTIONS + 1;

/// Why the server could not act on an event.
#[derive(Debug, Clone, Copy, PartialEq, Eq, Structural)]
pub enum ServerError {
    /// The event names a connection that is not in the pool, such as one
    /// that an earlier event of the same batch has removed.
    NotFound,
    /// `MAX_CONNECTIONS` connections are live: no id is free.
    PoolFull,
    /// The connection's read gave no event.
    Connection(ConnectionError),
}

/// What the loop is to do about a readiness event.
#[derive(Debug, Clone, Copy, PartialEq, Eq, Structural)]
pub enum Step {
    /// Accept a pending stream and report it with `accept_connection`.
    Accept,
    /// Read once from the stream of this connection and report the bytes
    /// with `handle_connection`.
    Read(usize),
    /// Nothing.
    Skip,
}

/// Where a failure arose.
#[derive(Debug, Clone, Copy, PartialEq, Eq, Structural)]
pub enum Origin {
    /// The wait for readiness events.
    Wait,
    /// The listening socket.
    Listener,
    /// The connection with this id.
    Connection(usize),
}

/// What went wrong.
#[derive(Debug, Clone, Copy, PartialEq, Eq, Structural)]
pub enum Failure {
    /// The operation would have blocked: there is nothing to do this time.
    WouldBlock,
    /// Any other I/O failure.
    Io,
    /// The server refused the event.
    Rejected(ServerError),
}

/// What the loop is to do about a failure.
#[derive(Debug, Clone, Copy, PartialEq, Eq, Structural)]
pub enum Policy {
    /// Go on with the next event.
    Continue,
    /// Remove this connection with `drop_connection`, close its stream and
    /// go on.
    Disconnect(usize),
    /// Stop the server.
    Terminate,
}

/// The state that every server is in: a well-formed pool that never made
/// more than `MAX_CONNECTIONS` ids.
pub open spec fn valid(pool: PoolView) -> bool {
    &&& pool.wf()
    &&& pool.slots <= MAX_CONNECTIONS
}

/// What `dispatch` answers.
pub open spec fn step_for(pool: PoolView, token: usize, readable: bool) -> Result<
    Step,
    ServerError,
> {
    if token == SOCKET {
        Ok(Step::Accept)
    } else if !readable {
        Ok(Step::Skip)
    } else if pool.live.contains_key(token) {
        Ok(Step::Read(token))
    } else {
        Err(ServerError::NotFound)
    }
}

/// The line that the read of `data` on connection `id` gives for
/// broadcasting, or why the read is refused.
pub open spec fn line_of_read(pool: PoolView, id: usize, data: Seq<u8>) -> Result<
    Option<Seq<char>>,
    ServerError,
> {
    if !pool.live.contains_key(id) {
        Err(ServerError::NotFound)
    } else {
        match pool.live[id].read(data) {
            Ok(event) => Ok(line_for(pool.live[id].username, event)),
            Err(e) => Err(ServerError::Connection(e)),
        }
    }
}

/// The pool after the read of `data` on connection `id`: a connection whose
/// stream has ended is removed, an accepted registration is stored, and
/// everything else, a refused read too, leaves the pool as it was.
pub open spec fn pool_after_read(pool: PoolView, id: usize, data: Seq<u8>) -> PoolView {
    if !pool.live.contains_key(id) {
        pool
    } else {
        match pool.live[id].read(data) {
            Ok(MessageView::Close) => pool.remove(id),
            Ok(_) => pool.update(id, pool.live[id].after_read(data)),
            Err(_) => pool,
        }
    }
}

/// The line that the removal of connection `id` gives for broadcasting.
pub open spec fn line_of_drop(pool: PoolView, id: usize) -> Result<
    Option<Seq<char>>,
    ServerError,
> {
    if !pool.live.contains_key(id) {
        Err(ServerError::NotFound)
    } else {
        Ok(line_for(pool.live[id].username, MessageView::Close))
    }
}

/// The pool after the removal of connection `id`.
pub open spec fn pool_after_drop(pool: PoolView, id: usize) -> PoolView {
    if pool.live.contains_key(id) {
        pool.remove(id)
    } else {
        pool
    }
}

/// What `failure_policy` answers: a would-block is never an error, any
/// other failure of a connection costs that connection alone, unless the
/// connection is not there to be dropped, and any other failure of the wait
/// or of the listening socket stops the server.
pub open spec fn policy_for(origin: Origin, failure: Failure) -> Policy {
    match failure {
        Failure::WouldBlock => Policy::Continue,
        Failure::Rejected(ServerError::NotFound) => Policy::Continue,
        Failure::Rejected(ServerError::PoolFull) => Policy::Continue,
        _ => match origin {
            Origin::Connection(id) => Policy::Disconnect(id),
            _ => Policy::Terminate,
        },
    }
}

/// The line of an outcome as a mathematical value.
pub open spec fn outcome_line(outcome: Result<Option<Broadcast>, ServerError>) -> Result<
    Option<Seq<char>>,
    ServerError,
> {
    match outcome {
        Ok(Some(broadcast)) => Ok(Some(broadcast.text@)),
        Ok(None) => Ok(None),
        Err(e) => Err(e),
    }
}

/// Connection ids and the listening socket's token never collide: every
/// live id lies below `MAX_CONNECTIONS`, so its events are routed to its
/// connection, and the token of the listening socket is no live id.
pub proof fn lemma_tokens_apart(pool: PoolView, id: usize)
    requires
        valid(pool),
        pool.live.contains_key(id),
    ensures
        id < MAX_CONNECTIONS,
        id != SOCKET,
        !pool.live.contains_key(SOCKET),
        step_for(pool, id, true) matches Ok(Step::Read(routed)) && routed == id,
{
}

/// The pool is full exactly when `MAX_CONNECTIONS` connections are live,
/// and it never holds more.
pub proof fn lemma_full(pool: PoolView)
    requires
        valid(pool),
    ensures
        pool.len() <= MAX_CONNECTIONS,
        pool.next_id() <= MAX_CONNECTIONS,
        pool.next_id() == MAX_CONNECTIONS <==> pool.len() == MAX_CONNECTIONS,
{
    if pool.vacant.len() > 0 {
        assert((pool.vacant[0] as nat) < pool.slots);
    }
}

/// Fan-out of a chat message: where a registered connection `id` sends a
/// chat text while `n` connections are live, the line is
/// `<name of id>: <text>`, the pool stays as it was, and the recipients are
/// the `n` live connections, each once, `id` among them.
pub proof fn lemma_chat_reaches_everyone(
    pool: PoolView,
    id: usize,
    data: Seq<u8>,
    text: Seq<char>,
    recipients: Seq<usize>,
)
    requires
        valid(pool),
        pool.live.contains_key(id),
        pool.live[id].read(data) matches Ok(MessageView::Message(sent)) && sent == text,
        is_roster(recipients, pool_after_read(pool, id, data).live.dom()),
    ensures
        pool.live[id].username is Some,
        line_of_read(pool, id, data) matches Ok(Some(line)) && line == chat_text(
            pool.live[id].username->Some_0,
            text,
        ),
        pool_after_read(pool, id, data) == pool,
        recipients.len() == pool.len(),
        recipients.no_duplicates(),
        recipients.contains(id),
        forall|k: usize| pool.live.contains_key(k) <==> recipients.contains(k),
{
    let connection = pool.live[id];
    assert(connection.after_read(data) == connection);
    assert(pool.update(id, connection).live =~= pool.live);
    lemma_roster_len(recipients, pool.live.dom());
}

/// Fan-out in general: whatever a read on a live connection gives, the
/// recipients of its line are the connections that are live afterwards,
/// each once. After the end of a stream these are all but the one that
/// left; after any other event they are all that were live before, the
/// one that caused the event included.
pub proof fn lemma_recipients(pool: PoolView, id: usize, data: Seq<u8>, recipients: Seq<usize>)
    requires
        valid(pool),
        pool.live.contains_key(id),
        is_roster(recipients, pool_after_read(pool, id, data).live.dom()),
    ensures
        valid(pool_after_read(pool, id, data)),
        recipients.no_duplicates(),
        pool.live[id].read(data) matches Ok(MessageView::Close) ==> {
            &&& recipients.len() + 1 == pool.len()
            &&& !recipients.contains(id)
            &&& forall|k: usize| recipients.contains(k) <==> k != id && pool.live.contains_key(k)
        },
        !(pool.live[id].read(data) matches Ok(MessageView::Close)) ==> {
            &&& recipients.len() == pool.len()
            &&& recipients.contains(id)
            &&& forall|k: usize| recipients.contains(k) <==> pool.live.contains_key(k)
        },
{
    let connection = pool.live[id];
    let after = pool_after_read(pool, id, data);
    lemma_read_keeps(connection, data);
    lemma_roster_len(recipients, after.live.dom());
    if connection.read(data) matches Ok(MessageView::Close) {
        lemma_remove_wf(pool, id);
    } else if connection.read(data) is Ok {
        lemma_update_wf(pool, id, connection.after_read(data));
    }
}

/// A read concerns one connection: whatever arrives on connection `id`, and
/// whether or not it is accepted, every other connection stays in the pool
/// as it was, and so does every one when `id` is removed. Connection `id`
/// itself leaves the pool only at the end of its stream, and while it stays
/// a name that it has registered stays with it.
pub proof fn lemma_read_touches_one(pool: PoolView, id: usize, data: Seq<u8>, other: usize)
    requires
        valid(pool),
    ensures
        other != id ==> {
            &&& pool_after_read(pool, id, data).live.contains_key(other)
                == pool.live.contains_key(other)
            &&& pool_after_read(pool, id, data).live[other] == pool.live[other]
            &&& pool_after_drop(pool, id).live.contains_key(other) == pool.live.contains_key(other)
            &&& pool_after_drop(pool, id).live[other] == pool.live[other]
        },
        pool.live.contains_key(id) ==> {
            &&& !pool_after_drop(pool, id).live.contains_key(id)
            &&& pool_after_read(pool, id, data).live.contains_key(id) <==> !(pool.live[id].read(
                data,
            ) matches Ok(MessageView::Close))
            &&& pool_after_read(pool, id, data).live.contains_key(id) && pool.live[id].registered()
                ==> pool_after_read(pool, id, data).live[id] == pool.live[id]
        },
{
    if pool.live.contains_key(id) {
        lemma_registration(pool.live[id], decode(data)->Ok_0);
        lemma_read_keeps(pool.live[id], data);
    }
}

/// Decides what the loop does about a failure.
pub fn failure_policy(origin: Origin, failure: Failure) -> (policy: Policy)
    ensures
        policy == policy_for(origin, failure),
{
    match failure {
        Failure::WouldBlock => Policy::Continue,
        Failure::Rejected(ServerError::NotFound) => Policy::Continue,
        Failure::Rejected(ServerError::PoolFull) => Policy::Continue,
        _ => match origin {
            Origin::Connection(id) => Policy::Disconnect(id),
            _ => Policy::Terminate,
        },
    }
}

/// The chat server's state: the pool of live connections.
pub struct Server {
    connections_pool: Slab<Connection>,
}

impl View for Server {
    type V = PoolView;

    closed spec fn view(&self) -> PoolView {
        slab_view(self.connections_pool)
    }
}

impl Server {
    /// The server is in a valid state. Every server that `new` made and the
    /// methods below have worked on is.
    pub open spec fn wf(&self) -> bool {
        valid(self@)
    }

    /// A server without connections.
    pub fn new() -> (server: Server)
        ensures
            server.wf(),
            server@ == PoolView::empty(),
    {
        Server { connections_pool: slab_new() }
    }

    /// Whether a connection is live under `id`.
    pub fn contains(&self, id: usize) -> (live: bool)
        ensures
            live == self@.live.contains_key(id),
    {
        slab_contains(&self.connections_pool, id)
    }

    /// Decides what to do about a readiness event: the listening socket's
    /// token asks for an accept, a connection's token for a read if the
    /// event says that there is something to read.
    pub fn dispatch(&self, token: usize, readable: bool) -> (step: Result<Step, ServerError>)
        ensures
            step == step_for(self@, token, readable),
    {
        if token == SOCKET {
            Ok(Step::Accept)
        } else if !readable {
            Ok(Step::Skip)
        } else if self.contains(token) {
            Ok(Step::Read(token))
        } else {
            Err(ServerError::NotFound)
        }
    }

    /// Enters a newly accepted client into the pool as an unregistered
    /// connection and returns its id, under which the caller registers the
    /// client's stream for readiness. The id is the one released last, or
    /// the next fresh one; with `MAX_CONNECTIONS` connections live there is
    /// none.
    pub fn accept_connection(&mut self) -> (accepted: Result<usize, ServerError>)
        requires
            old(self).wf(),
        ensures
            final(self).wf(),
            match accepted {
                Ok(id) => {
                    &&& old(self)@.len() < MAX_CONNECTIONS
                    &&& id == old(self)@.next_id()
                    &&& id < MAX_CONNECTIONS
                    &&& !old(self)@.live.contains_key(id)
                    &&& final(self)@ == old(self)@.insert(
                        id,
                        ConnectionView { id, username: None },
                    )
                },
                Err(e) => {
                    &&& old(self)@.len() == MAX_CONNECTIONS
                    &&& e == ServerError::PoolFull
                    &&& final(self)@ == old(self)@
                },
            },
    {
        let id: usize = slab_vacant_key(&self.connections_pool);
        if id >= MAX_CONNECTIONS {
            return Err(ServerError::PoolFull);
        }
        let connection = Connection::new(id);
        proof {
            lemma_insert_wf(slab_view(self.connections_pool), connection@);
        }
        let key: usize = slab_insert(&mut self.connections_pool, connection);
        Ok(key)
    }

    /// Handles what one read from the stream of connection `id` delivered.
    /// `data` is the filled part of the read buffer, empty when the peer has
    /// closed the stream. Returns the line to write to every connection that
    /// is live afterwards, if the event gives one.
    pub fn handle_connection(&mut self, id: usize, data: &[u8]) -> (outcome: Result<
        Option<Broadcast>,
        ServerError,
    >)
        requires
            old(self).wf(),
        ensures
            final(self).wf(),
            final(self)@ == pool_after_read(old(self)@, id, data@),
            outcome_line(outcome) == line_of_read(old(self)@, id, data@),
            outcome matches Ok(Some(broadcast)) ==> is_roster(
                broadcast.recipients@,
                final(self)@.live.dom(),
            ),
    {
        let ghost before = slab_view(self.connections_pool);
        let connection = match slab_get_mut(&mut self.connections_pool, id) {
            Some(connection) => connection,
            None => {
                return Err(ServerError::NotFound);
            },
        };
        let username = clone_name(&connection.username);
        let event = connection.handle_read(data);
        proof {
            lemma_update_wf(before, id, before.live[id].after_read(data@));
        }
        match event {
            Err(e) => {
                assert(before.live[id].after_read(data@) == before.live[id]);
                assert(before.update(id, before.live[id]).live =~= before.live);
                Err(ServerError::Connection(e))
            },
            Ok(message) => {
                if let Message::Close = message {
                    assert(before.live[id].after_read(data@) == before.live[id]);
                    assert(before.update(id, before.live[id]).live =~= before.live);
                    proof {
                        lemma_remove_wf(before, id);
                    }
                    let _ = slab_remove(&mut self.connections_pool, id);
                }
                match format_event(&username, &message) {
                    Some(text) => {
                        let recipients = slab_keys(&self.connections_pool);
                        Ok(Some(Broadcast { text, recipients }))
                    },
                    None => Ok(None),
                }
            },
        }
    }

    /// Removes connection `id` from the pool, as the loop does with a
    /// connection that failed or broke the protocol. Returns the line that
    /// tells the remaining connections, if the connection had registered.
    pub fn drop_connection(&mut self, id: usize) -> (outcome: Result<Option<Broadcast>, ServerError>)
        requires
            old(self).wf(),
        ensures
            final(self).wf(),
            final(self)@ == pool_after_drop(old(self)@, id),
            outcome_line(outcome) == line_of_drop(old(self)@, id),
            outcome matches Ok(Some(broadcast)) ==> is_roster(
                broadcast.recipients@,
                final(self)@.live.dom(),
            ),
    {
        if !self.contains(id) {
            return Err(ServerError::NotFound);
        }
        proof {
            lemma_remove_wf(slab_view(self.connections_pool), id);
        }
        let connection = slab_remove(&mut self.connections_pool, id);
        match connection.username {
            Some(leaver) => {
                let text = left_line(leaver.as_str());
                let recipients = slab_keys(&self.connections_pool);
                Ok(Some(Broadcast { text, recipients }))
            },
            None => Ok(None),
        }
    }
}

/// A copy of a connection's user name.
fn clone_name(username: &Option<String>) -> (copy: Option<String>)
    ensures
        copy == *username,
{
    match username {
        Some(name) => Some(name.clone()),
        None => None,
    }
}

} // verus!
