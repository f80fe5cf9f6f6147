//! The session registry: which connection speaks for which client.
//!
//! A client has at most one live connection. A client that registers again
//! takes the place of its earlier connection, which is handed back so that
//! it can be closed.

use std::collections::HashMap;
use vstd::prelude::*;

verus! {

/// The registry. `C` is whatever stands for a live connection.
pub struct Router<C> {
    clients: HashMap<u64, C>,
}

impl<C> View for Router<C> {
    type V = Map<u64, C>;

    closed spec fn view(&self) -> Map<u64, C> {
        self.clients@
    }
}

/// The registry once `connection` speaks for `client_id`.
pub open spec fn registered<C>(sessions: Map<u64, C>, client_id: u64, connection: C) -> Map<
    u64,
    C,
> {
    sessions.insert(client_id, connection)
}

/// The connection that a registration of `client_id` takes the place of.
pub open spec fn replaced<C>(sessions: Map<u64, C>, client_id: u64) -> Option<C> {
    looked_up(sessions, client_id)
}

/// The connection that speaks for `client_id`, if the client is
/// connected.
pub open spec fn looked_up<C>(sessions: Map<u64, C>, client_id: u64) -> Option<C> {
    if sessions.contains_key(client_id) {
        Some(sessions[client_id])
    } else {
        None
    }
}

impl<C> Router<C> {
    /// A registry in which no client is connected.
    pub fn new() -> (r: Self)
        ensures
            r@ == Map::<u64, C>::empty(),
    {
        Router { clients: HashMap::new() }
    }

    /// Makes `connection` the one connection of `client_id`, in one step,
    /// and hands back the connection it takes the place of, if there was
    /// one, for the caller to close.
    pub fn register(&mut self, client_id: u64, connection: C) -> (old_connection: Option<C>)
        ensures
            final(self)@ == registered(old(self)@, client_id, connection),
            old_connection == replaced(old(self)@, client_id),
    {
        broadcast use vstd::std_specs::hash::group_hash_axioms;

        self.clients.insert(client_id, connection)
    }

    /// The connection of `client_id`; `None` where the client is not
    /// connected, which callers take as the client being offline.
    pub fn lookup(&self, client_id: u64) -> (connection: Option<&C>)
        ensures
            connection == match looked_up(self@, client_id) {
                Some(c) => Some(&c),
                None => None,
            },
    {
        broadcast use vstd::std_specs::hash::group_hash_axioms;

        self.clients.get(&client_id)
    }

    /// Whether `client_id` is connected.
    pub fn is_online(&self, client_id: u64) -> (b: bool)
        ensures
            b == self@.contains_key(client_id),
    {
        broadcast use vstd::std_specs::hash::group_hash_axioms;

        self.clients.contains_key(&client_id)
    }

    /// Forgets `client_id` and hands back its connection, if it had one.
    pub fn remove(&mut self, client_id: u64) -> (connection: Option<C>)
        ensures
            final(self)@ == old(self)@.remove(client_id),
            connection == looked_up(old(self)@, client_id),
    {
        broadcast use vstd::std_specs::hash::group_hash_axioms;

        self.clients.remove(&client_id)
    }

    /// How many clients are connected.
    pub fn len(&self) -> (n: usize)
        ensures
            n == self@.len(),
    {
        broadcast use vstd::std_specs::hash::group_hash_axioms;

        self.clients.len()
    }
}

/// The last registration wins: after `a` and then `b` have registered for
/// one client, the client's connection is `b`, and the second registration
/// handed back `a`. Other clients are as they were.
pub proof fn lemma_last_registration_wins<C>(sessions: Map<u64, C>, client_id: u64, a: C, b: C)
    ensures
        replaced(registered(sessions, client_id, a), client_id) == Some(a),
        looked_up(registered(registered(sessions, client_id, a), client_id, b), client_id) == Some(
            b,
        ),
        forall|other: u64|
            other != client_id ==> looked_up(
                registered(registered(sessions, client_id, a), client_id, b),
                other,
            ) == looked_up(sessions, other),
{
}

/// A registry holds one connection for a client or none: registering
/// never adds a second one, and a client that was removed is offline.
pub proof fn lemma_one_connection_per_client<C>(sessions: Map<u64, C>, client_id: u64, c: C)
    requires
        sessions.dom().finite(),
    ensures
        registered(sessions, client_id, c).len() == if sessions.contains_key(client_id) {
            sessions.len()
        } else {
            sessions.len() + 1
        },
        looked_up(registered(sessions, client_id, c).remove(client_id), client_id) is None,
{
}

} // verus!
