//! The per-peer stream table: a mapping from stream-id to the per-stream
//! writer handle. A writer is installed when a stream opens, looked up for
//! every routable frame, and removed exactly once when the stream dies.

use std::collections::HashMap;
use vstd::prelude::*;

verus! {

broadcast use vstd::std_specs::hash::group_hash_axioms;

/// The stream table, with the mathematical map of installed writers as its
/// abstract value.
pub struct Connections<T> {
    connections: HashMap<u32, T>,
}

impl<T> View for Connections<T> {
    type V = Map<u32, T>;

    closed spec fn view(&self) -> Map<u32, T> {
        self.connections@
    }
}

impl<T> Connections<T> {
    /// An empty table.
    pub fn new() -> (r: Connections<T>)
        ensures
            r@ == Map::<u32, T>::empty(),
    {
        Connections { connections: HashMap::new() }
    }

    /// Looks up the writer installed for a stream-id, finding one exactly
    /// when the id is in the table.
    pub fn get(&self, id: u32) -> (r: Option<&T>)
        ensures
            match r {
                Some(v) => self@.contains_key(id) && *v == self@[id],
                None => !self@.contains_key(id),
            },
    {
        self.connections.get(&id)
    }

    /// Installs (or replaces) the writer for a stream-id.
    pub fn set(&mut self, id: u32, con: T)
        ensures
            final(self)@ == old(self)@.insert(id, con),
    {
        self.connections.insert(id, con);
    }

    /// Removes a stream-id's writer and hands it back, touching no other id.
    pub fn remove(&mut self, id: u32) -> (r: Option<(u32, T)>)
        ensures
            final(self)@ == old(self)@.remove(id),
            match r {
                Some(p) => p.0 == id && old(self)@.contains_key(id) && p.1 == old(self)@[id],
                None => !old(self)@.contains_key(id),
            },
    {
        match self.connections.remove(&id) {
            Some(v) => Some((id, v)),
            None => None,
        }
    }
}

impl<T> Default for Connections<T> {
    /// An empty table.
    fn default() -> (r: Connections<T>)
        ensures
            r@ == Map::<u32, T>::empty(),
    {
        Connections::new()
    }
}

/// Tears a stream down: drops its writer from the table, which closes the
/// stream's outbound socket. Closing is idempotent: an id already gone is
/// left alone, and the answer says whether anything was there.
pub fn close_user_connection<T>(id: u32, users: &mut Connections<T>) -> (removed: bool)
    ensures
        final(users)@ == old(users)@.remove(id),
        removed == old(users)@.contains_key(id),
{
    match users.remove(id) {
        Some(_) => true,
        None => false,
    }
}

/// A set of a stream-id followed by its removal leaves nothing to get under
/// that id; and a set or remove of one id never disturbs what any other id
/// maps to.
pub proof fn lemma_stream_table_isolation<T>(m: Map<u32, T>, id: u32, h: T, other: u32)
    ensures
        !m.insert(id, h).remove(id).contains_key(id),
        other != id ==> m.insert(id, h).contains_key(other) == m.contains_key(other),
        other != id && m.contains_key(other) ==> m.insert(id, h)[other] == m[other],
        other != id ==> m.remove(id).contains_key(other) == m.contains_key(other),
        other != id && m.contains_key(other) ==> m.remove(id)[other] == m[other],
{
}

} // verus!
