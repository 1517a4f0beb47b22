use std::collections::HashMap;
use vstd::prelude::*;

verus! {

broadcast use vstd::std_specs::hash::group_hash_axioms;

/// Relies on `uuid::Uuid::new_v4` and `Uuid::as_u128`: a random identifier.
/// Nothing is promised of its value.
#[verifier::external_body]
fn random_session_id() -> (r: u128) {
    uuid::Uuid::new_v4().as_u128()
}

/// The live sessions by identifier, for replies addressed to one session
/// (a pong) rather than broadcast. `T` is the session's handle.
pub struct Registry<T> {
    sessions: HashMap<u128, T>,
}

impl<T> Registry<T> {
    /// The registered handles by session identifier.
    pub closed spec fn entries(&self) -> Map<u128, T> {
        self.sessions@
    }

    /// An empty registry.
    pub fn new() -> (r: Registry<T>)
        ensures
            r.entries() == Map::<u128, T>::empty(),
    {
        Registry { sessions: HashMap::new() }
    }

    /// Registers `handle` under `id`; `false`, with nothing changed, if `id`
    /// is taken.
    pub fn register(&mut self, id: u128, handle: T) -> (r: bool)
        ensures
            r == !old(self).entries().contains_key(id),
            r ==> final(self).entries() == old(self).entries().insert(id, handle),
            !r ==> final(self).entries() == old(self).entries(),
    {
        if self.sessions.contains_key(&id) {
            false
        } else {
            self.sessions.insert(id, handle);
            true
        }
    }

    /// Registers `handle` under a new random identifier and returns it;
    /// `None`, with nothing changed, in the unlikely case that the
    /// identifier drawn is taken.
    pub fn register_new(&mut self, handle: T) -> (r: Option<u128>)
        ensures
            match r {
                Some(id) => !old(self).entries().contains_key(id) && final(self).entries() == old(
                    self,
                ).entries().insert(id, handle),
                None => final(self).entries() == old(self).entries(),
            },
    {
        let id = random_session_id();
        if self.register(id, handle) {
            Some(id)
        } else {
            None
        }
    }

    /// Removes the session `id` and hands back its handle, if it was registered.
    pub fn unregister(&mut self, id: u128) -> (r: Option<T>)
        ensures
            final(self).entries() == old(self).entries().remove(id),
            match r {
                Some(h) => old(self).entries().contains_key(id) && h == old(self).entries()[id],
                None => !old(self).entries().contains_key(id),
            },
    {
        self.sessions.remove(&id)
    }

    /// The handle of session `id`, if it is registered.
    pub fn lookup(&self, id: u128) -> (r: Option<&T>)
        ensures
            match r {
                Some(h) => self.entries().contains_key(id) && *h == self.entries()[id],
                None => !self.entries().contains_key(id),
            },
    {
        self.sessions.get(&id)
    }

    /// How many sessions are registered.
    pub fn len(&self) -> (r: usize)
        ensures
            r == self.entries().len(),
    {
        self.sessions.len()
    }
}

} // verus!
