//! What a language-server session keeps while it waits for the response to
//! one request: the responses to other requests, by id, and the
//! notifications, in the order they came.
use vstd::prelude::*;
use std::collections::{HashMap, VecDeque};
use crate::lsp_session::MessageRoute;

verus! {

broadcast use vstd::std_specs::hash::group_hash_axioms;

/// The responses and notifications a session keeps.
#[derive(Debug)]
pub struct MessageInbox<V> {
    pub responses: HashMap<u64, V>,
    pub notifications: VecDeque<V>,
}

impl<V> MessageInbox<V> {
    /// The response kept for `id`, if any.
    pub open spec fn response(&self, id: u64) -> Option<V> {
        if self.responses@.contains_key(id) {
            Some(self.responses@[id])
        } else {
            None
        }
    }

    /// Nothing kept.
    pub fn new() -> (r: Self)
        ensures
            forall|id: u64| r.response(id) is None,
            r.notifications@.len() == 0,
    {
        MessageInbox { responses: HashMap::new(), notifications: VecDeque::new() }
    }

    /// Keeps a message that came while waiting for another response: a
    /// notification behind the others, a response under its id (in place
    /// of one kept for the same id); a request or anything else is not kept.
    pub fn keep(&mut self, route: &MessageRoute, message: V)
        ensures
            route is Notification ==> final(self).notifications@ == old(self).notifications@.push(
                message,
            ),
            !(route is Notification) ==> final(self).notifications@ == old(self).notifications@,
            route is Response ==> final(self).response(route->id) == Some(message),
            forall|other: u64|
                !(route is Response && route->id == other) ==> #[trigger] final(self).response(other)
                    == old(self).response(other),
    {
        match route {
            MessageRoute::Notification { .. } => {
                self.notifications.push_back(message);
            },
            MessageRoute::Response { id } => {
                let _ = self.responses.insert(*id, message);
            },
            _ => {},
        }
    }

    /// Takes out the response kept for `id`, if any.
    pub fn take_response(&mut self, id: u64) -> (r: Option<V>)
        ensures
            r == old(self).response(id),
            final(self).response(id) is None,
            forall|other: u64| other != id ==> final(self).response(other) == old(self).response(
                other,
            ),
            final(self).notifications@ == old(self).notifications@,
    {
        self.responses.remove(&id)
    }

    /// How many notifications were kept.
    pub fn notification_count(&self) -> (r: usize)
        ensures
            r == self.notifications@.len(),
    {
        self.notifications.len()
    }

    /// Forgets everything kept (the session stopped).
    pub fn clear(&mut self)
        ensures
            forall|id: u64| final(self).response(id) is None,
            final(self).notifications@.len() == 0,
    {
        self.responses.clear();
        self.notifications.clear();
    }
}

} // verus!
