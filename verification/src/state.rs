//! The state that the mail sessions and the query surface share: the store
//! of captured messages and the channel that announces new ones.

use crate::fanout::{Broadcaster, Overflow};
use crate::models::{Email, EmailView};
use crate::store::Store;
use vstd::prelude::*;

verus! {

/// The capacity of the channel of a new [`AppState`].
pub const CHANNEL_CAPACITY: usize = 100;

/// The store and the channel.
#[derive(Debug)]
pub struct AppState {
    /// The captured messages.
    pub emails: Store,
    /// The channel on which each new message is published.
    pub tx: Broadcaster,
}

impl AppState {
    /// An empty store and a channel without subscribers.
    pub fn new() -> (out: AppState)
        ensures
            out.emails@ == Seq::<EmailView>::empty(),
            out.tx@.capacity == CHANNEL_CAPACITY,
            out.tx@.overflow == Overflow::DropOldest,
            out.tx@.issued == 0,
            out.tx@.queues == Map::<u64, Seq<EmailView>>::empty(),
    {
        AppState { emails: Store::new(), tx: Broadcaster::new(CHANNEL_CAPACITY) }
    }

    /// Takes a captured message: it goes to the end of the store, and a copy
    /// of it to every subscriber.
    pub fn deliver(&mut self, email: Email)
        ensures
            final(self).emails@ == old(self).emails@.push(email@),
            final(self).tx@ == old(self).tx@.after_publish(email@),
    {
        self.tx.publish(&email);
        self.emails.append(email);
    }
}

/// The state of a server that has just started.
pub fn create_app_state() -> (out: AppState)
    ensures
        out.emails@ == Seq::<EmailView>::empty(),
        out.tx@.capacity == CHANNEL_CAPACITY,
        out.tx@.overflow == Overflow::DropOldest,
        out.tx@.issued == 0,
        out.tx@.queues == Map::<u64, Seq<EmailView>>::empty(),
{
    AppState::new()
}

} // verus!
