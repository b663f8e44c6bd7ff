//! The client registry: which connections are live, and what each of them is
//! still owed. A connection is known by its identity; its entry holds the
//! texts that wait to be written to it, oldest first.

use crate::text::views;
use std::collections::HashMap;
use vstd::prelude::*;

verus! {

/// What the registry holds, as a mathematical value: for each identity the
/// texts that wait for it, oldest first, or `None` once its send side is
/// closed.
pub type RegistryView = Map<u128, Option<Seq<Seq<char>>>>;

/// The entry of one connection.
#[derive(Debug)]
pub struct WsClient {
    /// The texts that wait to be written, oldest first. `None` once the send
    /// side is closed.
    pub sender: Option<Vec<String>>,
}

impl View for WsClient {
    type V = Option<Seq<Seq<char>>>;

    open spec fn view(&self) -> Option<Seq<Seq<char>>> {
        match self.sender {
            Some(queue) => Some(views(queue@)),
            None => None,
        }
    }
}

/// The identity is known and its send side is open.
pub open spec fn accepts(m: RegistryView, id: u128) -> bool {
    m.contains_key(id) && m[id] is Some
}

/// The texts that wait for an identity; none for one that is unknown or
/// closed.
pub open spec fn waiting(m: RegistryView, id: u128) -> Seq<Seq<char>> {
    if accepts(m, id) {
        m[id]->0
    } else {
        Seq::empty()
    }
}

/// The registry after a text was sent to an identity: the text waits behind
/// those that waited before it. Sent to an identity that is unknown or
/// closed, it is dropped.
pub open spec fn after_send(m: RegistryView, id: u128, text: Seq<char>) -> RegistryView {
    if accepts(m, id) {
        m.insert(id, Some(m[id]->0.push(text)))
    } else {
        m
    }
}

/// The registry after the texts that waited for an identity were taken.
pub open spec fn after_take(m: RegistryView, id: u128) -> RegistryView {
    if accepts(m, id) {
        m.insert(id, Some(Seq::empty()))
    } else {
        m
    }
}

/// The registry after the send side of an identity was closed: what waited
/// is gone.
pub open spec fn after_close(m: RegistryView, id: u128) -> RegistryView {
    if m.contains_key(id) {
        m.insert(id, None)
    } else {
        m
    }
}

impl WsClient {
    /// The entry of a connection that was just opened: nothing waits.
    pub fn new() -> (client: WsClient)
        ensures
            client@ == Some(Seq::<Seq<char>>::empty()),
    {
        WsClient { sender: Some(Vec::new()) }
    }

    /// Puts `msg` behind the texts that wait. Says whether it was taken on:
    /// once the send side is closed, the text is dropped.
    pub fn send(&mut self, msg: String) -> (accepted: bool)
        ensures
            accepted == (old(self)@ is Some),
            final(self)@ == match old(self)@ {
                Some(queue) => Some(queue.push(msg@)),
                None => None,
            },
    {
        match self.sender.take() {
            Some(mut queue) => {
                let ghost before = views(queue@);
                queue.push(msg);
                assert(views(queue@) =~= before.push(msg@));
                self.sender = Some(queue);
                true
            },
            None => false,
        }
    }

    /// Takes the texts that wait, oldest first, and leaves none behind.
    pub fn take_waiting(&mut self) -> (texts: Vec<String>)
        ensures
            views(texts@) == match old(self)@ {
                Some(queue) => queue,
                None => Seq::empty(),
            },
            final(self)@ == match old(self)@ {
                Some(_) => Some(Seq::<Seq<char>>::empty()),
                None => None,
            },
    {
        match self.sender.take() {
            Some(queue) => {
                let fresh: Vec<String> = Vec::new();
                assert(views(fresh@) =~= Seq::<Seq<char>>::empty());
                self.sender = Some(fresh);
                queue
            },
            None => {
                let none: Vec<String> = Vec::new();
                assert(views(none@) =~= Seq::<Seq<char>>::empty());
                none
            },
        }
    }
}

/// The registry of the live connections.
pub struct Registry {
    clients: HashMap<u128, WsClient>,
}

impl View for Registry {
    type V = RegistryView;

    closed spec fn view(&self) -> RegistryView {
        Map::new(|id: u128| self.clients@.contains_key(id), |id: u128| self.clients@[id]@)
    }
}

impl Registry {
    /// A registry without a connection.
    pub fn new() -> (registry: Registry)
        ensures
            registry@ == Map::<u128, Option<Seq<Seq<char>>>>::empty(),
    {
        let registry = Registry { clients: HashMap::new() };
        assert(registry@ =~= Map::<u128, Option<Seq<Seq<char>>>>::empty());
        registry
    }

    /// Whether an identity is known.
    pub fn contains(&self, id: u128) -> (known: bool)
        ensures
            known == self@.contains_key(id),
    {
        broadcast use vstd::std_specs::hash::group_hash_axioms;

        self.clients.contains_key(&id)
    }

    /// The number of identities that are known.
    pub fn len(&self) -> (count: usize)
        ensures
            count == self@.dom().len(),
    {
        broadcast use vstd::std_specs::hash::group_hash_axioms;

        assert(self@.dom() =~= self.clients@.dom());
        self.clients.len()
    }

    /// Enters `entry` under `id`. An entry that was there under the same
    /// identity is replaced; no other entry is touched.
    pub fn insert(&mut self, id: u128, entry: WsClient)
        ensures
            final(self)@ == old(self)@.insert(id, entry@),
    {
        broadcast use vstd::std_specs::hash::group_hash_axioms;

        let _ = self.clients.insert(id, entry);
        assert(self@ =~= old(self)@.insert(id, entry@));
    }

    /// Takes the entry of `id` out and hands it back. No other entry is
    /// touched, and an identity that is unknown changes nothing.
    pub fn remove(&mut self, id: u128) -> (entry: Option<WsClient>)
        ensures
            final(self)@ == old(self)@.remove(id),
            match entry {
                Some(client) => old(self)@.contains_key(id) && client@ == old(self)@[id],
                None => !old(self)@.contains_key(id),
            },
    {
        broadcast use vstd::std_specs::hash::group_hash_axioms;

        let entry = self.clients.remove(&id);
        assert(self@ =~= old(self)@.remove(id));
        entry
    }

    /// Sends `text` to `id`, and to no one else: it waits behind the texts
    /// that wait for `id` already. Says whether it was taken on; for an
    /// identity that is unknown or closed it is dropped and nothing changes.
    pub fn send(&mut self, id: u128, text: String) -> (accepted: bool)
        ensures
            accepted == accepts(old(self)@, id),
            final(self)@ == after_send(old(self)@, id, text@),
    {
        broadcast use vstd::std_specs::hash::group_hash_axioms;

        match self.clients.remove(&id) {
            Some(mut client) => {
                let accepted = client.send(text);
                let _ = self.clients.insert(id, client);
                assert(self@ =~= after_send(old(self)@, id, text@));
                accepted
            },
            None => {
                assert(self@ =~= old(self)@);
                false
            },
        }
    }

    /// Takes the texts that wait for `id`, oldest first, to write them to
    /// the wire. None are left for `id`; no other entry is touched.
    pub fn take_waiting(&mut self, id: u128) -> (texts: Vec<String>)
        ensures
            views(texts@) == waiting(old(self)@, id),
            final(self)@ == after_take(old(self)@, id),
    {
        broadcast use vstd::std_specs::hash::group_hash_axioms;

        match self.clients.remove(&id) {
            Some(mut client) => {
                let texts = client.take_waiting();
                let _ = self.clients.insert(id, client);
                assert(self@ =~= after_take(old(self)@, id));
                texts
            },
            None => {
                assert(self@ =~= old(self)@);
                let none: Vec<String> = Vec::new();
                assert(views(none@) =~= Seq::<Seq<char>>::empty());
                none
            },
        }
    }

    /// Closes the send side of `id`: what waited for it is dropped, and what
    /// is sent to it from now on is too. No other entry is touched.
    pub fn close_sender(&mut self, id: u128)
        ensures
            final(self)@ == after_close(old(self)@, id),
    {
        broadcast use vstd::std_specs::hash::group_hash_axioms;

        match self.clients.remove(&id) {
            Some(_) => {
                let _ = self.clients.insert(id, WsClient { sender: None });
                assert(self@ =~= after_close(old(self)@, id));
            },
            None => {
                assert(self@ =~= old(self)@);
            },
        }
    }
}

/// A text sent to one identity is never seen by another: the entry of every
/// other identity, and with it what waits for that identity, is as it was.
pub proof fn lemma_send_is_private(m: RegistryView, id: u128, text: Seq<char>, other: u128)
    requires
        other != id,
    ensures
        after_send(m, id, text).contains_key(other) == m.contains_key(other),
        after_send(m, id, text)[other] == m[other],
        waiting(after_send(m, id, text), other) == waiting(m, other),
{
}

/// A text sent to a live identity is the last of those that wait for it, and
/// those that waited before it keep their places.
pub proof fn lemma_send_is_in_order(m: RegistryView, id: u128, text: Seq<char>)
    requires
        accepts(m, id),
    ensures
        waiting(after_send(m, id, text), id) == waiting(m, id).push(text),
        after_send(m, id, text).dom() == m.dom(),
{
}

/// Removing an identity removes that identity and nothing else: every other
/// identity is known as before and has its entry as before.
pub proof fn lemma_remove_is_exact(m: RegistryView, id: u128, other: u128)
    requires
        other != id,
    ensures
        !m.remove(id).contains_key(id),
        m.remove(id).dom() == m.dom().remove(id),
        m.remove(id).contains_key(other) == m.contains_key(other),
        m.remove(id)[other] == m[other],
        waiting(m.remove(id), other) == waiting(m, other),
{
}

/// An identity leaves the registry by `remove` and in no other way: whatever
/// is entered, sent, taken or closed, an identity that was known is known.
pub proof fn lemma_only_remove_forgets(
    m: RegistryView,
    id: u128,
    entry: Option<Seq<Seq<char>>>,
    text: Seq<char>,
    known: u128,
)
    requires
        m.contains_key(known),
    ensures
        m.insert(id, entry).contains_key(known),
        after_send(m, id, text).contains_key(known),
        after_take(m, id).contains_key(known),
        after_close(m, id).contains_key(known),
{
}

/// Taking what waits for one identity, or closing its send side, leaves
/// every other identity with what waits for it.
pub proof fn lemma_take_and_close_are_private(m: RegistryView, id: u128, other: u128)
    requires
        other != id,
    ensures
        waiting(after_take(m, id), other) == waiting(m, other),
        waiting(after_close(m, id), other) == waiting(m, other),
        after_take(m, id).dom() == m.dom(),
        after_close(m, id).dom() == m.dom(),
{
    assert(after_take(m, id).dom() =~= m.dom());
    assert(after_close(m, id).dom() =~= m.dom());
}

} // verus!
