//! The life of one connection: it is accepted, registered under a fresh
//! identity, served frame by frame, and taken out of the registry when its
//! stream ends or fails.

use crate::clock::unix_millis;
use crate::identity::mint_identity;
use crate::protocol::{
    directive_of, handle_response, pong, pong_text, Config, Directive, DirectiveView,
};
use crate::registry::{
    accepts, after_close, after_send, after_take, waiting, Registry, RegistryView, WsClient,
};
use vstd::prelude::*;

verus! {

/// Where a connection stands in its life.
#[derive(Clone, Copy, Debug, PartialEq, Eq)]
pub enum ConnectionState {
    /// Accepted, not yet registered.
    Connecting,
    /// Registered under this identity, and served.
    Open(u128),
    /// Taken out of the registry; nothing more happens on it.
    Closed,
}

/// One connection.
pub struct Connection {
    state: ConnectionState,
}

impl View for Connection {
    type V = ConnectionState;

    closed spec fn view(&self) -> ConnectionState {
        self.state
    }
}

/// A connection and the registry after the connection was asked to open
/// under `id`: one that waits to be opened, with an identity that no entry
/// has, is open and has its entry with nothing waiting. Any other is
/// refused, and nothing changes.
pub open spec fn opening(state: ConnectionState, m: RegistryView, id: u128) -> (
    ConnectionState,
    RegistryView,
) {
    if state is Connecting && !m.contains_key(id) {
        (ConnectionState::Open(id), m.insert(id, Some(Seq::empty())))
    } else {
        (state, m)
    }
}

/// A connection and the registry after the connection was closed: it is
/// closed, and if it was open its entry, and no other, is gone.
pub open spec fn closing(state: ConnectionState, m: RegistryView) -> (
    ConnectionState,
    RegistryView,
) {
    match state {
        ConnectionState::Open(id) => (ConnectionState::Closed, m.remove(id)),
        _ => (ConnectionState::Closed, m),
    }
}

/// Every open connection has its entry in the registry.
pub open spec fn every_open_has_entry(connections: Seq<ConnectionState>, m: RegistryView) -> bool {
    forall|i: int|
        0 <= i < connections.len() && (#[trigger] connections[i]) is Open ==> m.contains_key(
            connections[i]->Open_0,
        )
}

/// No two open connections share an identity.
pub open spec fn no_identity_twice(connections: Seq<ConnectionState>) -> bool {
    forall|i: int, j: int|
        0 <= i < j < connections.len() && (#[trigger] connections[i]) is Open
            && (#[trigger] connections[j]) is Open ==> connections[i] != connections[j]
}

/// `id` is the identity of an open connection.
pub open spec fn is_live(connections: Seq<ConnectionState>, id: u128) -> bool {
    exists|i: int|
        0 <= i < connections.len() && #[trigger] connections[i] == ConnectionState::Open(id)
}

/// Every entry of the registry belongs to an open connection.
pub open spec fn every_entry_is_live(connections: Seq<ConnectionState>, m: RegistryView) -> bool {
    forall|id: u128| m.contains_key(id) ==> #[trigger] is_live(connections, id)
}

/// The connections of a service and its registry agree: there is one entry
/// for each live connection, and no other.
pub open spec fn agree(connections: Seq<ConnectionState>, m: RegistryView) -> bool {
    &&& every_open_has_entry(connections, m)
    &&& no_identity_twice(connections)
    &&& every_entry_is_live(connections, m)
}

/// What the registry is after a frame from `client_id` was served, where a
/// clock read at `millis` milliseconds since the epoch: an answer that is
/// known at once waits for `client_id`, and nothing else has changed.
pub open spec fn after_frame(
    m: RegistryView,
    client_id: u128,
    directive: DirectiveView,
    millis: nat,
) -> RegistryView {
    match directive {
        DirectiveView::Reply(text) => after_send(m, client_id, text),
        DirectiveView::Ping => after_send(m, client_id, pong_text(millis)),
        _ => m,
    }
}

/// What is left to do after a frame was served: nothing where the answer
/// was known at once, else the directive itself.
pub open spec fn left_to_do(directive: DirectiveView) -> DirectiveView {
    match directive {
        DirectiveView::Reply(_) => DirectiveView::Nothing,
        DirectiveView::Ping => DirectiveView::Nothing,
        other => other,
    }
}

/// One frame as a connection served it.
pub struct Served {
    /// The directive that the frame was read into.
    pub directive: DirectiveView,
    /// What the clock read when the frame was served.
    pub millis: nat,
    /// The answer that was sent once the directive was carried out, if it
    /// had one: how the restart ended, the report, the overload signal.
    pub late: Option<Seq<char>>,
}

/// The answers to one frame, in the order in which they are sent: the one
/// that is known at once, then the late one.
pub open spec fn answers_to(frame: Served) -> Seq<Seq<char>> {
    let at_once = match frame.directive {
        DirectiveView::Reply(text) => seq![text],
        DirectiveView::Ping => seq![pong_text(frame.millis)],
        _ => Seq::empty(),
    };
    match frame.late {
        Some(text) => at_once.push(text),
        None => at_once,
    }
}

/// The answers to a stream of frames, in the order of the frames.
pub open spec fn answers(frames: Seq<Served>) -> Seq<Seq<char>>
    decreases frames.len(),
{
    if frames.len() == 0 {
        Seq::empty()
    } else {
        answers(frames.drop_last()) + answers_to(frames.last())
    }
}

/// What the registry is after one frame from `client_id` was served and its
/// late answer, if any, was sent.
pub open spec fn after_served(m: RegistryView, client_id: u128, frame: Served) -> RegistryView {
    let served = after_frame(m, client_id, frame.directive, frame.millis);
    match frame.late {
        Some(text) => after_send(served, client_id, text),
        None => served,
    }
}

/// What the registry is after a stream of frames from `client_id` was
/// served, frame by frame in their order.
pub open spec fn after_stream(m: RegistryView, client_id: u128, frames: Seq<Served>)
    -> RegistryView
    decreases frames.len(),
{
    if frames.len() == 0 {
        m
    } else {
        after_served(after_stream(m, client_id, frames.drop_last()), client_id, frames.last())
    }
}

/// Serves a directive for `client_id` with the clock at `millis`: an answer
/// that is known at once is sent to `client_id` and to no one else. Hands
/// back what is left to do.
pub fn serve(client_id: u128, directive: Directive, millis: u128, clients: &mut Registry) -> (left:
    Directive)
    ensures
        final(clients)@ == after_frame(old(clients)@, client_id, directive@, millis as nat),
        left@ == left_to_do(directive@),
{
    match directive {
        Directive::Reply(text) => {
            let _ = clients.send(client_id, text);
            Directive::Nothing
        },
        Directive::Ping => {
            let _ = clients.send(client_id, pong(millis));
            Directive::Nothing
        },
        other => other,
    }
}

/// Serves one frame from `client_id`: reads it, and sends an answer that is
/// known at once to `client_id` and to no one else. Hands back what is left
/// to do. The answer to `PING` carries the reading of the clock, whatever it
/// is.
pub fn client_msg(client_id: u128, message: &str, config: &Config, clients: &mut Registry) -> (left:
    Directive)
    ensures
        left@ == left_to_do(directive_of(message@, config.restart_script_view())),
        exists|millis: nat|
            final(clients)@ == #[trigger] after_frame(
                old(clients)@,
                client_id,
                directive_of(message@, config.restart_script_view()),
                millis,
            ),
{
    let directive = handle_response(message, config);
    let millis = match directive {
        Directive::Ping => unix_millis(),
        _ => 0,
    };
    serve(client_id, directive, millis, clients)
}

impl Connection {
    /// A connection that was just accepted.
    pub fn new() -> (connection: Connection)
        ensures
            connection@ is Connecting,
    {
        Connection { state: ConnectionState::Connecting }
    }

    /// Where the connection stands.
    pub fn state(&self) -> (state: ConnectionState)
        ensures
            state == self@,
    {
        self.state
    }

    /// Opens the connection under `id`: its entry is entered into the
    /// registry with nothing waiting. This is refused, and nothing changes,
    /// where the connection is not waiting to be opened or `id` is taken by
    /// another connection.
    pub fn open_as(&mut self, id: u128, clients: &mut Registry) -> (opened: bool)
        ensures
            opened == (old(self)@ is Connecting && !old(clients)@.contains_key(id)),
            (final(self)@, final(clients)@) == opening(old(self)@, old(clients)@, id),
    {
        match self.state {
            ConnectionState::Connecting => {
                if clients.contains(id) {
                    false
                } else {
                    clients.insert(id, WsClient::new());
                    self.state = ConnectionState::Open(id);
                    true
                }
            },
            _ => false,
        }
    }

    /// Opens the connection under a fresh identity drawn at random. Whatever
    /// was drawn, either the connection is open under an identity that no
    /// other connection had, or nothing has changed. A connection that waits
    /// to be opened is opened for certain where the registry is empty: no
    /// identity can be taken there.
    pub fn open(&mut self, clients: &mut Registry) -> (opened: bool)
        ensures
            old(self)@ is Connecting && (forall|id: u128| !old(clients)@.contains_key(id))
                ==> opened,
            exists|id: u128|
                opened == (old(self)@ is Connecting && !old(clients)@.contains_key(id)) && (
                    final(self)@,
                    final(clients)@,
                ) == #[trigger] opening(old(self)@, old(clients)@, id),
    {
        let id = mint_identity();
        self.open_as(id, clients)
    }

    /// Serves one frame. On an open connection this is `client_msg` under
    /// the connection's own identity; on any other the frame is dropped.
    pub fn receive(&self, message: &str, config: &Config, clients: &mut Registry) -> (left:
        Directive)
        ensures
            self@ matches ConnectionState::Open(id) ==> left@ == left_to_do(
                directive_of(message@, config.restart_script_view()),
            ) && exists|millis: nat|
                final(clients)@ == #[trigger] after_frame(
                    old(clients)@,
                    id,
                    directive_of(message@, config.restart_script_view()),
                    millis,
                ),
            !(self@ is Open) ==> left@ is Nothing && final(clients)@ == old(clients)@,
    {
        match self.state {
            ConnectionState::Open(id) => client_msg(id, message, config, clients),
            _ => Directive::Nothing,
        }
    }

    /// Sends a late answer to the connection's own identity, and to no one
    /// else. Says whether it was taken on.
    pub fn respond(&self, text: String, clients: &mut Registry) -> (accepted: bool)
        ensures
            self@ matches ConnectionState::Open(id) ==> accepted == accepts(old(clients)@, id)
                && final(clients)@ == after_send(old(clients)@, id, text@),
            !(self@ is Open) ==> !accepted && final(clients)@ == old(clients)@,
    {
        match self.state {
            ConnectionState::Open(id) => clients.send(id, text),
            _ => false,
        }
    }

    /// Closes the connection. An open one is taken out of the registry: its
    /// identity and no other. From then on the connection is closed for
    /// good.
    pub fn close(&mut self, clients: &mut Registry)
        ensures
            (final(self)@, final(clients)@) == closing(old(self)@, old(clients)@),
    {
        match self.state {
            ConnectionState::Open(id) => {
                let _ = clients.remove(id);
            },
            _ => {},
        }
        self.state = ConnectionState::Closed;
    }
}

/// A connection that was just accepted takes no entry: with it among the
/// connections, they and the registry still agree.
pub proof fn lemma_accepting_keeps_agreement(connections: Seq<ConnectionState>, m: RegistryView)
    requires
        agree(connections, m),
    ensures
        agree(connections.push(ConnectionState::Connecting), m),
{
    let after = connections.push(ConnectionState::Connecting);
    assert forall|id: u128| m.contains_key(id) implies is_live(after, id) by {
        assert(is_live(connections, id));
        let i = choose|i: int|
            0 <= i < connections.len() && #[trigger] connections[i] == ConnectionState::Open(id);
        assert(after[i] == ConnectionState::Open(id));
    }
}

/// Opening keeps the agreement of the connections and the registry, under
/// whatever identity it is asked for: an identity that is taken is refused.
pub proof fn lemma_opening_keeps_agreement(
    connections: Seq<ConnectionState>,
    m: RegistryView,
    at: int,
    id: u128,
)
    requires
        agree(connections, m),
        0 <= at < connections.len(),
    ensures
        agree(
            connections.update(at, opening(connections[at], m, id).0),
            opening(connections[at], m, id).1,
        ),
{
    let (state, registry) = opening(connections[at], m, id);
    let after = connections.update(at, state);
    if connections[at] is Connecting && !m.contains_key(id) {
        assert forall|known: u128| registry.contains_key(known) implies is_live(after, known) by {
            if known == id {
                assert(after[at] == ConnectionState::Open(id));
            } else {
                assert(is_live(connections, known));
                let i = choose|i: int|
                    0 <= i < connections.len() && #[trigger] connections[i]
                        == ConnectionState::Open(known);
                assert(after[i] == ConnectionState::Open(known));
            }
        }
    } else {
        assert(after =~= connections);
    }
}

/// Closing keeps the agreement of the connections and the registry: the
/// entry that goes is the one of the connection that closes.
pub proof fn lemma_closing_keeps_agreement(
    connections: Seq<ConnectionState>,
    m: RegistryView,
    at: int,
)
    requires
        agree(connections, m),
        0 <= at < connections.len(),
    ensures
        agree(connections.update(at, closing(connections[at], m).0), closing(connections[at], m).1),
{
    let (state, registry) = closing(connections[at], m);
    let after = connections.update(at, state);
    assert forall|known: u128| registry.contains_key(known) implies is_live(after, known) by {
        assert(is_live(connections, known));
        let i = choose|i: int|
            0 <= i < connections.len() && #[trigger] connections[i] == ConnectionState::Open(
                known,
            );
        assert(after[i] == ConnectionState::Open(known));
    }
}

/// Sending, taking and closing a send side keep the agreement of the
/// connections and the registry: none of them enters or removes an entry.
pub proof fn lemma_traffic_keeps_agreement(
    connections: Seq<ConnectionState>,
    m: RegistryView,
    id: u128,
    text: Seq<char>,
)
    requires
        agree(connections, m),
    ensures
        agree(connections, after_send(m, id, text)),
        agree(connections, after_take(m, id)),
        agree(connections, after_close(m, id)),
{
    assert(after_send(m, id, text).dom() =~= m.dom());
    assert(after_take(m, id).dom() =~= m.dom());
    assert(after_close(m, id).dom() =~= m.dom());
}

/// The answer to a frame reaches the sender and no one else: whatever the
/// frame and the clock, what waits for any other identity is as it was.
pub proof fn lemma_frame_is_private(
    m: RegistryView,
    client_id: u128,
    directive: DirectiveView,
    millis: nat,
    other: u128,
)
    requires
        other != client_id,
    ensures
        after_frame(m, client_id, directive, millis).contains_key(other) == m.contains_key(other),
        after_frame(m, client_id, directive, millis)[other] == m[other],
        waiting(after_frame(m, client_id, directive, millis), other) == waiting(m, other),
{
}

/// A connection goes one way: once closed it stays closed, and once open it
/// is never waiting to be opened again.
pub proof fn lemma_life_goes_one_way(state: ConnectionState, m: RegistryView, id: u128)
    ensures
        closing(state, m).0 is Closed,
        state is Closed ==> opening(state, m, id).0 is Closed,
        state is Open ==> opening(state, m, id).0 == state,
        !(state is Connecting) ==> !(opening(state, m, id).0 is Connecting),
{
}

/// A stream of frames enters no identity and removes none, however long it
/// is and whatever its frames are.
pub proof fn lemma_stream_keeps_identities(m: RegistryView, client_id: u128, frames: Seq<Served>)
    ensures
        after_stream(m, client_id, frames).dom() == m.dom(),
    decreases frames.len(),
{
    if frames.len() > 0 {
        lemma_stream_keeps_identities(m, client_id, frames.drop_last());
        let before = after_stream(m, client_id, frames.drop_last());
        assert(after_served(before, client_id, frames.last()).dom() =~= before.dom());
    }
}

/// The answers to a whole stream of frames reach the sender and no one
/// else: however long the stream and whatever its frames, the clock and the
/// late answers, the entry of every other identity, and with it what waits
/// for that identity, is as it was before the first frame.
pub proof fn lemma_stream_is_private(
    m: RegistryView,
    client_id: u128,
    frames: Seq<Served>,
    other: u128,
)
    requires
        other != client_id,
    ensures
        after_stream(m, client_id, frames).contains_key(other) == m.contains_key(other),
        after_stream(m, client_id, frames)[other] == m[other],
        waiting(after_stream(m, client_id, frames), other) == waiting(m, other),
    decreases frames.len(),
{
    if frames.len() > 0 {
        lemma_stream_is_private(m, client_id, frames.drop_last(), other);
    }
}

/// The sender of a stream of frames is answered in the order of its frames:
/// behind what waited for it before the first frame wait the answers to the
/// frames, each in its place and none of them twice, and nothing else.
pub proof fn lemma_stream_is_answered_in_order(
    m: RegistryView,
    client_id: u128,
    frames: Seq<Served>,
)
    requires
        accepts(m, client_id),
    ensures
        accepts(after_stream(m, client_id, frames), client_id),
        waiting(after_stream(m, client_id, frames), client_id) == waiting(m, client_id) + answers(
            frames,
        ),
    decreases frames.len(),
{
    if frames.len() > 0 {
        lemma_stream_is_answered_in_order(m, client_id, frames.drop_last());
        let before = after_stream(m, client_id, frames.drop_last());
        let after = after_served(before, client_id, frames.last());
        assert(waiting(after, client_id) =~= waiting(before, client_id) + answers_to(
            frames.last(),
        ));
        assert(waiting(after, client_id) =~= waiting(m, client_id) + answers(frames));
    } else {
        assert(waiting(m, client_id) =~= waiting(m, client_id) + answers(frames));
    }
}

/// A connection that opens under an identity that no entry has, is served a
/// stream of frames and closes, leaves the registry as it found it.
pub proof fn lemma_life_leaves_no_trace(m: RegistryView, id: u128, frames: Seq<Served>)
    requires
        !m.contains_key(id),
    ensures
        opening(ConnectionState::Connecting, m, id).0 == ConnectionState::Open(id),
        closing(
            ConnectionState::Open(id),
            after_stream(opening(ConnectionState::Connecting, m, id).1, id, frames),
        ) == (ConnectionState::Closed, m),
{
    let opened = opening(ConnectionState::Connecting, m, id).1;
    let served = after_stream(opened, id, frames);
    lemma_stream_keeps_identities(opened, id, frames);
    assert forall|other: u128| other != id implies served.contains_key(other) == m.contains_key(
        other,
    ) && served[other] == m[other] by {
        lemma_stream_is_private(opened, id, frames, other);
    }
    assert(served.remove(id) =~= m);
}

} // verus!
