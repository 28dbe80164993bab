//! The per-connection lifecycle: joining, relaying requests, and leaving.
//! Each step takes the registry and what the transport delivered, does the
//! fan-out, and says which phase the connection is in afterwards; the caller
//! runs the transport and the writer task that drains each queue.
use vstd::prelude::*;
use tokio::sync::mpsc::UnboundedSender;
use crate::client::{
    all_taken, connect_step, delivered, disconnect_step, lists, nothing_sent, recipients,
    tried_once, Clients, OnlineClient,
};
use crate::format::{
    byte_len, format_message, format_spec, formatted_view, reason_text, size_spec, FormatError,
    MAX_MESSAGE_BYTES,
};
use crate::messages::{
    decode_spec, encode_spec, first_at, ClientId, InFrame, Msg, OnlineClientInfo, OrlyMessage,
    OutFrame, UserId, Wire, COLON,
};
use crate::post::{lemma_replay_all, post_message_spec, replay_spec, Post};

verus! {

/// The query of a connection request; it carries nothing yet.
pub struct UserConnectionRequest {}

/// Where a connection is in its lifecycle once `client_connected` has
/// returned; accepting it and sending it its first messages happen within
/// that call.
#[derive(Clone, Copy, Debug, PartialEq, Eq, Structural)]
pub enum Phase {
    /// Registered and relaying its requests.
    Active,
    /// Its stream is to be ended and it is to be deregistered.
    Closing,
    /// Gone from the registry; nothing more is done with it.
    Removed,
}

/// One connection as its actor sees it.
#[derive(Clone, Copy, Debug, PartialEq, Eq, Structural)]
pub struct Connection {
    pub id: ClientId,
    pub user: Option<UserId>,
    pub phase: Phase,
}

/// What is shared by all connections: the registry, and whether a sender
/// gets its own broadcasts back.
pub struct RuntimeState {
    pub clients: Clients,
    pub echo_to_sender: bool,
}

impl RuntimeState {
    /// A state with no clients.
    pub fn new(echo_to_sender: bool) -> (r: RuntimeState)
        ensures
            r.clients.wf(),
            r.clients@ == Map::<ClientId, OnlineClientInfo>::empty(),
            r.echo_to_sender == echo_to_sender,
    {
        RuntimeState { clients: Clients::new(), echo_to_sender }
    }
}

/// The one view that messages are broadcast on.
pub open spec fn default_view() -> Seq<char> {
    "default"@
}

fn default_view_string() -> (r: String)
    ensures
        r@ == default_view(),
{
    String::from_str("default")
}

/// Who a sender's broadcast leaves out: the sender, unless it gets its own
/// broadcasts back.
pub open spec fn except_for(echo: bool, id: ClientId) -> Option<ClientId> {
    if echo {
        None
    } else {
        Some(id)
    }
}

fn except_of(echo: bool, id: ClientId) -> (r: Option<ClientId>)
    ensures
        r == except_for(echo, id),
{
    if echo {
        None
    } else {
        Some(id)
    }
}

// ---------------------------------------------------------------------------
// Deliveries
// ---------------------------------------------------------------------------
/// Where a message goes: back to one client, or to every registered one but
/// an optional exception.
pub enum Delivery {
    Reply { to: ClientId, message: OrlyMessage },
    Broadcast { message: OrlyMessage, except: Option<ClientId> },
}

/// The mathematical value of a delivery.
pub enum Route {
    Reply { to: ClientId, message: Msg },
    Broadcast { message: Msg, except: Option<ClientId> },
}

impl View for Delivery {
    type V = Route;

    open spec fn view(&self) -> Route {
        match self {
            Delivery::Reply { to, message } => Route::Reply { to: *to, message: message@ },
            Delivery::Broadcast { message, except } => Route::Broadcast {
                message: message@,
                except: *except,
            },
        }
    }
}

/// The ids that a delivery is handed to, given the registry.
pub open spec fn route_recipients(d: Route, m: Map<ClientId, OnlineClientInfo>) -> Set<ClientId> {
    match d {
        Route::Reply { to, .. } => if m.contains_key(to) {
            set![to]
        } else {
            Set::empty()
        },
        Route::Broadcast { except, .. } => recipients(m, except),
    }
}

/// The message a route carries.
pub open spec fn route_message(d: Route) -> Msg {
    match d {
        Route::Reply { message, .. } => message,
        Route::Broadcast { message, .. } => message,
    }
}

/// Hands a delivery to the queues of its recipients: its message in wire
/// form, once to each. Returns the ids whose queue took it.
pub fn deliver(clients: &mut Clients, d: &Delivery) -> (r: Vec<ClientId>)
    requires
        old(clients).wf(),
    ensures
        final(clients).wf(),
        final(clients)@ == old(clients)@,
        final(clients).next_spec() == old(clients).next_spec(),
        delivered(
            *old(clients),
            *final(clients),
            route_recipients(d@, old(clients)@),
            encode_spec(route_message(d@)),
            r@,
        ),
{
    match d {
        Delivery::Reply { to, message } => {
            let mut r: Vec<ClientId> = Vec::new();
            if clients.lookup(*to).is_some() {
                let ok = clients.send_to(*to, message.encode());
                assert(clients.tried(*to).drop_last() =~= old(clients).tried(*to));
                if ok {
                    r.push(*to);
                }
                assert(r@.contains(*to) <==> ok) by {
                    if ok {
                        assert(r@[0] == *to);
                    }
                }
            }
            r
        },
        Delivery::Broadcast { message, except } => clients.broadcast(message, *except),
    }
}

// ---------------------------------------------------------------------------
// Requests
// ---------------------------------------------------------------------------
/// What a formatted request from `id` turns into, given the formatting
/// result: the refusal back to the sender alone, or the rendered broadcast.
pub open spec fn formatted_route(
    id: ClientId,
    user: Option<UserId>,
    formatted: Result<Seq<char>, FormatError>,
    echo: bool,
) -> Route {
    match formatted {
        Ok(h) => Route::Broadcast {
            message: Msg::ChannelBroadcastFormatted {
                message: h,
                view: default_view(),
                client: Some(id),
                user,
            },
            except: except_for(echo, id),
        },
        Err(e) => Route::Reply { to: id, message: Msg::ClientError { error: reason_text(e) } },
    }
}

/// An error reply to `id` alone.
pub open spec fn refusal(id: ClientId, reason: Seq<char>) -> Route {
    Route::Reply { to: id, message: Msg::ClientError { error: reason } }
}

/// The delivery of a formatted request from `id`, given what formatting its
/// payload gave.
pub fn formatted_delivery_of(
    id: ClientId,
    user: Option<UserId>,
    formatted: Result<String, FormatError>,
    echo: bool,
) -> (r: Delivery)
    ensures
        r@ == formatted_route(id, user, formatted_view(formatted), echo),
{
    match formatted {
        Ok(html) => Delivery::Broadcast {
            message: OrlyMessage::ChannelBroadcastFormatted {
                message: html,
                view: default_view_string(),
                client: Some(id),
                user,
            },
            except: except_of(echo, id),
        },
        Err(e) => Delivery::Reply {
            to: id,
            message: OrlyMessage::ClientError { error: String::from_str(e.reason()) },
        },
    }
}

/// The delivery of a formatted request from `id`: a payload that is empty
/// or over `MAX_MESSAGE_BYTES` bytes is answered with an error to the sender
/// alone; any other is rendered and broadcast.
pub fn formatted_delivery(id: ClientId, user: Option<UserId>, text: &str, echo: bool) -> (r:
    Delivery)
    ensures
        r@ == formatted_route(id, user, format_spec(text@), echo),
        byte_len(text@) == 0 ==> r@ == refusal(id, "message too empty"@),
        byte_len(text@) > MAX_MESSAGE_BYTES ==> r@ == refusal(id, "message too long"@),
        1 <= byte_len(text@) <= MAX_MESSAGE_BYTES ==> (r@ is Broadcast),
{
    formatted_delivery_of(id, user, format_message(text), echo)
}

/// A plain-text broadcast from `id`.
pub open spec fn text_broadcast(message: Seq<char>, id: ClientId, user: Option<UserId>) -> Msg {
    Msg::ChannelBroadcast { message, view: default_view(), client: Some(id), user }
}

/// A data broadcast from `id`.
pub open spec fn data_broadcast(message: Seq<u8>, id: ClientId, user: Option<UserId>) -> Msg {
    Msg::ChannelBroadcastData { message, view: default_view(), client: Some(id), user }
}

/// Relays a formatted request from `id`: a refused payload reaches no
/// queue but the sender's, as the refusal; an accepted one is rendered and
/// broadcast. Returns the ids whose queue took the message.
pub fn client_channel_broadcast_formatted(
    clients: &mut Clients,
    id: ClientId,
    user: Option<UserId>,
    text: &str,
    echo: bool,
) -> (r: Vec<ClientId>)
    requires
        old(clients).wf(),
    ensures
        final(clients).wf(),
        final(clients)@ == old(clients)@,
        final(clients).next_spec() == old(clients).next_spec(),
        delivered(
            *old(clients),
            *final(clients),
            route_recipients(formatted_route(id, user, format_spec(text@), echo), old(clients)@),
            encode_spec(route_message(formatted_route(id, user, format_spec(text@), echo))),
            r@,
        ),
        byte_len(text@) == 0 ==> delivered(
            *old(clients),
            *final(clients),
            route_recipients(refusal(id, "message too empty"@), old(clients)@),
            encode_spec(route_message(refusal(id, "message too empty"@))),
            r@,
        ),
        byte_len(text@) > MAX_MESSAGE_BYTES ==> delivered(
            *old(clients),
            *final(clients),
            route_recipients(refusal(id, "message too long"@), old(clients)@),
            encode_spec(route_message(refusal(id, "message too long"@))),
            r@,
        ),
        1 <= byte_len(text@) <= MAX_MESSAGE_BYTES ==> delivered(
            *old(clients),
            *final(clients),
            recipients(old(clients)@, except_for(echo, id)),
            encode_spec(route_message(formatted_route(id, user, format_spec(text@), echo))),
            r@,
        ),
{
    let d = formatted_delivery(id, user, text, echo);
    deliver(clients, &d)
}

/// Relays a plain-text request from `id` verbatim, once to every registered
/// client but `except_for(echo, id)`. Returns the ids whose queue took it.
pub fn client_channel_broadcast_text(
    clients: &mut Clients,
    id: ClientId,
    user: Option<UserId>,
    message: String,
    echo: bool,
) -> (r: Vec<ClientId>)
    requires
        old(clients).wf(),
    ensures
        final(clients).wf(),
        final(clients)@ == old(clients)@,
        final(clients).next_spec() == old(clients).next_spec(),
        delivered(
            *old(clients),
            *final(clients),
            recipients(old(clients)@, except_for(echo, id)),
            encode_spec(text_broadcast(message@, id, user)),
            r@,
        ),
{
    let msg = OrlyMessage::ChannelBroadcast {
        message,
        view: default_view_string(),
        client: Some(id),
        user,
    };
    clients.broadcast(&msg, except_of(echo, id))
}

/// Relays a data request from `id` verbatim, once to every registered client
/// but `except_for(echo, id)`. Returns the ids whose queue took it.
pub fn client_channel_broadcast_binary(
    clients: &mut Clients,
    id: ClientId,
    user: Option<UserId>,
    payload: Vec<u8>,
    echo: bool,
) -> (r: Vec<ClientId>)
    requires
        old(clients).wf(),
    ensures
        final(clients).wf(),
        final(clients)@ == old(clients)@,
        final(clients).next_spec() == old(clients).next_spec(),
        delivered(
            *old(clients),
            *final(clients),
            recipients(old(clients)@, except_for(echo, id)),
            encode_spec(data_broadcast(payload@, id, user)),
            r@,
        ),
{
    let msg = OrlyMessage::ChannelBroadcastData {
        message: payload,
        view: default_view_string(),
        client: Some(id),
        user,
    };
    clients.broadcast(&msg, except_of(echo, id))
}

/// The route of a decoded request from `id`; none for `Empty`.
pub open spec fn request_route(m: Msg, id: ClientId, user: Option<UserId>, echo: bool) -> Option<
    Route,
> {
    match m {
        Msg::ClientChannelBroadcast { message } => Some(
            Route::Broadcast {
                message: Msg::ChannelBroadcast {
                    message,
                    view: default_view(),
                    client: Some(id),
                    user,
                },
                except: except_for(echo, id),
            },
        ),
        Msg::ClientChannelBroadcastData { message } => Some(
            Route::Broadcast {
                message: Msg::ChannelBroadcastData {
                    message,
                    view: default_view(),
                    client: Some(id),
                    user,
                },
                except: except_for(echo, id),
            },
        ),
        Msg::ClientChannelBroadcastFormatted { message } => Some(
            formatted_route(id, user, format_spec(message), echo),
        ),
        _ => None,
    }
}

/// Handles one inbound frame of an active connection. A frame that does not
/// decode, or a close frame, moves the connection to `Closing` and queues
/// nothing for anyone; ping and pong change nothing; a request is relayed.
/// The registry itself is never changed here. Returns the ids whose queue
/// took a message.
pub fn client_frame_received(state: &mut RuntimeState, conn: &mut Connection, frame: &InFrame) -> (r:
    Vec<ClientId>)
    requires
        old(state).clients.wf(),
        old(conn).phase == Phase::Active,
    ensures
        final(state).clients.wf(),
        final(state).clients@ == old(state).clients@,
        final(state).clients.next_spec() == old(state).clients.next_spec(),
        final(state).echo_to_sender == old(state).echo_to_sender,
        final(conn).id == old(conn).id,
        final(conn).user == old(conn).user,
        r@.no_duplicates(),
        match decode_spec(frame@) {
            Err(_) => final(conn).phase == Phase::Closing && r@.len() == 0 && nothing_sent(
                old(state).clients,
                final(state).clients,
            ),
            Ok(m) => if frame@ is Close {
                final(conn).phase == Phase::Closing && r@.len() == 0 && nothing_sent(
                    old(state).clients,
                    final(state).clients,
                )
            } else {
                final(conn).phase == Phase::Active && match request_route(
                    m,
                    old(conn).id,
                    old(conn).user,
                    old(state).echo_to_sender,
                ) {
                    Some(d) => delivered(
                        old(state).clients,
                        final(state).clients,
                        route_recipients(d, old(state).clients@),
                        encode_spec(route_message(d)),
                        r@,
                    ),
                    None => r@.len() == 0 && nothing_sent(old(state).clients, final(state).clients),
                }
            },
        },
        frame@ matches Wire::Binary(b) && (forall|j: int| 0 <= j < b.len() ==> b[j] != COLON)
            ==> final(conn).phase == Phase::Closing && r@.len() == 0 && nothing_sent(
            old(state).clients,
            final(state).clients,
        ),
{
    let decoded = OrlyMessage::from_message(frame);
    let id = conn.id;
    let user = conn.user;
    let echo = state.echo_to_sender;
    proof {
        if let Wire::Binary(b) = frame@ {
            if forall|j: int| 0 <= j < b.len() ==> b[j] != COLON {
                assert(!exists|i: int| first_at(b, COLON, i));
            }
        }
    }
    match decoded {
        Err(_) => {
            conn.phase = Phase::Closing;
            Vec::new()
        },
        Ok(m) => {
            if let InFrame::Close = frame {
                conn.phase = Phase::Closing;
                return Vec::new();
            }
            match m {
                OrlyMessage::ClientChannelBroadcast { message } => client_channel_broadcast_text(
                    &mut state.clients,
                    id,
                    user,
                    message,
                    echo,
                ),
                OrlyMessage::ClientChannelBroadcastData { message } =>
                    client_channel_broadcast_binary(&mut state.clients, id, user, message, echo),
                OrlyMessage::ClientChannelBroadcastFormatted { message } =>
                    client_channel_broadcast_formatted(
                    &mut state.clients,
                    id,
                    user,
                    message.as_str(),
                    echo,
                ),
                _ => Vec::new(),
            }
        },
    }
}

// ---------------------------------------------------------------------------
// Joining and leaving
// ---------------------------------------------------------------------------
/// What a new client is sent, in order: itself, the clients already there,
/// then the replayed backlog, oldest first.
pub open spec fn bootstrap_spec(
    me: OnlineClientInfo,
    peers: Seq<OnlineClientInfo>,
    backlog: Seq<Post>,
) -> Seq<Msg> {
    seq![Msg::ClientInfoSelf { client: me }, Msg::ClientInfoList { clients: peers }] + replay_spec(
        backlog,
    )
}

/// The frames a new client is sent, in order.
pub open spec fn bootstrap_frames(
    me: OnlineClientInfo,
    peers: Seq<OnlineClientInfo>,
    backlog: Seq<Post>,
) -> Seq<Wire> {
    bootstrap_spec(me, peers, backlog).map_values(|m: Msg| encode_spec(m))
}

/// Where the size policy accepts every post of the backlog, a new client is
/// sent, in order: its own description, the peer list, then each post's
/// broadcast form, oldest first.
pub proof fn lemma_bootstrap_order(me: OnlineClientInfo, peers: Seq<OnlineClientInfo>, backlog: Seq<Post>)
    requires
        forall|i: int| 0 <= i < backlog.len() ==> size_spec((#[trigger] backlog[i]).content@) is Ok,
    ensures
        bootstrap_frames(me, peers, backlog).len() == backlog.len() + 2,
        bootstrap_frames(me, peers, backlog)[0] == encode_spec(Msg::ClientInfoSelf { client: me }),
        bootstrap_frames(me, peers, backlog)[1] == encode_spec(Msg::ClientInfoList { clients: peers }),
        forall|i: int|
            0 <= i < backlog.len() ==> post_message_spec(#[trigger] backlog[i]) == Ok::<Msg, FormatError>(
                bootstrap_spec(me, peers, backlog)[i + 2],
            ) && bootstrap_frames(me, peers, backlog)[i + 2] == encode_spec(
                bootstrap_spec(me, peers, backlog)[i + 2],
            ),
{
    lemma_replay_all(backlog);
    let b = bootstrap_spec(me, peers, backlog);
    assert forall|i: int| 0 <= i < backlog.len() implies post_message_spec(#[trigger] backlog[i]) == Ok::<
        Msg,
        FormatError,
    >(b[i + 2]) && bootstrap_frames(me, peers, backlog)[i + 2] == encode_spec(b[i + 2]) by {
        assert(b[i + 2] == replay_spec(backlog)[i]);
    }
}

/// The messages a new client is sent, in order: its own description, the
/// peer list, then the backlog replayed oldest first.
pub fn bootstrap_messages(me: OnlineClientInfo, peers: Vec<OnlineClientInfo>, backlog: &Vec<Post>) -> (r:
    Vec<OrlyMessage>)
    ensures
        r@.map_values(|m: OrlyMessage| m@) == bootstrap_spec(me, peers@, backlog@),
{
    let ghost peer_view = peers@;
    let mut r: Vec<OrlyMessage> = Vec::new();
    r.push(OrlyMessage::ClientInfoSelf { client: me });
    r.push(OrlyMessage::ClientInfoList { clients: peers });
    let mut replayed = Post::replay(backlog);
    let ghost head = r@;
    let ghost tail = replayed@;
    r.append(&mut replayed);
    assert(r@ == head + tail);
    assert(r@.map_values(|m: OrlyMessage| m@) =~= bootstrap_spec(me, peer_view, backlog@)) by {
        assert(head.map_values(|m: OrlyMessage| m@) =~= seq![
            Msg::ClientInfoSelf { client: me },
            Msg::ClientInfoList { clients: peer_view },
        ]);
        assert forall|i: int| 0 <= i < tail.len() implies #[trigger] r@[head.len() + i]@ == tail.map_values(
            |m: OrlyMessage| m@,
        )[i] by {}
    }
    r
}

/// What others are told of a connection.
pub open spec fn info_of(c: Connection) -> OnlineClientInfo {
    OnlineClientInfo { id: c.id, user: c.user }
}

/// Every client registered in `old` but `id` was tried once with `join`
/// between `old` and `new`, and no other client but `id` was tried.
pub open spec fn joined(old: Clients, new: Clients, id: ClientId, join: Wire) -> bool {
    forall|k: ClientId|
        #![trigger new.tried(k)]
        k != id ==> if old@.contains_key(k) {
            tried_once(old.tried(k), new.tried(k), join)
        } else {
            new.tried(k) == old.tried(k)
        }
}

/// How accepting connection `c` changed the registry from `old` to `new`,
/// given the frames it was to be sent. Its first frame (its own description)
/// was tried first; `Removed` exactly where the queue refused it, and then
/// nothing else was sent to anyone. Otherwise every client registered before
/// was tried once with the join notice, and the remaining frames were tried
/// in order up to the first one refused: `Active`, and registered, exactly
/// where all were taken, else `Closing`.
pub open spec fn connect_outcome(old: Clients, new: Clients, c: Connection, frames: Seq<Wire>) -> bool {
    let id = c.id;
    let join = encode_spec(Msg::ClientJoin { client: info_of(c) });
    &&& (c.phase == Phase::Removed) == (new.tried(id) == seq![(frames[0], false)])
    &&& (c.phase == Phase::Active) == (new.tried(id) == all_taken(frames))
    &&& c.phase == Phase::Closing ==> exists|j: int|
        1 <= j < frames.len() && new.tried(id) == #[trigger] all_taken(frames.take(j)).push(
            (frames[j], false),
        )
    &&& c.phase == Phase::Removed ==> forall|k: ClientId|
        k != id ==> #[trigger] new.tried(k) == old.tried(k)
    &&& c.phase != Phase::Removed ==> joined(old, new, id, join)
    &&& c.phase == Phase::Active ==> new@ == old@.insert(id, info_of(c))
    &&& c.phase != Phase::Active ==> new@ == old@
}

/// Accepts a new connection under a fresh id, which no later connection
/// gets again. It is sent its own description, the others are told that it
/// joined, and it is sent the peer list and the backlog; see
/// `connect_outcome` for how a refused frame ends this. None once every id
/// has been used.
pub fn client_connected(
    state: &mut RuntimeState,
    wstx: UnboundedSender<OutFrame>,
    user: Option<UserId>,
    request: &UserConnectionRequest,
    backlog: &Vec<Post>,
) -> (r: Option<Connection>)
    requires
        old(state).clients.wf(),
    ensures
        final(state).clients.wf(),
        final(state).echo_to_sender == old(state).echo_to_sender,
        r is None <==> old(state).clients.next_spec() == u64::MAX,
        r is None ==> final(state).clients@ == old(state).clients@ && nothing_sent(
            old(state).clients,
            final(state).clients,
        ) && final(state).clients.next_spec() == old(state).clients.next_spec(),
        r matches Some(c) ==> {
            &&& c.id as nat == old(state).clients.next_spec()
            &&& final(state).clients.next_spec() == old(state).clients.next_spec() + 1
            &&& !old(state).clients@.contains_key(c.id)
            &&& c.user == user
            &&& c.phase == Phase::Active ==> connect_step(
                old(state).clients@,
                final(state).clients@,
                c.id,
            )
            &&& exists|peers: Seq<OnlineClientInfo>|
                lists(old(state).clients@, peers) && #[trigger] connect_outcome(
                    old(state).clients,
                    final(state).clients,
                    c,
                    bootstrap_frames(info_of(c), peers, backlog@),
                )
        },
{
    let id = match state.clients.allocate_id() {
        Some(id) => id,
        None => return None,
    };
    let ghost s0 = state.clients;
    assert(!old(state).clients@.contains_key(id));
    assert(s0.tried(id).len() == 0);
    let client = OnlineClient { id, user, wstx };
    let me = client.info();
    let peers = state.clients.enumerate();
    let ghost peer_view = peers@;
    let intro = bootstrap_messages(me, peers, backlog);
    let ghost frames = bootstrap_frames(me, peer_view, backlog@);
    let ghost c0 = Connection { id, user, phase: Phase::Removed };
    assert(info_of(c0) == me);
    assert(intro@.len() == frames.len() && intro@.len() >= 2) by {
        assert(intro@.map_values(|m: OrlyMessage| m@).len() == intro@.len());
    }
    assert forall|i: int| 0 <= i < frames.len() implies #[trigger] frames[i] == encode_spec(
        intro@[i]@,
    ) by {
        assert(intro@.map_values(|m: OrlyMessage| m@)[i] == intro@[i]@);
    }
    if !intro[0].send(&mut state.clients, &client) {
        proof {
            assert(state.clients.tried(id) =~= seq![(frames[0], false)]);
            assert(connect_outcome(old(state).clients, state.clients, c0, frames));
        }
        return Some(Connection { id, user, phase: Phase::Removed });
    }
    let ghost s1 = state.clients;
    let ghost join = encode_spec(Msg::ClientJoin { client: me });
    let _ = state.clients.broadcast(&OrlyMessage::ClientJoin { client: me }, None);
    let ghost s2 = state.clients;
    proof {
        assert(recipients(s1@, None) == old(state).clients@.dom());
        assert forall|k: ClientId| k != id implies #[trigger] s1.tried(k) == old(state).clients.tried(k) by {
            assert(s0.tried(k) == old(state).clients.tried(k));
        }
        assert(joined(old(state).clients, s2, id, join));
    }
    assert(state.clients.tried(id) =~= all_taken(frames.take(1)));
    let mut i: usize = 1;
    while i < intro.len()
        invariant
            1 <= i <= intro@.len(),
            intro@.len() == frames.len(),
            forall|j: int| 0 <= j < frames.len() ==> #[trigger] frames[j] == encode_spec(intro@[j]@),
            state.clients.wf(),
            state.clients@ == old(state).clients@,
            state.clients.next_spec() == old(state).clients.next_spec() + 1,
            state.echo_to_sender == old(state).echo_to_sender,
            id as nat == old(state).clients.next_spec(),
            client.id == id,
            client.user == user,
            !old(state).clients@.contains_key(id),
            me.id == id && me.user == user,
            frames == bootstrap_frames(me, peer_view, backlog@),
            lists(old(state).clients@, peer_view),
            join == encode_spec(Msg::ClientJoin { client: me }),
            joined(old(state).clients, s2, id, join),
            state.clients.tried(id) == all_taken(frames.take(i as int)),
            forall|k: ClientId| k != id ==> #[trigger] state.clients.tried(k) == s2.tried(k),
        decreases intro@.len() - i,
    {
        let ghost before = state.clients;
        if !intro[i].send(&mut state.clients, &client) {
            let ghost c = Connection { id, user, phase: Phase::Closing };
            proof {
                let t = state.clients.tried(id);
                assert(t == all_taken(frames.take(i as int)).push((frames[i as int], false)));
                assert(t[i as int].1 == false);
                assert(all_taken(frames)[i as int].1 == true);
                assert(t != all_taken(frames));
                assert(t.len() >= 2);
                assert(info_of(c) == me);
                assert(joined(old(state).clients, state.clients, id, join)) by {
                    assert forall|k: ClientId| k != id implies #[trigger] state.clients.tried(k) == s2.tried(k) by {}
                }
                assert(all_taken(frames.take(i as int)).push((frames[i as int], false)) == t);
                assert(connect_outcome(old(state).clients, state.clients, c, frames));
                assert(bootstrap_frames(info_of(c), peer_view, backlog@) == frames);
            }
            return Some(Connection { id, user, phase: Phase::Closing });
        }
        assert(state.clients.tried(id) =~= all_taken(frames.take(i as int + 1)));
        i = i + 1;
    }
    state.clients.register(client);
    let ghost c = Connection { id, user, phase: Phase::Active };
    proof {
        assert(frames.take(frames.len() as int) =~= frames);
        assert(state.clients.tried(id) == all_taken(frames));
        assert(state.clients.tried(id) != seq![(frames[0], false)]) by {
            assert(state.clients.tried(id).len() >= 2);
        }
        assert(info_of(c) == me);
        assert(joined(old(state).clients, state.clients, id, join)) by {
            assert forall|k: ClientId| k != id implies #[trigger] state.clients.tried(k) == s2.tried(k) by {}
        }
        assert(connect_outcome(old(state).clients, state.clients, c, frames));
    }
    Some(Connection { id, user, phase: Phase::Active })
}

/// The notice that connection `c` left.
pub open spec fn leave_notice(c: Connection) -> Msg {
    Msg::ClientLeave { client: c.id, user: c.user }
}

/// Ends a connection: it is deregistered, and every client still registered
/// (and only those) is tried once with one leave notice for it; nothing is
/// sent to the connection itself. Returns the ids whose queue took it.
pub fn client_disconnected(state: &mut RuntimeState, conn: &mut Connection) -> (r: Vec<ClientId>)
    requires
        old(state).clients.wf(),
    ensures
        final(state).clients.wf(),
        final(state).echo_to_sender == old(state).echo_to_sender,
        final(state).clients.next_spec() == old(state).clients.next_spec(),
        final(state).clients@ == old(state).clients@.remove(old(conn).id),
        !final(state).clients@.contains_key(old(conn).id),
        old(state).clients@.contains_key(old(conn).id) ==> disconnect_step(
            old(state).clients@,
            final(state).clients@,
            old(conn).id,
        ),
        delivered(
            old(state).clients,
            final(state).clients,
            old(state).clients@.dom().remove(old(conn).id),
            encode_spec(leave_notice(*old(conn))),
            r@,
        ),
        final(conn).id == old(conn).id,
        final(conn).user == old(conn).user,
        final(conn).phase == Phase::Removed,
{
    let _ = state.clients.deregister(conn.id);
    let ghost mid = state.clients;
    let notice = OrlyMessage::ClientLeave { client: conn.id, user: conn.user };
    let r = state.clients.broadcast(&notice, None);
    proof {
        assert(recipients(mid@, None) =~= old(state).clients@.dom().remove(old(conn).id));
        assert forall|k: ClientId| #[trigger] mid.tried(k) == old(state).clients.tried(k) by {}
    }
    conn.phase = Phase::Removed;
    r
}

} // verus!
