//! Live clients: each one's outbound queue, and the registry that maps
//! connection ids to them.
//!
//! The registry keeps a ghost record, per connection id, of every frame the
//! library tried to queue for that connection and whether the queue took
//! it. It grows only where a frame is handed to a queue, so contracts state
//! over it which frame each client was sent.
use vstd::prelude::*;
use dashmap::DashMap;
use tokio::sync::mpsc::UnboundedSender;
use crate::messages::{
    encode_spec, ClientId, Msg, OnlineClientInfo, OrlyMessage, OutFrame, UserId, Wire,
};

verus! {

#[verifier::external_type_specification]
#[verifier::external_body]
#[verifier::reject_recursive_types(K)]
#[verifier::reject_recursive_types(V)]
#[verifier::reject_recursive_types(S)]
pub struct ExDashMap<K, V, S>(DashMap<K, V, S>);

#[verifier::external_type_specification]
#[verifier::external_body]
#[verifier::reject_recursive_types(T)]
pub struct ExUnboundedSender<T>(UnboundedSender<T>);

/// The map under the registry.
pub type ClientMap = DashMap<ClientId, OnlineClient>;

/// One live connection: its id, its user if known, and the sending end of
/// its outbound queue, which a writer task drains to the transport.
pub struct OnlineClient {
    pub id: ClientId,
    pub user: Option<UserId>,
    pub wstx: UnboundedSender<OutFrame>,
}

/// One try at queueing a frame: the frame, and whether the queue took it.
pub type Attempt = (Wire, bool);

/// `after` is `before` with one more try, at queueing `f`.
pub open spec fn tried_once(before: Seq<Attempt>, after: Seq<Attempt>, f: Wire) -> bool {
    &&& after.len() == before.len() + 1
    &&& after.drop_last() == before
    &&& after.last().0 == f
}

/// Every try in a sequence of frames, each taken.
pub open spec fn all_taken(fs: Seq<Wire>) -> Seq<Attempt> {
    Seq::new(fs.len(), |i: int| (fs[i], true))
}

/// No frame was tried for any client between `old` and `new`.
pub open spec fn nothing_sent(old: Clients, new: Clients) -> bool {
    forall|k: ClientId| #[trigger] new.tried(k) == old.tried(k)
}

/// Between `old` and `new`, `f` was tried once for each id in `to` and
/// nothing for any other id; `r` holds, each once, the ids whose queue took
/// it.
pub open spec fn delivered(old: Clients, new: Clients, to: Set<ClientId>, f: Wire, r: Seq<ClientId>) -> bool {
    &&& r.no_duplicates()
    &&& forall|k: ClientId|
        to.contains(k) ==> tried_once(old.tried(k), #[trigger] new.tried(k), f) && (r.contains(k)
            <==> new.tried(k).last().1)
    &&& forall|k: ClientId| !to.contains(k) ==> #[trigger] new.tried(k) == old.tried(k) && !r.contains(k)
}

impl OnlineClient {
    pub open spec fn info_spec(&self) -> OnlineClientInfo {
        OnlineClientInfo { id: self.id, user: self.user }
    }

    /// What others are told of this client.
    pub fn info(&self) -> (r: OnlineClientInfo)
        ensures
            r == self.info_spec(),
    {
        OnlineClientInfo { id: self.id, user: self.user }
    }

    /// Queues a frame for this client, recorded in `clients`; false where
    /// its queue is closed.
    pub fn send_frame(&self, clients: &mut Clients, frame: OutFrame) -> (r: bool)
        requires
            old(clients).wf(),
            (self.id as nat) < old(clients).next_spec(),
        ensures
            final(clients).wf(),
            final(clients)@ == old(clients)@,
            final(clients).next_spec() == old(clients).next_spec(),
            final(clients).tried(self.id) == old(clients).tried(self.id).push((frame@, r)),
            forall|k: ClientId| k != self.id ==> #[trigger] final(clients).tried(k) == old(clients).tried(k),
    {
        clients.queue(self.id, &self.wstx, frame)
    }

    /// Queues a message in its wire form; false where the queue is closed.
    pub fn send(&self, clients: &mut Clients, msg: &OrlyMessage) -> (r: bool)
        requires
            old(clients).wf(),
            (self.id as nat) < old(clients).next_spec(),
        ensures
            final(clients).wf(),
            final(clients)@ == old(clients)@,
            final(clients).next_spec() == old(clients).next_spec(),
            final(clients).tried(self.id) == old(clients).tried(self.id).push((encode_spec(msg@), r)),
            forall|k: ClientId| k != self.id ==> #[trigger] final(clients).tried(k) == old(clients).tried(k),
    {
        self.send_frame(clients, msg.encode())
    }

    /// Queues a text frame; false where the queue is closed.
    pub fn send_text(&self, clients: &mut Clients, text: String) -> (r: bool)
        requires
            old(clients).wf(),
            (self.id as nat) < old(clients).next_spec(),
        ensures
            final(clients).wf(),
            final(clients)@ == old(clients)@,
            final(clients).next_spec() == old(clients).next_spec(),
            final(clients).tried(self.id) == old(clients).tried(self.id).push((Wire::Text(text@), r)),
            forall|k: ClientId| k != self.id ==> #[trigger] final(clients).tried(k) == old(clients).tried(k),
    {
        self.send_frame(clients, OutFrame::Text(text))
    }

    /// Queues a binary frame; false where the queue is closed.
    pub fn send_binary(&self, clients: &mut Clients, payload: Vec<u8>) -> (r: bool)
        requires
            old(clients).wf(),
            (self.id as nat) < old(clients).next_spec(),
        ensures
            final(clients).wf(),
            final(clients)@ == old(clients)@,
            final(clients).next_spec() == old(clients).next_spec(),
            final(clients).tried(self.id) == old(clients).tried(self.id).push((Wire::Binary(payload@), r)),
            forall|k: ClientId| k != self.id ==> #[trigger] final(clients).tried(k) == old(clients).tried(k),
    {
        self.send_frame(clients, OutFrame::Binary(payload))
    }
}

impl OrlyMessage {
    /// Queues this message in its wire form for `client`: the data
    /// broadcast as a binary frame, all else as tagged JSON text. False
    /// where the client's queue is closed.
    pub fn send(&self, clients: &mut Clients, client: &OnlineClient) -> (r: bool)
        requires
            old(clients).wf(),
            (client.id as nat) < old(clients).next_spec(),
        ensures
            final(clients).wf(),
            final(clients)@ == old(clients)@,
            final(clients).next_spec() == old(clients).next_spec(),
            final(clients).tried(client.id) == old(clients).tried(client.id).push((encode_spec(self@), r)),
            forall|k: ClientId| k != client.id ==> #[trigger] final(clients).tried(k) == old(clients).tried(k),
    {
        client.send(clients, self)
    }
}

/// Relies on tokio's `UnboundedSender::send`: it never waits, and fails only
/// where the receiving end is gone, which nothing here can know beforehand.
#[verifier::external_body]
fn queue_send(tx: &UnboundedSender<OutFrame>, frame: OutFrame) -> bool {
    tx.send(frame).is_ok()
}

/// The entries of a registry map, as what each client is known by: the
/// `id` and `user` of the client stored under each key.
pub uninterp spec fn registry_entries(m: ClientMap) -> Map<ClientId, OnlineClientInfo>;

/// Relies on `DashMap::new`: an empty map.
#[verifier::external_body]
fn map_new() -> (r: ClientMap)
    ensures
        registry_entries(r).dom() == Set::<ClientId>::empty(),
{
    DashMap::new()
}

/// Relies on `DashMap::insert`: the entry under `k` becomes `c`.
#[verifier::external_body]
fn map_insert(m: &mut ClientMap, k: ClientId, c: OnlineClient)
    ensures
        registry_entries(*final(m)) == registry_entries(*old(m)).insert(k, c.info_spec()),
{
    m.insert(k, c);
}

/// Relies on `DashMap::remove`: the entry under `k` goes, and is handed back.
#[verifier::external_body]
fn map_remove(m: &mut ClientMap, k: ClientId) -> (r: Option<OnlineClient>)
    ensures
        registry_entries(*final(m)) == registry_entries(*old(m)).remove(k),
        r is Some <==> registry_entries(*old(m)).contains_key(k),
        r is Some ==> r->Some_0.info_spec() == registry_entries(*old(m))[k],
{
    m.remove(&k).map(|e| e.1)
}

/// Relies on `DashMap::len`: the number of entries.
#[verifier::external_body]
fn map_len(m: &ClientMap) -> (r: usize)
    ensures
        r as nat == registry_entries(*m).len(),
{
    m.len()
}

/// Relies on `DashMap::iter`: each entry once, in no particular order, as
/// its stored client's `id` and `user`. Where every client is stored under
/// its own id, the ids listed are the keys.
#[verifier::external_body]
fn map_infos(m: &ClientMap) -> (r: Vec<OnlineClientInfo>)
    requires
        forall|k: ClientId| #[trigger]
            registry_entries(*m).contains_key(k) ==> registry_entries(*m)[k].id == k,
    ensures
        forall|i: int|
            0 <= i < r@.len() ==> #[trigger] registry_entries(*m).contains_key(r@[i].id)
                && registry_entries(*m)[r@[i].id] == r@[i],
        forall|k: ClientId|
            #[trigger] registry_entries(*m).contains_key(k) ==> exists|i: int|
                0 <= i < r@.len() && r@[i].id == k,
        forall|i: int, j: int| 0 <= i < j < r@.len() ==> r@[i].id != r@[j].id,
{
    m.iter().map(|e| OnlineClientInfo { id: e.value().id, user: e.value().user }).collect()
}

/// Relies on `DashMap::get`: the entry under `k`, if any, as what the client
/// is known by and a clone of the sending end of its queue (which reaches
/// the same queue).
#[verifier::external_body]
fn map_get(m: &ClientMap, k: ClientId) -> (r: Option<(OnlineClientInfo, UnboundedSender<OutFrame>)>)
    ensures
        r is Some <==> registry_entries(*m).contains_key(k),
        r is Some ==> r->Some_0.0 == registry_entries(*m)[k],
{
    m.get(&k).map(|c| (OnlineClientInfo { id: c.id, user: c.user }, c.wstx.clone()))
}

/// The ids that a broadcast reaches: every registered one but `except`.
pub open spec fn recipients(m: Map<ClientId, OnlineClientInfo>, except: Option<ClientId>) -> Set<
    ClientId,
> {
    match except {
        Some(x) => m.dom().remove(x),
        None => m.dom(),
    }
}

/// `peers` lists every entry of `m` once, in some order.
pub open spec fn lists(m: Map<ClientId, OnlineClientInfo>, peers: Seq<OnlineClientInfo>) -> bool {
    &&& forall|i: int| 0 <= i < peers.len() ==> #[trigger] m.contains_key(peers[i].id) && m[peers[i].id] == peers[i]
    &&& forall|k: ClientId| #[trigger] m.contains_key(k) ==> exists|i: int| 0 <= i < peers.len() && peers[i].id == k
    &&& forall|i: int, j: int| 0 <= i < j < peers.len() ==> peers[i].id != peers[j].id
    &&& peers.len() == m.len()
}

/// The registry of live clients, with the counter that hands out their ids
/// and the record of what was queued for each id.
pub struct Clients {
    map: ClientMap,
    next_id: u64,
    log: Ghost<Map<ClientId, Seq<Attempt>>>,
}

impl View for Clients {
    type V = Map<ClientId, OnlineClientInfo>;

    closed spec fn view(&self) -> Map<ClientId, OnlineClientInfo> {
        registry_entries(self.map)
    }
}

impl Clients {
    /// The id that the next connection will get.
    pub closed spec fn next_spec(&self) -> nat {
        self.next_id as nat
    }

    /// Every frame tried for the connection `id`, in order, and whether its
    /// queue took it.
    pub closed spec fn tried(&self, id: ClientId) -> Seq<Attempt> {
        if self.log@.contains_key(id) {
            self.log@[id]
        } else {
            seq![]
        }
    }

    /// Finitely many entries, each under its own id, every id handed out
    /// before; nothing was tried for an id not yet handed out.
    pub open spec fn wf(&self) -> bool {
        &&& self@.dom().finite()
        &&& self.next_spec() <= u64::MAX
        &&& forall|k: ClientId| #[trigger]
            self@.contains_key(k) ==> self@[k].id == k && (k as nat) < self.next_spec()
        &&& forall|k: ClientId| (k as nat) >= self.next_spec() ==> #[trigger] self.tried(k).len() == 0
    }

    /// An empty registry.
    pub fn new() -> (r: Clients)
        ensures
            r.wf(),
            r@ == Map::<ClientId, OnlineClientInfo>::empty(),
            r.next_spec() == 0,
            forall|k: ClientId| #[trigger] r.tried(k).len() == 0,
    {
        let r = Clients { map: map_new(), next_id: 0, log: Ghost(Map::empty()) };
        assert(r@ =~= Map::<ClientId, OnlineClientInfo>::empty());
        r
    }

    /// Hands out a fresh id, or none once every id has been used.
    pub fn allocate_id(&mut self) -> (r: Option<ClientId>)
        requires
            old(self).wf(),
        ensures
            final(self).wf(),
            final(self)@ == old(self)@,
            nothing_sent(*old(self), *final(self)),
            r is Some <==> old(self).next_spec() < u64::MAX,
            r is Some ==> r->Some_0 as nat == old(self).next_spec() && final(self).next_spec()
                == old(self).next_spec() + 1,
            r is None ==> final(self).next_spec() == old(self).next_spec(),
    {
        if self.next_id == u64::MAX {
            return None;
        }
        let id = self.next_id;
        self.next_id = self.next_id + 1;
        proof {
            assert forall|k: ClientId| (k as nat) >= self.next_spec() implies #[trigger] self.tried(
                k,
            ).len() == 0 by {
                assert(old(self).tried(k).len() == 0);
            }
        }
        Some(id)
    }

    /// Adds a client under its id, which was handed out.
    pub fn register(&mut self, client: OnlineClient)
        requires
            old(self).wf(),
            (client.id as nat) < old(self).next_spec(),
        ensures
            final(self).wf(),
            final(self)@ == old(self)@.insert(client.id, client.info_spec()),
            final(self).next_spec() == old(self).next_spec(),
            nothing_sent(*old(self), *final(self)),
    {
        let id = client.id;
        map_insert(&mut self.map, id, client);
        proof {
            assert forall|k: ClientId| (k as nat) >= self.next_spec() implies #[trigger] self.tried(
                k,
            ).len() == 0 by {
                assert(old(self).tried(k).len() == 0);
            }
        }

    }

    /// Removes the client under `id`, handing it back.
    pub fn deregister(&mut self, id: ClientId) -> (r: Option<OnlineClient>)
        requires
            old(self).wf(),
        ensures
            final(self).wf(),
            final(self)@ == old(self)@.remove(id),
            final(self).next_spec() == old(self).next_spec(),
            nothing_sent(*old(self), *final(self)),
            r is Some <==> old(self)@.contains_key(id),
            r is Some ==> r->Some_0.info_spec() == old(self)@[id],
    {
        let r = map_remove(&mut self.map, id);
        proof {
            assert forall|k: ClientId| (k as nat) >= self.next_spec() implies #[trigger] self.tried(
                k,
            ).len() == 0 by {
                assert(old(self).tried(k).len() == 0);
            }
        }
        r
    }

    /// What the client under `id` is known by, if it is registered.
    pub fn lookup(&self, id: ClientId) -> (r: Option<OnlineClientInfo>)
        requires
            self.wf(),
        ensures
            r is Some <==> self@.contains_key(id),
            r is Some ==> r->Some_0 == self@[id],
    {
        match map_get(&self.map, id) {
            Some(entry) => Some(entry.0),
            None => None,
        }
    }

    /// A snapshot of every registered client, each once, in no particular
    /// order.
    pub fn enumerate(&self) -> (r: Vec<OnlineClientInfo>)
        requires
            self.wf(),
        ensures
            lists(self@, r@),
    {
        let r = map_infos(&self.map);
        proof {
            let ids = r@.map_values(|c: OnlineClientInfo| c.id);
            assert forall|i: int, j: int| 0 <= i < j < ids.len() implies ids[i] != ids[j] by {}
            assert(ids.no_duplicates());
            assert(ids.to_set() =~= self@.dom()) by {
                assert forall|k: ClientId| ids.to_set().contains(k) implies self@.dom().contains(
                    k,
                ) by {
                    let i = choose|i: int| 0 <= i < ids.len() && ids[i] == k;
                    assert(self@.contains_key(r@[i].id));
                }
                assert forall|k: ClientId| self@.dom().contains(k) implies ids.to_set().contains(
                    k,
                ) by {
                    assert(self@.contains_key(k));
                    let i = choose|i: int| 0 <= i < r@.len() && r@[i].id == k;
                    assert(ids[i] == k);
                }
            }
            ids.unique_seq_to_set();
        }
        r
    }

    /// The number of registered clients.
    pub fn len(&self) -> (r: usize)
        requires
            self.wf(),
        ensures
            r as nat == self@.len(),
    {
        map_len(&self.map)
    }

    /// Hands `frame` to the queue `tx` of connection `id`, and records it.
    fn queue(&mut self, id: ClientId, tx: &UnboundedSender<OutFrame>, frame: OutFrame) -> (r: bool)
        requires
            old(self).wf(),
            (id as nat) < old(self).next_spec(),
        ensures
            final(self).wf(),
            final(self)@ == old(self)@,
            final(self).next_spec() == old(self).next_spec(),
            final(self).tried(id) == old(self).tried(id).push((frame@, r)),
            forall|k: ClientId| k != id ==> #[trigger] final(self).tried(k) == old(self).tried(k),
    {
        let ghost f = frame@;
        let ghost before = self.tried(id);
        let ok = queue_send(tx, frame);
        self.log = Ghost(self.log@.insert(id, before.push((f, ok))));
        assert(self.tried(id).drop_last() =~= before);
        proof {
            assert forall|k: ClientId| (k as nat) >= self.next_spec() implies #[trigger] self.tried(
                k,
            ).len() == 0 by {
                assert(old(self).tried(k).len() == 0);
            }
        }
        ok
    }

    /// Queues a frame for the client under `id`; false where it is not
    /// registered or its queue is closed.
    pub fn send_to(&mut self, id: ClientId, frame: OutFrame) -> (r: bool)
        requires
            old(self).wf(),
        ensures
            final(self).wf(),
            final(self)@ == old(self)@,
            final(self).next_spec() == old(self).next_spec(),
            old(self)@.contains_key(id) ==> final(self).tried(id) == old(self).tried(id).push(
                (frame@, r),
            ),
            !old(self)@.contains_key(id) ==> final(self).tried(id) == old(self).tried(id) && !r,
            forall|k: ClientId| k != id ==> #[trigger] final(self).tried(k) == old(self).tried(k),
    {
        match map_get(&self.map, id) {
            Some(entry) => self.queue(id, &entry.1, frame),
            None => false,
        }
    }

    /// Queues `msg` in its wire form for every registered client but
    /// `except`, each once, and returns the ids whose queue took it. A closed
    /// queue is passed over and removes nobody: only a client's own
    /// connection deregisters it.
    pub fn broadcast(&mut self, msg: &OrlyMessage, except: Option<ClientId>) -> (r: Vec<ClientId>)
        requires
            old(self).wf(),
        ensures
            final(self).wf(),
            final(self)@ == old(self)@,
            final(self).next_spec() == old(self).next_spec(),
            delivered(*old(self), *final(self), recipients(old(self)@, except), encode_spec(msg@), r@),
    {
        let ghost f = encode_spec(msg@);
        let all = self.enumerate();
        let mut out: Vec<ClientId> = Vec::new();
        let ghost mut done: Set<ClientId> = Set::empty();
        let mut i: usize = 0;
        while i < all.len()
            invariant
                i <= all@.len(),
                self.wf(),
                self@ == old(self)@,
                self.next_spec() == old(self).next_spec(),
                lists(old(self)@, all@),
                f == encode_spec(msg@),
                out@.no_duplicates(),
                forall|x: ClientId|
                    done.contains(x) <==> exists|j: int|
                        0 <= j < i && all@[j].id == x && Some(x) != except,
                forall|x: ClientId|
                    done.contains(x) ==> tried_once(old(self).tried(x), #[trigger] self.tried(x), f)
                        && (out@.contains(x) <==> self.tried(x).last().1),
                forall|x: ClientId|
                    !done.contains(x) ==> #[trigger] self.tried(x) == old(self).tried(x)
                        && !out@.contains(x),
            decreases all@.len() - i,
        {
            let id = all[i].id;
            let skip = match except {
                Some(x) => x == id,
                None => false,
            };
            assert(!done.contains(id)) by {
                if done.contains(id) {
                    let j = choose|j: int| 0 <= j < i && all@[j].id == id && Some(id) != except;
                    assert(all@[j].id != all@[i as int].id);
                }
            }
            let ghost pre = *self;
            let ghost out_pre = out@;
            let ghost done_pre = done;
            if !skip {
                assert(self@.contains_key(id));
                let frame = msg.encode();
                assert(frame@ == f);
                let ok = self.send_to(id, frame);
                if ok {
                    out.push(id);
                }
                assert(self.tried(id).drop_last() =~= pre.tried(id));
                proof {
                    assert(!out_pre.contains(id));
                    assert forall|x: ClientId| #[trigger] out@.contains(x) <==> (out_pre.contains(x) || (
                    ok && x == id)) by {
                        if ok {
                            assert(out@ == out_pre.push(id));
                            if out@.contains(x) {
                                let k = choose|k: int| 0 <= k < out@.len() && out@[k] == x;
                                if k < out_pre.len() {
                                    assert(out_pre[k] == x);
                                }
                            }
                            if out_pre.contains(x) {
                                let k = choose|k: int| 0 <= k < out_pre.len() && out_pre[k] == x;
                                assert(out@[k] == x);
                            }
                            if x == id {
                                assert(out@[out_pre.len() as int] == id);
                            }
                        }
                    }
                    done = done.insert(id);
                    assert forall|x: ClientId|
                        done.contains(x) implies tried_once(old(self).tried(x), #[trigger] self.tried(x), f)
                            && (out@.contains(x) <==> self.tried(x).last().1) by {
                        if x != id {
                            assert(self.tried(x) == pre.tried(x));
                            assert(done_pre.contains(x));
                        } else {
                            assert(pre.tried(id) == old(self).tried(id));
                        }
                    }
                    assert forall|x: ClientId|
                        !done.contains(x) implies #[trigger] self.tried(x) == old(self).tried(x)
                            && !out@.contains(x) by {
                        assert(self.tried(x) == pre.tried(x));
                    }
                }
            }
            proof {
                assert forall|x: ClientId|
                    !done.contains(x) implies #[trigger] self.tried(x) == old(self).tried(x)
                        && !out@.contains(x) by {
                    assert(!done_pre.contains(x));
                    assert(self.tried(x) == pre.tried(x));
                    assert(pre.tried(x) == old(self).tried(x));
                    assert(!out_pre.contains(x));
                }
                assert forall|x: ClientId|
                    done.contains(x) <==> exists|j: int|
                        0 <= j < i + 1 && all@[j].id == x && Some(x) != except by {
                    if x == id && !skip {
                        assert(all@[i as int].id == x);
                    }
                    if exists|j: int| 0 <= j < i + 1 && all@[j].id == x && Some(x) != except {
                        let j = choose|j: int| 0 <= j < i + 1 && all@[j].id == x && Some(x) != except;
                        if j < i {
                            assert(done_pre.contains(x));
                        }
                    }
                }
            }
            i = i + 1;
        }
        proof {
            assert(done =~= recipients(old(self)@, except)) by {
                assert forall|x: ClientId| done.contains(x) implies recipients(
                    old(self)@,
                    except,
                ).contains(x) by {
                    let j = choose|j: int| 0 <= j < all@.len() && all@[j].id == x && Some(x) != except;
                    assert(old(self)@.contains_key(all@[j].id));
                }
                assert forall|x: ClientId| recipients(old(self)@, except).contains(x) implies done.contains(
                    x,
                ) by {
                    assert(old(self)@.contains_key(x));
                    let j = choose|j: int| 0 <= j < all@.len() && all@[j].id == x;
                    assert(all@[j].id == x);
                }
            }
        }
        out
    }
}

/// The registry went from `before` to `after` by a connection accepted
/// under the fresh id `id`, as `client_connected` promises of an `Active`
/// outcome.
pub open spec fn connect_step(
    before: Map<ClientId, OnlineClientInfo>,
    after: Map<ClientId, OnlineClientInfo>,
    id: ClientId,
) -> bool {
    &&& !before.contains_key(id)
    &&& after.dom() == before.dom().insert(id)
}

/// The registry went from `before` to `after` by the registered connection
/// `id` leaving, as `client_disconnected` promises.
pub open spec fn disconnect_step(
    before: Map<ClientId, OnlineClientInfo>,
    after: Map<ClientId, OnlineClientInfo>,
    id: ClientId,
) -> bool {
    &&& before.contains_key(id)
    &&& after.dom() == before.dom().remove(id)
}

/// The registry views `views[0..=k]` of a run of `n` connects followed by
/// disconnects (`ids[i]` made step `i`) count `min(k, n)` more entries and
/// `max(0, k - n)` fewer than `views[0]`.
proof fn lemma_prefix_count(views: Seq<Map<ClientId, OnlineClientInfo>>, ids: Seq<ClientId>, n: int, k: int)
    requires
        views.len() == ids.len() + 1,
        0 <= n <= ids.len(),
        0 <= k < views.len(),
        views[0].dom().finite(),
        forall|i: int| 0 <= i < n ==> connect_step(views[i], #[trigger] views[i + 1], ids[i]),
        forall|i: int| n <= i < ids.len() ==> disconnect_step(views[i], #[trigger] views[i + 1], ids[i]),
    ensures
        views[k].dom().finite(),
        views[k].len() as int == views[0].len() + (if k <= n { k } else { n }) - (if k <= n {
            0
        } else {
            k - n
        }),
    decreases k,
{
    if k > 0 {
        lemma_prefix_count(views, ids, n, k - 1);
        let i = k - 1;
        if i < n {
            assert(connect_step(views[i], views[i + 1], ids[i]));
        } else {
            assert(disconnect_step(views[i], views[i + 1], ids[i]));
        }
    }
}

/// However `n` connections are accepted (each under a fresh id) and then
/// `m` registered ones leave, in whatever order these calls run, the
/// registry ends with `n - m` more entries than it started with. Step `i`
/// takes the registry view `views[i]` to `views[i + 1]` for connection
/// `ids[i]`: the first `n` steps are `client_connected` calls that ended
/// `Active`, the rest `client_disconnected` calls.
pub proof fn lemma_net_registrations(views: Seq<Map<ClientId, OnlineClientInfo>>, ids: Seq<ClientId>, n: int)
    requires
        views.len() == ids.len() + 1,
        0 <= n <= ids.len(),
        views[0].dom().finite(),
        forall|i: int| 0 <= i < n ==> connect_step(views[i], #[trigger] views[i + 1], ids[i]),
        forall|i: int| n <= i < ids.len() ==> disconnect_step(views[i], #[trigger] views[i + 1], ids[i]),
    ensures
        views.last().len() == views[0].len() + n - (ids.len() - n),
{
    lemma_prefix_count(views, ids, n, ids.len() as int);
}

} // verus!
