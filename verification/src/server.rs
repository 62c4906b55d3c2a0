//! The server side: the display, its clients, the objects they own and the
//! globals it advertises.
//!
//! The state is a registry: each client, object and global keeps its slot for
//! the life of the display, and an id names a slot. A slot outlives what it
//! describes: a disconnected client, a destroyed object and a removed global keep
//! theirs, marked as such, so that a stale id never names something else.
use std::sync::Arc;
use vstd::prelude::*;
use crate::protocol::{Interface, Message, ObjectInfo, ProtocolError};

verus! {

/// The types of the data that a server attaches to its clients, its objects and
/// its globals.
pub trait ServerData {
    /// Data attached to each client.
    type ClientData;
    /// Data attached to each object.
    type ObjectData;
    /// Data attached to each global.
    type GlobalData;

    /// Whether a global is shown to a client: it is announced to the client only
    /// then. Every global is shown to every client unless the server says
    /// otherwise.
    fn can_view(_client: ClientId, _client_data: &Self::ClientData, _global_data: &Self::GlobalData) -> bool {
        true
    }
}

/// The id of a client: the position of its slot.
#[derive(Clone, Copy, PartialEq, Eq, Structural, Debug)]
pub struct ClientId {
    pub index: u32,
}

/// The id of a global: the position of its slot.
#[derive(Clone, Copy, PartialEq, Eq, Structural, Debug)]
pub struct GlobalId {
    pub index: u32,
}

/// The id of an object: its protocol id, the client that owns it, and its
/// serial, which is one more than the position of its slot (0 for the null id).
#[derive(Clone, Copy, PartialEq, Eq, Structural, Debug)]
pub struct ObjectId {
    pub id: u32,
    pub serial: u32,
    pub client_id: ClientId,
}

/// The error of an id that does not name a live client, object or global.
#[derive(Clone, Copy, PartialEq, Eq, Structural, Debug)]
pub struct InvalidId;

/// Why a client was disconnected.
#[derive(Clone, Debug)]
pub enum DisconnectReason {
    /// The connection was closed.
    ConnectionClosed,
    /// The client was killed for a protocol error.
    ProtocolError(ProtocolError),
}

/// Whether a client is connected.
#[derive(Clone, Debug)]
pub enum ClientStatus {
    Alive,
    Disconnected(DisconnectReason),
}

/// What is known of a client besides its data.
#[derive(Clone, Debug)]
pub struct ClientState {
    /// The protocol id that the next object that the server creates for this
    /// client will get.
    pub next_id: u32,
    pub status: ClientStatus,
}

/// What is known of an object besides its data and whether it lives.
#[derive(Clone, Copy, Debug)]
pub struct ObjectRecord {
    pub id: u32,
    pub client_id: ClientId,
    pub interface: &'static Interface,
    pub version: u32,
}

/// What is known of a global besides its data and its state.
#[derive(Clone, Copy, Debug)]
pub struct GlobalRecord {
    pub interface: &'static Interface,
    pub version: u32,
}

/// The state of a global: advertised, disabled (no longer advertised), or
/// removed (its id names nothing).
#[derive(Clone, Copy, PartialEq, Eq, Structural, Debug)]
pub enum GlobalState {
    Active,
    Disabled,
    Removed,
}

/// Something that waits to be written to a client.
#[derive(Debug)]
pub enum Outgoing {
    /// An event sent from an object, to the client that owns the object.
    Event(Message<ObjectId>),
    /// The announcement of a global to a client.
    GlobalAdded { client_id: ClientId, global: GlobalId, interface: &'static Interface, version: u32 },
    /// The notice to a client that a global is gone.
    GlobalRemoved { client_id: ClientId, global: GlobalId },
}

/// The client that something waiting to be written goes to.
pub open spec fn destination_of(o: Outgoing) -> ClientId {
    match o {
        Outgoing::Event(msg) => msg.sender_id.client_id,
        Outgoing::GlobalAdded { client_id, .. } => client_id,
        Outgoing::GlobalRemoved { client_id, .. } => client_id,
    }
}

impl Outgoing {
    /// The client that this goes to.
    pub fn destination(&self) -> (c: ClientId)
        ensures
            c == destination_of(*self),
    {
        match self {
            Outgoing::Event(msg) => msg.sender_id.client_id,
            Outgoing::GlobalAdded { client_id, .. } => *client_id,
            Outgoing::GlobalRemoved { client_id, .. } => *client_id,
        }
    }
}

/// The notice about global `g` for one client: its announcement with
/// `interface` and `version` when `added` holds them, else its removal.
pub open spec fn global_notice(c: ClientId, g: GlobalId, added: Option<(&'static Interface, u32)>) -> Outgoing {
    match added {
        Some((interface, version)) => Outgoing::GlobalAdded { client_id: c, global: g, interface, version },
        None => Outgoing::GlobalRemoved { client_id: c, global: g },
    }
}

/// The notices about global `g` for every connected client among `clients`
/// whose position is marked in `shown`, in the order of the clients.
pub open spec fn global_notices(
    clients: Seq<ClientState>,
    shown: Seq<bool>,
    g: GlobalId,
    added: Option<(&'static Interface, u32)>,
) -> Seq<Outgoing>
    decreases clients.len(),
{
    if clients.len() == 0 {
        seq![]
    } else {
        let prev = global_notices(clients.drop_last(), shown, g, added);
        if clients.last().status is Alive && shown[clients.len() - 1] {
            prev.push(global_notice(ClientId { index: (clients.len() - 1) as u32 }, g, added))
        } else {
            prev
        }
    }
}

/// The announcements to client `c` of the active globals among the first `n`
/// whose position is marked in `shown`, in the order of their creation.
pub open spec fn announcements(
    c: ClientId,
    globals: Seq<GlobalRecord>,
    states: Seq<GlobalState>,
    shown: Seq<bool>,
    n: nat,
) -> Seq<Outgoing>
    decreases n,
{
    if n == 0 {
        seq![]
    } else {
        let prev = announcements(c, globals, states, shown, (n - 1) as nat);
        if states[n - 1] == GlobalState::Active && shown[n - 1] {
            prev.push(Outgoing::GlobalAdded {
                client_id: c,
                global: GlobalId { index: (n - 1) as u32 },
                interface: globals[n - 1].interface,
                version: globals[n - 1].version,
            })
        } else {
            prev
        }
    }
}

/// A mark on each of `n` positions.
pub open spec fn everyone(n: nat) -> Seq<bool> {
    Seq::new(n, |k: int| true)
}

/// The first protocol id that the server gives to objects it creates.
pub const SERVER_ID_START: u32 = 0xff00_0000;

/// The state of a display, as the contracts see it.
pub struct HandleView<D: ServerData> {
    pub clients: Seq<ClientState>,
    pub client_data: Seq<Arc<D::ClientData>>,
    pub objects: Seq<ObjectRecord>,
    pub object_data: Seq<D::ObjectData>,
    pub object_alive: Seq<bool>,
    pub globals: Seq<GlobalRecord>,
    pub global_data: Seq<D::GlobalData>,
    pub global_state: Seq<GlobalState>,
    /// Events and global notices not yet flushed, in the order in which they
    /// were queued.
    pub outgoing: Seq<Outgoing>,
}

/// Whether `c` names a connected client.
pub open spec fn client_alive<D: ServerData>(v: HandleView<D>, c: ClientId) -> bool {
    &&& c.index < v.clients.len()
    &&& v.clients[c.index as int].status is Alive
}

/// The position of the slot of the object that `id` names.
pub open spec fn slot_of(id: ObjectId) -> int {
    id.serial - 1
}

/// Whether `id` names a live object of a connected client.
pub open spec fn object_valid<D: ServerData>(v: HandleView<D>, id: ObjectId) -> bool {
    let k = slot_of(id);
    &&& 0 <= k < v.objects.len()
    &&& v.object_alive[k]
    &&& v.objects[k].id == id.id
    &&& v.objects[k].client_id == id.client_id
    &&& client_alive(v, id.client_id)
}

/// Whether `id` names a global that has not been removed.
pub open spec fn global_exists<D: ServerData>(v: HandleView<D>, id: GlobalId) -> bool {
    id.index < v.globals.len() && v.global_state[id.index as int] != GlobalState::Removed
}

/// Whether `id` names a global that is advertised to clients.
pub open spec fn global_active<D: ServerData>(v: HandleView<D>, id: GlobalId) -> bool {
    id.index < v.globals.len() && v.global_state[id.index as int] == GlobalState::Active
}

/// Whether `id` names the slot of an object of client `id.client_id`, live or
/// destroyed.
pub open spec fn object_record_matches<D: ServerData>(v: HandleView<D>, id: ObjectId) -> bool {
    let k = slot_of(id);
    &&& 0 <= k < v.objects.len()
    &&& v.objects[k].id == id.id
    &&& v.objects[k].client_id == id.client_id
}

/// Whether an object can be created for client `c`: the client is connected,
/// its range of protocol ids is not spent, and the table of objects is not
/// full.
pub open spec fn can_create_object<D: ServerData>(v: HandleView<D>, c: ClientId) -> bool {
    &&& client_alive(v, c)
    &&& v.clients[c.index as int].next_id < u32::MAX
    &&& v.objects.len() < u32::MAX
}

/// The view after a client is inserted with `data`: a connected client more, to
/// which the active globals marked in `shown` (one mark per global) are
/// announced.
pub open spec fn after_insert_client<D: ServerData>(
    v: HandleView<D>,
    data: Arc<D::ClientData>,
    shown: Seq<bool>,
) -> HandleView<D> {
    HandleView {
        clients: v.clients.push(ClientState { next_id: SERVER_ID_START, status: ClientStatus::Alive }),
        client_data: v.client_data.push(data),
        outgoing: v.outgoing + announcements(
            ClientId { index: v.clients.len() as u32 },
            v.globals,
            v.global_state,
            shown,
            v.globals.len(),
        ),
        ..v
    }
}

/// The view of a display after the client `c`, if connected, is disconnected
/// for `reason`; nothing else changes.
pub open spec fn after_kill<D: ServerData>(v: HandleView<D>, c: ClientId, reason: DisconnectReason) -> HandleView<D> {
    if client_alive(v, c) {
        HandleView {
            clients: v.clients.update(
                c.index as int,
                ClientState { next_id: v.clients[c.index as int].next_id, status: ClientStatus::Disconnected(reason) },
            ),
            ..v
        }
    } else {
        v
    }
}

/// The view after `send_event(msg)`: when the sender is a live object of a
/// connected client, the event waits to be flushed, and a destructor event
/// destroys its sender; otherwise nothing changes.
pub open spec fn after_send_event<D: ServerData>(v: HandleView<D>, msg: Message<ObjectId>) -> HandleView<D> {
    if object_valid(v, msg.sender_id) {
        let k = slot_of(msg.sender_id);
        let destroys = v.objects[k].interface.events@[msg.opcode as int].is_destructor;
        HandleView {
            outgoing: v.outgoing.push(Outgoing::Event(msg)),
            object_alive: if destroys { v.object_alive.update(k, false) } else { v.object_alive },
            ..v
        }
    } else {
        v
    }
}

/// The view after a request `msg` from a client is received: when its sender is
/// a live object of a connected client and the request is a destructor, the
/// sender is destroyed; otherwise nothing changes.
pub open spec fn after_request<D: ServerData>(v: HandleView<D>, msg: Message<ObjectId>) -> HandleView<D> {
    let k = slot_of(msg.sender_id);
    if object_valid(v, msg.sender_id) && v.objects[k].interface.requests@[msg.opcode as int].is_destructor {
        HandleView { object_alive: v.object_alive.update(k, false), ..v }
    } else {
        v
    }
}

/// The registry of a server: its clients, their objects, its globals, and the
/// events that wait to be flushed.
pub struct DisplayHandle<D: ServerData> {
    clients: Vec<ClientState>,
    client_data: Vec<Arc<D::ClientData>>,
    objects: Vec<ObjectRecord>,
    object_data: Vec<D::ObjectData>,
    object_alive: Vec<bool>,
    globals: Vec<GlobalRecord>,
    global_data: Vec<D::GlobalData>,
    global_state: Vec<GlobalState>,
    outgoing: Vec<Outgoing>,
}

impl<D: ServerData> View for DisplayHandle<D> {
    type V = HandleView<D>;

    /// The state of the registry.
    closed spec fn view(&self) -> HandleView<D> {
        HandleView {
            clients: self.clients@,
            client_data: self.client_data@,
            objects: self.objects@,
            object_data: self.object_data@,
            object_alive: self.object_alive@,
            globals: self.globals@,
            global_data: self.global_data@,
            global_state: self.global_state@,
            outgoing: self.outgoing@,
        }
    }
}

impl<D: ServerData> DisplayHandle<D> {
    /// The tables of the registry agree: one data entry per client, one data entry
    /// and one liveness flag per object, one data entry and one state per global;
    /// every position fits in a `u32`, and each object belongs to an existing client.
    pub open spec fn wf(&self) -> bool {
        let v = self@;
        &&& v.client_data.len() == v.clients.len()
        &&& v.object_data.len() == v.objects.len()
        &&& v.object_alive.len() == v.objects.len()
        &&& v.global_data.len() == v.globals.len()
        &&& v.global_state.len() == v.globals.len()
        &&& v.clients.len() <= u32::MAX
        &&& v.objects.len() <= u32::MAX
        &&& v.globals.len() <= u32::MAX
        &&& forall|k: int| 0 <= k < v.objects.len() ==> (#[trigger] v.objects[k]).client_id.index < v.clients.len()
    }

    /// An empty registry: no client, no object, no global, no event.
    pub fn new() -> (h: Self)
        ensures
            h.wf(),
            h@.clients.len() == 0,
            h@.objects.len() == 0,
            h@.globals.len() == 0,
            h@.outgoing.len() == 0,
    {
        DisplayHandle {
            clients: Vec::new(),
            client_data: Vec::new(),
            objects: Vec::new(),
            object_data: Vec::new(),
            object_alive: Vec::new(),
            globals: Vec::new(),
            global_data: Vec::new(),
            global_state: Vec::new(),
            outgoing: Vec::new(),
        }
    }

    /// Registers a new connected client with its data. The active globals that
    /// `D::can_view` shows to it are announced to it.
    pub fn insert_client(&mut self, data: Arc<D::ClientData>) -> (id: ClientId)
        requires
            old(self).wf(),
            old(self)@.clients.len() < u32::MAX,
        ensures
            final(self).wf(),
            id.index == old(self)@.clients.len(),
            exists|shown: Seq<bool>| {
                &&& shown.len() == old(self)@.globals.len()
                &&& forall|g: int| 0 <= g < shown.len() ==> call_ensures(
                    D::can_view,
                    (id, &*data, &old(self)@.global_data[g]),
                    #[trigger] shown[g],
                )
                &&& final(self)@ == after_insert_client(old(self)@, data, shown)
            },
    {
        let id = ClientId { index: self.clients.len() as u32 };
        let mut shown: Vec<bool> = Vec::new();
        let n = self.globals.len();
        let mut i: usize = 0;
        while i < n
            invariant
                n == self@.globals.len(),
                self.wf(),
                i <= n,
                shown@.len() == i,
                forall|g: int| 0 <= g < i ==> call_ensures(
                    D::can_view,
                    (id, &*data, &self@.global_data[g]),
                    #[trigger] shown@[g],
                ),
            decreases n - i,
        {
            let seen = D::can_view(id, &*data, &self.global_data[i]);
            shown.push(seen);
            i = i + 1;
        }
        self.insert_client_with_visibility(data, &shown)
    }

    /// Registers a new connected client with its data, and announces to it the
    /// active globals marked in `shown`, one mark per global.
    pub fn insert_client_with_visibility(&mut self, data: Arc<D::ClientData>, shown: &Vec<bool>) -> (id: ClientId)
        requires
            old(self).wf(),
            old(self)@.clients.len() < u32::MAX,
            shown@.len() == old(self)@.globals.len(),
        ensures
            final(self).wf(),
            id.index == old(self)@.clients.len(),
            final(self)@ == after_insert_client(old(self)@, data, shown@),
    {
        let id = ClientId { index: self.clients.len() as u32 };
        self.clients.push(ClientState { next_id: SERVER_ID_START, status: ClientStatus::Alive });
        self.client_data.push(data);
        let ghost v1 = self@;
        let n = self.globals.len();
        let mut i: usize = 0;
        while i < n
            invariant
                n == v1.globals.len(),
                i <= n,
                v1.global_state.len() == n,
                shown@.len() == n,
                v1.globals.len() <= u32::MAX,
                self@ == (HandleView {
                    outgoing: v1.outgoing + announcements(id, v1.globals, v1.global_state, shown@, i as nat),
                    ..v1
                }),
            decreases n - i,
        {
            if self.global_state[i] == GlobalState::Active && shown[i] {
                let rec = self.globals[i];
                self.outgoing.push(Outgoing::GlobalAdded {
                    client_id: id,
                    global: GlobalId { index: i as u32 },
                    interface: rec.interface,
                    version: rec.version,
                });
            }
            i = i + 1;
            assert(self@.outgoing =~= v1.outgoing + announcements(id, v1.globals, v1.global_state, shown@, i as nat));
        }
        id
    }

    /// Whether `D::can_view` shows a global with `data` to each client, one mark
    /// per client; a disconnected client is not asked, and is not marked.
    fn visibility_of(&self, data: &D::GlobalData) -> (shown: Vec<bool>)
        requires
            self.wf(),
        ensures
            shown@.len() == self@.clients.len(),
            forall|k: int| 0 <= k < shown@.len() && #[trigger] shown@[k] ==> self@.clients[k].status is Alive,
            forall|k: int| 0 <= k < shown@.len() && self@.clients[k].status is Alive ==> call_ensures(
                D::can_view,
                (ClientId { index: k as u32 }, &*self@.client_data[k], data),
                #[trigger] shown@[k],
            ),
    {
        let mut shown: Vec<bool> = Vec::new();
        let n = self.clients.len();
        let mut i: usize = 0;
        while i < n
            invariant
                n == self@.clients.len(),
                self.wf(),
                i <= n,
                shown@.len() == i,
                forall|k: int| 0 <= k < i && #[trigger] shown@[k] ==> self@.clients[k].status is Alive,
                forall|k: int| 0 <= k < i && self@.clients[k].status is Alive ==> call_ensures(
                    D::can_view,
                    (ClientId { index: k as u32 }, &*self@.client_data[k], data),
                    #[trigger] shown@[k],
                ),
            decreases n - i,
        {
            let seen = match self.clients[i].status {
                ClientStatus::Alive => D::can_view(ClientId { index: i as u32 }, &*self.client_data[i], data),
                ClientStatus::Disconnected(_) => false,
            };
            shown.push(seen);
            i = i + 1;
        }
        shown
    }

    /// Queues the notice about global `g` for every connected client marked in
    /// `shown`.
    fn notify_clients(&mut self, g: GlobalId, added: Option<(&'static Interface, u32)>, shown: &Vec<bool>)
        requires
            old(self).wf(),
            shown@.len() == old(self)@.clients.len(),
        ensures
            final(self).wf(),
            final(self)@ == (HandleView {
                outgoing: old(self)@.outgoing + global_notices(old(self)@.clients, shown@, g, added),
                ..old(self)@
            }),
    {
        let ghost v0 = self@;
        let n = self.clients.len();
        let mut i: usize = 0;
        assert(v0.clients.take(0) =~= Seq::<ClientState>::empty());
        while i < n
            invariant
                n == v0.clients.len(),
                n <= u32::MAX,
                shown@.len() == n,
                i <= n,
                self@ == (HandleView {
                    outgoing: v0.outgoing + global_notices(v0.clients.take(i as int), shown@, g, added),
                    ..v0
                }),
            decreases n - i,
        {
            let alive = match self.clients[i].status {
                ClientStatus::Alive => true,
                ClientStatus::Disconnected(_) => false,
            };
            let c = ClientId { index: i as u32 };
            if alive && shown[i] {
                let notice = match added {
                    Some((interface, version)) => Outgoing::GlobalAdded { client_id: c, global: g, interface, version },
                    None => Outgoing::GlobalRemoved { client_id: c, global: g },
                };
                self.outgoing.push(notice);
            }
            assert(v0.clients.take(i + 1).drop_last() =~= v0.clients.take(i as int));
            assert(v0.clients.take(i + 1).last() == v0.clients[i as int]);
            i = i + 1;
            assert(self@.outgoing =~= v0.outgoing + global_notices(v0.clients.take(i as int), shown@, g, added));
        }
        assert(v0.clients.take(n as int) =~= v0.clients);
    }

    /// Queues the notice about global `g` for every connected client.
    fn notify_all_clients(&mut self, g: GlobalId, added: Option<(&'static Interface, u32)>)
        requires
            old(self).wf(),
        ensures
            final(self).wf(),
            final(self)@ == (HandleView {
                outgoing: old(self)@.outgoing
                    + global_notices(old(self)@.clients, everyone(old(self)@.clients.len()), g, added),
                ..old(self)@
            }),
    {
        let mut shown: Vec<bool> = Vec::new();
        let n = self.clients.len();
        let mut i: usize = 0;
        while i < n
            invariant
                n == self@.clients.len(),
                i <= n,
                shown@.len() == i,
                forall|k: int| 0 <= k < i ==> #[trigger] shown@[k],
            decreases n - i,
        {
            shown.push(true);
            i = i + 1;
        }
        assert(shown@ =~= everyone(n as nat));
        self.notify_clients(g, added, &shown);
    }

    /// The data of a connected client.
    pub fn get_client_data(&self, id: ClientId) -> (r: Result<&Arc<D::ClientData>, InvalidId>)
        requires
            self.wf(),
        ensures
            client_alive(self@, id) ==> r == Ok::<&Arc<D::ClientData>, InvalidId>(&self@.client_data[id.index as int]),
            !client_alive(self@, id) ==> r is Err,
    {
        let i = id.index as usize;
        if i < self.clients.len() {
            match self.clients[i].status {
                ClientStatus::Alive => Ok(&self.client_data[i]),
                ClientStatus::Disconnected(_) => Err(InvalidId),
            }
        } else {
            Err(InvalidId)
        }
    }

    fn is_client_alive(&self, id: ClientId) -> (r: bool)
        requires
            self.wf(),
        ensures
            r == client_alive(self@, id),
    {
        let i = id.index as usize;
        if i < self.clients.len() {
            match self.clients[i].status {
                ClientStatus::Alive => true,
                ClientStatus::Disconnected(_) => false,
            }
        } else {
            false
        }
    }

    /// Whether `id` names a live object of a connected client.
    pub fn is_object_valid(&self, id: ObjectId) -> (r: bool)
        requires
            self.wf(),
        ensures
            r == object_valid(self@, id),
    {
        if id.serial == 0 || id.serial as usize > self.objects.len() {
            return false;
        }
        let k = (id.serial - 1) as usize;
        let rec = self.objects[k];
        self.object_alive[k] && rec.id == id.id && rec.client_id == id.client_id
            && self.is_client_alive(id.client_id)
    }

    /// Disconnects a client for `reason`, if it is connected; its objects become
    /// invalid with it.
    pub fn kill_client(&mut self, id: ClientId, reason: DisconnectReason)
        requires
            old(self).wf(),
        ensures
            final(self).wf(),
            final(self)@ == after_kill(old(self)@, id, reason),
    {
        if self.is_client_alive(id) {
            let i = id.index as usize;
            let next_id = self.clients[i].next_id;
            self.clients.set(i, ClientState { next_id, status: ClientStatus::Disconnected(reason) });
        }
    }

    /// Creates an object of `interface` at `version` for a connected client, with
    /// a fresh protocol id from the server's range.
    pub fn create_object(
        &mut self,
        client_id: ClientId,
        interface: &'static Interface,
        version: u32,
        data: D::ObjectData,
    ) -> (r: Result<ObjectId, InvalidId>)
        requires
            old(self).wf(),
        ensures
            final(self).wf(),
            !can_create_object(old(self)@, client_id) ==> r is Err && final(self)@ == old(self)@,
            can_create_object(old(self)@, client_id) ==> {
                let v = old(self)@;
                let n = v.clients[client_id.index as int].next_id;
                &&& r == Ok::<ObjectId, InvalidId>(
                    ObjectId { id: n, serial: (v.objects.len() + 1) as u32, client_id },
                )
                &&& final(self)@ == after_create_object(v, client_id, interface, version, data)
            },
    {
        if !self.is_client_alive(client_id) {
            return Err(InvalidId);
        }
        let i = client_id.index as usize;
        let n = self.clients[i].next_id;
        if n == u32::MAX || self.objects.len() >= u32::MAX as usize {
            return Err(InvalidId);
        }
        self.clients.set(i, ClientState { next_id: n + 1, status: ClientStatus::Alive });
        let serial = (self.objects.len() + 1) as u32;
        self.objects.push(ObjectRecord { id: n, client_id, interface, version });
        self.object_data.push(data);
        self.object_alive.push(true);
        proof {
            let v = self@;
            assert forall|k: int| 0 <= k < v.objects.len() implies (#[trigger] v.objects[k]).client_id.index < v.clients.len() by {
                if k < v.objects.len() - 1 {
                    assert(v.objects[k] == old(self)@.objects[k]);
                }
            }
        }
        Ok(ObjectId { id: n, serial, client_id })
    }

    /// Information about a live object: its protocol id, interface and version.
    pub fn object_info(&self, id: ObjectId) -> (r: Result<ObjectInfo, InvalidId>)
        requires
            self.wf(),
        ensures
            object_valid(self@, id) ==> (r matches Ok(info) && info.id == id.id
                && info.interface == self@.objects[slot_of(id)].interface
                && info.version == self@.objects[slot_of(id)].version),
            !object_valid(self@, id) ==> r is Err,
    {
        if self.is_object_valid(id) {
            let rec = self.objects[(id.serial - 1) as usize];
            Ok(ObjectInfo { id: rec.id, interface: rec.interface, version: rec.version })
        } else {
            Err(InvalidId)
        }
    }

    /// Returns the user data associated with some object.
    pub fn get_object_data(&self, id: ObjectId) -> (r: Result<&D::ObjectData, InvalidId>)
        requires
            self.wf(),
        ensures
            object_valid(self@, id) ==> r == Ok::<&D::ObjectData, InvalidId>(&self@.object_data[slot_of(id)]),
            !object_valid(self@, id) ==> r is Err,
    {
        if self.is_object_valid(id) {
            Ok(&self.object_data[(id.serial - 1) as usize])
        } else {
            Err(InvalidId)
        }
    }

    /// Returns an object id that represents a null object: protocol id 0 and
    /// serial 0. It names no object.
    pub fn null_id(&self) -> (r: ObjectId)
        requires
            self.wf(),
        ensures
            r.id == 0,
            r.serial == 0,
            r.client_id == (ClientId { index: 0 }),
            !object_valid(self@, r),
    {
        ObjectId { id: 0, serial: 0, client_id: ClientId { index: 0 } }
    }

    /// Sends an event from a live object: it waits in the outgoing queue until the
    /// next flush. An event that is a destructor destroys its sender. The result is
    /// [`Err`] when the sender is not a live object of a connected client, and
    /// then nothing changes.
    pub fn send_event(&mut self, msg: Message<ObjectId>) -> (r: Result<(), InvalidId>)
        requires
            old(self).wf(),
            object_valid(old(self)@, msg.sender_id) ==> (msg.opcode as int)
                < old(self)@.objects[slot_of(msg.sender_id)].interface.events@.len(),
        ensures
            final(self).wf(),
            r is Ok <==> object_valid(old(self)@, msg.sender_id),
            final(self)@ == after_send_event(old(self)@, msg),
    {
        let sender = msg.sender_id;
        if !self.is_object_valid(sender) {
            return Err(InvalidId);
        }
        let interface = self.objects[(sender.serial - 1) as usize].interface;
        let destroys = interface.events[msg.opcode as usize].is_destructor;
        self.outgoing.push(Outgoing::Event(msg));
        if destroys {
            self.object_alive.set((sender.serial - 1) as usize, false);
        }
        Ok(())
    }

    /// Receives a request that a client sent. It goes on to the handler of its
    /// object (the result is `true`) when its sender is a live object of a
    /// connected client, and a request that is a destructor then destroys its
    /// sender. A request from anything else goes nowhere, and nothing changes.
    pub fn receive_request(&mut self, msg: &Message<ObjectId>) -> (r: bool)
        requires
            old(self).wf(),
            object_valid(old(self)@, msg.sender_id) ==> (msg.opcode as int)
                < old(self)@.objects[slot_of(msg.sender_id)].interface.requests@.len(),
        ensures
            final(self).wf(),
            r == object_valid(old(self)@, msg.sender_id),
            final(self)@ == after_request(old(self)@, *msg),
    {
        let sender = msg.sender_id;
        if !self.is_object_valid(sender) {
            return false;
        }
        let interface = self.objects[(sender.serial - 1) as usize].interface;
        if interface.requests[msg.opcode as usize].is_destructor {
            self.object_alive.set((sender.serial - 1) as usize, false);
        }
        true
    }

    /// Posts a protocol error on an object: protocol errors are fatal, so the
    /// client that owns the object is disconnected with an error that names the
    /// object by id and interface, whether the object still lives or was
    /// destroyed. Nothing happens when the id names no object of a connected
    /// client. The message holds no nul character (it goes out as a C string).
    pub fn post_error(&mut self, object_id: ObjectId, code: u32, message: String)
        requires
            old(self).wf(),
            !message@.contains('\0'),
        ensures
            final(self).wf(),
            !(object_record_matches(old(self)@, object_id) && client_alive(old(self)@, object_id.client_id))
                ==> final(self)@ == old(self)@,
            object_record_matches(old(self)@, object_id) && client_alive(old(self)@, object_id.client_id)
                ==> exists|e: ProtocolError| {
                &&& e.code == code
                &&& e.object_id == object_id.id
                &&& e.object_interface@ == old(self)@.objects[slot_of(object_id)].interface.name@
                &&& e.message == message
                &&& final(self)@ == after_kill(
                    old(self)@,
                    object_id.client_id,
                    DisconnectReason::ProtocolError(e),
                )
            },
    {
        if object_id.serial == 0 || object_id.serial as usize > self.objects.len() {
            return;
        }
        let rec = self.objects[(object_id.serial - 1) as usize];
        if rec.id != object_id.id || rec.client_id != object_id.client_id || !self.is_client_alive(object_id.client_id) {
            return;
        }
        let e = ProtocolError {
            code,
            object_id: object_id.id,
            object_interface: String::from_str(self.objects[(object_id.serial - 1) as usize].interface.name),
            message,
        };
        let ghost ge = e;
        let ghost v0 = self@;
        self.kill_client(object_id.client_id, DisconnectReason::ProtocolError(e));
        assert(ge.object_interface@ == v0.objects[slot_of(object_id)].interface.name@);
        assert(self@ == after_kill(v0, object_id.client_id, DisconnectReason::ProtocolError(ge)));
    }

    /// Creates a new global object, advertised to the clients that `D::can_view`
    /// shows it to: it is announced at once to each such connected client, and
    /// to each such client that connects while it stays active.
    ///
    /// The returned [`GlobalId`] may be used to disable and remove the global later.
    pub fn create_global(&mut self, interface: &'static Interface, version: u32, data: D::GlobalData) -> (id: GlobalId)
        requires
            old(self).wf(),
            old(self)@.globals.len() < u32::MAX,
        ensures
            final(self).wf(),
            id.index == old(self)@.globals.len(),
            exists|shown: Seq<bool>| {
                &&& shown.len() == old(self)@.clients.len()
                &&& forall|k: int| 0 <= k < shown.len() && #[trigger] shown[k]
                    ==> old(self)@.clients[k].status is Alive
                &&& forall|k: int| 0 <= k < shown.len() && old(self)@.clients[k].status is Alive ==> call_ensures(
                    D::can_view,
                    (ClientId { index: k as u32 }, &*old(self)@.client_data[k], &data),
                    #[trigger] shown[k],
                )
                &&& final(self)@ == after_create_global(old(self)@, interface, version, data, shown)
            },
    {
        let shown = self.visibility_of(&data);
        self.create_global_with_visibility(interface, version, data, &shown)
    }

    /// Creates a new global object, active, and announces it at once to the
    /// connected clients marked in `shown`, one mark per client.
    pub fn create_global_with_visibility(
        &mut self,
        interface: &'static Interface,
        version: u32,
        data: D::GlobalData,
        shown: &Vec<bool>,
    ) -> (id: GlobalId)
        requires
            old(self).wf(),
            old(self)@.globals.len() < u32::MAX,
            shown@.len() == old(self)@.clients.len(),
        ensures
            final(self).wf(),
            id.index == old(self)@.globals.len(),
            final(self)@ == after_create_global(old(self)@, interface, version, data, shown@),
    {
        let id = GlobalId { index: self.globals.len() as u32 };
        self.globals.push(GlobalRecord { interface, version });
        self.global_data.push(data);
        self.global_state.push(GlobalState::Active);
        self.notify_clients(id, Some((interface, version)), shown);
        id
    }

    /// Disables an active global: its removal is signaled to every connected
    /// client, clients that connect later do not learn of it, and its id stays
    /// valid until it is removed. Nothing happens for a global that is already
    /// disabled, removed, or unknown.
    pub fn disable_global(&mut self, id: GlobalId)
        requires
            old(self).wf(),
        ensures
            final(self).wf(),
            final(self)@ == after_disable_global(old(self)@, id),
    {
        let i = id.index as usize;
        if i < self.globals.len() && self.global_state[i] == GlobalState::Active {
            self.global_state.set(i, GlobalState::Disabled);
            self.notify_all_clients(id, None);
        }
    }

    /// Removes a global: its id no longer names anything. A global that was still
    /// active is first disabled, so its removal is signaled to every connected
    /// client.
    pub fn remove_global(&mut self, id: GlobalId)
        requires
            old(self).wf(),
        ensures
            final(self).wf(),
            final(self)@ == after_remove_global(old(self)@, id),
    {
        let i = id.index as usize;
        if i < self.globals.len() {
            let was_active = self.global_state[i] == GlobalState::Active;
            self.global_state.set(i, GlobalState::Removed);
            if was_active {
                self.notify_all_clients(id, None);
            }
        }
    }

    /// The globals advertised to a client that connects now: the active ones, in
    /// the order of their creation.
    pub fn advertised_globals(&self) -> (r: Vec<GlobalId>)
        requires
            self.wf(),
        ensures
            forall|j: int| 0 <= j < r@.len() ==> global_active(self@, #[trigger] r@[j]),
            forall|j: int, k: int| 0 <= j < k < r@.len() ==> r@[j].index < r@[k].index,
            forall|g: GlobalId| global_active(self@, g) ==> r@.contains(g),
    {
        let mut r: Vec<GlobalId> = Vec::new();
        let n = self.globals.len();
        let mut i: usize = 0;
        while i < n
            invariant
                n == self@.globals.len(),
                self.wf(),
                i <= n,
                forall|j: int| 0 <= j < r@.len() ==> global_active(self@, #[trigger] r@[j]),
                forall|j: int| 0 <= j < r@.len() ==> (#[trigger] r@[j]).index < i,
                forall|j: int, k: int| 0 <= j < k < r@.len() ==> r@[j].index < r@[k].index,
                forall|g: GlobalId| #[trigger] global_active(self@, g) && g.index < i ==> r@.contains(g),
            decreases n - i,
        {
            if self.global_state[i] == GlobalState::Active {
                let g = GlobalId { index: i as u32 };
                let ghost r0 = r@;
                r.push(g);
                assert(r@[r@.len() - 1] == g);
                assert forall|h: GlobalId| global_active(self@, h) && h.index < i + 1 implies r@.contains(h) by {
                    if h.index < i {
                        assert(r0.contains(h));
                        let j = choose|j: int| 0 <= j < r0.len() && r0[j] == h;
                        assert(r@[j] == h);
                    } else {
                        assert(r@[r@.len() - 1] == h);
                    }
                }
            }
            i = i + 1;
        }
        r
    }

    /// Takes the events and notices that wait to be written to the clients, in
    /// the order in which they were queued; none waits afterwards.
    pub fn take_outgoing(&mut self) -> (r: Vec<Outgoing>)
        requires
            old(self).wf(),
        ensures
            final(self).wf(),
            r@ == old(self)@.outgoing,
            final(self)@ == (HandleView { outgoing: Seq::empty(), ..old(self)@ }),
    {
        let mut r: Vec<Outgoing> = Vec::new();
        std::mem::swap(&mut r, &mut self.outgoing);
        r
    }
}

/// The wayland display: the server-side state of the protocol.
///
/// A display processes the requests of its clients and sends events to their
/// objects; it must be kept alive as long as the server runs.
pub struct Display<D: ServerData> {
    handle: DisplayHandle<D>,
}

impl<D: ServerData> Display<D> {
    /// The registry that the display holds.
    pub closed spec fn state(&self) -> DisplayHandle<D> {
        self.handle
    }

    /// Creates a new display, with no client and no global.
    ///
    /// Creating a display does not make the server ready for connections: clients
    /// are added with [`Display::insert_client`].
    pub fn new() -> (d: Display<D>)
        ensures
            d.state().wf(),
            d.state()@.clients.len() == 0,
            d.state()@.objects.len() == 0,
            d.state()@.globals.len() == 0,
            d.state()@.outgoing.len() == 0,
    {
        Display { handle: DisplayHandle::new() }
    }

    /// Returns a handle to the display.
    ///
    /// The handle is passed around to send events to clients and manage the
    /// globals that the server advertises; what is done through it is done to
    /// the display.
    pub fn handle(&mut self) -> (h: &mut DisplayHandle<D>)
        ensures
            *h == old(self).state(),
            final(self).state() == *final(h),
    {
        &mut self.handle
    }

    /// Registers a new connected client with its data; the active globals that
    /// `D::can_view` shows to it are announced to it.
    pub fn insert_client(&mut self, data: Arc<D::ClientData>) -> (c: Client<D::ClientData>)
        requires
            old(self).state().wf(),
            old(self).state()@.clients.len() < u32::MAX,
        ensures
            final(self).state().wf(),
            c.id.index == old(self).state()@.clients.len(),
            c.data == data,
            exists|shown: Seq<bool>| {
                &&& shown.len() == old(self).state()@.globals.len()
                &&& forall|g: int| 0 <= g < shown.len() ==> call_ensures(
                    D::can_view,
                    (c.id, &*data, &old(self).state()@.global_data[g]),
                    #[trigger] shown[g],
                )
                &&& final(self).state()@ == after_insert_client(old(self).state()@, data, shown)
            },
    {
        let kept = data.clone();
        let id = self.handle.insert_client(kept);
        Client { id, data }
    }

    /// Flushes the events and notices destined to the clients: returns them, in
    /// the order in which they were queued, for writing; none waits afterwards.
    pub fn flush_clients(&mut self) -> (r: Vec<Outgoing>)
        requires
            old(self).state().wf(),
        ensures
            final(self).state().wf(),
            r@ == old(self).state()@.outgoing,
            final(self).state()@ == (HandleView { outgoing: Seq::empty(), ..old(self).state()@ }),
    {
        self.handle.take_outgoing()
    }
}

/// A client connected to the server, with its data.
pub struct Client<C> {
    pub id: ClientId,
    pub data: Arc<C>,
}

impl<C> Client<C> {
    /// The client of `id`, with its data, if it is connected.
    pub fn from_id<D: ServerData<ClientData = C>>(handle: &DisplayHandle<D>, id: ClientId) -> (r: Result<Client<C>, InvalidId>)
        requires
            handle.wf(),
        ensures
            client_alive(handle@, id) ==> (r matches Ok(c) && c.id == id
                && c.data == handle@.client_data[id.index as int]),
            !client_alive(handle@, id) ==> r is Err,
    {
        match handle.get_client_data(id) {
            Ok(data) => Ok(Client { id, data: data.clone() }),
            Err(e) => Err(e),
        }
    }

    /// Returns the id of the client.
    pub fn id(&self) -> (r: ClientId)
        ensures
            r == self.id,
    {
        self.id
    }

    /// Returns the data associated with the client.
    pub fn get_data(&self) -> (r: &C)
        ensures
            *r == *self.data,
    {
        &*self.data
    }

    /// Creates a new object of `interface` at `version` for this client, with its
    /// data.
    ///
    /// To keep the client and the server coherent, the new object should be sent
    /// to the client at once through an appropriate event.
    pub fn create_resource<D: ServerData<ClientData = C>>(
        &self,
        handle: &mut DisplayHandle<D>,
        interface: &'static Interface,
        version: u32,
        data: D::ObjectData,
    ) -> (r: Result<ObjectId, InvalidId>)
        requires
            old(handle).wf(),
        ensures
            final(handle).wf(),
            !can_create_object(old(handle)@, self.id) ==> r is Err && final(handle)@ == old(handle)@,
            can_create_object(old(handle)@, self.id) ==> {
                let v = old(handle)@;
                let n = v.clients[self.id.index as int].next_id;
                &&& r == Ok::<ObjectId, InvalidId>(
                    ObjectId { id: n, serial: (v.objects.len() + 1) as u32, client_id: self.id },
                )
                &&& final(handle)@ == after_create_object(v, self.id, interface, version, data)
            },
    {
        handle.create_object(self.id, interface, version, data)
    }

    /// Posts a protocol error to the client: it is disconnected with that error.
    ///
    /// This is meant for errors at the level of the display; an error caused by a
    /// resource is better posted on that resource.
    pub fn post_error<D: ServerData<ClientData = C>>(&self, handle: &mut DisplayHandle<D>, error: ProtocolError)
        requires
            old(handle).wf(),
        ensures
            final(handle).wf(),
            final(handle)@ == after_kill(old(handle)@, self.id, DisconnectReason::ProtocolError(error)),
    {
        handle.kill_client(self.id, DisconnectReason::ProtocolError(error))
    }

    /// Disconnects this client from the server.
    pub fn disconnect<D: ServerData<ClientData = C>>(&self, handle: &mut DisplayHandle<D>)
        requires
            old(handle).wf(),
        ensures
            final(handle).wf(),
            final(handle)@ == after_kill(old(handle)@, self.id, DisconnectReason::ConnectionClosed),
    {
        handle.kill_client(self.id, DisconnectReason::ConnectionClosed)
    }
}


/// The view after a global is created: it is active, and announced to the
/// connected clients marked in `shown` (one mark per client).
pub open spec fn after_create_global<D: ServerData>(
    v: HandleView<D>,
    interface: &'static Interface,
    version: u32,
    data: D::GlobalData,
    shown: Seq<bool>,
) -> HandleView<D> {
    HandleView {
        globals: v.globals.push(GlobalRecord { interface, version }),
        global_data: v.global_data.push(data),
        global_state: v.global_state.push(GlobalState::Active),
        outgoing: v.outgoing + global_notices(
            v.clients,
            shown,
            GlobalId { index: v.globals.len() as u32 },
            Some((interface, version)),
        ),
        ..v
    }
}

/// The view after `disable_global(id)`.
pub open spec fn after_disable_global<D: ServerData>(v: HandleView<D>, id: GlobalId) -> HandleView<D> {
    if global_active(v, id) {
        HandleView {
            global_state: v.global_state.update(id.index as int, GlobalState::Disabled),
            outgoing: v.outgoing + global_notices(v.clients, everyone(v.clients.len()), id, None),
            ..v
        }
    } else {
        v
    }
}

/// The view after `remove_global(id)`.
pub open spec fn after_remove_global<D: ServerData>(v: HandleView<D>, id: GlobalId) -> HandleView<D> {
    if global_active(v, id) {
        HandleView {
            global_state: v.global_state.update(id.index as int, GlobalState::Removed),
            outgoing: v.outgoing + global_notices(v.clients, everyone(v.clients.len()), id, None),
            ..v
        }
    } else if id.index < v.globals.len() {
        HandleView { global_state: v.global_state.update(id.index as int, GlobalState::Removed), ..v }
    } else {
        v
    }
}

/// The tables of a view have matching lengths.
pub open spec fn view_wf<D: ServerData>(v: HandleView<D>) -> bool {
    &&& v.client_data.len() == v.clients.len()
    &&& v.object_data.len() == v.objects.len()
    &&& v.object_alive.len() == v.objects.len()
    &&& v.global_data.len() == v.globals.len()
    &&& v.global_state.len() == v.globals.len()
}

/// A new global is advertised; disabling it stops the advertisement but keeps
/// its id valid; removing it makes its id name nothing, and disabling a removed
/// global changes nothing.
pub proof fn lemma_global_lifecycle<D: ServerData>(
    v: HandleView<D>,
    interface: &'static Interface,
    version: u32,
    data: D::GlobalData,
    shown: Seq<bool>,
)
    requires
        view_wf(v),
        v.globals.len() < u32::MAX,
    ensures
        ({
            let id = GlobalId { index: v.globals.len() as u32 };
            let created = after_create_global(v, interface, version, data, shown);
            let disabled = after_disable_global(created, id);
            let removed = after_remove_global(disabled, id);
            &&& global_active(created, id)
            &&& !global_active(disabled, id) && global_exists(disabled, id)
            &&& !global_exists(removed, id)
            &&& after_disable_global(removed, id) == removed
        }),
{
}

/// Disabling or removing a global leaves every other global as it was.
pub proof fn lemma_global_changes_are_local<D: ServerData>(v: HandleView<D>, id: GlobalId, other: GlobalId)
    requires
        view_wf(v),
        id != other,
    ensures
        global_active(after_disable_global(v, id), other) == global_active(v, other),
        global_active(after_remove_global(v, id), other) == global_active(v, other),
        global_exists(after_remove_global(v, id), other) == global_exists(v, other),
{
}

/// The view after `create_object` succeeded for a connected client.
pub open spec fn after_create_object<D: ServerData>(
    v: HandleView<D>,
    client_id: ClientId,
    interface: &'static Interface,
    version: u32,
    data: D::ObjectData,
) -> HandleView<D> {
    let n = v.clients[client_id.index as int].next_id;
    HandleView {
        clients: v.clients.update(client_id.index as int, ClientState { next_id: (n + 1) as u32, status: ClientStatus::Alive }),
        objects: v.objects.push(ObjectRecord { id: n, client_id, interface, version }),
        object_data: v.object_data.push(data),
        object_alive: v.object_alive.push(true),
        ..v
    }
}

/// An object that `create_object` made is valid, so `object_info` and
/// `get_object_data` succeed on its id and give back the interface, version and
/// data it was created with; the objects that were valid before stay valid.
pub proof fn lemma_created_object_reads_back<D: ServerData>(
    v: HandleView<D>,
    client_id: ClientId,
    interface: &'static Interface,
    version: u32,
    data: D::ObjectData,
    other: ObjectId,
)
    requires
        view_wf(v),
        can_create_object(v, client_id),
    ensures
        ({
            let w = after_create_object(v, client_id, interface, version, data);
            let id = ObjectId {
                id: v.clients[client_id.index as int].next_id,
                serial: (v.objects.len() + 1) as u32,
                client_id,
            };
            &&& object_valid(w, id)
            &&& w.object_data[slot_of(id)] == data
            &&& w.objects[slot_of(id)].interface == interface
            &&& w.objects[slot_of(id)].version == version
            &&& object_valid(v, other) ==> object_valid(w, other)
        }),
{
}

/// Once a client is disconnected, whatever the reason, none of its objects is
/// valid: the objects' data can no longer be read, and events sent from them
/// fail. The first reason of a disconnection is the one that stays.
pub proof fn lemma_disconnected_client_has_no_objects<D: ServerData>(
    v: HandleView<D>,
    c: ClientId,
    reason: DisconnectReason,
    later: DisconnectReason,
    id: ObjectId,
)
    requires
        view_wf(v),
        id.client_id == c,
    ensures
        !object_valid(after_kill(v, c, reason), id),
        !client_alive(after_kill(v, c, reason), c),
        after_kill(after_kill(v, c, reason), c, later) == after_kill(v, c, reason),
{
}

/// Disconnecting a client leaves the objects of the other clients as they were.
pub proof fn lemma_disconnect_is_local<D: ServerData>(v: HandleView<D>, c: ClientId, reason: DisconnectReason, id: ObjectId)
    requires
        view_wf(v),
        id.client_id != c,
    ensures
        object_valid(after_kill(v, c, reason), id) == object_valid(v, id),
{
}

/// The null id never names an object.
pub proof fn lemma_null_id_is_never_valid<D: ServerData>(v: HandleView<D>, client_id: ClientId)
    ensures
        !object_valid(v, ObjectId { id: 0, serial: 0, client_id }),
{
}

/// Whether `c` names a client that was connected and has been disconnected.
pub open spec fn disconnected<D: ServerData>(v: HandleView<D>, c: ClientId) -> bool {
    &&& c.index < v.clients.len()
    &&& v.clients[c.index as int].status is Disconnected
}

/// A call on a display that changes its state, with its arguments.
pub enum Operation<D: ServerData> {
    /// `insert_client(data)`, and `Display::insert_client`, with the marks of
    /// the globals shown to the client.
    InsertClient(Arc<D::ClientData>, Seq<bool>),
    /// `kill_client(c, reason)`, and the disconnection that `post_error`,
    /// `Client::post_error` and `Client::disconnect` make.
    Kill(ClientId, DisconnectReason),
    /// `create_object(c, interface, version, data)`, and `Client::create_resource`.
    CreateObject(ClientId, &'static Interface, u32, D::ObjectData),
    /// `send_event(msg)`.
    SendEvent(Message<ObjectId>),
    /// `receive_request(msg)`.
    ReceiveRequest(Message<ObjectId>),
    /// `create_global(interface, version, data)`, with the marks of the clients
    /// it is shown to.
    CreateGlobal(&'static Interface, u32, D::GlobalData, Seq<bool>),
    /// `disable_global(g)`.
    DisableGlobal(GlobalId),
    /// `remove_global(g)`.
    RemoveGlobal(GlobalId),
    /// `take_outgoing()`, and `Display::flush_clients`.
    TakeOutgoing,
}

/// The view after one operation, as the contract of its function states it.
pub open spec fn apply<D: ServerData>(v: HandleView<D>, op: Operation<D>) -> HandleView<D> {
    match op {
        Operation::InsertClient(data, shown) => after_insert_client(v, data, shown),
        Operation::Kill(c, reason) => after_kill(v, c, reason),
        Operation::CreateObject(c, interface, version, data) => {
            if can_create_object(v, c) {
                after_create_object(v, c, interface, version, data)
            } else {
                v
            }
        },
        Operation::SendEvent(msg) => after_send_event(v, msg),
        Operation::ReceiveRequest(msg) => after_request(v, msg),
        Operation::CreateGlobal(interface, version, data, shown) => after_create_global(v, interface, version, data, shown),
        Operation::DisableGlobal(g) => after_disable_global(v, g),
        Operation::RemoveGlobal(g) => after_remove_global(v, g),
        Operation::TakeOutgoing => HandleView { outgoing: Seq::empty(), ..v },
    }
}

/// The view after a sequence of operations, in order.
pub open spec fn run<D: ServerData>(v: HandleView<D>, ops: Seq<Operation<D>>) -> HandleView<D>
    decreases ops.len(),
{
    if ops.len() == 0 {
        v
    } else {
        apply(run(v, ops.drop_last()), ops.last())
    }
}

/// A disconnected client stays disconnected whatever is done afterwards: no
/// later call connects it again, none of its objects is ever valid again, so
/// every event sent from one of them fails and queues nothing, and no request
/// from it reaches a handler.
pub proof fn lemma_disconnection_is_permanent<D: ServerData>(v: HandleView<D>, c: ClientId, ops: Seq<Operation<D>>)
    requires
        disconnected(v, c),
    ensures
        disconnected(run(v, ops), c),
        forall|id: ObjectId| id.client_id == c ==> !object_valid(run(v, ops), id),
        forall|msg: Message<ObjectId>| msg.sender_id.client_id == c
            ==> #[trigger] after_send_event(run(v, ops), msg) == run(v, ops),
        forall|msg: Message<ObjectId>| msg.sender_id.client_id == c
            ==> #[trigger] after_request(run(v, ops), msg) == run(v, ops),
    decreases ops.len(),
{
    if ops.len() > 0 {
        lemma_disconnection_is_permanent(v, c, ops.drop_last());
        let w = run(v, ops.drop_last());
        match ops.last() {
            Operation::InsertClient(data, shown) => {
                assert(after_insert_client(w, data, shown).clients[c.index as int] == w.clients[c.index as int]);
            },
            Operation::Kill(k, reason) => {},
            Operation::CreateObject(k, interface, version, data) => {},
            _ => {},
        }
    }
}

/// The notices about a global go to exactly the connected clients that are
/// marked: one for each of them, and none for another client.
proof fn lemma_global_notices_reach(
    clients: Seq<ClientState>,
    shown: Seq<bool>,
    g: GlobalId,
    added: Option<(&'static Interface, u32)>,
)
    requires
        clients.len() <= u32::MAX,
        shown.len() == clients.len(),
    ensures
        forall|c: ClientId| #[trigger] global_notices(clients, shown, g, added).contains(global_notice(c, g, added))
            <==> (c.index < clients.len() && clients[c.index as int].status is Alive && shown[c.index as int]),
        forall|k: int| 0 <= k < global_notices(clients, shown, g, added).len() ==> {
            let o = #[trigger] global_notices(clients, shown, g, added)[k];
            &&& destination_of(o).index < clients.len()
            &&& clients[destination_of(o).index as int].status is Alive
            &&& shown[destination_of(o).index as int]
            &&& o == global_notice(destination_of(o), g, added)
        },
    decreases clients.len(),
{
    if clients.len() > 0 {
        let prev = clients.drop_last();
        let pshown = shown.drop_last();
        lemma_global_notices_reach(prev, pshown, g, added);
        lemma_global_notices_prefix(clients, shown, g, added);
        let last = ClientId { index: (clients.len() - 1) as u32 };
        let ns = global_notices(clients, shown, g, added);
        let ps = global_notices(prev, pshown, g, added);
        assert forall|c: ClientId| #[trigger] ns.contains(global_notice(c, g, added))
            <==> (c.index < clients.len() && clients[c.index as int].status is Alive && shown[c.index as int]) by {
            if c.index < clients.len() - 1 {
                assert(clients[c.index as int] == prev[c.index as int]);
                assert(shown[c.index as int] == pshown[c.index as int]);
            }
            if c == last && clients.last().status is Alive && shown[clients.len() - 1] {
                assert(ns[ns.len() - 1] == global_notice(c, g, added));
            }
            if ns.contains(global_notice(c, g, added)) {
                let k = choose|k: int| 0 <= k < ns.len() && ns[k] == global_notice(c, g, added);
                if k < ps.len() {
                    assert(ps[k] == ns[k]);
                    assert(destination_of(ps[k]) == c);
                } else {
                    assert(c == last);
                }
            } else if c.index < clients.len() - 1 && clients[c.index as int].status is Alive && shown[c.index as int] {
                assert(ps.contains(global_notice(c, g, added)));
                let k = choose|k: int| 0 <= k < ps.len() && ps[k] == global_notice(c, g, added);
                assert(ns[k] == ps[k]);
            }
        }
        assert forall|k: int| 0 <= k < ns.len() implies {
            let o = #[trigger] ns[k];
            &&& destination_of(o).index < clients.len()
            &&& clients[destination_of(o).index as int].status is Alive
            &&& shown[destination_of(o).index as int]
            &&& o == global_notice(destination_of(o), g, added)
        } by {
            if k < ps.len() {
                assert(ns[k] == ps[k]);
                assert(clients[destination_of(ps[k]).index as int] == prev[destination_of(ps[k]).index as int]);
                assert(shown[destination_of(ps[k]).index as int] == pshown[destination_of(ps[k]).index as int]);
            }
        }
    }
}

/// The notices for all clients but the last depend only on their own marks.
proof fn lemma_global_notices_prefix(
    clients: Seq<ClientState>,
    shown: Seq<bool>,
    g: GlobalId,
    added: Option<(&'static Interface, u32)>,
)
    requires
        clients.len() > 0,
        shown.len() == clients.len(),
    ensures
        global_notices(clients.drop_last(), shown, g, added)
            == global_notices(clients.drop_last(), shown.drop_last(), g, added),
{
    lemma_notices_ignore_later_marks(clients.drop_last(), shown, shown.drop_last(), g, added);
}

/// The notices for some clients depend only on the marks of those clients.
proof fn lemma_notices_ignore_later_marks(
    clients: Seq<ClientState>,
    a: Seq<bool>,
    b: Seq<bool>,
    g: GlobalId,
    added: Option<(&'static Interface, u32)>,
)
    requires
        clients.len() <= a.len(),
        clients.len() <= b.len(),
        forall|k: int| 0 <= k < clients.len() ==> a[k] == b[k],
    ensures
        global_notices(clients, a, g, added) == global_notices(clients, b, g, added),
    decreases clients.len(),
{
    if clients.len() > 0 {
        lemma_notices_ignore_later_marks(clients.drop_last(), a, b, g, added);
    }
}

/// The announcements to a client name exactly the active globals among the
/// first `n` that are marked, each with the interface and version it was
/// created with.
proof fn lemma_announcements_name_active_globals(
    c: ClientId,
    globals: Seq<GlobalRecord>,
    states: Seq<GlobalState>,
    shown: Seq<bool>,
    n: nat,
)
    requires
        states.len() == globals.len(),
        shown.len() == globals.len(),
        globals.len() <= u32::MAX,
        n <= globals.len(),
    ensures
        forall|g: GlobalId| #[trigger] announcements(c, globals, states, shown, n).contains(Outgoing::GlobalAdded {
            client_id: c,
            global: g,
            interface: globals[g.index as int].interface,
            version: globals[g.index as int].version,
        }) <==> (g.index < n && states[g.index as int] == GlobalState::Active && shown[g.index as int]),
        forall|k: int| 0 <= k < announcements(c, globals, states, shown, n).len() ==> {
            let o = #[trigger] announcements(c, globals, states, shown, n)[k];
            &&& o matches Outgoing::GlobalAdded { client_id, global, interface, version }
            &&& client_id == c
            &&& global.index < n
            &&& states[global.index as int] == GlobalState::Active
            &&& shown[global.index as int]
            &&& interface == globals[global.index as int].interface
            &&& version == globals[global.index as int].version
        },
    decreases n,
{
    if n > 0 {
        let m = (n - 1) as nat;
        lemma_announcements_name_active_globals(c, globals, states, shown, m);
        let xs = announcements(c, globals, states, shown, n);
        let ps = announcements(c, globals, states, shown, m);
        let last = GlobalId { index: m as u32 };
        assert forall|g: GlobalId| #[trigger] xs.contains(Outgoing::GlobalAdded {
            client_id: c,
            global: g,
            interface: globals[g.index as int].interface,
            version: globals[g.index as int].version,
        }) <==> (g.index < n && states[g.index as int] == GlobalState::Active && shown[g.index as int]) by {
            let o = Outgoing::GlobalAdded {
                client_id: c,
                global: g,
                interface: globals[g.index as int].interface,
                version: globals[g.index as int].version,
            };
            if g == last && states[m as int] == GlobalState::Active && shown[m as int] {
                assert(xs[xs.len() - 1] == o);
            }
            if xs.contains(o) {
                let k = choose|k: int| 0 <= k < xs.len() && xs[k] == o;
                if k < ps.len() {
                    assert(ps[k] == xs[k]);
                }
            } else if g.index < m && states[g.index as int] == GlobalState::Active && shown[g.index as int] {
                assert(ps.contains(o));
                let k = choose|k: int| 0 <= k < ps.len() && ps[k] == o;
                assert(xs[k] == ps[k]);
            }
        }
        assert forall|k: int| 0 <= k < xs.len() implies {
            let o = #[trigger] xs[k];
            &&& o matches Outgoing::GlobalAdded { client_id, global, interface, version }
            &&& client_id == c
            &&& global.index < n
            &&& states[global.index as int] == GlobalState::Active
            &&& shown[global.index as int]
            &&& interface == globals[global.index as int].interface
            &&& version == globals[global.index as int].version
        } by {
            if k < ps.len() {
                assert(xs[k] == ps[k]);
            }
        }
    }
}

/// A new global is announced to exactly the connected clients it is shown to:
/// what `create_global` queues is one announcement of the global, with its
/// interface and version, for each connected client that `D::can_view` showed
/// it to, and nothing for any other client.
pub proof fn lemma_created_global_is_announced_to_connected_clients<D: ServerData>(
    v: HandleView<D>,
    interface: &'static Interface,
    version: u32,
    data: D::GlobalData,
    shown: Seq<bool>,
    c: ClientId,
)
    requires
        view_wf(v),
        v.clients.len() <= u32::MAX,
        v.globals.len() < u32::MAX,
        shown.len() == v.clients.len(),
    ensures
        ({
            let w = after_create_global(v, interface, version, data, shown);
            let g = GlobalId { index: v.globals.len() as u32 };
            let queued = w.outgoing.subrange(v.outgoing.len() as int, w.outgoing.len() as int);
            &&& w.outgoing.subrange(0, v.outgoing.len() as int) == v.outgoing
            &&& queued.contains(Outgoing::GlobalAdded { client_id: c, global: g, interface, version })
                <==> (client_alive(v, c) && shown[c.index as int])
            &&& forall|k: int| 0 <= k < queued.len() ==> {
                let o = #[trigger] queued[k];
                &&& client_alive(v, destination_of(o))
                &&& shown[destination_of(o).index as int]
                &&& o == (Outgoing::GlobalAdded { client_id: destination_of(o), global: g, interface, version })
            }
        }),
{
    let g = GlobalId { index: v.globals.len() as u32 };
    let w = after_create_global(v, interface, version, data, shown);
    let notices = global_notices(v.clients, shown, g, Some((interface, version)));
    lemma_global_notices_reach(v.clients, shown, g, Some((interface, version)));
    assert(w.outgoing.subrange(v.outgoing.len() as int, w.outgoing.len() as int) =~= notices);
    assert(w.outgoing.subrange(0, v.outgoing.len() as int) =~= v.outgoing);
    assert(global_notice(c, g, Some((interface, version)))
        == (Outgoing::GlobalAdded { client_id: c, global: g, interface, version }));
}

/// Disabling an active global signals its removal to exactly the connected
/// clients: what `disable_global` queues is one removal notice of the global for
/// each connected client, and nothing for a disconnected or unknown client.
pub proof fn lemma_disabled_global_is_withdrawn_from_connected_clients<D: ServerData>(
    v: HandleView<D>,
    g: GlobalId,
    c: ClientId,
)
    requires
        view_wf(v),
        v.clients.len() <= u32::MAX,
        global_active(v, g),
    ensures
        ({
            let w = after_disable_global(v, g);
            let queued = w.outgoing.subrange(v.outgoing.len() as int, w.outgoing.len() as int);
            &&& w.outgoing.subrange(0, v.outgoing.len() as int) == v.outgoing
            &&& queued.contains(Outgoing::GlobalRemoved { client_id: c, global: g }) <==> client_alive(v, c)
            &&& forall|k: int| 0 <= k < queued.len() ==> {
                let o = #[trigger] queued[k];
                &&& client_alive(v, destination_of(o))
                &&& o == (Outgoing::GlobalRemoved { client_id: destination_of(o), global: g })
            }
        }),
{
    let w = after_disable_global(v, g);
    let all = everyone(v.clients.len());
    let notices = global_notices(v.clients, all, g, None);
    lemma_global_notices_reach(v.clients, all, g, None);
    assert(w.outgoing.subrange(v.outgoing.len() as int, w.outgoing.len() as int) =~= notices);
    assert(w.outgoing.subrange(0, v.outgoing.len() as int) =~= v.outgoing);
    assert(global_notice(c, g, None) == (Outgoing::GlobalRemoved { client_id: c, global: g }));
    if c.index < v.clients.len() {
        assert(all[c.index as int]);
    }
}

/// A client that connects is told of exactly the globals that are active at
/// that moment and shown to it, each with the interface and version it was
/// created with, and of no disabled or removed global.
pub proof fn lemma_new_client_learns_active_globals<D: ServerData>(
    v: HandleView<D>,
    data: Arc<D::ClientData>,
    shown: Seq<bool>,
    g: GlobalId,
)
    requires
        view_wf(v),
        v.globals.len() <= u32::MAX,
        shown.len() == v.globals.len(),
    ensures
        ({
            let w = after_insert_client(v, data, shown);
            let c = ClientId { index: v.clients.len() as u32 };
            let queued = w.outgoing.subrange(v.outgoing.len() as int, w.outgoing.len() as int);
            &&& w.outgoing.subrange(0, v.outgoing.len() as int) == v.outgoing
            &&& queued.contains(Outgoing::GlobalAdded {
                client_id: c,
                global: g,
                interface: v.globals[g.index as int].interface,
                version: v.globals[g.index as int].version,
            }) <==> (global_active(v, g) && shown[g.index as int])
            &&& forall|k: int| 0 <= k < queued.len() ==> {
                let o = #[trigger] queued[k];
                &&& o matches Outgoing::GlobalAdded { client_id, global, interface, version }
                &&& client_id == c
                &&& global_active(v, global)
                &&& shown[global.index as int]
                &&& interface == v.globals[global.index as int].interface
                &&& version == v.globals[global.index as int].version
            }
        }),
{
    let w = after_insert_client(v, data, shown);
    let c = ClientId { index: v.clients.len() as u32 };
    let xs = announcements(c, v.globals, v.global_state, shown, v.globals.len());
    lemma_announcements_name_active_globals(c, v.globals, v.global_state, shown, v.globals.len());
    assert(w.outgoing.subrange(v.outgoing.len() as int, w.outgoing.len() as int) =~= xs);
    assert(w.outgoing.subrange(0, v.outgoing.len() as int) =~= v.outgoing);
}

/// A client that connects is announced a global only when the global is active
/// and `D::can_view`, asked with the client's own id, the client's data and the
/// global's data, may answer `true`; and it is announced every active global for
/// which `D::can_view` cannot answer `false`.
pub proof fn lemma_new_client_learns_what_it_may_view<D: ServerData>(
    v: HandleView<D>,
    data: Arc<D::ClientData>,
    shown: Seq<bool>,
    g: GlobalId,
)
    requires
        view_wf(v),
        v.globals.len() <= u32::MAX,
        shown.len() == v.globals.len(),
        forall|h: int| 0 <= h < shown.len() ==> call_ensures(
            D::can_view,
            (ClientId { index: v.clients.len() as u32 }, &*data, &v.global_data[h]),
            #[trigger] shown[h],
        ),
    ensures
        ({
            let w = after_insert_client(v, data, shown);
            let c = ClientId { index: v.clients.len() as u32 };
            let queued = w.outgoing.subrange(v.outgoing.len() as int, w.outgoing.len() as int);
            let announced = queued.contains(Outgoing::GlobalAdded {
                client_id: c,
                global: g,
                interface: v.globals[g.index as int].interface,
                version: v.globals[g.index as int].version,
            });
            let asked = (c, &*data, &v.global_data[g.index as int]);
            &&& announced ==> global_active(v, g) && call_ensures(D::can_view, asked, true)
            &&& global_active(v, g) && !call_ensures(D::can_view, asked, false) ==> announced
        }),
{
    lemma_new_client_learns_active_globals(v, data, shown, g);
    if g.index < v.globals.len() {
        assert(call_ensures(
            D::can_view,
            (ClientId { index: v.clients.len() as u32 }, &*data, &v.global_data[g.index as int]),
            shown[g.index as int],
        ));
    }
}

/// A new global is announced to a connected client only when `D::can_view`,
/// asked with that client's id, its data and the global's data, may answer
/// `true`; and it is announced to every connected client for which
/// `D::can_view` cannot answer `false`.
pub proof fn lemma_created_global_reaches_who_may_view<D: ServerData>(
    v: HandleView<D>,
    interface: &'static Interface,
    version: u32,
    data: D::GlobalData,
    shown: Seq<bool>,
    c: ClientId,
)
    requires
        view_wf(v),
        v.clients.len() <= u32::MAX,
        v.globals.len() < u32::MAX,
        shown.len() == v.clients.len(),
        forall|k: int| 0 <= k < shown.len() && v.clients[k].status is Alive ==> call_ensures(
            D::can_view,
            (ClientId { index: k as u32 }, &*v.client_data[k], &data),
            #[trigger] shown[k],
        ),
    ensures
        ({
            let w = after_create_global(v, interface, version, data, shown);
            let g = GlobalId { index: v.globals.len() as u32 };
            let queued = w.outgoing.subrange(v.outgoing.len() as int, w.outgoing.len() as int);
            let announced = queued.contains(Outgoing::GlobalAdded { client_id: c, global: g, interface, version });
            let asked = (c, &*v.client_data[c.index as int], &data);
            &&& announced ==> client_alive(v, c) && call_ensures(D::can_view, asked, true)
            &&& client_alive(v, c) && !call_ensures(D::can_view, asked, false) ==> announced
        }),
{
    lemma_created_global_is_announced_to_connected_clients(v, interface, version, data, shown, c);
    if client_alive(v, c) {
        let k = c.index as int;
        assert(ClientId { index: k as u32 } == c);
        assert(call_ensures(D::can_view, (ClientId { index: k as u32 }, &*v.client_data[k], &data), shown[k]));
    }
}

} // verus!
