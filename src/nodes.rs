use vstd::prelude::*;

use crate::address::{conv_id2addr, lemma_node_id_injective, node_id_of, Address};
use crate::clock::now_millis;
use crate::configs::Configs;
use crate::db::{
    data_rows, files_wf, get_nodes_replication, lemma_upsert_file_idempotent,
    lemma_upsert_node_idempotent, nodes_wf, row_address, same_files, same_nodes, select_targets,
    upsert_file, upsert_node, FileInfoDB, FileInfoEntry, FileRow, NodeInfoDB, NodeInfoEntry, NodeRow,
};
use crate::packets::{
    ask_ip_ack_view, ask_ip_view, heartbeat_ack_view, heartbeat_view, notify_view,
    response_node_ip_view, Packet, PacketId, PacketView,
};
use crate::role::{Action, Role};

verus! {

/// Work that the processor hands to the rest of the node.
#[derive(Debug)]
pub enum Effect {
    /// Open a connection to the packet's receiver and write the packet.
    Send(Packet),
    /// Write a file to the data directory, replacing any file of that name.
    SaveFile(String, Vec<u8>),
}

pub enum EffectView {
    Send(PacketView),
    SaveFile(Seq<char>, Seq<u8>),
}

impl View for Effect {
    type V = EffectView;

    open spec fn view(&self) -> EffectView {
        match self {
            Effect::Send(p) => EffectView::Send(p@),
            Effect::SaveFile(name, blob) => EffectView::SaveFile(name@, blob@),
        }
    }
}

pub open spec fn effects_view(v: Seq<Effect>) -> Seq<EffectView> {
    v.map_values(|e: Effect| e@)
}

/// The state of a node's processor.
pub struct NodeView {
    pub role: Role,
    pub addr_dns: Address,
    pub addr_current: Address,
    pub interval_heartbeat: u64,
    pub addr_master: Option<Address>,
    pub last_heartbeat: Option<i64>,
    pub nodes: Seq<NodeRow>,
    pub files: Seq<FileRow>,
}

/// The next state and the work to do.
pub struct Reaction {
    pub state: NodeView,
    pub effects: Seq<EffectView>,
}

pub open spec fn unchanged(s: NodeView) -> Reaction {
    Reaction { state: s, effects: Seq::empty() }
}

pub open spec fn send_one(s: NodeView, p: PacketView) -> Reaction {
    Reaction { state: s, effects: seq![EffectView::Send(p)] }
}

/// A received upload asks for its blob to be saved under its name.
pub open spec fn save_upload(s: NodeView, p: PacketView) -> Reaction {
    match (p.content.filename, p.content.binary) {
        (Some(name), Some(blob)) => Reaction {
            state: s,
            effects: seq![EffectView::SaveFile(name, blob)],
        },
        _ => unchanged(s),
    }
}

/// The DNS node stores the address of the Master that announced itself, and
/// answers every query with it.
pub open spec fn react_dns(s: NodeView, p: PacketView, sender: Address) -> Reaction {
    match p.packet_id {
        PacketId::AskIp => send_one(s, ask_ip_ack_view(sender, s.addr_master)),
        PacketId::Notify => unchanged(NodeView { addr_master: Some(sender), ..s }),
        _ => unchanged(s),
    }
}

/// The Master records Data nodes that announce themselves or answer a
/// heartbeat, routes a client's write to the least-loaded Data node, and
/// saves uploads sent to it.
pub open spec fn react_master(s: NodeView, p: PacketView, sender: Address, now: i64) -> Reaction {
    match p.packet_id {
        PacketId::HeartbeatAck => match p.content.node_id {
            Some(id) => if exists|a: Address| node_id_of(a) == id {
                let a = choose|a: Address| node_id_of(a) == id;
                unchanged(NodeView { nodes: upsert_node(s.nodes, a, Role::Data, now), ..s })
            } else {
                unchanged(s)
            },
            None => unchanged(s),
        },
        PacketId::Notify => unchanged(
            NodeView { nodes: upsert_node(s.nodes, sender, Role::Data, now), ..s },
        ),
        PacketId::RequestFromClient => {
            let targets = select_targets(s.nodes, s.files, 2);
            if p.content.flag_read_write == Some(Action::Write) && targets.len() > 0 {
                send_one(s, response_node_ip_view(sender, targets[0]))
            } else {
                unchanged(s)
            }
        },
        PacketId::ClientUpload => save_upload(s, p),
        _ => unchanged(s),
    }
}

/// A Data node learns the Master's address from the DNS node and announces
/// itself to it, answers heartbeats, and saves uploads.
pub open spec fn react_data(s: NodeView, p: PacketView) -> Reaction {
    match p.packet_id {
        PacketId::Heartbeat => match s.addr_master {
            Some(m) => send_one(s, heartbeat_ack_view(m, s.addr_current)),
            None => unchanged(s),
        },
        PacketId::AskIpAck => match p.content.addr_master {
            Some(m) => send_one(
                NodeView { addr_master: Some(m), ..s },
                notify_view(m, Role::Data, s.addr_current),
            ),
            None => unchanged(s),
        },
        PacketId::ClientUpload => save_upload(s, p),
        _ => unchanged(s),
    }
}

/// What a node does with a received packet; a packet without a sender is
/// dropped.
pub open spec fn react(s: NodeView, p: PacketView, now: i64) -> Reaction {
    match p.addr_sender {
        None => unchanged(s),
        Some(sender) => match s.role {
            Role::DNS => react_dns(s, p, sender),
            Role::Master => react_master(s, p, sender, now),
            Role::Data => react_data(s, p),
            _ => unchanged(s),
        },
    }
}

/// A `Heartbeat` to each Data node of the catalog, in catalog order.
pub open spec fn heartbeats(rows: Seq<NodeRow>) -> Seq<EffectView> {
    data_rows(rows).map_values(|r: NodeRow| EffectView::Send(heartbeat_view(row_address(r))))
}

/// The heartbeat clock of the Master: the first tick starts it; a later one
/// sends a heartbeat to every Data node once the interval has passed since
/// the last beat.
pub open spec fn tick(s: NodeView, now: i64) -> Reaction {
    if s.role != Role::Master {
        unchanged(s)
    } else {
        match s.last_heartbeat {
            None => unchanged(NodeView { last_heartbeat: Some(now), ..s }),
            Some(t) => if now - t >= s.interval_heartbeat * 1000 {
                Reaction {
                    state: NodeView { last_heartbeat: Some(now), ..s },
                    effects: heartbeats(s.nodes),
                }
            } else {
                unchanged(s)
            },
        }
    }
}

/// One wake-up of the processor: the packet that arrived, if any, then the
/// heartbeat clock.
pub open spec fn step(s: NodeView, p: Option<PacketView>, now: i64) -> Reaction {
    let first = match p {
        Some(p) => react(s, p, now),
        None => unchanged(s),
    };
    let second = tick(first.state, now);
    Reaction { state: second.state, effects: first.effects + second.effects }
}

/// The row a node records for a file it saved: held here, owned by itself.
pub open spec fn local_file(s: NodeView, name: Seq<char>) -> FileRow {
    FileRow { filename: name, is_local: true, node_id: node_id_of(s.addr_current), last_updated: None }
}

/// The state after a file was saved: Master and Data nodes record it.
pub open spec fn saved(s: NodeView, name: Seq<char>, now: i64) -> NodeView {
    if s.role == Role::Master || s.role == Role::Data {
        NodeView { files: upsert_file(s.files, local_file(s, name), now), ..s }
    } else {
        s
    }
}

/// The packets a node sends when it starts: the Master announces itself to
/// the DNS node; a Data node asks the DNS node for the Master's address.
pub open spec fn startup(s: NodeView) -> Seq<PacketView> {
    if s.role == Role::Master {
        seq![notify_view(s.addr_dns, Role::Master, s.addr_current)]
    } else if s.role == Role::Data {
        seq![ask_ip_view(s.addr_dns, s.addr_current.port)]
    } else {
        Seq::empty()
    }
}

/// The processor of a DNS, Master or Data node.
pub struct Node {
    role: Role,
    addr_dns: Address,
    addr_current: Address,
    interval_heartbeat: u64,
    addr_master: Option<Address>,
    last_heartbeat: Option<i64>,
    node_info: NodeInfoDB,
    file_info: FileInfoDB,
}

impl View for Node {
    type V = NodeView;

    closed spec fn view(&self) -> NodeView {
        NodeView {
            role: self.role,
            addr_dns: self.addr_dns,
            addr_current: self.addr_current,
            interval_heartbeat: self.interval_heartbeat,
            addr_master: self.addr_master,
            last_heartbeat: self.last_heartbeat,
            nodes: self.node_info@,
            files: self.file_info@,
        }
    }
}

pub open spec fn packet_view(p: Option<Packet>) -> Option<PacketView> {
    match p {
        Some(p) => Some(p@),
        None => None,
    }
}

pub open spec fn node_wf(s: NodeView) -> bool {
    nodes_wf(s.nodes) && files_wf(s.files)
}

fn heartbeat_effects(db: &NodeInfoDB) -> (r: Vec<Effect>)
    ensures
        effects_view(r@) == heartbeats(db@),
{
    let data = db.get_data_nodes();
    let ghost dv = data@.map_values(|e: NodeInfoEntry| e@);
    let mut out: Vec<Effect> = Vec::new();
    let mut i: usize = 0;
    while i < data.len()
        invariant
            0 <= i <= data@.len(),
            dv == data@.map_values(|e: NodeInfoEntry| e@),
            dv == data_rows(db@),
            effects_view(out@) == dv.subrange(0, i as int).map_values(
                |r: NodeRow| EffectView::Send(heartbeat_view(row_address(r))),
            ),
        decreases data@.len() - i,
    {
        let to = Address { ip: data[i].ip, port: data[i].port };
        assert(dv[i as int] == data@[i as int]@);
        let ghost before = effects_view(out@);
        out.push(Effect::Send(Packet::create_heartbeat(to)));
        assert(effects_view(out@) =~= before.push(EffectView::Send(heartbeat_view(to))));
        assert(dv.subrange(0, i + 1).map_values(
            |r: NodeRow| EffectView::Send(heartbeat_view(row_address(r))),
        ) =~= dv.subrange(0, i as int).map_values(
            |r: NodeRow| EffectView::Send(heartbeat_view(row_address(r))),
        ).push(EffectView::Send(heartbeat_view(row_address(dv[i as int])))));
        i += 1;
    }
    assert(dv.subrange(0, i as int) =~= dv);
    out
}

fn one(e: Effect) -> (r: Vec<Effect>)
    ensures
        effects_view(r@) == seq![e@],
{
    let mut v: Vec<Effect> = Vec::new();
    v.push(e);
    assert(effects_view(v@) =~= seq![e@]);
    v
}

fn nothing() -> (r: Vec<Effect>)
    ensures
        effects_view(r@) == Seq::<EffectView>::empty(),
{
    let v: Vec<Effect> = Vec::new();
    assert(effects_view(v@) =~= Seq::<EffectView>::empty());
    v
}

impl Node {
    pub open spec fn wf(&self) -> bool {
        node_wf(self@)
    }

    /// A processor of `role` with empty catalogs, knowing no Master yet. It
    /// is reached on 127.0.0.1 at the configured port.
    pub fn new(configs: &Configs, role: Role) -> (r: Node)
        ensures
            r.wf(),
            r@ == (NodeView {
                role,
                addr_dns: Address { ip: configs.ip_dns, port: configs.port_dns },
                addr_current: Address { ip: [127, 0, 0, 1], port: configs.args.port },
                interval_heartbeat: configs.interval_heartbeat,
                addr_master: None,
                last_heartbeat: None,
                nodes: Seq::empty(),
                files: Seq::empty(),
            }),
    {
        Node {
            role,
            addr_dns: configs.addr_dns(),
            addr_current: Address { ip: [127, 0, 0, 1], port: configs.args.port },
            interval_heartbeat: configs.interval_heartbeat,
            addr_master: None,
            last_heartbeat: None,
            node_info: NodeInfoDB::intialize(),
            file_info: FileInfoDB::intialize(),
        }
    }

    pub fn role(&self) -> (r: Role)
        ensures
            r == self@.role,
    {
        self.role
    }

    /// The Master's address, once known.
    pub fn addr_master(&self) -> (r: Option<Address>)
        ensures
            r == self@.addr_master,
    {
        self.addr_master
    }

    pub fn node_info(&self) -> (r: &NodeInfoDB)
        ensures
            r@ == self@.nodes,
    {
        &self.node_info
    }

    pub fn file_info(&self) -> (r: &FileInfoDB)
        ensures
            r@ == self@.files,
    {
        &self.file_info
    }

    /// The packets to send when the node starts.
    pub fn startup(&self) -> (r: Vec<Packet>)
        ensures
            r@.map_values(|p: Packet| p@) == startup(self@),
    {
        let mut out: Vec<Packet> = Vec::new();
        if self.role == Role::Master {
            out.push(Packet::create_notify(self.addr_dns, &Role::Master, self.addr_current));
        } else if self.role == Role::Data {
            out.push(Packet::create_ask_ip(self.addr_dns, self.addr_current.port));
        }
        assert(out@.map_values(|p: Packet| p@) =~= startup(self@));
        out
    }

    fn save_upload(&self, packet: Packet) -> (r: Vec<Effect>)
        ensures
            effects_view(r@) == save_upload(self@, packet@).effects,
    {
        match (packet.filename, packet.binary) {
            (Some(name), Some(blob)) => one(Effect::SaveFile(name, blob)),
            _ => nothing(),
        }
    }

    /// Handles one received packet at time `now`.
    pub fn process_packet(&mut self, packet: Packet, now: i64) -> (r: Vec<Effect>)
        requires
            old(self).wf(),
        ensures
            final(self).wf(),
            final(self)@ == react(old(self)@, packet@, now).state,
            effects_view(r@) == react(old(self)@, packet@, now).effects,
    {
        let sender = match packet.addr_sender {
            Some(a) => a,
            None => return nothing(),
        };
        match self.role {
            Role::DNS => match packet.packet_id {
                PacketId::AskIp => one(Effect::Send(Packet::create_ask_ip_ack(sender, self.addr_master))),
                PacketId::Notify => {
                    self.addr_master = Some(sender);
                    nothing()
                },
                _ => nothing(),
            },
            Role::Master => match packet.packet_id {
                PacketId::HeartbeatAck => match packet.node_id {
                    Some(id) => {
                        let ghost idv = id@;
                        match conv_id2addr(id) {
                            Ok(a) => {
                                proof {
                                    let c = choose|c: Address| node_id_of(c) == idv;
                                    lemma_node_id_injective(a, c);
                                }
                                self.node_info.upsert(a.ip, a.port, Role::Data, now);
                                nothing()
                            },
                            Err(_) => nothing(),
                        }
                    },
                    None => nothing(),
                },
                PacketId::Notify => {
                    self.node_info.upsert(sender.ip, sender.port, Role::Data, now);
                    nothing()
                },
                PacketId::RequestFromClient => {
                    let targets = get_nodes_replication(&self.node_info, &self.file_info, 2);
                    if packet.flag_read_write == Some(Action::Write) && targets.len() > 0 {
                        one(Effect::Send(Packet::create_response_node_ip(sender, targets[0])))
                    } else {
                        nothing()
                    }
                },
                PacketId::ClientUpload => self.save_upload(packet),
                _ => nothing(),
            },
            Role::Data => match packet.packet_id {
                PacketId::Heartbeat => match self.addr_master {
                    Some(m) => one(Effect::Send(Packet::create_heartbeat_ack(m, self.addr_current))),
                    None => nothing(),
                },
                PacketId::AskIpAck => match packet.addr_master {
                    Some(m) => {
                        self.addr_master = Some(m);
                        one(Effect::Send(Packet::create_notify(m, &Role::Data, self.addr_current)))
                    },
                    None => nothing(),
                },
                PacketId::ClientUpload => self.save_upload(packet),
                _ => nothing(),
            },
            _ => nothing(),
        }
    }

    /// Advances the heartbeat clock to `now`.
    pub fn heartbeat_tick(&mut self, now: i64) -> (r: Vec<Effect>)
        requires
            old(self).wf(),
        ensures
            final(self).wf(),
            final(self)@ == tick(old(self)@, now).state,
            effects_view(r@) == tick(old(self)@, now).effects,
    {
        if self.role != Role::Master {
            return nothing();
        }
        match self.last_heartbeat {
            None => {
                self.last_heartbeat = Some(now);
                nothing()
            },
            Some(t) => {
                if (now as i128) - (t as i128) >= (self.interval_heartbeat as i128) * 1000 {
                    self.last_heartbeat = Some(now);
                    heartbeat_effects(&self.node_info)
                } else {
                    nothing()
                }
            },
        }
    }

    /// One wake-up of the processor at time `now`: the packet that arrived,
    /// if any, then the heartbeat clock.
    pub fn step_at(&mut self, packet: Option<Packet>, now: i64) -> (r: Vec<Effect>)
        requires
            old(self).wf(),
        ensures
            final(self).wf(),
            final(self)@ == step(old(self)@, packet_view(packet), now).state,
            effects_view(r@) == step(old(self)@, packet_view(packet), now).effects,
    {
        let ghost pv = packet_view(packet);
        let mut first = match packet {
            Some(p) => self.process_packet(p, now),
            None => nothing(),
        };
        let second = self.heartbeat_tick(now);
        let ghost a = effects_view(first@);
        let ghost b = effects_view(second@);
        let mut second = second;
        first.append(&mut second);
        assert(effects_view(first@) =~= a + b);
        first
    }

    /// One wake-up of the processor, at the time the clock tells.
    pub fn step(&mut self, packet: Option<Packet>) -> (r: Vec<Effect>)
        requires
            old(self).wf(),
        ensures
            final(self).wf(),
            exists|now: i64|
                final(self)@ == step(old(self)@, packet_view(packet), now).state
                    && effects_view(r@) == step(old(self)@, packet_view(packet), now).effects,
    {
        let now = now_millis();
        self.step_at(packet, now)
    }

    /// Records, at time `now`, that the file `filename` was saved here.
    pub fn record_saved_file_at(&mut self, filename: String, now: i64)
        requires
            old(self).wf(),
        ensures
            final(self).wf(),
            final(self)@ == saved(old(self)@, filename@, now),
    {
        if self.role == Role::Master || self.role == Role::Data {
            let id = self.addr_current.to_str();
            let entry = FileInfoEntry::initialize(filename, true, id);
            self.file_info.upsert(&entry, now);
        }
    }

    /// Records that the file `filename` was saved here, at the time the
    /// clock tells.
    pub fn record_saved_file(&mut self, filename: String)
        requires
            old(self).wf(),
        ensures
            final(self).wf(),
            exists|now: i64| final(self)@ == saved(old(self)@, filename@, now),
    {
        let now = now_millis();
        self.record_saved_file_at(filename, now);
    }
}

/// Two processor states that differ in catalog time stamps only.
pub open spec fn same_state(x: NodeView, y: NodeView) -> bool {
    &&& x.role == y.role
    &&& x.addr_dns == y.addr_dns
    &&& x.addr_current == y.addr_current
    &&& x.interval_heartbeat == y.interval_heartbeat
    &&& x.addr_master == y.addr_master
    &&& x.last_heartbeat == y.last_heartbeat
    &&& same_nodes(x.nodes, y.nodes)
    &&& same_files(x.files, y.files)
}

/// Receiving the same `Notify`, `HeartbeatAck` or `ClientUpload` a second
/// time leaves the node as the first delivery left it, but for time stamps,
/// and asks for the same work again: an upload is saved again with the same
/// bytes under the same name.
pub proof fn lemma_replay(s: NodeView, p: PacketView, t1: i64, t2: i64)
    requires
        p.packet_id == PacketId::Notify || p.packet_id == PacketId::HeartbeatAck || p.packet_id
            == PacketId::ClientUpload,
    ensures
        same_state(react(react(s, p, t1).state, p, t2).state, react(s, p, t1).state),
        react(react(s, p, t1).state, p, t2).effects == react(s, p, t1).effects,
{
    let first = react(s, p, t1);
    assert(same_files(first.state.files, first.state.files));
    if let Some(sender) = p.addr_sender {
        if s.role == Role::Master {
            if p.packet_id == PacketId::Notify {
                lemma_upsert_node_idempotent(s.nodes, sender, Role::Data, t1, t2);
            } else if p.packet_id == PacketId::HeartbeatAck {
                if let Some(id) = p.content.node_id {
                    if exists|a: Address| node_id_of(a) == id {
                        let a = choose|a: Address| node_id_of(a) == id;
                        lemma_upsert_node_idempotent(s.nodes, a, Role::Data, t1, t2);
                    }
                }
            }
        }
    }
    assert(same_nodes(first.state.nodes, first.state.nodes));
}

/// Recording the same saved file twice leaves the node as recording it
/// once, but for time stamps.
pub proof fn lemma_saved_twice(s: NodeView, name: Seq<char>, t1: i64, t2: i64)
    ensures
        same_state(saved(saved(s, name, t1), name, t2), saved(s, name, t1)),
{
    if s.role == Role::Master || s.role == Role::Data {
        lemma_upsert_file_idempotent(s.files, local_file(s, name), t1, t2);
    }
    assert(same_nodes(s.nodes, s.nodes));
    assert(same_files(saved(s, name, t1).files, saved(s, name, t1).files));
}

} // verus!
