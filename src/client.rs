use vstd::prelude::*;

use crate::address::Address;
use crate::configs::Configs;
use crate::errors::ParseError;
use crate::packets::{ask_ip_view, request_view, upload_view, Packet, PacketId, PacketView};
use crate::role::Action;

verus! {

/// Where a client's upload stands.
#[derive(Clone, Copy, Debug, PartialEq, Eq, Structural)]
pub enum ClientStage {
    /// Nothing sent yet.
    Start,
    /// `AskIp` sent to the DNS node; waiting for the Master's address.
    AwaitMaster,
    /// `RequestFromClient` sent to the Master; waiting for a Data node.
    AwaitDataNode,
    /// The upload was handed over for sending.
    Done,
    /// A reply was missing or not the expected one.
    Failed,
}

/// What the client's driver does next.
#[derive(Debug)]
pub enum ClientStep {
    /// Send the packet and wait for the reply.
    Send(Packet),
    /// Send the packet, then shut down: no reply is awaited.
    Finish(Packet),
    /// Give up: the transaction cannot complete.
    Abort,
}

pub enum ClientStepView {
    Send(PacketView),
    Finish(PacketView),
    Abort,
}

impl View for ClientStep {
    type V = ClientStepView;

    open spec fn view(&self) -> ClientStepView {
        match self {
            ClientStep::Send(p) => ClientStepView::Send(p@),
            ClientStep::Finish(p) => ClientStepView::Finish(p@),
            ClientStep::Abort => ClientStepView::Abort,
        }
    }
}

pub struct ClientView {
    pub addr_dns: Address,
    pub port: u16,
    pub filename: Seq<char>,
    pub binary: Seq<u8>,
    pub stage: ClientStage,
}

/// What a client receives while it waits: a decoded packet, a packet that
/// could not be decoded, or nothing within the wait.
pub open spec fn received_view(ev: Option<Result<Packet, ParseError>>) -> Option<
    Result<PacketView, ParseError>,
> {
    match ev {
        Some(Ok(p)) => Some(Ok(p@)),
        Some(Err(e)) => Some(Err(e)),
        None => None,
    }
}

/// The client's next stage and step on receiving `ev`.
pub open spec fn client_next(c: ClientView, ev: Option<Result<PacketView, ParseError>>) -> (
    ClientStage,
    ClientStepView,
) {
    match (c.stage, ev) {
        (ClientStage::AwaitMaster, Some(Ok(p))) => if p.packet_id == PacketId::AskIpAck
            && p.content.addr_master is Some {
            (
                ClientStage::AwaitDataNode,
                ClientStepView::Send(
                    request_view(Action::Write, c.port, c.filename, p.content.addr_master->0),
                ),
            )
        } else {
            (ClientStage::Failed, ClientStepView::Abort)
        },
        (ClientStage::AwaitDataNode, Some(Ok(p))) => if p.packet_id == PacketId::ResponseNodeIp
            && p.content.addr_data is Some {
            (
                ClientStage::Done,
                ClientStepView::Finish(upload_view(p.content.addr_data->0, c.filename, c.binary)),
            )
        } else {
            (ClientStage::Failed, ClientStepView::Abort)
        },
        _ => (ClientStage::Failed, ClientStepView::Abort),
    }
}

/// A client that writes one file to the cluster: it asks the DNS node for
/// the Master, asks the Master for a Data node, and uploads to that node.
pub struct Client {
    addr_dns: Address,
    port: u16,
    filename: String,
    binary: Vec<u8>,
    stage: ClientStage,
}

impl View for Client {
    type V = ClientView;

    closed spec fn view(&self) -> ClientView {
        ClientView {
            addr_dns: self.addr_dns,
            port: self.port,
            filename: self.filename@,
            binary: self.binary@,
            stage: self.stage,
        }
    }
}

impl Client {
    /// A client that will upload `binary` under `filename`, reached at the
    /// configured port.
    pub fn new(configs: &Configs, filename: String, binary: Vec<u8>) -> (r: Client)
        ensures
            r@ == (ClientView {
                addr_dns: Address { ip: configs.ip_dns, port: configs.port_dns },
                port: configs.args.port,
                filename: filename@,
                binary: binary@,
                stage: ClientStage::Start,
            }),
    {
        Client {
            addr_dns: configs.addr_dns(),
            port: configs.args.port,
            filename,
            binary,
            stage: ClientStage::Start,
        }
    }

    pub fn stage(&self) -> (r: ClientStage)
        ensures
            r == self@.stage,
    {
        self.stage
    }

    /// The first packet: `AskIp` to the DNS node with the client's port.
    pub fn ask_master_ip(&mut self) -> (r: Packet)
        requires
            old(self)@.stage == ClientStage::Start,
        ensures
            r@ == ask_ip_view(old(self)@.addr_dns, old(self)@.port),
            final(self)@ == (ClientView { stage: ClientStage::AwaitMaster, ..old(self)@ }),
    {
        self.stage = ClientStage::AwaitMaster;
        Packet::create_ask_ip(self.addr_dns, self.port)
    }

    /// The next step on receiving `ev`, or on receiving nothing (`None`).
    pub fn on_reply(&mut self, ev: Option<Result<Packet, ParseError>>) -> (r: ClientStep)
        ensures
            final(self)@ == (ClientView {
                stage: client_next(old(self)@, received_view(ev)).0,
                ..old(self)@
            }),
            r@ == client_next(old(self)@, received_view(ev)).1,
    {
        match (self.stage, ev) {
            (ClientStage::AwaitMaster, Some(Ok(p))) => {
                if p.packet_id == PacketId::AskIpAck {
                    if let Some(m) = p.addr_master {
                        self.stage = ClientStage::AwaitDataNode;
                        return ClientStep::Send(
                            Packet::create_request_from_client(Action::Write, self.port, &self.filename, m),
                        );
                    }
                }
                self.stage = ClientStage::Failed;
                ClientStep::Abort
            },
            (ClientStage::AwaitDataNode, Some(Ok(p))) => {
                if p.packet_id == PacketId::ResponseNodeIp {
                    if let Some(d) = p.addr_data {
                        self.stage = ClientStage::Done;
                        let blob = self.binary.clone();
                        return ClientStep::Finish(Packet::create_client_upload(d, &self.filename, blob));
                    }
                }
                self.stage = ClientStage::Failed;
                ClientStep::Abort
            },
            _ => {
                self.stage = ClientStage::Failed;
                ClientStep::Abort
            },
        }
    }
}

} // verus!
