use vstd::prelude::*;
use vstd::utf8::*;

use crate::address::{node_id_of, Address};
use crate::errors::{bare_error, ParseError, ParseErrorCode};
use crate::role::{action_byte, action_of_byte, role_byte, role_of_byte, Action, Role};
use crate::text::{append_bytes, copy_range, string_bytes, string_from_utf8};

verus! {

broadcast use vstd::utf8::group_utf8_lib;

/// The kind of a packet, carried in the first byte of its header.
#[derive(Clone, Copy, Debug, PartialEq, Eq, Structural)]
pub enum PacketId {
    Default,
    Heartbeat,
    HeartbeatAck,
    RequestSendReplica,
    SendReplica,
    SendReplicaAck,
    AskIp,
    AskIpAck,
    RequestFromClient,
    ResponseNodeIp,
    ClientUpload,
    DataNodeSendData,
    ClientRequestAck,
    StateSync,
    StateSyncAck,
    Notify,
}

/// The header byte of each kind.
pub open spec fn kind_byte(k: PacketId) -> u8 {
    match k {
        PacketId::Default => 0,
        PacketId::Heartbeat => 1,
        PacketId::HeartbeatAck => 2,
        PacketId::RequestSendReplica => 3,
        PacketId::SendReplica => 4,
        PacketId::SendReplicaAck => 5,
        PacketId::AskIp => 6,
        PacketId::AskIpAck => 7,
        PacketId::RequestFromClient => 8,
        PacketId::ResponseNodeIp => 9,
        PacketId::ClientUpload => 10,
        PacketId::DataNodeSendData => 11,
        PacketId::ClientRequestAck => 12,
        PacketId::StateSync => 13,
        PacketId::StateSyncAck => 14,
        PacketId::Notify => 15,
    }
}

/// The largest header byte that names a kind.
pub const MAX_PACKET_ID: u8 = 15;

impl PacketId {
    /// The kind of a header byte, written out.
    pub open spec fn from_u8_spec(num: u8) -> PacketId {
        if num == 0 {
            PacketId::Default
        } else if num == 1 {
            PacketId::Heartbeat
        } else if num == 2 {
            PacketId::HeartbeatAck
        } else if num == 3 {
            PacketId::RequestSendReplica
        } else if num == 4 {
            PacketId::SendReplica
        } else if num == 5 {
            PacketId::SendReplicaAck
        } else if num == 6 {
            PacketId::AskIp
        } else if num == 7 {
            PacketId::AskIpAck
        } else if num == 8 {
            PacketId::RequestFromClient
        } else if num == 9 {
            PacketId::ResponseNodeIp
        } else if num == 10 {
            PacketId::ClientUpload
        } else if num == 11 {
            PacketId::DataNodeSendData
        } else if num == 12 {
            PacketId::ClientRequestAck
        } else if num == 13 {
            PacketId::StateSync
        } else if num == 14 {
            PacketId::StateSyncAck
        } else {
            PacketId::Notify
        }
    }

    pub fn to_u8(&self) -> (r: u8)
        ensures
            r == kind_byte(*self),
    {
        match self {
            PacketId::Default => 0,
            PacketId::Heartbeat => 1,
            PacketId::HeartbeatAck => 2,
            PacketId::RequestSendReplica => 3,
            PacketId::SendReplica => 4,
            PacketId::SendReplicaAck => 5,
            PacketId::AskIp => 6,
            PacketId::AskIpAck => 7,
            PacketId::RequestFromClient => 8,
            PacketId::ResponseNodeIp => 9,
            PacketId::ClientUpload => 10,
            PacketId::DataNodeSendData => 11,
            PacketId::ClientRequestAck => 12,
            PacketId::StateSync => 13,
            PacketId::StateSyncAck => 14,
            PacketId::Notify => 15,
        }
    }

    /// The kind whose header byte is `num`.
    pub fn from_u8(num: u8) -> (r: PacketId)
        requires
            num <= MAX_PACKET_ID,
        ensures
            kind_byte(r) == num,
            r == PacketId::from_u8_spec(num),
    {
        match num {
            0 => PacketId::Default,
            1 => PacketId::Heartbeat,
            2 => PacketId::HeartbeatAck,
            3 => PacketId::RequestSendReplica,
            4 => PacketId::SendReplica,
            5 => PacketId::SendReplicaAck,
            6 => PacketId::AskIp,
            7 => PacketId::AskIpAck,
            8 => PacketId::RequestFromClient,
            9 => PacketId::ResponseNodeIp,
            10 => PacketId::ClientUpload,
            11 => PacketId::DataNodeSendData,
            12 => PacketId::ClientRequestAck,
            13 => PacketId::StateSync,
            14 => PacketId::StateSyncAck,
            _ => PacketId::Notify,
        }
    }
}

/// The kind whose header byte is `b`, for a byte up to `MAX_PACKET_ID`.
pub open spec fn kind_of_byte(b: u8) -> PacketId {
    choose|k: PacketId| kind_byte(k) == b
}

/// The size of a header: the kind byte and the payload length.
pub const SIZE_HEADER: usize = 5;

/// The byte `|`; two of them in a row end the file name of an upload.
pub const BYTE_SEP_CHARACTER: u8 = 124;

pub open spec fn be16(hi: u8, lo: u8) -> u16 {
    (hi as nat * 256 + lo as nat) as u16
}

pub open spec fn be16_bytes(v: u16) -> Seq<u8> {
    seq![(v / 256) as u8, (v % 256) as u8]
}

pub open spec fn be32(b: Seq<u8>) -> nat {
    b[0] as nat * 16777216 + b[1] as nat * 65536 + b[2] as nat * 256 + b[3] as nat
}

pub open spec fn be32_bytes(v: u32) -> Seq<u8> {
    seq![(v / 16777216) as u8, (v / 65536 % 256) as u8, (v / 256 % 256) as u8, (v % 256) as u8]
}

/// An address on the wire: four bytes of IPv4, then the port.
pub open spec fn address_bytes(a: Address) -> Seq<u8> {
    seq![a.ip[0], a.ip[1], a.ip[2], a.ip[3]] + be16_bytes(a.port)
}

/// The address held by the six bytes from `i` on.
pub open spec fn address_at(b: Seq<u8>, i: int) -> Address {
    Address { ip: [b[i], b[i + 1], b[i + 2], b[i + 3]], port: be16(b[i + 4], b[i + 5]) }
}

/// The index of the first `||` at or after `from`, if any.
pub open spec fn first_delimiter(b: Seq<u8>, from: int) -> Option<int>
    decreases b.len() - from,
{
    if from < 0 || from + 1 >= b.len() {
        None
    } else if b[from] == BYTE_SEP_CHARACTER && b[from + 1] == BYTE_SEP_CHARACTER {
        Some(from)
    } else {
        first_delimiter(b, from + 1)
    }
}

/// The decoded fields that a packet carries besides its kind and addresses.
pub struct Content {
    pub addr_master: Option<Address>,
    pub addr_data: Option<Address>,
    pub role: Option<Role>,
    pub node_id: Option<Seq<char>>,
    pub flag_read_write: Option<Action>,
    pub filename: Option<Seq<char>>,
    pub binary: Option<Seq<u8>>,
}

pub open spec fn no_content() -> Content {
    Content {
        addr_master: None,
        addr_data: None,
        role: None,
        node_id: None,
        flag_read_write: None,
        filename: None,
        binary: None,
    }
}

/// What a payload holds: the sender's listen port, if the kind carries it,
/// and the decoded fields.
pub struct Parsed {
    pub listen_port: Option<u16>,
    pub content: Content,
}

pub open spec fn parsed(listen_port: Option<u16>, content: Content) -> Parsed {
    Parsed { listen_port, content }
}

pub open spec fn size_error(k: PacketId, n: nat) -> ParseError {
    ParseError {
        packet_id: Some(k),
        payload_size: Some(n as usize),
        ..bare_error(ParseErrorCode::IncorrectPayloadSize)
    }
}

pub open spec fn malformed(k: PacketId) -> ParseError {
    ParseError { packet_id: Some(k), ..bare_error(ParseErrorCode::MalformedPayload) }
}

/// The characters of UTF-8 bytes, or `None` for bytes that are not UTF-8.
pub open spec fn utf8_text(b: Seq<u8>) -> Option<Seq<char>> {
    if valid_utf8(b) {
        Some(decode_utf8(b))
    } else {
        None
    }
}

/// What the payload of an upload holds, split at its first `||`.
pub open spec fn parse_upload(pl: Seq<u8>) -> Result<Parsed, ParseError> {
    match first_delimiter(pl, 0) {
        None => Err(malformed(PacketId::ClientUpload)),
        Some(i) => {
            if i + 2 == pl.len() || !valid_utf8(pl.subrange(0, i)) {
                Err(malformed(PacketId::ClientUpload))
            } else {
                Ok(
                    parsed(
                        None,
                        Content {
                            filename: Some(decode_utf8(pl.subrange(0, i))),
                            binary: Some(pl.subrange(i + 2, pl.len() as int)),
                            ..no_content()
                        },
                    ),
                )
            }
        },
    }
}

/// What the payload of a client's request holds.
pub open spec fn parse_request(pl: Seq<u8>) -> Result<Parsed, ParseError> {
    let name = pl.subrange(3, pl.len() as int);
    if pl.len() < 3 {
        Err(size_error(PacketId::RequestFromClient, pl.len()))
    } else if action_of_byte(pl[0]) is None || !valid_utf8(name) {
        Err(malformed(PacketId::RequestFromClient))
    } else {
        Ok(
            parsed(
                Some(be16(pl[1], pl[2])),
                Content {
                    flag_read_write: action_of_byte(pl[0]),
                    filename: Some(decode_utf8(name)),
                    ..no_content()
                },
            ),
        )
    }
}

/// What the payload of a packet of kind `k` holds, by the schema of `k`.
pub open spec fn parse_payload(k: PacketId, pl: Seq<u8>) -> Result<Parsed, ParseError> {
    match k {
        PacketId::Default => Err(
            ParseError {
                packet_id_value: Some(0),
                ..bare_error(ParseErrorCode::IncorrectPacketId)
            },
        ),
        PacketId::Heartbeat => if pl.len() == 0 {
            Ok(parsed(None, no_content()))
        } else {
            Err(size_error(k, pl.len()))
        },
        PacketId::HeartbeatAck => Ok(
            parsed(None, Content { node_id: utf8_text(pl), ..no_content() }),
        ),
        PacketId::AskIp => if pl.len() == 2 {
            Ok(parsed(Some(be16(pl[0], pl[1])), no_content()))
        } else {
            Err(size_error(k, pl.len()))
        },
        PacketId::AskIpAck => if pl.len() == 0 {
            Err(bare_error(ParseErrorCode::UnavailableMasterAddress))
        } else if pl.len() == 6 {
            Ok(parsed(None, Content { addr_master: Some(address_at(pl, 0)), ..no_content() }))
        } else {
            Err(
                ParseError {
                    payload_size: Some(pl.len() as usize),
                    ..bare_error(ParseErrorCode::IncorrectPayloadSizeAskIPAck)
                },
            )
        },
        PacketId::RequestFromClient => parse_request(pl),
        PacketId::ResponseNodeIp => if pl.len() == 6 {
            Ok(parsed(None, Content { addr_data: Some(address_at(pl, 0)), ..no_content() }))
        } else {
            Err(size_error(k, pl.len()))
        },
        PacketId::ClientUpload => parse_upload(pl),
        PacketId::Notify => if pl.len() != 3 {
            Err(size_error(k, pl.len()))
        } else if role_of_byte(pl[0]) is None {
            Err(malformed(k))
        } else {
            Ok(parsed(Some(be16(pl[1], pl[2])), Content { role: role_of_byte(pl[0]), ..no_content() }))
        },
        _ => Ok(parsed(None, no_content())),
    }
}

/// A packet as a value: its kind, the addresses it came from and goes to,
/// its payload and the fields decoded from it.
pub struct PacketView {
    pub packet_id: PacketId,
    pub addr_sender: Option<Address>,
    pub addr_rcv: Option<Address>,
    pub payload: Option<Seq<u8>>,
    pub content: Content,
}

/// The payload bytes that are sent: none stands for an empty payload.
pub open spec fn sent_payload(p: PacketView) -> Seq<u8> {
    match p.payload {
        Some(pl) => pl,
        None => Seq::empty(),
    }
}

/// The bytes that carry a packet: its kind byte, the payload length as a
/// big-endian `u32`, then the payload.
pub open spec fn encode(p: PacketView) -> Seq<u8> {
    let pl = sent_payload(p);
    seq![kind_byte(p.packet_id)] + be32_bytes(pl.len() as u32) + pl
}

/// The packet of kind `k` with payload `pl`, received from `peer`, that
/// holds what `f` says: a listen port in the payload stands for the port of
/// the sender.
pub open spec fn assemble(k: PacketId, peer: Address, pl: Seq<u8>, f: Parsed) -> PacketView {
    PacketView {
        packet_id: k,
        addr_sender: Some(
            match f.listen_port {
                Some(port) => Address { ip: peer.ip, port },
                None => peer,
            },
        ),
        addr_rcv: None,
        payload: Some(pl),
        content: f.content,
    }
}

/// The packet of kind `k` with payload `pl`, received from `peer`; or why
/// the payload does not fit the schema of `k`.
pub open spec fn decode_payload(k: PacketId, pl: Seq<u8>, peer: Address) -> Result<
    PacketView,
    ParseError,
> {
    match parse_payload(k, pl) {
        Err(e) => Err(e),
        Ok(f) => Ok(assemble(k, peer, pl, f)),
    }
}

/// The packet that `bytes`, received from `peer`, hold; or why they hold none.
pub open spec fn decode(bytes: Seq<u8>, peer: Address) -> Result<PacketView, ParseError> {
    if bytes.len() < 5 {
        Err(
            ParseError {
                header_size: Some(bytes.len() as usize),
                ..bare_error(ParseErrorCode::IncorrectMinimumHeaderSize)
            },
        )
    } else if bytes[0] > MAX_PACKET_ID {
        Err(
            ParseError {
                packet_id_value: Some(bytes[0]),
                ..bare_error(ParseErrorCode::IncorrectPacketId)
            },
        )
    } else {
        let k = kind_of_byte(bytes[0]);
        let declared = be32(bytes.subrange(1, 5));
        if bytes.len() != 5 + declared {
            Err(
                ParseError {
                    packet_id: Some(k),
                    packet_size: Some(bytes.len() as usize),
                    payload_size: Some(declared as usize),
                    ..bare_error(ParseErrorCode::MismatchedPacketSize)
                },
            )
        } else {
            decode_payload(k, bytes.subrange(5, bytes.len() as int), peer)
        }
    }
}

impl PacketView {
    /// The payload is present, fits a header, follows the schema of the
    /// kind, and the decoded fields are what it holds.
    pub open spec fn well_formed(self) -> bool {
        &&& self.payload matches Some(pl)
        &&& pl.len() <= u32::MAX
        &&& parse_payload(self.packet_id, pl) matches Ok(f)
        &&& f.content == self.content
    }
}

/// A packet: its kind, the address it came from (set on receipt), the
/// address it goes to (set for sending), its payload, and the fields that
/// were decoded from the payload.
#[derive(Debug)]
pub struct Packet {
    pub packet_id: PacketId,
    pub addr_sender: Option<Address>,
    pub addr_rcv: Option<Address>,
    pub payload: Option<Vec<u8>>,
    pub addr_master: Option<Address>,
    pub addr_data: Option<Address>,
    pub role: Option<Role>,
    pub node_id: Option<String>,
    pub flag_read_write: Option<Action>,
    pub filename: Option<String>,
    pub binary: Option<Vec<u8>>,
}

pub open spec fn bytes_view(o: Option<Vec<u8>>) -> Option<Seq<u8>> {
    match o {
        Some(v) => Some(v@),
        None => None,
    }
}

pub open spec fn text_view(o: Option<String>) -> Option<Seq<char>> {
    match o {
        Some(s) => Some(s@),
        None => None,
    }
}

impl View for Packet {
    type V = PacketView;

    open spec fn view(&self) -> PacketView {
        PacketView {
            packet_id: self.packet_id,
            addr_sender: self.addr_sender,
            addr_rcv: self.addr_rcv,
            payload: bytes_view(self.payload),
            content: Content {
                addr_master: self.addr_master,
                addr_data: self.addr_data,
                role: self.role,
                node_id: text_view(self.node_id),
                flag_read_write: self.flag_read_write,
                filename: text_view(self.filename),
                binary: bytes_view(self.binary),
            },
        }
    }
}

/// A packet of kind `k` with the given addresses and payload, and no
/// decoded fields.
pub open spec fn bare_packet(
    k: PacketId,
    addr_sender: Option<Address>,
    addr_rcv: Option<Address>,
    payload: Seq<u8>,
) -> PacketView {
    PacketView { packet_id: k, addr_sender, addr_rcv, payload: Some(payload), content: no_content() }
}

fn bare(k: PacketId, addr_sender: Option<Address>, addr_rcv: Option<Address>, payload: Vec<u8>) -> (r:
    Packet)
    ensures
        r@ == bare_packet(k, addr_sender, addr_rcv, payload@),
{
    Packet {
        packet_id: k,
        addr_sender,
        addr_rcv,
        payload: Some(payload),
        addr_master: None,
        addr_data: None,
        role: None,
        node_id: None,
        flag_read_write: None,
        filename: None,
        binary: None,
    }
}

fn push_be16(out: &mut Vec<u8>, v: u16)
    ensures
        final(out)@ == old(out)@ + be16_bytes(v),
{
    out.push((v / 256) as u8);
    out.push((v % 256) as u8);
    assert(final(out)@ =~= old(out)@ + be16_bytes(v));
}

fn push_address(out: &mut Vec<u8>, a: &Address)
    ensures
        final(out)@ == old(out)@ + address_bytes(*a),
{
    out.push(a.ip[0]);
    out.push(a.ip[1]);
    out.push(a.ip[2]);
    out.push(a.ip[3]);
    push_be16(out, a.port);
    assert(final(out)@ =~= old(out)@ + address_bytes(*a));
}

fn read_be16(b: &[u8], i: usize) -> (r: u16)
    requires
        i + 1 < b@.len(),
    ensures
        r == be16(b@[i as int], b@[i + 1]),
{
    (b[i] as u16) * 256 + b[i + 1] as u16
}

fn read_address(b: &[u8], i: usize) -> (r: Address)
    requires
        i + 5 < b@.len(),
    ensures
        r == address_at(b@, i as int),
{
    let r = Address { ip: [b[i], b[i + 1], b[i + 2], b[i + 3]], port: read_be16(b, i + 4) };
    assert(r.ip =~= address_at(b@, i as int).ip);
    r
}

/// The index of the first `||` in `b`.
fn find_delimiter(b: &[u8]) -> (r: Option<usize>)
    ensures
        match r {
            Some(i) => first_delimiter(b@, 0) == Some(i as int),
            None => first_delimiter(b@, 0) is None,
        },
        r matches Some(i) ==> i + 1 < b@.len(),
{
    let mut i: usize = 0;
    while i < b.len() && b.len() - i > 1
        invariant
            0 <= i <= b@.len(),
            first_delimiter(b@, 0) == first_delimiter(b@, i as int),
        decreases b@.len() - i,
    {
        if b[i] == BYTE_SEP_CHARACTER && b[i + 1] == BYTE_SEP_CHARACTER {
            return Some(i);
        }
        i += 1;
    }
    None
}

/// A string holding the characters of UTF-8 bytes, or `None`.
fn text_of(b: Vec<u8>) -> (r: Option<String>)
    ensures
        text_view(r) == utf8_text(b@),
{
    string_from_utf8(b)
}

/// The kind byte is a function of the kind with an inverse.
pub proof fn lemma_kind_byte_unique(k: PacketId, b: u8)
    requires
        kind_byte(k) == b,
    ensures
        kind_of_byte(b) == k,
{
    let c = kind_of_byte(b);
    assert(kind_byte(c) == b);
}

pub proof fn lemma_be32(v: u32)
    ensures
        be32(be32_bytes(v)) == v,
{
    let b = be32_bytes(v);
    assert(b[0] == (v / 16777216) as u8);
    assert(b[1] == (v / 65536 % 256) as u8);
    assert(b[2] == (v / 256 % 256) as u8);
    assert(b[3] == (v % 256) as u8);
    assert((v / 16777216) as u8 as u32 == v / 16777216) by (bit_vector);
    assert((v / 65536 % 256) as u8 as u32 == v / 65536 % 256) by (bit_vector);
    assert((v / 256 % 256) as u8 as u32 == v / 256 % 256) by (bit_vector);
    assert((v % 256) as u8 as u32 == v % 256) by (bit_vector);
    assert((v / 16777216) * 16777216 + (v / 65536 % 256) * 65536 + (v / 256 % 256) * 256 + v % 256
        == v) by (bit_vector);
}

pub proof fn lemma_be16(v: u16)
    ensures
        be16(be16_bytes(v)[0], be16_bytes(v)[1]) == v,
{
    assert((v / 256) as u8 as u16 == v / 256) by (bit_vector);
    assert((v % 256) as u8 as u16 == v % 256) by (bit_vector);
    assert((v / 256) * 256 + v % 256 == v) by (bit_vector);
}

impl Packet {
    /// A packet of the given kind and payload, with no addresses and no
    /// decoded fields.
    pub fn new(packet_id: PacketId, payload: Option<&[u8]>) -> (r: Packet)
        ensures
            r@ == (PacketView {
                packet_id,
                addr_sender: None,
                addr_rcv: None,
                payload: match payload {
                    Some(b) => Some(b@),
                    None => None,
                },
                content: no_content(),
            }),
    {
        let payload_field: Option<Vec<u8>> = match payload {
            Some(b) => {
                let mut v: Vec<u8> = Vec::new();
                append_bytes(&mut v, b);
                assert(v@ =~= b@);
                Some(v)
            },
            None => None,
        };
        Packet {
            packet_id,
            addr_sender: None,
            addr_rcv: None,
            payload: payload_field,
            addr_master: None,
            addr_data: None,
            role: None,
            node_id: None,
            flag_read_write: None,
            filename: None,
            binary: None,
        }
    }

    /// The bytes that carry this packet: header, then payload.
    pub fn to_bytes(&self) -> (r: Vec<u8>)
        requires
            sent_payload(self@).len() <= u32::MAX,
        ensures
            r@ == encode(self@),
    {
        let mut bytes: Vec<u8> = Vec::new();
        bytes.push(self.packet_id.to_u8());
        let payload_size: u32 = match &self.payload {
            Some(pl) => pl.len() as u32,
            None => 0,
        };
        bytes.push((payload_size / 16777216) as u8);
        bytes.push((payload_size / 65536 % 256) as u8);
        bytes.push((payload_size / 256 % 256) as u8);
        bytes.push((payload_size % 256) as u8);
        match &self.payload {
            Some(pl) => append_bytes(&mut bytes, pl.as_slice()),
            None => {},
        }
        assert(bytes@ =~= encode(self@));
        bytes
    }
}

pub open spec fn result_view(r: Result<Packet, ParseError>) -> Result<PacketView, ParseError> {
    match r {
        Ok(p) => Ok(p@),
        Err(e) => Err(e),
    }
}

/// Decodes a payload of kind `k` received from `peer`.
fn parse_payload_of(k: PacketId, pl: Vec<u8>, peer: Address) -> (r: Result<Packet, ParseError>)
    ensures
        result_view(r) == decode_payload(k, pl@, peer),
{
    let n = pl.len();
    let ghost plv = pl@;
    match k {
        PacketId::Default => Err(ParseError::incorrect_packet_id(0)),
        PacketId::Heartbeat => {
            if n == 0 {
                Ok(bare(k, Some(peer), None, pl))
            } else {
                Err(ParseError::incorrect_payload_size(k, n))
            }
        },
        PacketId::HeartbeatAck => {
            let node_id = text_of(copy_range(pl.as_slice(), 0, n));
            assert(pl@.subrange(0, n as int) =~= pl@);
            let mut p = bare(k, Some(peer), None, pl);
            p.node_id = node_id;
            Ok(p)
        },
        PacketId::AskIp => {
            if n == 2 {
                let port = read_be16(pl.as_slice(), 0);
                Ok(bare(k, Some(Address { ip: peer.ip, port }), None, pl))
            } else {
                Err(ParseError::incorrect_payload_size(k, n))
            }
        },
        PacketId::AskIpAck => {
            if n == 0 {
                Err(ParseError::unavailable_master_ip())
            } else if n == 6 {
                let a = read_address(pl.as_slice(), 0);
                let mut p = bare(k, Some(peer), None, pl);
                p.addr_master = Some(a);
                Ok(p)
            } else {
                Err(ParseError::incorrect_payload_size_ask_ip_ack(n))
            }
        },
        PacketId::RequestFromClient => {
            if n < 3 {
                return Err(ParseError::incorrect_payload_size(k, n));
            }
            let action = match Action::from_u8(pl[0]) {
                Some(a) => a,
                None => return Err(ParseError::malformed_payload(k)),
            };
            let filename = match text_of(copy_range(pl.as_slice(), 3, n)) {
                Some(f) => f,
                None => return Err(ParseError::malformed_payload(k)),
            };
            let port = read_be16(pl.as_slice(), 1);
            let mut p = bare(k, Some(Address { ip: peer.ip, port }), None, pl);
            p.flag_read_write = Some(action);
            p.filename = Some(filename);
            Ok(p)
        },
        PacketId::ResponseNodeIp => {
            if n == 6 {
                let a = read_address(pl.as_slice(), 0);
                let mut p = bare(k, Some(peer), None, pl);
                p.addr_data = Some(a);
                Ok(p)
            } else {
                Err(ParseError::incorrect_payload_size(k, n))
            }
        },
        PacketId::ClientUpload => {
            let i = match find_delimiter(pl.as_slice()) {
                Some(i) => i,
                None => return Err(ParseError::malformed_payload(k)),
            };
            if i + 2 == n {
                return Err(ParseError::malformed_payload(k));
            }
            let filename = match text_of(copy_range(pl.as_slice(), 0, i)) {
                Some(f) => f,
                None => return Err(ParseError::malformed_payload(k)),
            };
            let binary = copy_range(pl.as_slice(), i + 2, n);
            let mut p = bare(k, Some(peer), None, pl);
            p.filename = Some(filename);
            p.binary = Some(binary);
            Ok(p)
        },
        PacketId::Notify => {
            if n != 3 {
                return Err(ParseError::incorrect_payload_size(k, n));
            }
            let role = match Role::from_u8(pl[0]) {
                Some(r) => r,
                None => return Err(ParseError::malformed_payload(k)),
            };
            let port = read_be16(pl.as_slice(), 1);
            let mut p = bare(k, Some(Address { ip: peer.ip, port }), None, pl);
            p.role = Some(role);
            Ok(p)
        },
        _ => Ok(bare(k, Some(peer), None, pl)),
    }
}

impl Packet {
    /// Decodes the bytes of one connection, received from `addr_sender`.
    pub fn from_bytes(bytes: &[u8], addr_sender: Address) -> (r: Result<Packet, ParseError>)
        ensures
            result_view(r) == decode(bytes@, addr_sender),
    {
        let n = bytes.len();
        if n < SIZE_HEADER {
            return Err(ParseError::incorrect_min_header_size(n));
        }
        if bytes[0] > MAX_PACKET_ID {
            return Err(ParseError::incorrect_packet_id(bytes[0]));
        }
        let packet_id = PacketId::from_u8(bytes[0]);
        proof {
            lemma_kind_byte_unique(packet_id, bytes[0]);
        }
        let payload_size: u32 = (bytes[1] as u32) * 16777216 + (bytes[2] as u32) * 65536
            + (bytes[3] as u32) * 256 + bytes[4] as u32;
        assert(payload_size == be32(bytes@.subrange(1, 5)));
        if n - SIZE_HEADER != payload_size as usize {
            return Err(ParseError::mismatched_packet_size(packet_id, n, payload_size as usize));
        }
        let payload = copy_range(bytes, SIZE_HEADER, n);
        parse_payload_of(packet_id, payload, addr_sender)
    }
}

pub proof fn lemma_address_bytes(a: Address)
    ensures
        address_bytes(a).len() == 6,
        address_at(address_bytes(a), 0) == a,
{
    let b = address_bytes(a);
    lemma_be16(a.port);
    let c = address_at(b, 0);
    assert(c.ip[0] == a.ip[0] && c.ip[1] == a.ip[1] && c.ip[2] == a.ip[2] && c.ip[3] == a.ip[3]);
    assert(c.ip =~= a.ip);
}

/// No byte of `b` is `|`.
pub open spec fn no_bar(b: Seq<u8>) -> bool {
    forall|i: int| 0 <= i < b.len() ==> #[trigger] b[i] != BYTE_SEP_CHARACTER
}

proof fn lemma_first_delimiter_at(b: Seq<u8>, from: int, target: int)
    requires
        0 <= from <= target,
        target + 1 < b.len(),
        b[target] == BYTE_SEP_CHARACTER && b[target + 1] == BYTE_SEP_CHARACTER,
        forall|j: int| from <= j < target ==> #[trigger] b[j] != BYTE_SEP_CHARACTER,
    ensures
        first_delimiter(b, from) == Some(target),
    decreases target - from,
{
    if from < target {
        lemma_first_delimiter_at(b, from + 1, target);
    }
}

/// The payload of an upload: the file name, `||`, then the blob.
pub open spec fn upload_payload(name: Seq<char>, blob: Seq<u8>) -> Seq<u8> {
    encode_utf8(name) + seq![BYTE_SEP_CHARACTER, BYTE_SEP_CHARACTER] + blob
}

/// An upload whose name holds no `|` and whose blob is not empty is split
/// back into that name and that blob, whatever the blob holds.
pub proof fn lemma_upload_split(name: Seq<char>, blob: Seq<u8>)
    requires
        no_bar(encode_utf8(name)),
        blob.len() > 0,
    ensures
        parse_upload(upload_payload(name, blob)) == Ok::<Parsed, ParseError>(
            parsed(None, Content { filename: Some(name), binary: Some(blob), ..no_content() }),
        ),
{
    let e = encode_utf8(name);
    let pl = upload_payload(name, blob);
    let f = e.len() as int;
    assert(pl[f] == BYTE_SEP_CHARACTER && pl[f + 1] == BYTE_SEP_CHARACTER);
    assert forall|j: int| 0 <= j < f implies #[trigger] pl[j] != BYTE_SEP_CHARACTER by {
        assert(pl[j] == e[j]);
    }
    lemma_first_delimiter_at(pl, 0, f);
    assert(pl.subrange(0, f) =~= e);
    assert(pl.subrange(f + 2, pl.len() as int) =~= blob);
}

pub open spec fn heartbeat_view(to: Address) -> PacketView {
    bare_packet(PacketId::Heartbeat, None, Some(to), Seq::empty())
}

pub open spec fn heartbeat_ack_view(to: Address, current: Address) -> PacketView {
    PacketView {
        packet_id: PacketId::HeartbeatAck,
        addr_sender: None,
        addr_rcv: Some(to),
        payload: Some(encode_utf8(node_id_of(current))),
        content: Content { node_id: Some(node_id_of(current)), ..no_content() },
    }
}

pub open spec fn ask_ip_view(to: Address, port: u16) -> PacketView {
    bare_packet(PacketId::AskIp, None, Some(to), be16_bytes(port))
}

pub open spec fn ask_ip_ack_view(to: Address, master: Option<Address>) -> PacketView {
    PacketView {
        packet_id: PacketId::AskIpAck,
        addr_sender: None,
        addr_rcv: Some(to),
        payload: Some(
            match master {
                Some(m) => address_bytes(m),
                None => Seq::empty(),
            },
        ),
        content: Content { addr_master: master, ..no_content() },
    }
}

pub open spec fn request_view(action: Action, port: u16, filename: Seq<char>, to: Address) -> PacketView {
    PacketView {
        packet_id: PacketId::RequestFromClient,
        addr_sender: None,
        addr_rcv: Some(to),
        payload: Some(seq![action_byte(action)] + be16_bytes(port) + encode_utf8(filename)),
        content: Content { flag_read_write: Some(action), filename: Some(filename), ..no_content() },
    }
}

pub open spec fn response_node_ip_view(to: Address, data: Address) -> PacketView {
    PacketView {
        packet_id: PacketId::ResponseNodeIp,
        addr_sender: None,
        addr_rcv: Some(to),
        payload: Some(address_bytes(data)),
        content: Content { addr_data: Some(data), ..no_content() },
    }
}

pub open spec fn upload_view(to: Address, filename: Seq<char>, blob: Seq<u8>) -> PacketView {
    PacketView {
        packet_id: PacketId::ClientUpload,
        addr_sender: None,
        addr_rcv: Some(to),
        payload: Some(upload_payload(filename, blob)),
        content: Content { filename: Some(filename), binary: Some(blob), ..no_content() },
    }
}

pub open spec fn notify_view(to: Address, role: Role, current: Address) -> PacketView {
    PacketView {
        packet_id: PacketId::Notify,
        addr_sender: None,
        addr_rcv: Some(to),
        payload: Some(seq![role_byte(role)] + be16_bytes(current.port)),
        content: Content { role: Some(role), ..no_content() },
    }
}

impl Packet {
    /// A `Heartbeat` to `addr_receiver`.
    pub fn create_heartbeat(addr_receiver: Address) -> (r: Packet)
        ensures
            r@ == heartbeat_view(addr_receiver),
            r@.well_formed(),
    {
        bare(PacketId::Heartbeat, None, Some(addr_receiver), Vec::new())
    }

    /// A `HeartbeatAck` to `addr_receiver`, carrying the node identifier of
    /// `addr_current`.
    pub fn create_heartbeat_ack(addr_receiver: Address, addr_current: Address) -> (r: Packet)
        ensures
            r@ == heartbeat_ack_view(addr_receiver, addr_current),
            r@.well_formed(),
    {
        let node_id = addr_current.to_str();
        let payload = string_bytes(&node_id);
        let mut p = bare(PacketId::HeartbeatAck, None, Some(addr_receiver), payload);
        p.node_id = Some(node_id);
        proof {
            crate::address::lemma_node_id_ascii(addr_current);
            crate::address::lemma_node_id_len(addr_current);
        }
        p
    }

    /// An `AskIp` to `addr_receiver`, carrying the sender's listen port.
    pub fn create_ask_ip(addr_receiver: Address, port: u16) -> (r: Packet)
        ensures
            r@ == ask_ip_view(addr_receiver, port),
            r@.well_formed(),
    {
        let mut payload: Vec<u8> = Vec::new();
        push_be16(&mut payload, port);
        assert(payload@ =~= be16_bytes(port));
        bare(PacketId::AskIp, None, Some(addr_receiver), payload)
    }

    /// An `AskIpAck` to `addr_receiver`: the Master's address, or an empty
    /// payload when no Master is known.
    pub fn create_ask_ip_ack(addr_receiver: Address, addr_master: Option<Address>) -> (r: Packet)
        ensures
            r@ == ask_ip_ack_view(addr_receiver, addr_master),
            addr_master is Some ==> r@.well_formed(),
    {
        let mut payload: Vec<u8> = Vec::new();
        match &addr_master {
            Some(m) => {
                push_address(&mut payload, m);
                proof {
                    lemma_address_bytes(*m);
                }
            },
            None => {},
        }
        assert(payload@ =~= match addr_master {
            Some(m) => address_bytes(m),
            None => Seq::empty(),
        });
        let mut p = bare(PacketId::AskIpAck, None, Some(addr_receiver), payload);
        p.addr_master = addr_master;
        p
    }

    /// A `RequestFromClient` to `addr_receiver`: the action, the client's
    /// listen port and the file name.
    pub fn create_request_from_client(
        action: Action,
        port: u16,
        filename: &String,
        addr_receiver: Address,
    ) -> (r: Packet)
        ensures
            r@ == request_view(action, port, filename@, addr_receiver),
            encode_utf8(filename@).len() + 3 <= u32::MAX ==> r@.well_formed(),
    {
        let mut payload: Vec<u8> = Vec::new();
        payload.push(action.to_u8());
        push_be16(&mut payload, port);
        let name = string_bytes(filename);
        append_bytes(&mut payload, name.as_slice());
        let ghost pl = payload@;
        assert(pl =~= seq![action_byte(action)] + be16_bytes(port) + encode_utf8(filename@));
        assert(pl.subrange(3, pl.len() as int) =~= encode_utf8(filename@));
        proof {
            lemma_be16(port);
        }
        let mut p = bare(PacketId::RequestFromClient, None, Some(addr_receiver), payload);
        p.flag_read_write = Some(action);
        p.filename = Some(filename.clone());
        p
    }

    /// A `ResponseNodeIp` to `addr_receiver`, carrying the address of the
    /// Data node chosen to receive a file.
    pub fn create_response_node_ip(addr_receiver: Address, addr_data: Address) -> (r: Packet)
        ensures
            r@ == response_node_ip_view(addr_receiver, addr_data),
            r@.well_formed(),
    {
        let mut payload: Vec<u8> = Vec::new();
        push_address(&mut payload, &addr_data);
        assert(payload@ =~= address_bytes(addr_data));
        proof {
            lemma_address_bytes(addr_data);
        }
        let mut p = bare(PacketId::ResponseNodeIp, None, Some(addr_receiver), payload);
        p.addr_data = Some(addr_data);
        p
    }

    /// A `ClientUpload` to `addr_receiver`: the file name, `||`, then the blob.
    pub fn create_client_upload(addr_receiver: Address, filename: &String, binary: Vec<u8>) -> (r:
        Packet)
        ensures
            r@ == upload_view(addr_receiver, filename@, binary@),
            no_bar(encode_utf8(filename@)) && binary@.len() > 0 && upload_payload(
                filename@,
                binary@,
            ).len() <= u32::MAX ==> r@.well_formed(),
    {
        let mut payload = string_bytes(filename);
        payload.push(BYTE_SEP_CHARACTER);
        payload.push(BYTE_SEP_CHARACTER);
        append_bytes(&mut payload, binary.as_slice());
        assert(payload@ =~= upload_payload(filename@, binary@));
        proof {
            if no_bar(encode_utf8(filename@)) && binary@.len() > 0 {
                lemma_upload_split(filename@, binary@);
            }
        }
        let mut p = bare(PacketId::ClientUpload, None, Some(addr_receiver), payload);
        p.filename = Some(filename.clone());
        p.binary = Some(binary);
        p
    }

    /// A `Notify` to `addr_receiver`: the sender's role and listen port.
    pub fn create_notify(addr_receiver: Address, role: &Role, addr_current: Address) -> (r: Packet)
        ensures
            r@ == notify_view(addr_receiver, *role, addr_current),
            r@.well_formed(),
    {
        let mut payload: Vec<u8> = Vec::new();
        payload.push(role.to_u8());
        push_be16(&mut payload, addr_current.port);
        assert(payload@ =~= seq![role_byte(*role)] + be16_bytes(addr_current.port));
        let mut p = bare(PacketId::Notify, None, Some(addr_receiver), payload);
        p.role = Some(*role);
        p
    }
}

/// Decoding the bytes of a well-formed packet gives back its kind, its
/// payload and its decoded fields; only the sender's address comes from
/// the connection it arrived on.
pub proof fn lemma_decode_encode(p: PacketView, peer: Address)
    requires
        p.well_formed(),
    ensures
        decode(encode(p), peer) matches Ok(q) && q.packet_id == p.packet_id && q.payload
            == p.payload && q.content == p.content && q.addr_rcv is None,
{
    let pl = sent_payload(p);
    let b = encode(p);
    lemma_be32(pl.len() as u32);
    lemma_kind_byte_unique(p.packet_id, kind_byte(p.packet_id));
    assert(b.subrange(1, 5) =~= be32_bytes(pl.len() as u32));
    assert(b.subrange(5, b.len() as int) =~= pl);
}

/// The header of every packet: its first byte is the kind's byte, the next
/// four hold the payload length, and the whole is the header plus payload.
pub proof fn lemma_header(p: PacketView)
    requires
        sent_payload(p).len() <= u32::MAX,
    ensures
        encode(p)[0] == kind_byte(p.packet_id),
        be32(encode(p).subrange(1, 5)) == sent_payload(p).len(),
        encode(p).len() == SIZE_HEADER + sent_payload(p).len(),
        encode(p).subrange(5, encode(p).len() as int) == sent_payload(p),
{
    let pl = sent_payload(p);
    let b = encode(p);
    lemma_be32(pl.len() as u32);
    assert(b.subrange(1, 5) =~= be32_bytes(pl.len() as u32));
    assert(b.subrange(5, b.len() as int) =~= pl);
}

/// Kinds and header bytes up to `MAX_PACKET_ID` are in one-to-one correspondence.
pub proof fn lemma_kind_byte_bijective(k: PacketId, b: u8)
    ensures
        kind_byte(k) <= MAX_PACKET_ID,
        kind_of_byte(kind_byte(k)) == k,
        b <= MAX_PACKET_ID ==> kind_byte(kind_of_byte(b)) == b,
{
    lemma_kind_byte_unique(k, kind_byte(k));
    if b <= MAX_PACKET_ID {
        let c = PacketId::from_u8_spec(b);
        lemma_kind_byte_unique(c, b);
    }
}

/// A header whose first byte names no kind is refused with that byte.
pub proof fn lemma_unknown_kind(bytes: Seq<u8>, peer: Address)
    requires
        bytes.len() >= SIZE_HEADER,
        bytes[0] > MAX_PACKET_ID,
    ensures
        decode(bytes, peer) == Err::<PacketView, ParseError>(
            ParseError {
                packet_id_value: Some(bytes[0]),
                ..bare_error(ParseErrorCode::IncorrectPacketId)
            },
        ),
{
}

} // verus!
