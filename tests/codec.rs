use dfs_cluster::address::{conv_addr2id, conv_id2addr, parse_node_id_bytes};
use dfs_cluster::packets::MAX_PACKET_ID;
use dfs_cluster::{Action, Address, Packet, PacketId, ParseError, ParseErrorCode, Role};

fn peer() -> Address {
    Address::new([10, 0, 0, 9], 40000)
}

fn header(kind: u8, payload: &[u8]) -> Vec<u8> {
    let mut b = vec![kind];
    b.extend_from_slice(&(payload.len() as u32).to_be_bytes());
    b.extend_from_slice(payload);
    b
}

#[test]
fn node_id_is_dotted_quad_and_port() {
    assert_eq!(conv_addr2id(&[127, 0, 0, 1], 7100), "127.0.0.1:7100");
    assert_eq!(conv_addr2id(&[0, 0, 0, 0], 0), "0.0.0.0:0");
    assert_eq!(conv_addr2id(&[255, 255, 255, 255], 65535), "255.255.255.255:65535");
    assert_eq!(Address::new([192, 168, 10, 20], 80).to_str(), "192.168.10.20:80");
}

#[test]
fn node_id_parses_back() {
    for (ip, port) in [([127, 0, 0, 1], 7100u16), ([0, 0, 0, 0], 0), ([255, 9, 10, 100], 65535)] {
        let id = conv_addr2id(&ip, port);
        assert_eq!(conv_id2addr(id), Ok(Address::new(ip, port)));
    }
}

#[test]
fn node_id_refuses_other_text() {
    for bad in [
        "", "127.0.0.1", "127.0.0.1:", "127.0.0:7100", "256.0.0.1:1", "1.2.3.4:65536",
        "01.2.3.4:5", "1.2.3.4:07", "1.2.3.4:5x", " 1.2.3.4:5", "1.2.3.4.5:6", "a.b.c.d:1",
    ] {
        assert_eq!(conv_id2addr(String::from(bad)), Err(()), "{bad}");
    }
    assert_eq!(parse_node_id_bytes(b"9.8.7.6:54321"), Some(Address::new([9, 8, 7, 6], 54321)));
}

#[test]
fn kind_bytes_follow_the_table() {
    let kinds = [
        PacketId::Default,
        PacketId::Heartbeat,
        PacketId::HeartbeatAck,
        PacketId::RequestSendReplica,
        PacketId::SendReplica,
        PacketId::SendReplicaAck,
        PacketId::AskIp,
        PacketId::AskIpAck,
        PacketId::RequestFromClient,
        PacketId::ResponseNodeIp,
        PacketId::ClientUpload,
        PacketId::DataNodeSendData,
        PacketId::ClientRequestAck,
        PacketId::StateSync,
        PacketId::StateSyncAck,
        PacketId::Notify,
    ];
    assert_eq!(MAX_PACKET_ID, 15);
    for (i, k) in kinds.iter().enumerate() {
        assert_eq!(k.to_u8(), i as u8);
        assert_eq!(PacketId::from_u8(i as u8), *k);
    }
}

#[test]
fn role_and_action_bytes() {
    assert_eq!(Role::Default.to_u8(), 0);
    assert_eq!(Role::Master.to_u8(), 1);
    assert_eq!(Role::Data.to_u8(), 2);
    assert_eq!(Role::DNS.to_u8(), 3);
    assert_eq!(Role::Client.to_u8(), 4);
    assert_eq!(Role::from_u8(2), Some(Role::Data));
    assert_eq!(Role::from_u8(5), None);
    assert_eq!(Action::Read.to_u8(), 0);
    assert_eq!(Action::from_u8(1), Some(Action::Write));
    assert_eq!(Action::from_u8(2), None);
}

#[test]
fn names_parse_in_any_case() {
    assert_eq!(Role::from_name("MASTER"), Some(Role::Master));
    assert_eq!(Role::from_name("Dns"), Some(Role::DNS));
    assert_eq!(Role::from_name("data"), Some(Role::Data));
    assert_eq!(Role::from_name("cLiEnT"), Some(Role::Client));
    assert_eq!(Role::from_name("default"), None);
    assert_eq!(Role::from_lowered("MASTER"), None);
    assert_eq!(Action::from_name("WRITE"), Some(Action::Write));
    assert_eq!(Action::from_name("Read"), Some(Action::Read));
    assert_eq!(Action::from_name("delete"), None);
}

#[test]
fn header_layout() {
    let p = Packet::create_notify(peer(), &Role::Master, Address::new([127, 0, 0, 1], 7000));
    let b = p.to_bytes();
    assert_eq!(b, vec![15, 0, 0, 0, 3, 1, 0x1B, 0x58]);
    let big = Packet::new(PacketId::StateSync, Some(&[7u8; 300]));
    let b = big.to_bytes();
    assert_eq!(&b[..5], &[13, 0, 0, 1, 44]);
    assert_eq!(b.len(), 5 + 300);
    assert_eq!(Packet::new(PacketId::Heartbeat, None).to_bytes(), vec![1, 0, 0, 0, 0]);
}

#[test]
fn round_trip_of_every_schema() {
    let me = Address::new([127, 0, 0, 1], 7100);
    let to = Address::new([127, 0, 0, 1], 6000);
    let packets = vec![
        Packet::create_heartbeat(to),
        Packet::create_heartbeat_ack(to, me),
        Packet::create_ask_ip(to, 7100),
        Packet::create_ask_ip_ack(to, Some(Address::new([1, 2, 3, 4], 5))),
        Packet::create_request_from_client(Action::Write, 7200, &String::from("héllo.bin"), to),
        Packet::create_response_node_ip(to, me),
        Packet::create_client_upload(to, &String::from("f"), vec![0, 255, 124]),
        Packet::create_notify(to, &Role::Data, me),
        Packet::new(PacketId::SendReplica, Some(&[9, 9])),
    ];
    for p in packets {
        let q = Packet::from_bytes(&p.to_bytes(), peer()).unwrap();
        assert_eq!(q.packet_id, p.packet_id);
        assert_eq!(q.payload, p.payload);
        assert_eq!(q.addr_master, p.addr_master);
        assert_eq!(q.addr_data, p.addr_data);
        assert_eq!(q.role, p.role);
        assert_eq!(q.node_id, p.node_id);
        assert_eq!(q.flag_read_write, p.flag_read_write);
        assert_eq!(q.filename, p.filename);
        assert_eq!(q.binary, p.binary);
        assert_eq!(q.addr_rcv, None);
    }
}

#[test]
fn listen_port_replaces_source_port() {
    let to = Address::new([127, 0, 0, 1], 7000);
    let q = Packet::from_bytes(&Packet::create_notify(to, &Role::Data, Address::new([127, 0, 0, 1], 7100)).to_bytes(), peer())
        .unwrap();
    assert_eq!(q.addr_sender, Some(Address::new([10, 0, 0, 9], 7100)));
    let q = Packet::from_bytes(&Packet::create_request_from_client(Action::Read, 7201, &String::from("x"), to).to_bytes(), peer())
        .unwrap();
    assert_eq!(q.addr_sender, Some(Address::new([10, 0, 0, 9], 7201)));
    assert_eq!(q.flag_read_write, Some(Action::Read));
    let q = Packet::from_bytes(&Packet::create_heartbeat(to).to_bytes(), peer()).unwrap();
    assert_eq!(q.addr_sender, Some(peer()));
}

fn code_of(bytes: &[u8]) -> ParseError {
    Packet::from_bytes(bytes, peer()).unwrap_err()
}

#[test]
fn header_errors() {
    let e = code_of(&[1, 0, 0]);
    assert_eq!(e, ParseError::incorrect_min_header_size(3));
    assert_eq!(code_of(&[]).header_size, Some(0));
    let e = code_of(&[16, 0, 0, 0, 0]);
    assert_eq!(e.error_code, ParseErrorCode::IncorrectPacketId);
    assert_eq!(e.packet_id_value, Some(16));
    assert_eq!(code_of(&[200, 0, 0, 0, 0]).packet_id_value, Some(200));
    let e = code_of(&[1, 0, 0, 0, 2, 9]);
    assert_eq!(e, ParseError::mismatched_packet_size(PacketId::Heartbeat, 6, 2));
    let e = code_of(&[1, 0, 0, 0, 0, 9]);
    assert_eq!(e.error_code, ParseErrorCode::MismatchedPacketSize);
    assert_eq!(e.payload_size, Some(0));
    let e = code_of(&[0, 0, 0, 0, 0]);
    assert_eq!(e, ParseError::incorrect_packet_id(0));
}

#[test]
fn payload_errors() {
    assert_eq!(code_of(&header(1, &[5])), ParseError::incorrect_payload_size(PacketId::Heartbeat, 1));
    assert_eq!(code_of(&header(6, &[1, 2, 3])), ParseError::incorrect_payload_size(PacketId::AskIp, 3));
    assert_eq!(code_of(&header(7, &[])), ParseError::unavailable_master_ip());
    assert_eq!(code_of(&header(7, &[1, 2, 3])), ParseError::incorrect_payload_size_ask_ip_ack(3));
    assert_eq!(code_of(&header(8, &[1, 0])), ParseError::incorrect_payload_size(PacketId::RequestFromClient, 2));
    assert_eq!(code_of(&header(8, &[2, 0, 1, b'a'])), ParseError::malformed_payload(PacketId::RequestFromClient));
    assert_eq!(code_of(&header(8, &[1, 0, 1, 0xFF])), ParseError::malformed_payload(PacketId::RequestFromClient));
    assert_eq!(code_of(&header(9, &[1, 2, 3, 4, 5])), ParseError::incorrect_payload_size(PacketId::ResponseNodeIp, 5));
    assert_eq!(code_of(&header(10, b"name|blob")), ParseError::malformed_payload(PacketId::ClientUpload));
    assert_eq!(code_of(&header(10, b"name||")), ParseError::malformed_payload(PacketId::ClientUpload));
    assert_eq!(code_of(&header(10, &[0xFF, b'|', b'|', 1])), ParseError::malformed_payload(PacketId::ClientUpload));
    assert_eq!(code_of(&header(15, &[1, 2])), ParseError::incorrect_payload_size(PacketId::Notify, 2));
    assert_eq!(code_of(&header(15, &[5, 0, 1])), ParseError::malformed_payload(PacketId::Notify));
    assert_eq!(ParseError::stream_reading_err().error_code, ParseErrorCode::StreamReadError);
}

#[test]
fn payload_fields() {
    let q = Packet::from_bytes(&header(7, &[0x7F, 0, 0, 1, 0x1B, 0x58]), peer()).unwrap();
    assert_eq!(q.addr_master, Some(Address::new([127, 0, 0, 1], 7000)));
    let q = Packet::from_bytes(&header(9, &[10, 1, 2, 3, 0, 80]), peer()).unwrap();
    assert_eq!(q.addr_data, Some(Address::new([10, 1, 2, 3], 80)));
    let q = Packet::from_bytes(&header(15, &[0, 0x1B, 0x58]), peer()).unwrap();
    assert_eq!(q.role, Some(Role::Default));
    let q = Packet::from_bytes(&header(2, b"1.2.3.4:5"), peer()).unwrap();
    assert_eq!(q.node_id.as_deref(), Some("1.2.3.4:5"));
    let q = Packet::from_bytes(&header(2, &[0xC3, 0x28]), peer()).unwrap();
    assert_eq!(q.node_id, None);
    let q = Packet::from_bytes(&header(10, b"a|b||c||d"), peer()).unwrap();
    assert_eq!(q.filename.as_deref(), Some("a|b"));
    assert_eq!(q.binary, Some(b"c||d".to_vec()));
    let q = Packet::from_bytes(&header(8, &[1, 0x1C, 0x20, b'h', b'i']), peer()).unwrap();
    assert_eq!(q.filename.as_deref(), Some("hi"));
    assert_eq!(q.flag_read_write, Some(Action::Write));
    assert_eq!(q.addr_sender, Some(Address::new([10, 0, 0, 9], 7200)));
    let q = Packet::from_bytes(&header(13, &[1, 2, 3]), peer()).unwrap();
    assert_eq!(q.packet_id, PacketId::StateSync);
    assert_eq!(q.payload, Some(vec![1, 2, 3]));
}
