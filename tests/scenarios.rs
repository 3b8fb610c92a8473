use dfs_cluster::client::{Client, ClientStage, ClientStep};
use dfs_cluster::nodes::{Effect, Node};
use dfs_cluster::{Address, Args, Configs, Packet, PacketId, ParseErrorCode, Role};

const LOCALHOST: [u8; 4] = [127, 0, 0, 1];

fn configs(role: Role, port: u16) -> Configs {
    Configs {
        ip_dns: LOCALHOST,
        port_dns: 6000,
        interval_heartbeat: 2,
        timeout_chan_wait: 1,
        args: Args {
            role,
            port,
            dir_data: String::from("./data"),
            action: None,
            name: None,
            path: None,
        },
    }
}

fn at(port: u16) -> Address {
    Address::new(LOCALHOST, port)
}

/// Encodes a packet, then decodes it as received from `peer`.
fn deliver(p: &Packet, peer: Address) -> Packet {
    Packet::from_bytes(&p.to_bytes(), peer).expect("decodes")
}

fn sent(effects: Vec<Effect>) -> Vec<Packet> {
    effects
        .into_iter()
        .map(|e| match e {
            Effect::Send(p) => p,
            Effect::SaveFile(..) => panic!("unexpected save"),
        })
        .collect()
}

fn start_dns() -> Node {
    Node::new(&configs(Role::DNS, 6000), Role::DNS)
}

/// DNS and Master started, Master announced to DNS.
fn advertised() -> (Node, Node) {
    let mut dns = start_dns();
    let master = Node::new(&configs(Role::Master, 7000), Role::Master);
    let notify = master.startup().remove(0);
    let out = dns.step_at(Some(deliver(&notify, at(50001))), 1_000);
    assert!(out.is_empty());
    (dns, master)
}

/// DNS, Master and one Data node registered with the Master.
fn registered() -> (Node, Node, Node) {
    let (mut dns, mut master) = advertised();
    let mut data = Node::new(&configs(Role::Data, 7100), Role::Data);
    let ask = data.startup().remove(0);
    let ack = sent(dns.step_at(Some(deliver(&ask, at(50002))), 2_000)).remove(0);
    let notify = sent(data.step_at(Some(deliver(&ack, at(6000))), 2_000)).remove(0);
    let out = master.step_at(Some(deliver(&notify, at(50003))), 2_000);
    assert!(out.is_empty());
    (dns, master, data)
}

#[test]
fn discovery_without_master() {
    let mut dns = start_dns();
    let ask = Packet::create_ask_ip(at(6000), 7200);
    let bytes = ask.to_bytes();
    assert_eq!(bytes, vec![6, 0, 0, 0, 2, 0x1C, 0x20]);
    let received = Packet::from_bytes(&bytes, at(49152)).unwrap();
    assert_eq!(received.addr_sender, Some(at(7200)));
    let reply = sent(dns.step_at(Some(received), 1_000)).remove(0);
    assert_eq!(reply.packet_id, PacketId::AskIpAck);
    assert_eq!(reply.addr_rcv, Some(at(7200)));
    let reply_bytes = reply.to_bytes();
    assert_eq!(reply_bytes, vec![7, 0, 0, 0, 0]);
    let err = Packet::from_bytes(&reply_bytes, at(6000)).unwrap_err();
    assert_eq!(err.error_code, ParseErrorCode::UnavailableMasterAddress);

    let mut client = Client::new(&configs(Role::Client, 7200), String::from("hello.bin"), vec![1, 2, 3]);
    let _ = client.ask_master_ip();
    let step = client.on_reply(Some(Err(err)));
    assert!(matches!(step, ClientStep::Abort));
    assert_eq!(client.stage(), ClientStage::Failed);
}

#[test]
fn master_advertises_itself() {
    let mut dns = start_dns();
    let master = Node::new(&configs(Role::Master, 7000), Role::Master);
    let first = master.startup();
    assert_eq!(first.len(), 1);
    let notify = &first[0];
    assert_eq!(notify.packet_id, PacketId::Notify);
    assert_eq!(notify.addr_rcv, Some(at(6000)));
    assert_eq!(notify.payload, Some(vec![1, 0x1B, 0x58]));
    dns.step_at(Some(deliver(notify, at(50001))), 1_000);
    assert_eq!(dns.addr_master(), Some(at(7000)));
}

#[test]
fn data_registration() {
    let (mut dns, mut master) = advertised();
    let mut data = Node::new(&configs(Role::Data, 7100), Role::Data);
    let ask = data.startup().remove(0);
    assert_eq!(ask.packet_id, PacketId::AskIp);
    assert_eq!(ask.addr_rcv, Some(at(6000)));
    let ack = sent(dns.step_at(Some(deliver(&ask, at(50002))), 2_000)).remove(0);
    assert_eq!(ack.addr_rcv, Some(at(7100)));
    assert_eq!(ack.payload, Some(vec![0x7F, 0x00, 0x00, 0x01, 0x1B, 0x58]));
    let notify = sent(data.step_at(Some(deliver(&ack, at(6000))), 2_000)).remove(0);
    assert_eq!(data.addr_master(), Some(at(7000)));
    assert_eq!(notify.packet_id, PacketId::Notify);
    assert_eq!(notify.addr_rcv, Some(at(7000)));
    master.step_at(Some(deliver(&notify, at(50003))), 2_000);
    let catalog = master.node_info();
    assert_eq!(catalog.len(), 1);
    let row = catalog.row(0);
    assert_eq!(row.node_id, "127.0.0.1:7100");
    assert_eq!(row.role, Role::Data);
}

#[test]
fn heartbeat_round() {
    let (_dns, mut master, mut data) = registered();
    // The clock started when the Data node registered at 2 s; with an
    // interval of 2 s a beat is due from 4 s on.
    assert!(master.step_at(None, 3_000).is_empty());
    assert!(master.step_at(None, 3_999).is_empty());
    let beats = sent(master.step_at(None, 4_000));
    assert_eq!(beats.len(), 1);
    assert_eq!(beats[0].addr_rcv, Some(at(7100)));
    assert_eq!(beats[0].to_bytes(), vec![1, 0, 0, 0, 0]);

    let before = master.node_info().get_node_info(LOCALHOST, 7100)[0].last_updated.unwrap();
    assert!(master.step_at(None, 5_000).is_empty());
    let ack = sent(data.step_at(Some(deliver(&beats[0], at(50004))), 4_000)).remove(0);
    assert_eq!(ack.packet_id, PacketId::HeartbeatAck);
    assert_eq!(ack.addr_rcv, Some(at(7000)));
    assert_eq!(ack.payload, Some(b"127.0.0.1:7100".to_vec()));
    master.step_at(Some(deliver(&ack, at(50005))), 4_500);
    let after = master.node_info().get_node_info(LOCALHOST, 7100)[0].last_updated.unwrap();
    assert!(after > before);
    assert_eq!(after, 4_500);
    assert_eq!(master.node_info().len(), 1);
}

#[test]
fn write_routing() {
    let (_dns, mut master, mut data) = registered();
    let name = String::from("hello.bin");
    let payload_bytes: Vec<u8> = vec![0xDE, 0xAD, 0xBE, 0xEF, 0x00, 0x42];
    let mut client = Client::new(&configs(Role::Client, 7200), name.clone(), payload_bytes.clone());
    let _ask = client.ask_master_ip();
    let ack = Packet::create_ask_ip_ack(at(7200), Some(at(7000)));
    let request = match client.on_reply(Some(Ok(deliver(&ack, at(6000))))) {
        ClientStep::Send(p) => p,
        other => panic!("expected a request, got {:?}", other),
    };
    assert_eq!(request.packet_id, PacketId::RequestFromClient);
    assert_eq!(request.addr_rcv, Some(at(7000)));

    let response = sent(master.step_at(Some(deliver(&request, at(50006))), 3_000)).remove(0);
    assert_eq!(response.packet_id, PacketId::ResponseNodeIp);
    assert_eq!(response.addr_rcv, Some(at(7200)));
    // Port 7100, big-endian, is 0x1B 0xBC.
    assert_eq!(response.payload, Some(vec![0x7F, 0x00, 0x00, 0x01, 0x1B, 0xBC]));

    let upload = match client.on_reply(Some(Ok(deliver(&response, at(7000))))) {
        ClientStep::Finish(p) => p,
        other => panic!("expected the upload, got {:?}", other),
    };
    assert_eq!(client.stage(), ClientStage::Done);
    assert_eq!(upload.addr_rcv, Some(at(7100)));

    let mut effects = data.step_at(Some(deliver(&upload, at(50007))), 3_000);
    assert_eq!(effects.len(), 1);
    match effects.remove(0) {
        Effect::SaveFile(f, blob) => {
            assert_eq!(f, "hello.bin");
            assert_eq!(blob, payload_bytes);
            data.record_saved_file_at(f, 3_100);
        }
        other => panic!("expected a save, got {:?}", other),
    }
    let files = data.file_info();
    assert_eq!(files.len(), 1);
    let row = &files.get_file_info(&name)[0];
    assert_eq!(row.filename, "hello.bin");
    assert!(row.is_local);
    assert_eq!(row.node_id, "127.0.0.1:7100");
}

#[test]
fn upload_blob_with_delimiter() {
    let blob = vec![1, 0x7C, 0x7C, 2, 0x7C, 0x7C, 0x7C, 3];
    let upload = Packet::create_client_upload(at(7100), &String::from("a.bin"), blob.clone());
    let mut expected = b"a.bin||".to_vec();
    expected.extend_from_slice(&blob);
    assert_eq!(upload.payload, Some(expected));
    let received = deliver(&upload, at(50008));
    assert_eq!(received.filename.as_deref(), Some("a.bin"));
    assert_eq!(received.binary, Some(blob));
}
