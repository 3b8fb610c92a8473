use dfs_cluster::client::{Client, ClientStage, ClientStep};
use dfs_cluster::db::get_nodes_replication;
use dfs_cluster::nodes::{Effect, Node};
use dfs_cluster::{
    Action, Address, Args, Configs, FileInfoDB, FileInfoEntry, MissingArgument, NodeInfoDB, NodeInfoEntry,
    Packet, PacketId, Role,
};

const HOST: [u8; 4] = [127, 0, 0, 1];

fn file(name: &str, node: &str) -> FileInfoEntry {
    FileInfoEntry::initialize(String::from(name), false, String::from(node))
}

fn args(role: Role) -> Args {
    Args { role, port: 7200, dir_data: String::from("./data"), action: None, name: None, path: None }
}

fn configs(role: Role, port: u16) -> Configs {
    let mut a = args(role);
    a.port = port;
    Configs { ip_dns: HOST, port_dns: 6000, interval_heartbeat: 1, timeout_chan_wait: 1, args: a }
}

#[test]
fn node_upsert_keeps_one_row_per_node() {
    let mut db = NodeInfoDB::intialize();
    db.upsert(HOST, 7100, Role::Data, 100);
    db.upsert(HOST, 7101, Role::Data, 100);
    db.upsert(HOST, 7100, Role::Master, 50);
    assert_eq!(db.len(), 2);
    let rows = db.get_node_info(HOST, 7100);
    assert_eq!(rows.len(), 1);
    assert_eq!(rows[0].node_id, "127.0.0.1:7100");
    assert_eq!(rows[0].role, Role::Master);
    // A clock that went back does not move the stamp back.
    assert_eq!(rows[0].last_updated, Some(100));
    db.upsert(HOST, 7100, Role::Data, 300);
    assert_eq!(db.get_node_info(HOST, 7100)[0].last_updated, Some(300));
    assert_eq!(db.row(0).port, 7100);
    assert!(db.get_node_info(HOST, 9999).is_empty());
    let e = NodeInfoEntry::initialize(HOST, 1, Role::DNS);
    assert_eq!(e.node_id, "127.0.0.1:1");
    assert_eq!(e.last_updated, None);
}

#[test]
fn data_nodes_in_catalog_order() {
    let mut db = NodeInfoDB::intialize();
    db.upsert(HOST, 3, Role::Data, 1);
    db.upsert(HOST, 1, Role::Master, 1);
    db.upsert(HOST, 2, Role::Data, 1);
    let ports: Vec<u16> = db.get_data_nodes().iter().map(|e| e.port).collect();
    assert_eq!(ports, vec![3, 2]);
}

#[test]
fn file_upsert_overwrites_by_name() {
    let mut db = FileInfoDB::intialize();
    db.upsert(&file("a", "127.0.0.1:1"), 10);
    db.upsert(&file("b", "127.0.0.1:1"), 10);
    db.upsert(&file("a", "127.0.0.1:2"), 20);
    assert_eq!(db.len(), 2);
    let a = &db.get_file_info(&String::from("a"))[0];
    assert_eq!(a.node_id, "127.0.0.1:2");
    assert_eq!(a.last_updated, Some(20));
    assert!(db.get_file_info(&String::from("zzz")).is_empty());
    // Replaying an upsert changes nothing but the stamp.
    db.upsert(&file("a", "127.0.0.1:2"), 30);
    assert_eq!(db.len(), 2);
    assert_eq!(db.row(0).filename, "a");
    assert_eq!(db.row(0).node_id, "127.0.0.1:2");
    assert_eq!(db.row(0).last_updated, Some(30));
}

#[test]
fn least_loaded_first() {
    let mut nodes = NodeInfoDB::intialize();
    for p in [1u16, 2, 3, 4] {
        nodes.upsert(HOST, p, Role::Data, 0);
    }
    nodes.upsert(HOST, 9, Role::Master, 0);
    let mut files = FileInfoDB::intialize();
    files.upsert(&file("x", "127.0.0.1:1"), 0);
    files.upsert(&file("y", "127.0.0.1:1"), 0);
    files.upsert(&file("z", "127.0.0.1:3"), 0);
    files.upsert(&file("w", "127.0.0.1:9"), 0);
    let ports = |n: usize| -> Vec<u16> { get_nodes_replication(&nodes, &files, n).iter().map(|a| a.port).collect() };
    assert_eq!(ports(2), vec![2, 4]);
    assert_eq!(ports(3), vec![2, 4, 3]);
    assert_eq!(ports(10), vec![2, 4, 3, 1]);
    assert_eq!(ports(0), Vec::<u16>::new());
    let empty = NodeInfoDB::intialize();
    assert!(get_nodes_replication(&empty, &files, 2).is_empty());
}

#[test]
fn master_without_data_nodes_does_not_answer() {
    let mut master = Node::new(&configs(Role::Master, 7000), Role::Master);
    let request = Packet::create_request_from_client(Action::Write, 7200, &String::from("f"), Address::new(HOST, 7000));
    let q = Packet::from_bytes(&request.to_bytes(), Address::new(HOST, 40000)).unwrap();
    assert!(master.step_at(Some(q), 0).is_empty());
    let read = Packet::create_request_from_client(Action::Read, 7200, &String::from("f"), Address::new(HOST, 7000));
    let q = Packet::from_bytes(&read.to_bytes(), Address::new(HOST, 40000)).unwrap();
    master.node_info();
    assert!(master.step_at(Some(q), 0).is_empty());
}

#[test]
fn replayed_notify_changes_nothing_but_stamps() {
    let mut master = Node::new(&configs(Role::Master, 7000), Role::Master);
    let notify = Packet::create_notify(Address::new(HOST, 7000), &Role::Data, Address::new(HOST, 7100));
    let bytes = notify.to_bytes();
    master.step_at(Some(Packet::from_bytes(&bytes, Address::new(HOST, 40001)).unwrap()), 1_000);
    master.step_at(Some(Packet::from_bytes(&bytes, Address::new(HOST, 40002)).unwrap()), 1_500);
    assert_eq!(master.node_info().len(), 1);
    let row = master.node_info().row(0);
    assert_eq!(row.node_id, "127.0.0.1:7100");
    assert_eq!(row.last_updated, Some(1_500));
}

#[test]
fn master_saves_direct_uploads() {
    let mut master = Node::new(&configs(Role::Master, 7000), Role::Master);
    let up = Packet::create_client_upload(Address::new(HOST, 7000), &String::from("m.bin"), vec![4, 5]);
    let q = Packet::from_bytes(&up.to_bytes(), Address::new(HOST, 40003)).unwrap();
    let mut effects = master.step_at(Some(q), 10);
    match effects.remove(0) {
        Effect::SaveFile(name, blob) => {
            assert_eq!(name, "m.bin");
            assert_eq!(blob, vec![4, 5]);
            master.record_saved_file_at(name.clone(), 11);
            master.record_saved_file_at(name, 12);
        }
        other => panic!("expected a save, got {:?}", other),
    }
    let files = master.file_info();
    assert_eq!(files.len(), 1);
    assert_eq!(files.row(0).node_id, "127.0.0.1:7000");
    assert!(files.row(0).is_local);
    assert_eq!(files.row(0).last_updated, Some(12));
}

#[test]
fn clock_driven_step_and_save() {
    let mut master = Node::new(&configs(Role::Master, 7000), Role::Master);
    assert!(master.step(None).is_empty());
    master.record_saved_file(String::from("c.bin"));
    let stamp = master.file_info().row(0).last_updated.unwrap();
    assert!(stamp > 1_500_000_000_000);
    let mut dns = Node::new(&configs(Role::DNS, 6000), Role::DNS);
    dns.record_saved_file(String::from("ignored"));
    assert_eq!(dns.file_info().len(), 0);
}

#[test]
fn data_node_ignores_heartbeat_before_knowing_master() {
    let mut data = Node::new(&configs(Role::Data, 7100), Role::Data);
    let hb = Packet::create_heartbeat(Address::new(HOST, 7100));
    let q = Packet::from_bytes(&hb.to_bytes(), Address::new(HOST, 40004)).unwrap();
    assert!(data.step_at(Some(q), 0).is_empty());
    let dns = Node::new(&configs(Role::DNS, 6000), Role::DNS);
    assert!(dns.startup().is_empty());
    let ack = Packet::create_ask_ip_ack(Address::new(HOST, 7100), None);
    assert_eq!(ack.packet_id, PacketId::AskIpAck);
    assert_eq!(ack.payload, Some(vec![]));
}

#[test]
fn client_aborts_on_unexpected_reply() {
    let mut client = Client::new(&configs(Role::Client, 7200), String::from("f"), vec![1]);
    let ask = client.ask_master_ip();
    assert_eq!(ask.to_bytes(), vec![6, 0, 0, 0, 2, 0x1C, 0x20]);
    assert_eq!(client.stage(), ClientStage::AwaitMaster);
    let wrong = Packet::create_heartbeat(Address::new(HOST, 7200));
    let q = Packet::from_bytes(&wrong.to_bytes(), Address::new(HOST, 6000)).unwrap();
    assert!(matches!(client.on_reply(Some(Ok(q))), ClientStep::Abort));
    let mut late = Client::new(&configs(Role::Client, 7200), String::from("f"), vec![1]);
    late.ask_master_ip();
    assert!(matches!(late.on_reply(None), ClientStep::Abort));
    assert_eq!(late.stage(), ClientStage::Failed);
}

#[test]
fn client_arguments() {
    let mut a = args(Role::Client);
    assert_eq!(a.missing_client_argument(), Some(MissingArgument::Action));
    a.action = Some(Action::Write);
    assert_eq!(a.missing_client_argument(), Some(MissingArgument::Name));
    a.name = Some(String::from("n"));
    assert_eq!(a.missing_client_argument(), Some(MissingArgument::Path));
    a.path = Some(String::from("p"));
    assert_eq!(a.missing_client_argument(), None);
    assert_eq!(args(Role::Data).missing_client_argument(), None);
    let c = configs(Role::DNS, 1234);
    assert_eq!(c.listen_port(Role::DNS), 6000);
    assert_eq!(c.listen_port(Role::Data), 1234);
    assert_eq!(c.addr_dns(), Address::new(HOST, 6000));
}
