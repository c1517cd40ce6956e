use bytes::Bytes;

use rhdfs::error::HdfsError;
use rhdfs::get::{get_part_stream, get_stream, resolve_read, Get, NetEvent, PendingRead, SourceAction, MAX_FILE_LENGTH};
use rhdfs::messages::{
    DatanodeId, DatanodeRecord, ExtendedBlock, GetBlockLocationsResponse, LocatedBlockRecord, LocatedBlocks,
    NameNodeRequest, NameNodeResponse, Request, Response, Token,
};

fn record(id: u64, offset: u64, n: u64, port: u32, corrupt: bool) -> LocatedBlockRecord {
    LocatedBlockRecord {
        b: ExtendedBlock { pool_id: "BP-1".to_owned(), block_id: id, generation_stamp: 1001, num_bytes: n },
        offset,
        locs: vec![DatanodeRecord {
            id: DatanodeId {
                ip_addr: "192.168.1.7".to_owned(),
                host_name: "dn7".to_owned(),
                datanode_uuid: "u-7".to_owned(),
                xfer_port: port,
                info_port: 50075,
                ipc_port: 50020,
            },
        }],
        corrupt,
        block_token: Token { identifier: vec![], password: vec![], kind: String::new(), service: String::new() },
    }
}

fn locations(file_length: u64, blocks: Vec<LocatedBlockRecord>) -> NetEvent {
    NetEvent::Incoming(Response::NameNode(NameNodeResponse::GetBlockLocations(GetBlockLocationsResponse {
        locations: LocatedBlocks { file_length, blocks },
    })))
}

fn is_empty_action(a: &SourceAction) -> bool {
    a.send.is_none() && a.connect.is_none() && a.deliver.is_none() && a.error.is_none() && !a.eos && !a.recv
}

#[test]
fn whole_file_stream_reads_from_zero_to_max_length() {
    let g = get_stream("/f".to_owned());
    assert_eq!(g.src, "/f");
    assert_eq!(g.fsm.read_offset, 0);
    assert_eq!(g.fsm.max_read_offset, MAX_FILE_LENGTH);
    assert_eq!(MAX_FILE_LENGTH, i64::MAX as u64);
    let p = get_part_stream("/g".to_owned(), 7, 9);
    assert_eq!((p.src.as_str(), p.fsm.read_offset, p.fsm.max_read_offset), ("/g", 7, 9));
}

#[test]
fn init_asks_namenode_and_waits() {
    let mut g = Get::new("/data/f".to_owned(), 0, MAX_FILE_LENGTH);
    let a = g.handle_n(NetEvent::Init);
    assert!(a.recv);
    match a.send {
        Some(Request::NameNode(NameNodeRequest::GetBlockLocations(q))) => {
            assert_eq!((q.src.as_str(), q.offset, q.length), ("/data/f", 0, MAX_FILE_LENGTH));
        }
        other => panic!("{:?}", other),
    }
}

#[test]
fn whole_transfer_of_a_small_file() {
    let mut g = get_stream("/f".to_owned());
    let _ = g.handle_n(NetEvent::Init);
    let a = g.handle_n(locations(6, vec![record(42, 0, 6, 50010, false)]));
    assert_eq!(g.fsm.max_read_offset, 6);
    assert!(a.send.is_none() && a.error.is_none());
    let p = a.connect.expect("a read to send");
    assert_eq!((p.ip.as_str(), p.port), ("192.168.1.7", 50010));
    assert_eq!((p.op.b.block_id, p.op.offset, p.op.len), (42, 0, 6));
    let r = resolve_read(p, Some(vec![192, 168, 1, 7]));
    assert!(r.error.is_none() && r.connect.is_none());
    match r.send {
        Some(Request::DataNode(addr, rb)) => {
            assert_eq!((addr.ip.clone(), addr.port), (vec![192u8, 168, 1, 7], 50010));
            assert_eq!((rb.b.block_id, rb.offset, rb.len), (42, 0, 6));
        }
        other => panic!("{:?}", other),
    }
    let a = g.handle_n(NetEvent::Incoming(Response::Data(Bytes::from(vec![1u8, 2, 3, 4]))));
    assert_eq!(a.deliver.as_ref().map(|b| b.to_vec()), Some(vec![1u8, 2, 3, 4]));
    assert!(a.send.is_none() && a.error.is_none() && !a.eos);
    assert_eq!(g.fsm.read_offset, 4);
    let a = g.handle_n(NetEvent::Incoming(Response::Data(Bytes::from(vec![5u8, 6]))));
    assert_eq!(a.deliver.as_ref().map(|b| b.len()), Some(2));
    assert_eq!(g.fsm.read_offset, 6);
    let a = g.handle_n(NetEvent::Incoming(Response::Data(Bytes::new())));
    assert!(a.eos);
    assert!(a.deliver.is_none() && a.send.is_none());
}

#[test]
fn port_is_truncated_to_sixteen_bits() {
    let mut g = get_stream("/f".to_owned());
    let a = g.handle_n(locations(6, vec![record(1, 0, 6, 70000, false)]));
    assert_eq!(a.connect.expect("a read to send").port, 4464);
}

#[test]
fn corrupt_block_fails_and_still_lowers_range_end() {
    let mut g = get_stream("/f".to_owned());
    let a = g.handle_n(locations(30, vec![record(1, 0, 10, 1, false), record(2, 10, 10, 1, true), record(3, 20, 10, 1, true)]));
    match a.error {
        Some(HdfsError::CorruptBlock(b)) => assert_eq!(b.block_id, 2),
        other => panic!("{:?}", other),
    }
    assert!(a.send.is_none());
    assert_eq!(g.fsm.max_read_offset, 30);
    assert_eq!(g.fsm.q.len(), 0);
}

#[test]
fn translate_block_locations_keeps_order_and_replicas() {
    let mut g = get_stream("/f".to_owned());
    let r = g
        .translate_block_locations(GetBlockLocationsResponse {
            locations: LocatedBlocks { file_length: 20, blocks: vec![record(1, 0, 10, 1, false), record(2, 10, 10, 2, false)] },
        })
        .unwrap();
    assert_eq!(r.len(), 2);
    assert_eq!((r[0].o, r[0].b.block_id, r[1].o, r[1].b.block_id), (0, 1, 10, 2));
    assert_eq!(r[1].locs.len(), 1);
    assert_eq!(r[1].locs[0].inner.id.xfer_port, 2);
    assert_eq!(g.fsm.max_read_offset, 20);
}

#[test]
fn other_events() {
    let mut g = get_stream("/f".to_owned());
    assert!(is_empty_action(&g.handle_n(NetEvent::Idle)));
    assert!(matches!(g.handle_n(NetEvent::EndOfStream).error, Some(HdfsError::PrematureEof)));
    assert!(matches!(
        g.handle_n(NetEvent::Incoming(Response::Other("x".to_owned()))).error,
        Some(HdfsError::UnexpectedResponse(Response::Other(_)))
    ));
    // A transport failure before any block is located is passed on.
    assert!(matches!(
        g.handle_n(NetEvent::Error(HdfsError::Transport("t".to_owned()))).error,
        Some(HdfsError::Transport(_))
    ));
}

#[test]
fn empty_locations_reply_fails() {
    let mut g = get_stream("/f".to_owned());
    let a = g.handle_n(locations(0, vec![]));
    assert!(matches!(a.error, Some(HdfsError::EmptyBlockLocations)));
}

#[test]
fn source_action_builders() {
    let a = SourceAction::z().eos().recv(true);
    assert!(a.eos && a.recv && a.send.is_none());
    let a = SourceAction::z().deliver(Bytes::from(vec![7u8])).err(HdfsError::PrematureEof);
    assert_eq!(a.deliver.unwrap().to_vec(), vec![7u8]);
    assert!(matches!(a.error, Some(HdfsError::PrematureEof)));
}

#[test]
fn unparsable_datanode_address_fails_and_sends_nothing() {
    let mut g = get_stream("/f".to_owned());
    let mut rec = record(9, 0, 6, 50010, false);
    rec.locs[0].id.ip_addr = "x".to_owned();
    let a = g.handle_n(locations(6, vec![rec]));
    let p = a.connect.expect("a read to send");
    let r = resolve_read(p, None);
    assert!(r.send.is_none() && r.connect.is_none() && !r.eos);
    match r.error {
        Some(HdfsError::InvalidDatanodeIp(ip)) => assert_eq!(ip, "x"),
        other => panic!("{:?}", other),
    }
}

#[test]
fn resolve_read_sends_to_ipv6_address() {
    let p = PendingRead {
        ip: "::1".to_owned(),
        port: 9866,
        op: rhdfs::messages::ReadBlock {
            b: ExtendedBlock { pool_id: "p".to_owned(), block_id: 1, generation_stamp: 1, num_bytes: 3 },
            t: Token { identifier: vec![1], password: vec![2], kind: "k".to_owned(), service: "s".to_owned() },
            offset: 1,
            len: 2,
        },
    };
    let mut octets = vec![0u8; 15];
    octets.push(1);
    match resolve_read(p, Some(octets.clone())).send {
        Some(Request::DataNode(addr, rb)) => {
            assert_eq!((addr.ip, addr.port), (octets, 9866));
            assert_eq!((rb.offset, rb.len, rb.t.identifier), (1, 2, vec![1u8]));
        }
        other => panic!("{:?}", other),
    }
}

#[test]
fn data_fits_tests_the_read_position() {
    let g = get_part_stream("/f".to_owned(), u64::MAX - 2, u64::MAX);
    assert!(g.data_fits(&Bytes::from(vec![1u8, 2])));
    assert!(!g.data_fits(&Bytes::from(vec![1u8, 2, 3])));
    let g0 = get_stream("/f".to_owned());
    assert!(g0.data_fits(&Bytes::from(vec![0u8; 100])));
}

#[test]
fn position_is_start_plus_bytes_delivered() {
    let mut g = get_part_stream("/f".to_owned(), 2, 100);
    let mut delivered = 0u64;
    for ev in vec![
        NetEvent::Init,
        locations(9, vec![record(1, 0, 9, 1, false)]),
        NetEvent::Incoming(Response::Data(Bytes::from(vec![1u8; 3]))),
        NetEvent::Idle,
        NetEvent::Incoming(Response::Data(Bytes::from(vec![1u8; 4]))),
        NetEvent::Incoming(Response::Data(Bytes::new())),
    ] {
        let a = g.handle_n(ev);
        delivered += a.deliver.map(|b| b.len() as u64).unwrap_or(0);
        assert_eq!(g.fsm.read_offset, 2 + delivered);
    }
    assert_eq!(g.fsm.max_read_offset, 9);
}
