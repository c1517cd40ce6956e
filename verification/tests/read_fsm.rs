use std::collections::VecDeque;

use rhdfs::datanode::DatanodeInfo;
use rhdfs::error::HdfsError;
use rhdfs::messages::{DatanodeId, DatanodeRecord, ExtendedBlock, Token};
use rhdfs::read_fsm::{GetFsm, GetFsmAction, GetFsmEvent, LocatedBlock};

fn dn(name: &str) -> DatanodeInfo {
    DatanodeInfo {
        inner: DatanodeRecord {
            id: DatanodeId {
                ip_addr: format!("10.0.0.{}", name.len()),
                host_name: name.to_owned(),
                datanode_uuid: format!("uuid-{}", name),
                xfer_port: 50010,
                info_port: 50075,
                ipc_port: 50020,
            },
        },
    }
}

fn block(id: u64, o: u64, n: u64, replicas: &[&str]) -> LocatedBlock {
    LocatedBlock {
        o,
        b: ExtendedBlock { pool_id: "pool".to_owned(), block_id: id, generation_stamp: 1, num_bytes: n },
        t: Token { identifier: vec![id as u8], password: vec![9, 9], kind: "HDFS_BLOCK_TOKEN".to_owned(), service: "svc".to_owned() },
        locs: replicas.iter().map(|r| dn(r)).collect::<VecDeque<_>>(),
    }
}

fn expect_read(a: GetFsmAction) -> (DatanodeInfo, u64, u64, u64) {
    match a {
        GetFsmAction::ReadBlock(d, rb) => (d, rb.b.block_id, rb.offset, rb.len),
        other => panic!("expected a read, got {:?}", other),
    }
}

#[test]
fn build_read_block_inside_block() {
    let mut b = block(1, 100, 50, &["a", "b"]);
    let (d, id, off, len) = expect_read(b.build_read_block(120, 1000));
    assert_eq!((d.inner.id.host_name.as_str(), id, off, len), ("a", 1, 20, 30));
    assert_eq!(b.locs.len(), 1);
    assert_eq!(b.locs[0].inner.id.host_name, "b");
}

#[test]
fn build_read_block_stops_at_range_end() {
    let mut b = block(1, 100, 50, &["a"]);
    match b.build_read_block(110, 130) {
        GetFsmAction::ReadBlock(_, rb) => {
            assert_eq!((rb.offset, rb.len), (10, 20));
            assert_eq!(rb.t.identifier, vec![1u8]);
            assert_eq!(rb.t.password, vec![9u8, 9]);
            assert_eq!(rb.b.pool_id, "pool");
        }
        other => panic!("{:?}", other),
    }
}

#[test]
fn build_read_block_without_replicas_fails() {
    let mut b = block(7, 0, 10, &[]);
    match b.build_read_block(5, 10) {
        GetFsmAction::Error(HdfsError::AllReplicasCorrupt(eb)) => assert_eq!(eb.block_id, 7),
        other => panic!("{:?}", other),
    }
}

#[test]
fn build_read_block_behind_read_position_is_skipped() {
    let mut b = block(1, 0, 10, &["a"]);
    assert!(matches!(b.build_read_block(10, 20), GetFsmAction::Nop));
    assert_eq!(b.locs.len(), 1);
}

#[test]
fn build_read_block_gap_is_an_error() {
    let mut b = block(3, 50, 10, &["a"]);
    match b.build_read_block(40, 100) {
        GetFsmAction::Error(HdfsError::BlockGap { block, block_start, read_offset, max_read_offset }) => {
            assert_eq!((block.block_id, block.num_bytes, block_start, read_offset, max_read_offset), (3, 10, 50, 40, 100));
        }
        other => panic!("{:?}", other),
    }
}

#[test]
fn init_asks_for_locations_of_the_range() {
    let mut f = GetFsm::new(5, 105);
    match f.handle(GetFsmEvent::Init) {
        GetFsmAction::RequestBlockLocations { offset, len } => assert_eq!((offset, len), (5, 100)),
        other => panic!("{:?}", other),
    }
}

#[test]
fn empty_range_succeeds_at_once() {
    let mut f = GetFsm::new(10, 10);
    assert!(matches!(f.handle(GetFsmEvent::Init), GetFsmAction::Success));
    let mut f = GetFsm::new(11, 10);
    assert!(matches!(f.handle(GetFsmEvent::BlockComplete), GetFsmAction::Success));
}

#[test]
fn empty_block_locations_is_an_error() {
    let mut f = GetFsm::new(0, 10);
    assert!(matches!(f.handle(GetFsmEvent::BlockLocations(vec![])), GetFsmAction::Error(HdfsError::EmptyBlockLocations)));
}

#[test]
fn whole_read_of_two_blocks() {
    let mut f = GetFsm::new(0, 25);
    let _ = f.handle(GetFsmEvent::Init);
    let (d, id, off, len) = expect_read(f.handle(GetFsmEvent::BlockLocations(vec![block(1, 0, 10, &["a"]), block(2, 10, 20, &["b", "c"])])));
    assert_eq!((d.inner.id.host_name.as_str(), id, off, len), ("a", 1, 0, 10));
    assert!(matches!(f.handle(GetFsmEvent::PacketAck(4)), GetFsmAction::Nop));
    assert_eq!(f.read_offset, 4);
    assert!(matches!(f.handle(GetFsmEvent::PacketAck(6)), GetFsmAction::Nop));
    assert_eq!(f.read_offset, 10);
    // The first block is finished: the second block is read up to the range end.
    let (d, id, off, len) = expect_read(f.handle(GetFsmEvent::BlockComplete));
    assert_eq!((d.inner.id.host_name.as_str(), id, off, len), ("b", 2, 0, 15));
    assert_eq!(f.q.len(), 1);
    assert!(matches!(f.handle(GetFsmEvent::PacketAck(15)), GetFsmAction::Nop));
    assert!(matches!(f.handle(GetFsmEvent::BlockComplete), GetFsmAction::Success));
}

#[test]
fn failed_read_moves_to_next_replica_then_fails() {
    let mut f = GetFsm::new(3, 10);
    let (d, _, off, len) = expect_read(f.handle(GetFsmEvent::BlockLocations(vec![block(1, 0, 10, &["a", "bb"])])));
    assert_eq!((d.inner.id.host_name.as_str(), off, len), ("a", 3, 7));
    let (d, _, off, len) = expect_read(f.handle(GetFsmEvent::Error(HdfsError::Transport("reset".to_owned()))));
    assert_eq!((d.inner.id.host_name.as_str(), off, len), ("bb", 3, 7));
    match f.handle(GetFsmEvent::Error(HdfsError::Transport("reset".to_owned()))) {
        GetFsmAction::Error(HdfsError::AllReplicasCorrupt(b)) => assert_eq!(b.block_id, 1),
        other => panic!("{:?}", other),
    }
}

#[test]
fn error_with_no_block_is_passed_on() {
    let mut f = GetFsm::new(0, 10);
    match f.handle(GetFsmEvent::Error(HdfsError::Transport("down".to_owned()))) {
        GetFsmAction::Error(HdfsError::Transport(s)) => assert_eq!(s, "down"),
        other => panic!("{:?}", other),
    }
}

#[test]
fn blocks_behind_the_position_are_dropped() {
    let mut f = GetFsm::new(20, 40);
    let (_, id, off, len) = expect_read(f.handle(GetFsmEvent::BlockLocations(vec![
        block(1, 0, 10, &["a"]),
        block(2, 10, 10, &["a"]),
        block(3, 20, 10, &["a"]),
    ])));
    assert_eq!((id, off, len), (3, 0, 10));
    assert_eq!(f.q.len(), 1);
}

#[test]
fn running_out_of_blocks_asks_for_more() {
    let mut f = GetFsm::new(0, 30);
    let _ = f.handle(GetFsmEvent::BlockLocations(vec![block(1, 0, 10, &["a"])]));
    let _ = f.handle(GetFsmEvent::PacketAck(10));
    match f.handle(GetFsmEvent::BlockComplete) {
        GetFsmAction::RequestBlockLocations { offset, len } => assert_eq!((offset, len), (10, 20)),
        other => panic!("{:?}", other),
    }
    assert_eq!(f.q.len(), 0);
}

#[test]
fn adjust_only_lowers_the_range_end() {
    let mut f = GetFsm::new(0, 100);
    f.adjust_max_read_offset(150);
    assert_eq!(f.max_read_offset, 100);
    f.adjust_max_read_offset(40);
    assert_eq!(f.max_read_offset, 40);
    assert_eq!(f.read_offset, 0);
}

#[test]
fn block_ending_past_u64_is_read_without_overflow() {
    let mut b = block(5, u64::MAX - 10, 100, &["a"]);
    let (_, _, off, len) = expect_read(b.build_read_block(u64::MAX - 4, u64::MAX));
    assert_eq!((off, len), (6, 4));
}
