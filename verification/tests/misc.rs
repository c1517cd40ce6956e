use rhdfs::datanode::DatanodeInfo;
use rhdfs::messages::{DatanodeId, DatanodeRecord};
use rhdfs::put::{put_sink, Put};

fn record() -> DatanodeRecord {
    DatanodeRecord {
        id: DatanodeId {
            ip_addr: "10.1.2.3".to_owned(),
            host_name: "h".to_owned(),
            datanode_uuid: "abc".to_owned(),
            xfer_port: 9866,
            info_port: 9864,
            ipc_port: 9867,
        },
    }
}

#[test]
fn xfer_info_is_uuid_ip_and_port() {
    let d = DatanodeInfo::from(record());
    assert_eq!(d.into_xfer_info(), ("abc".to_owned(), "10.1.2.3".to_owned(), 9866));
}

#[test]
fn datanode_info_converts_both_ways() {
    let d: DatanodeInfo = record().into();
    let back: DatanodeRecord = d.clone().into();
    assert_eq!(back.id.host_name, "h");
    assert_eq!(d.inner.id.ipc_port, 9867);
}

#[test]
fn put_sink_writes_to_dst() {
    assert_eq!(put_sink("/out".to_owned()).dst, "/out");
    assert_eq!(Put::new("/o2".to_owned()).dst, "/o2");
}
