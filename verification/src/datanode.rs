//! DataNodes that hold replicas of a block.

use vstd::prelude::*;
use vstd::std_specs::convert::FromSpecImpl;
use crate::messages::DatanodeRecord;

verus! {

#[derive(Debug, Clone)]
pub struct DatanodeInfo {
    pub inner: DatanodeRecord,
}

impl DatanodeInfo {
    /// The DataNode's UUID, IP address and data transfer port.
    pub fn into_xfer_info(self) -> (r: (String, String, u32))
        ensures
            r == (self.inner.id.datanode_uuid, self.inner.id.ip_addr, self.inner.id.xfer_port),
    {
        let id = self.inner.id;
        (id.datanode_uuid, id.ip_addr, id.xfer_port)
    }
}

impl From<DatanodeRecord> for DatanodeInfo {
    fn from(inner: DatanodeRecord) -> (r: DatanodeInfo) {
        DatanodeInfo { inner }
    }
}

impl FromSpecImpl<DatanodeRecord> for DatanodeInfo {
    open spec fn obeys_from_spec() -> bool {
        true
    }

    open spec fn from_spec(inner: DatanodeRecord) -> DatanodeInfo {
        DatanodeInfo { inner }
    }
}

impl From<DatanodeInfo> for DatanodeRecord {
    fn from(d: DatanodeInfo) -> (r: DatanodeRecord) {
        d.inner
    }
}

impl FromSpecImpl<DatanodeInfo> for DatanodeRecord {
    open spec fn obeys_from_spec() -> bool {
        true
    }

    open spec fn from_spec(d: DatanodeInfo) -> DatanodeRecord {
        d.inner
    }
}

} // verus!
