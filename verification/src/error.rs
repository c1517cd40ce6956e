//! Errors of the client logic.

use vstd::prelude::*;
use crate::messages::{ExtendedBlock, Response};

verus! {

#[derive(Debug)]
pub enum HdfsError {
    /// Every replica of the block failed or none was offered.
    AllReplicasCorrupt(ExtendedBlock),
    /// The NameNode marked every instance of the block as corrupt.
    CorruptBlock(ExtendedBlock),
    /// The next block starts after the read position: the block list has a gap. The
    /// block spans `block.num_bytes` bytes from `block_start`.
    BlockGap { block: ExtendedBlock, block_start: u64, read_offset: u64, max_read_offset: u64 },
    /// The NameNode answered a block locations request with no block.
    EmptyBlockLocations,
    /// The address that the NameNode gave for a DataNode is no IP address.
    InvalidDatanodeIp(String),
    /// A reply that the conversation does not expect at this point.
    UnexpectedResponse(Response),
    /// The connection ended before the transfer did.
    PrematureEof,
    /// The transport reported a failure.
    Transport(String),
}

} // verus!
