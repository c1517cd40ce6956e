//! The decoded NameNode and DataNode messages that the client logic reads and builds,
//! with their mathematical views.

use vstd::prelude::*;

verus! {

// ------------------------------------------------------------------------------------------
// Directory listing
// ------------------------------------------------------------------------------------------

/// Kind of a file system entry.
#[derive(Debug, Clone, Copy, PartialEq, Eq)]
pub enum FileType {
    Dir,
    File,
    Symlink,
}

/// Status of one entry of a directory listing. `path` is the entry's local name.
#[derive(Debug)]
pub struct FileStatus {
    pub file_type: FileType,
    pub path: Vec<u8>,
    pub length: u64,
    pub owner: String,
    pub group: String,
    pub permission: u32,
    pub modification_time: u64,
}

/// Request for one page of the listing of `src`, holding the entries whose names
/// come after `start_after` (all of them where it is empty).
#[derive(Debug)]
pub struct GetListingRequest {
    pub src: String,
    pub start_after: Vec<u8>,
    pub need_location: bool,
}

pub struct GetListingRequestView {
    pub src: Seq<char>,
    pub start_after: Seq<u8>,
    pub need_location: bool,
}

impl View for GetListingRequest {
    type V = GetListingRequestView;

    open spec fn view(&self) -> GetListingRequestView {
        GetListingRequestView { src: self.src@, start_after: self.start_after@, need_location: self.need_location }
    }
}

/// One page of a directory listing: the entries, and how many remain after them.
#[derive(Debug)]
pub struct DirectoryListing {
    pub partial_listing: Vec<FileStatus>,
    pub remaining_entries: u32,
}

#[derive(Debug)]
pub struct GetListingResponse {
    pub dir_list: DirectoryListing,
}

// ------------------------------------------------------------------------------------------
// Blocks and DataNodes
// ------------------------------------------------------------------------------------------

/// Identity of a block of a file.
#[derive(Debug)]
pub struct ExtendedBlock {
    pub pool_id: String,
    pub block_id: u64,
    pub generation_stamp: u64,
    pub num_bytes: u64,
}

impl ExtendedBlock {
    /// A copy of the block's identity.
    pub fn copy(&self) -> (r: ExtendedBlock)
        ensures
            r == *self,
    {
        ExtendedBlock {
            pool_id: self.pool_id.clone(),
            block_id: self.block_id,
            generation_stamp: self.generation_stamp,
            num_bytes: self.num_bytes,
        }
    }
}

/// Access token for a block.
#[derive(Debug)]
pub struct Token {
    pub identifier: Vec<u8>,
    pub password: Vec<u8>,
    pub kind: String,
    pub service: String,
}

pub struct TokenView {
    pub identifier: Seq<u8>,
    pub password: Seq<u8>,
    pub kind: Seq<char>,
    pub service: Seq<char>,
}

impl View for Token {
    type V = TokenView;

    open spec fn view(&self) -> TokenView {
        TokenView {
            identifier: self.identifier@,
            password: self.password@,
            kind: self.kind@,
            service: self.service@,
        }
    }
}

impl Token {
    /// A copy of the token.
    pub fn copy(&self) -> (r: Token)
        ensures
            r@ == self@,
    {
        let r = Token {
            identifier: self.identifier.clone(),
            password: self.password.clone(),
            kind: self.kind.clone(),
            service: self.service.clone(),
        };
        assert(r.identifier@ =~= self.identifier@);
        assert(r.password@ =~= self.password@);
        r
    }
}

/// Identity and addresses of a DataNode.
#[derive(Debug, Clone)]
pub struct DatanodeId {
    pub ip_addr: String,
    pub host_name: String,
    pub datanode_uuid: String,
    pub xfer_port: u32,
    pub info_port: u32,
    pub ipc_port: u32,
}

/// A DataNode as the NameNode describes it.
#[derive(Debug, Clone)]
pub struct DatanodeRecord {
    pub id: DatanodeId,
}

/// A request to a DataNode to stream `len` bytes of block `b` from `offset` within it.
#[derive(Debug)]
pub struct ReadBlock {
    pub b: ExtendedBlock,
    pub t: Token,
    pub offset: u64,
    pub len: u64,
}

pub struct ReadBlockView {
    pub b: ExtendedBlock,
    pub t: TokenView,
    pub offset: u64,
    pub len: u64,
}

impl View for ReadBlock {
    type V = ReadBlockView;

    open spec fn view(&self) -> ReadBlockView {
        ReadBlockView { b: self.b, t: self.t@, offset: self.offset, len: self.len }
    }
}

/// Request for the locations of the blocks that cover `length` bytes of `src` from `offset`.
#[derive(Debug)]
pub struct GetBlockLocationsRequest {
    pub src: String,
    pub offset: u64,
    pub length: u64,
}

/// A block of a file with the DataNodes that hold a replica of it.
#[derive(Debug)]
pub struct LocatedBlockRecord {
    pub b: ExtendedBlock,
    /// Offset of the block within the file.
    pub offset: u64,
    pub locs: Vec<DatanodeRecord>,
    pub corrupt: bool,
    pub block_token: Token,
}

#[derive(Debug)]
pub struct LocatedBlocks {
    pub file_length: u64,
    pub blocks: Vec<LocatedBlockRecord>,
}

#[derive(Debug)]
pub struct GetBlockLocationsResponse {
    pub locations: LocatedBlocks,
}

// ------------------------------------------------------------------------------------------
// What is sent and what comes back
// ------------------------------------------------------------------------------------------

/// Address of a DataNode's data transfer service: the octets of its IP address
/// (4 for IPv4, 16 for IPv6) and the port.
#[derive(Debug)]
pub struct DatanodeAddress {
    pub ip: Vec<u8>,
    pub port: u16,
}

#[derive(Debug)]
pub enum NameNodeRequest {
    GetListing(GetListingRequest),
    GetBlockLocations(GetBlockLocationsRequest),
}

/// A request the client sends: to the NameNode, or to the DataNode at the address.
#[derive(Debug)]
pub enum Request {
    NameNode(NameNodeRequest),
    DataNode(DatanodeAddress, ReadBlock),
}

pub enum RequestView {
    GetListing(GetListingRequestView),
    GetBlockLocations { src: Seq<char>, offset: u64, length: u64 },
    ReadBlock { ip: Seq<u8>, port: u16, op: ReadBlockView },
}

impl View for Request {
    type V = RequestView;

    open spec fn view(&self) -> RequestView {
        match self {
            Request::NameNode(NameNodeRequest::GetListing(q)) => RequestView::GetListing(q@),
            Request::NameNode(NameNodeRequest::GetBlockLocations(q)) => RequestView::GetBlockLocations {
                src: q.src@,
                offset: q.offset,
                length: q.length,
            },
            Request::DataNode(addr, op) => RequestView::ReadBlock { ip: addr.ip@, port: addr.port, op: op@ },
        }
    }
}

#[derive(Debug)]
pub enum NameNodeResponse {
    GetListing(GetListingResponse),
    GetBlockLocations(GetBlockLocationsResponse),
}

/// A reply the client receives: from the NameNode, a packet of block data from a
/// DataNode (an empty one marks the end of the block), or any other reply, described.
#[derive(Debug)]
pub enum Response {
    NameNode(NameNodeResponse),
    Data(bytes::Bytes),
    Other(String),
}

} // verus!
