//! Reading a file: the source that turns network events into the actions of the
//! stream that delivers the file's bytes.

use vstd::prelude::*;
use std::collections::VecDeque;
use crate::buffer::{bytes_is_empty, bytes_len, bytes_view};
use crate::datanode::DatanodeInfo;
use crate::error::HdfsError;
use crate::messages::{
    DatanodeAddress, DatanodeRecord, GetBlockLocationsRequest, GetBlockLocationsResponse, LocatedBlockRecord,
    LocatedBlocks, NameNodeRequest, NameNodeResponse, ReadBlock, ReadBlockView, Request, RequestView, Response,
};
use crate::read_fsm::{
    blocks_view, front_covers, handle_spec, min_u64, ActionView, EventView, FsmView, GetFsm,
    GetFsmAction, GetFsmEvent, LocatedBlock, LocatedBlockView,
};

verus! {

/// The largest length a file can have.
pub const MAX_FILE_LENGTH: u64 = 0x7fff_ffff_ffff_ffff;

// ------------------------------------------------------------------------------------------
// What the source hands to the stream, and what it receives
// ------------------------------------------------------------------------------------------

/// A read of a block range from a DataNode whose address is still the text the
/// NameNode gave: it is sent once the text is parsed as an IP address
/// (see `resolve_read`).
#[derive(Debug)]
pub struct PendingRead {
    pub ip: String,
    pub port: u16,
    pub op: ReadBlock,
}

pub struct PendingReadView {
    pub ip: Seq<char>,
    pub port: u16,
    pub op: ReadBlockView,
}

impl View for PendingRead {
    type V = PendingReadView;

    open spec fn view(&self) -> PendingReadView {
        PendingReadView { ip: self.ip@, port: self.port, op: self.op@ }
    }
}

/// What the stream should do after an event: send a request, parse a DataNode's
/// address and then read from it, hand bytes to the reader, fail, end, and whether to
/// wait for replies from the network.
#[derive(Debug)]
pub struct SourceAction {
    pub send: Option<Request>,
    pub connect: Option<PendingRead>,
    pub deliver: Option<bytes::Bytes>,
    pub error: Option<HdfsError>,
    pub eos: bool,
    pub recv: bool,
}

pub struct SourceActionView {
    pub send: Option<RequestView>,
    pub connect: Option<PendingReadView>,
    pub deliver: Option<Seq<u8>>,
    pub error: Option<HdfsError>,
    pub eos: bool,
    pub recv: bool,
}

impl View for SourceAction {
    type V = SourceActionView;

    open spec fn view(&self) -> SourceActionView {
        SourceActionView {
            send: match self.send {
                Some(q) => Some(q@),
                None => None,
            },
            connect: match self.connect {
                Some(p) => Some(p@),
                None => None,
            },
            deliver: match self.deliver {
                Some(b) => Some(bytes_view(b)),
                None => None,
            },
            error: self.error,
            eos: self.eos,
            recv: self.recv,
        }
    }
}

/// The action that does nothing.
pub open spec fn no_action() -> SourceActionView {
    SourceActionView { send: None, connect: None, deliver: None, error: None, eos: false, recv: false }
}

impl SourceAction {
    /// The action that does nothing.
    pub fn z() -> (r: SourceAction)
        ensures
            r@ == no_action(),
    {
        SourceAction { send: None, connect: None, deliver: None, error: None, eos: false, recv: false }
    }

    /// The action that also sends `q`.
    pub fn send(self, q: Request) -> (r: SourceAction)
        ensures
            r@ == (SourceActionView { send: Some(q@), ..self@ }),
    {
        SourceAction { send: Some(q), ..self }
    }

    /// The action that also parses the address of `p` and then sends its read.
    pub fn connect(self, p: PendingRead) -> (r: SourceAction)
        ensures
            r@ == (SourceActionView { connect: Some(p@), ..self@ }),
    {
        SourceAction { connect: Some(p), ..self }
    }

    /// The action that also hands `b` to the reader.
    pub fn deliver(self, b: bytes::Bytes) -> (r: SourceAction)
        ensures
            r@ == (SourceActionView { deliver: Some(bytes_view(b)), ..self@ }),
    {
        SourceAction { deliver: Some(b), ..self }
    }

    /// The action that also fails the stream with `e`.
    pub fn err(self, e: HdfsError) -> (r: SourceAction)
        ensures
            r@ == (SourceActionView { error: Some(e), ..self@ }),
    {
        SourceAction { error: Some(e), ..self }
    }

    /// The action that also ends the stream.
    pub fn eos(self) -> (r: SourceAction)
        ensures
            r@ == (SourceActionView { eos: true, ..self@ }),
    {
        SourceAction { eos: true, ..self }
    }

    /// The action that also says whether to wait for replies.
    pub fn recv(self, on: bool) -> (r: SourceAction)
        ensures
            r@ == (SourceActionView { recv: on, ..self@ }),
    {
        SourceAction { recv: on, ..self }
    }
}

/// What happens on the network side of the stream.
#[derive(Debug)]
pub enum NetEvent {
    /// The stream starts.
    Init,
    /// A reply arrived.
    Incoming(Response),
    /// Nothing happened.
    Idle,
    /// The transport failed.
    Error(HdfsError),
    /// The connection ended.
    EndOfStream,
}

// ------------------------------------------------------------------------------------------
// Specification
// ------------------------------------------------------------------------------------------

/// The stream action for a machine action, reading the file `src`.
pub open spec fn translate_spec(src: Seq<char>, a: ActionView) -> SourceActionView {
    match a {
        ActionView::Nop => no_action(),
        ActionView::RequestBlockLocations { offset, len } => SourceActionView {
            send: Some(RequestView::GetBlockLocations { src, offset, length: len }),
            ..no_action()
        },
        ActionView::ReadBlock(dn, rb) => SourceActionView {
            connect: Some(PendingReadView { ip: dn.inner.id.ip_addr@, port: dn.inner.id.xfer_port as u16, op: rb }),
            ..no_action()
        },
        ActionView::Error(e) => SourceActionView { error: Some(e), ..no_action() },
        ActionView::Success => SourceActionView { eos: true, ..no_action() },
    }
}

/// The located block that a block record of the NameNode's reply becomes.
pub open spec fn record_view(r: LocatedBlockRecord) -> LocatedBlockView {
    LocatedBlockView {
        o: r.offset,
        b: r.b,
        t: r.block_token@,
        locs: r.locs@.map_values(|d: DatanodeRecord| DatanodeInfo { inner: d }),
    }
}

/// The located blocks of the records, in order, or the error for the first record
/// that is marked corrupt.
pub open spec fn located_blocks_spec(recs: Seq<LocatedBlockRecord>) -> Result<Seq<LocatedBlockView>, HdfsError>
    decreases recs.len(),
{
    if recs.len() == 0 {
        Ok(Seq::empty())
    } else if recs[0].corrupt {
        Err(HdfsError::CorruptBlock(recs[0].b))
    } else {
        match located_blocks_spec(recs.drop_first()) {
            Ok(bs) => Ok(seq![record_view(recs[0])] + bs),
            Err(e) => Err(e),
        }
    }
}

/// The machine after a block locations reply has lowered the range end to the file length.
pub open spec fn adjusted(v: FsmView, file_length: u64) -> FsmView {
    FsmView { max_read_offset: min_u64(file_length, v.max_read_offset), ..v }
}

/// The machine after an event and the stream action, for the file `src`.
pub open spec fn handle_t_spec(src: Seq<char>, v: FsmView, e: EventView) -> (FsmView, SourceActionView) {
    let (v2, a) = handle_spec(v, e);
    (v2, translate_spec(src, a))
}

/// The machine after a network event and the stream action, reading the file `src`.
pub open spec fn handle_n_spec(src: Seq<char>, v: FsmView, ne: NetEvent) -> (FsmView, SourceActionView) {
    match ne {
        NetEvent::Init => {
            let (v2, s) = handle_t_spec(src, v, EventView::Init);
            (v2, SourceActionView { recv: true, ..s })
        },
        NetEvent::Incoming(Response::NameNode(NameNodeResponse::GetBlockLocations(g))) => {
            let v1 = adjusted(v, g.locations.file_length);
            match located_blocks_spec(g.locations.blocks@) {
                Ok(bs) => handle_t_spec(src, v1, EventView::BlockLocations(bs)),
                Err(e) => (v1, SourceActionView { error: Some(e), ..no_action() }),
            }
        },
        NetEvent::Incoming(Response::Data(b)) => if bytes_view(b).len() > 0 {
            let (v2, s) = handle_t_spec(src, v, EventView::PacketAck(bytes_view(b).len() as u64));
            (v2, SourceActionView { deliver: Some(bytes_view(b)), ..s })
        } else {
            handle_t_spec(src, v, EventView::BlockComplete)
        },
        NetEvent::Incoming(other) => (v, SourceActionView { error: Some(HdfsError::UnexpectedResponse(other)), ..no_action() }),
        NetEvent::Idle => (v, no_action()),
        NetEvent::Error(e) => handle_t_spec(src, v, EventView::Error(e)),
        NetEvent::EndOfStream => (v, SourceActionView { error: Some(HdfsError::PrematureEof), ..no_action() }),
    }
}

/// The network event can be handled without overflow: received data does not carry
/// the read position past `u64::MAX`.
pub open spec fn net_event_fits(v: FsmView, ne: NetEvent) -> bool {
    match ne {
        NetEvent::Incoming(Response::Data(b)) => v.read_offset + bytes_view(b).len() <= u64::MAX,
        _ => true,
    }
}

// ------------------------------------------------------------------------------------------
// The source
// ------------------------------------------------------------------------------------------

/// Reads the file `src` from the read position of `fsm` to its range end.
#[derive(Debug)]
pub struct Get {
    /// Source file path.
    pub src: String,
    pub fsm: GetFsm,
}

/// The NameNode request for the locations of the blocks covering `length` bytes of
/// `src` from `offset`.
fn get_block_locations_request(src: String, offset: u64, length: u64) -> (r: Request)
    ensures
        r@ == (RequestView::GetBlockLocations { src: src@, offset, length }),
{
    Request::NameNode(NameNodeRequest::GetBlockLocations(GetBlockLocationsRequest { src, offset, length }))
}

/// The read of a block range from the DataNode's transfer port, to send once its IP
/// address is parsed. The port is the NameNode's 32-bit transfer port taken modulo 2^16.
fn read_block_request(datanode_info: DatanodeInfo, read_block: ReadBlock) -> (r: PendingRead)
    ensures
        r@ == (PendingReadView {
            ip: datanode_info.inner.id.ip_addr@,
            port: datanode_info.inner.id.xfer_port as u16,
            op: read_block@,
        }),
{
    let (_uuid, ip, port) = datanode_info.into_xfer_info();
    PendingRead { ip, port: port as u16, op: read_block }
}

/// The stream action for a pending read, given the outcome of parsing its address
/// text: where the text is no IP address, the stream fails and nothing is sent.
pub open spec fn resolve_spec(p: PendingRead, ip: Option<Seq<u8>>) -> SourceActionView {
    match ip {
        Some(octets) => SourceActionView {
            send: Some(RequestView::ReadBlock { ip: octets, port: p.port, op: p.op@ }),
            ..no_action()
        },
        None => SourceActionView { error: Some(HdfsError::InvalidDatanodeIp(p.ip)), ..no_action() },
    }
}

/// Completes a pending read with the outcome of parsing its address text as an IP
/// address (the octets of the address, or `None` where the text is no address): sends
/// the read to that address, or fails with `InvalidDatanodeIp` and sends nothing.
pub fn resolve_read(p: PendingRead, ip: Option<Vec<u8>>) -> (r: SourceAction)
    requires
        ip matches Some(octets) ==> (octets@.len() == 4 || octets@.len() == 16),
    ensures
        r@ == resolve_spec(p, match ip {
            Some(octets) => Some(octets@),
            None => None,
        }),
{
    match ip {
        Some(octets) => {
            let PendingRead { ip: _, port, op } = p;
            SourceAction::z().send(Request::DataNode(DatanodeAddress { ip: octets, port }, op))
        },
        None => {
            let PendingRead { ip, port: _, op: _ } = p;
            SourceAction::z().err(HdfsError::InvalidDatanodeIp(ip))
        },
    }
}

impl Get {
    pub fn new(src: String, read_offset: u64, max_read_offset: u64) -> (r: Get)
        ensures
            r.src == src,
            r.fsm@ == (FsmView { q: Seq::empty(), max_read_offset, read_offset }),
    {
        Get { src, fsm: GetFsm::new(read_offset, max_read_offset) }
    }

    /// The stream action for a machine action (see `translate_spec`).
    pub fn translate_a(&self, a: GetFsmAction) -> (r: SourceAction)
        ensures
            r@ == translate_spec(self.src@, a@),
    {
        match a {
            GetFsmAction::Nop => SourceAction::z(),
            GetFsmAction::RequestBlockLocations { offset, len } => SourceAction::z().send(
                get_block_locations_request(self.src.clone(), offset, len),
            ),
            GetFsmAction::ReadBlock(datanode_info, read_block) => SourceAction::z().connect(
                read_block_request(datanode_info, read_block),
            ),
            GetFsmAction::Error(e) => SourceAction::z().err(e),
            GetFsmAction::Success => SourceAction::z().eos(),
        }
    }

    /// Handles a machine event and translates its action.
    pub fn handle_t(&mut self, evt: GetFsmEvent) -> (r: SourceAction)
        requires
            crate::read_fsm::event_fits(old(self).fsm@, evt@),
        ensures
            final(self).src == old(self).src,
            (final(self).fsm@, r@) == handle_t_spec(old(self).src@, old(self).fsm@, evt@),
    {
        let a = self.fsm.handle(evt);
        self.translate_a(a)
    }
}

impl Get {
    /// Lowers the range end to the file length the NameNode reported, and turns the
    /// reply's block records into located blocks; fails on the first block that is
    /// marked corrupt (the range end is lowered all the same).
    pub fn translate_block_locations(&mut self, gblrp: GetBlockLocationsResponse) -> (r: Result<Vec<LocatedBlock>, HdfsError>)
        ensures
            final(self).src == old(self).src,
            final(self).fsm@ == adjusted(old(self).fsm@, gblrp.locations.file_length),
            match located_blocks_spec(gblrp.locations.blocks@) {
                Ok(bs) => r is Ok && blocks_view(r->Ok_0@) == bs,
                Err(e) => r is Err && r->Err_0 == e,
            },
    {
        let ghost g = gblrp;
        let LocatedBlocks { file_length, blocks } = gblrp.locations;
        self.fsm.adjust_max_read_offset(file_length);
        let ghost recs0 = blocks@;
        let mut blocks = blocks;
        let mut out: Vec<LocatedBlock> = Vec::new();
        while blocks.len() > 0
            invariant
                self.src == old(self).src,
                self.fsm@ == adjusted(old(self).fsm@, file_length),
                g == gblrp,
                file_length == g.locations.file_length,
                recs0 == g.locations.blocks@,
                located_blocks_spec(recs0) == match located_blocks_spec(blocks@) {
                    Ok(bs) => Ok(blocks_view(out@) + bs),
                    Err(e) => Err::<Seq<LocatedBlockView>, HdfsError>(e),
                },
            decreases blocks.len(),
        {
            let ghost before = blocks@;
            let ghost out_before = blocks_view(out@);
            let rec = blocks.remove(0);
            proof {
                assert(blocks@ =~= before.drop_first());
            }
            let LocatedBlockRecord { b, offset, locs, corrupt, block_token } = rec;
            if corrupt {
                proof {
                    assert(before[0] == rec);
                    assert(located_blocks_spec(before) == Err::<Seq<LocatedBlockView>, HdfsError>(HdfsError::CorruptBlock(rec.b)));
                }
                return Err(HdfsError::CorruptBlock(b));
            }
            let mut locs = locs;
            let ghost locs0 = locs@;
            let mut dq: VecDeque<DatanodeInfo> = VecDeque::new();
            while locs.len() > 0
                invariant
                    dq@ + locs@.map_values(|d: DatanodeRecord| DatanodeInfo { inner: d })
                        == locs0.map_values(|d: DatanodeRecord| DatanodeInfo { inner: d }),
                decreases locs.len(),
            {
                let ghost lb = locs@;
                let ghost dqb = dq@;
                let d = locs.remove(0);
                dq.push_back(DatanodeInfo::from(d));
                proof {
                    assert(locs@ =~= lb.drop_first());
                    assert(lb.map_values(|d: DatanodeRecord| DatanodeInfo { inner: d })
                        =~= seq![DatanodeInfo { inner: d }] + locs@.map_values(|d: DatanodeRecord| DatanodeInfo { inner: d }));
                    assert(dq@ =~= dqb.push(DatanodeInfo { inner: d }));
                    assert(dq@ + locs@.map_values(|d: DatanodeRecord| DatanodeInfo { inner: d })
                        =~= dqb + lb.map_values(|d: DatanodeRecord| DatanodeInfo { inner: d }));
                }
            }
            proof {
                assert(locs@.map_values(|d: DatanodeRecord| DatanodeInfo { inner: d }) =~= Seq::<DatanodeInfo>::empty());
                assert(dq@ =~= locs0.map_values(|d: DatanodeRecord| DatanodeInfo { inner: d }));
            }
            let lb = LocatedBlock { o: offset, b, t: block_token, locs: dq };
            proof {
                assert(lb@ == record_view(rec));
            }
            out.push(lb);
            proof {
                assert(blocks_view(out@) =~= out_before.push(lb@));
                match located_blocks_spec(blocks@) {
                    Ok(bs) => {
                        assert(blocks_view(out@) + bs =~= out_before + (seq![record_view(rec)] + bs));
                    },
                    Err(e) => {},
                }
            }
        }
        proof {
            assert(located_blocks_spec(blocks@) == Ok::<Seq<LocatedBlockView>, HdfsError>(Seq::empty()));
            assert(blocks_view(out@) + Seq::<LocatedBlockView>::empty() =~= blocks_view(out@));
        }
        Ok(out)
    }

    /// Whether the data packet `b` can be received without carrying the read position
    /// past `u64::MAX` (the condition `handle_n` sets on data).
    pub fn data_fits(&self, b: &bytes::Bytes) -> (r: bool)
        ensures
            r == (self.fsm.read_offset + bytes_view(*b).len() <= u64::MAX),
    {
        let n = bytes_len(b);
        let n64 = n as u64;
        self.fsm.read_offset <= u64::MAX - n64
    }

    /// Handles a network event (see `handle_n_spec`).
    pub fn handle_n(&mut self, ne: NetEvent) -> (r: SourceAction)
        requires
            net_event_fits(old(self).fsm@, ne),
        ensures
            final(self).src == old(self).src,
            (final(self).fsm@, r@) == handle_n_spec(old(self).src@, old(self).fsm@, ne),
    {
        match ne {
            NetEvent::Init => self.handle_t(GetFsmEvent::Init).recv(true),
            NetEvent::Incoming(Response::NameNode(NameNodeResponse::GetBlockLocations(gblrp))) => {
                match self.translate_block_locations(gblrp) {
                    Ok(bloc) => self.handle_t(GetFsmEvent::BlockLocations(bloc)),
                    Err(e) => SourceAction::z().err(e),
                }
            },
            NetEvent::Incoming(Response::Data(bytes)) => if !bytes_is_empty(&bytes) {
                let n = bytes_len(&bytes);
                self.handle_t(GetFsmEvent::PacketAck(n as u64)).deliver(bytes)
            } else {
                self.handle_t(GetFsmEvent::BlockComplete)
            },
            NetEvent::Incoming(other) => SourceAction::z().err(HdfsError::UnexpectedResponse(other)),
            NetEvent::Idle => SourceAction::z(),
            NetEvent::Error(e) => self.handle_t(GetFsmEvent::Error(e)),
            NetEvent::EndOfStream => SourceAction::z().err(HdfsError::PrematureEof),
        }
    }
}

/// A source that reads `[start_offset, end_offset)` of the file `src`.
pub fn get_part_stream(src: String, start_offset: u64, end_offset: u64) -> (r: Get)
    ensures
        r.src == src,
        r.fsm@ == (FsmView { q: Seq::empty(), max_read_offset: end_offset, read_offset: start_offset }),
{
    Get::new(src, start_offset, end_offset)
}

/// A source that reads the whole file `src`.
pub fn get_stream(src: String) -> (r: Get)
    ensures
        r.src == src,
        r.fsm@ == (FsmView { q: Seq::empty(), max_read_offset: MAX_FILE_LENGTH, read_offset: 0 }),
{
    get_part_stream(src, 0, MAX_FILE_LENGTH)
}

// ------------------------------------------------------------------------------------------
// Laws
// ------------------------------------------------------------------------------------------

/// Law: a nonempty data packet is handed to the reader unchanged, and the read position
/// advances by exactly its length; nothing else is done.
pub proof fn lemma_data_delivered_and_counted(src: Seq<char>, v: FsmView, b: bytes::Bytes)
    requires
        bytes_view(b).len() > 0,
        v.read_offset + bytes_view(b).len() <= u64::MAX,
    ensures
        handle_n_spec(src, v, NetEvent::Incoming(Response::Data(b))) == (
            FsmView { read_offset: (v.read_offset + bytes_view(b).len()) as u64, ..v },
            SourceActionView { deliver: Some(bytes_view(b)), ..no_action() },
        ),
{
}

/// Law: no network event raises the end of the range to read; a block locations reply
/// lowers it to the file length where that is shorter.
pub proof fn lemma_range_end_never_grows(src: Seq<char>, v: FsmView, ne: NetEvent)
    ensures
        handle_n_spec(src, v, ne).0.max_read_offset <= v.max_read_offset,
        ne matches NetEvent::Incoming(Response::NameNode(NameNodeResponse::GetBlockLocations(g)))
            ==> handle_n_spec(src, v, ne).0.max_read_offset == min_u64(g.locations.file_length, v.max_read_offset),
{
}

/// Law: every block read that the source asks for goes to the transfer port of a
/// replica of the front block, and asks for a nonempty range that starts at the read
/// position, stays inside the block and does not pass the end of the range.
pub proof fn lemma_sent_reads_in_bounds(src: Seq<char>, v: FsmView, ne: NetEvent)
    ensures
        handle_n_spec(src, v, ne).1.connect matches Some(p)
            ==> crate::read_fsm::read_request_in_bounds(handle_n_spec(src, v, ne).0, p.op),
{
    match ne {
        NetEvent::Incoming(Response::NameNode(NameNodeResponse::GetBlockLocations(g))) => {
            let v1 = adjusted(v, g.locations.file_length);
            if let Ok(bs) = located_blocks_spec(g.locations.blocks@) {
                crate::read_fsm::lemma_read_request_in_bounds(v1, EventView::BlockLocations(bs));
            }
        },
        NetEvent::Incoming(Response::Data(b)) => {
            if bytes_view(b).len() > 0 {
                crate::read_fsm::lemma_read_request_in_bounds(v, EventView::PacketAck(bytes_view(b).len() as u64));
            } else {
                crate::read_fsm::lemma_read_request_in_bounds(v, EventView::BlockComplete);
            }
        },
        NetEvent::Init => crate::read_fsm::lemma_read_request_in_bounds(v, EventView::Init),
        NetEvent::Error(e) => crate::read_fsm::lemma_read_request_in_bounds(v, EventView::Error(e)),
        _ => {},
    }
}

/// Law: a block locations reply that marks a block corrupt fails the read with that
/// block's error (the first such block's), and sends nothing.
pub proof fn lemma_corrupt_block_fails(src: Seq<char>, v: FsmView, g: GetBlockLocationsResponse, i: int)
    requires
        0 <= i < g.locations.blocks@.len(),
        g.locations.blocks@[i].corrupt,
        forall|j: int| 0 <= j < i ==> !(#[trigger] g.locations.blocks@[j]).corrupt,
    ensures
        handle_n_spec(src, v, NetEvent::Incoming(Response::NameNode(NameNodeResponse::GetBlockLocations(g)))).1
            == (SourceActionView {
                error: Some(HdfsError::CorruptBlock(g.locations.blocks@[i].b)),
                ..no_action()
            }),
{
    lemma_first_corrupt(g.locations.blocks@, i);
}

proof fn lemma_first_corrupt(recs: Seq<LocatedBlockRecord>, i: int)
    requires
        0 <= i < recs.len(),
        recs[i].corrupt,
        forall|j: int| 0 <= j < i ==> !(#[trigger] recs[j]).corrupt,
    ensures
        located_blocks_spec(recs) == Err::<Seq<LocatedBlockView>, HdfsError>(HdfsError::CorruptBlock(recs[i].b)),
    decreases i,
{
    if i > 0 {
        let rest = recs.drop_first();
        assert(!recs[0].corrupt);
        assert forall|j: int| 0 <= j < i - 1 implies !(#[trigger] rest[j]).corrupt by {
            assert(rest[j] == recs[j + 1]);
        }
        lemma_first_corrupt(rest, i - 1);
    }
}

// ------------------------------------------------------------------------------------------
// Laws over sequences of events
// ------------------------------------------------------------------------------------------

/// The machine and the stream actions after a sequence of network events, in order.
pub open spec fn run_spec(src: Seq<char>, v: FsmView, evs: Seq<NetEvent>) -> (FsmView, Seq<SourceActionView>)
    decreases evs.len(),
{
    if evs.len() == 0 {
        (v, Seq::empty())
    } else {
        let (v1, a) = handle_n_spec(src, v, evs[0]);
        let (v2, acts) = run_spec(src, v1, evs.drop_first());
        (v2, seq![a] + acts)
    }
}

/// Every event of the sequence can be handled without overflow where it arrives.
pub open spec fn run_fits(src: Seq<char>, v: FsmView, evs: Seq<NetEvent>) -> bool
    decreases evs.len(),
{
    evs.len() == 0 || (net_event_fits(v, evs[0]) && run_fits(src, handle_n_spec(src, v, evs[0]).0, evs.drop_first()))
}

/// The number of bytes that an action hands to the reader.
pub open spec fn delivered_len(a: SourceActionView) -> int {
    match a.deliver {
        Some(b) => b.len() as int,
        None => 0,
    }
}

/// The number of bytes that the actions hand to the reader.
pub open spec fn total_delivered(acts: Seq<SourceActionView>) -> int
    decreases acts.len(),
{
    if acts.len() == 0 {
        0
    } else {
        delivered_len(acts[0]) + total_delivered(acts.drop_first())
    }
}

/// The file length that a network event reports, if it is a block locations reply.
pub open spec fn reported_length(ne: NetEvent) -> Option<u64> {
    match ne {
        NetEvent::Incoming(Response::NameNode(NameNodeResponse::GetBlockLocations(g))) => Some(g.locations.file_length),
        _ => None,
    }
}

/// The range end `max` lowered, in order, to each file length that the events report.
pub open spec fn range_end_after(max: u64, evs: Seq<NetEvent>) -> u64
    decreases evs.len(),
{
    if evs.len() == 0 {
        max
    } else {
        let m1 = match reported_length(evs[0]) {
            Some(len) => min_u64(len, max),
            None => max,
        };
        range_end_after(m1, evs.drop_first())
    }
}

proof fn lemma_step(src: Seq<char>, v: FsmView, ne: NetEvent)
    requires
        net_event_fits(v, ne),
    ensures
        handle_n_spec(src, v, ne).0.read_offset == v.read_offset + delivered_len(handle_n_spec(src, v, ne).1),
        handle_n_spec(src, v, ne).0.max_read_offset == match reported_length(ne) {
            Some(len) => min_u64(len, v.max_read_offset),
            None => v.max_read_offset,
        },
{
    match ne {
        NetEvent::Incoming(Response::NameNode(NameNodeResponse::GetBlockLocations(g))) => {
            let v1 = adjusted(v, g.locations.file_length);
            if let Ok(bs) = located_blocks_spec(g.locations.blocks@) {
                crate::read_fsm::lemma_position_advances_by_acks(v1, EventView::BlockLocations(bs));
            }
        },
        NetEvent::Incoming(Response::Data(b)) => {
            if bytes_view(b).len() > 0 {
                crate::read_fsm::lemma_position_advances_by_acks(v, EventView::PacketAck(bytes_view(b).len() as u64));
            } else {
                crate::read_fsm::lemma_position_advances_by_acks(v, EventView::BlockComplete);
            }
        },
        NetEvent::Init => crate::read_fsm::lemma_position_advances_by_acks(v, EventView::Init),
        NetEvent::Error(e) => crate::read_fsm::lemma_position_advances_by_acks(v, EventView::Error(e)),
        _ => {},
    }
}

/// Law: over any sequence of network events that fit, the read position is the
/// starting position plus the number of bytes handed to the reader so far, and the
/// range end is the starting range end lowered to every file length reported so far.
pub proof fn lemma_run_position_and_range_end(src: Seq<char>, v: FsmView, evs: Seq<NetEvent>)
    requires
        run_fits(src, v, evs),
    ensures
        run_spec(src, v, evs).0.read_offset == v.read_offset + total_delivered(run_spec(src, v, evs).1),
        run_spec(src, v, evs).0.max_read_offset == range_end_after(v.max_read_offset, evs),
    decreases evs.len(),
{
    if evs.len() > 0 {
        lemma_step(src, v, evs[0]);
        let (v1, a) = handle_n_spec(src, v, evs[0]);
        lemma_run_position_and_range_end(src, v1, evs.drop_first());
        let acts = run_spec(src, v, evs).1;
        assert(acts.drop_first() =~= run_spec(src, v1, evs.drop_first()).1);
    }
}

/// Law: the range end after a sequence of events is at most the starting range end
/// and at most every file length that the events report.
pub proof fn lemma_range_end_is_min(max: u64, evs: Seq<NetEvent>)
    ensures
        range_end_after(max, evs) <= max,
        forall|i: int| 0 <= i < evs.len() && (#[trigger] reported_length(evs[i])) is Some
            ==> range_end_after(max, evs) <= reported_length(evs[i])->Some_0,
    decreases evs.len(),
{
    if evs.len() > 0 {
        let m1 = match reported_length(evs[0]) {
            Some(len) => min_u64(len, max),
            None => max,
        };
        let rest = evs.drop_first();
        lemma_range_end_is_min(m1, rest);
        assert forall|i: int| 0 <= i < evs.len() && (#[trigger] reported_length(evs[i])) is Some
            implies range_end_after(max, evs) <= reported_length(evs[i])->Some_0 by {
            if i > 0 {
                assert(evs[i] == rest[i - 1]);
            }
        }
    }
}

// ------------------------------------------------------------------------------------------
// Laws on what the stream does next
// ------------------------------------------------------------------------------------------

/// The read that continues the transfer from the front block: from its first remaining
/// replica's transfer port, the block's bytes from the read position to the block's end
/// or the range end, whichever comes first.
pub open spec fn front_read(v: FsmView) -> PendingReadView {
    let blk = v.q[0];
    let dn = blk.locs[0];
    let end = blk.o + blk.b.num_bytes;
    PendingReadView {
        ip: dn.inner.id.ip_addr@,
        port: dn.inner.id.xfer_port as u16,
        op: ReadBlockView {
            b: blk.b,
            t: blk.t,
            offset: (v.read_offset - blk.o) as u64,
            len: (if v.max_read_offset <= end { v.max_read_offset - v.read_offset } else { end - v.read_offset }) as u64,
        },
    }
}

/// The machine once the front block's first remaining replica is taken.
pub open spec fn after_front_read(v: FsmView) -> FsmView {
    FsmView { q: v.q.update(0, LocatedBlockView { locs: v.q[0].locs.drop_first(), ..v.q[0] }), ..v }
}

/// The action asks for exactly one thing: a request, a DataNode read, an error or the
/// end of the stream, and hands nothing to the reader.
pub open spec fn one_step(a: SourceActionView) -> bool {
    &&& a.deliver is None
    &&& (if a.send is Some { 1int } else { 0 }) + (if a.connect is Some { 1int } else { 0 }) + (if a.error is Some {
        1int
    } else {
        0
    }) + (if a.eos { 1int } else { 0 }) == 1
}

/// Law: the pending read that the source connects with carries the machine's read
/// request unchanged, to the replica's transfer port, and nothing else is asked for.
pub proof fn lemma_translate_keeps_read(src: Seq<char>, dn: DatanodeInfo, rb: ReadBlockView)
    ensures
        translate_spec(src, ActionView::ReadBlock(dn, rb)) == (SourceActionView {
            connect: Some(PendingReadView { ip: dn.inner.id.ip_addr@, port: dn.inner.id.xfer_port as u16, op: rb }),
            ..no_action()
        }),
{
}

/// Law: the stream ends only once the read position has reached the end of the range.
pub proof fn lemma_eos_only_at_end(src: Seq<char>, v: FsmView, ne: NetEvent)
    requires
        net_event_fits(v, ne),
    ensures
        handle_n_spec(src, v, ne).1.eos ==> handle_n_spec(src, v, ne).0.read_offset
            >= handle_n_spec(src, v, ne).0.max_read_offset,
{
    match ne {
        NetEvent::Incoming(Response::NameNode(NameNodeResponse::GetBlockLocations(g))) => {
            let v1 = adjusted(v, g.locations.file_length);
            if let Ok(bs) = located_blocks_spec(g.locations.blocks@) {
                crate::read_fsm::lemma_success_only_at_end(v1, EventView::BlockLocations(bs));
                crate::read_fsm::lemma_position_advances_by_acks(v1, EventView::BlockLocations(bs));
            }
        },
        NetEvent::Incoming(Response::Data(b)) => {
            if bytes_view(b).len() > 0 {
                crate::read_fsm::lemma_success_only_at_end(v, EventView::PacketAck(bytes_view(b).len() as u64));
            } else {
                crate::read_fsm::lemma_success_only_at_end(v, EventView::BlockComplete);
                crate::read_fsm::lemma_position_advances_by_acks(v, EventView::BlockComplete);
            }
        },
        NetEvent::Init => {
            crate::read_fsm::lemma_success_only_at_end(v, EventView::Init);
            crate::read_fsm::lemma_position_advances_by_acks(v, EventView::Init);
        },
        NetEvent::Error(e) => {
            crate::read_fsm::lemma_success_only_at_end(v, EventView::Error(e));
            crate::read_fsm::lemma_position_advances_by_acks(v, EventView::Error(e));
        },
        _ => {},
    }
}

/// Law: every network event other than an idle tick or a nonempty data packet makes
/// the stream ask for exactly one thing: a request, a DataNode read, an error or the
/// end of the stream.
pub proof fn lemma_one_step_per_event(src: Seq<char>, v: FsmView, ne: NetEvent)
    requires
        !(ne is Idle),
        !(ne matches NetEvent::Incoming(Response::Data(b)) && bytes_view(b).len() > 0),
    ensures
        one_step(handle_n_spec(src, v, ne).1),
{
    match ne {
        NetEvent::Incoming(Response::NameNode(NameNodeResponse::GetBlockLocations(g))) => {
            let v1 = adjusted(v, g.locations.file_length);
            if let Ok(bs) = located_blocks_spec(g.locations.blocks@) {
                crate::read_fsm::lemma_nop_only_on_packet_ack(v1, EventView::BlockLocations(bs));
            }
        },
        NetEvent::Incoming(Response::Data(b)) => {
            crate::read_fsm::lemma_nop_only_on_packet_ack(v, EventView::BlockComplete);
        },
        NetEvent::Init => crate::read_fsm::lemma_nop_only_on_packet_ack(v, EventView::Init),
        NetEvent::Error(e) => crate::read_fsm::lemma_nop_only_on_packet_ack(v, EventView::Error(e)),
        _ => {},
    }
}

/// Law: a request for block locations that the stream sends names the file being read
/// and asks for exactly the rest of the range, with no located block left.
pub proof fn lemma_locations_request_lifted(src: Seq<char>, v: FsmView, ne: NetEvent)
    ensures
        handle_n_spec(src, v, ne).1.send matches Some(RequestView::GetBlockLocations { src: s2, offset, length }) ==> {
            &&& s2 == src
            &&& offset == handle_n_spec(src, v, ne).0.read_offset
            &&& offset + length == handle_n_spec(src, v, ne).0.max_read_offset
            &&& handle_n_spec(src, v, ne).0.q.len() == 0
        },
{
    match ne {
        NetEvent::Incoming(Response::NameNode(NameNodeResponse::GetBlockLocations(g))) => {
            let v1 = adjusted(v, g.locations.file_length);
            if let Ok(bs) = located_blocks_spec(g.locations.blocks@) {
                crate::read_fsm::lemma_locations_request_covers_rest(v1, EventView::BlockLocations(bs));
                crate::read_fsm::lemma_position_advances_by_acks(v1, EventView::BlockLocations(bs));
            }
        },
        NetEvent::Incoming(Response::Data(b)) => {
            if bytes_view(b).len() == 0 {
                crate::read_fsm::lemma_locations_request_covers_rest(v, EventView::BlockComplete);
                crate::read_fsm::lemma_position_advances_by_acks(v, EventView::BlockComplete);
            }
        },
        NetEvent::Init => {
            crate::read_fsm::lemma_locations_request_covers_rest(v, EventView::Init);
            crate::read_fsm::lemma_position_advances_by_acks(v, EventView::Init);
        },
        NetEvent::Error(e) => {
            crate::read_fsm::lemma_locations_request_covers_rest(v, EventView::Error(e));
            crate::read_fsm::lemma_position_advances_by_acks(v, EventView::Error(e));
        },
        _ => {},
    }
}

/// Law: the end of a block (an empty data packet) moves the transfer on: the stream
/// ends exactly when the read position has reached the range end; otherwise, with no
/// located block it asks the NameNode for the rest of the range, and where the front
/// block covers the read position it reads the next range from that block's first
/// remaining replica.
pub proof fn lemma_block_end_moves_on(src: Seq<char>, v: FsmView, b: bytes::Bytes)
    requires
        bytes_view(b).len() == 0,
    ensures
        handle_n_spec(src, v, NetEvent::Incoming(Response::Data(b))).1.eos <==> v.read_offset >= v.max_read_offset,
        v.read_offset >= v.max_read_offset ==> handle_n_spec(src, v, NetEvent::Incoming(Response::Data(b))) == (
            v,
            SourceActionView { eos: true, ..no_action() },
        ),
        v.read_offset < v.max_read_offset && v.q.len() == 0 ==> handle_n_spec(
            src,
            v,
            NetEvent::Incoming(Response::Data(b)),
        ) == (
            v,
            SourceActionView {
                send: Some(RequestView::GetBlockLocations {
                    src,
                    offset: v.read_offset,
                    length: (v.max_read_offset - v.read_offset) as u64,
                }),
                ..no_action()
            },
        ),
        front_covers(v) && v.q[0].locs.len() > 0 ==> handle_n_spec(src, v, NetEvent::Incoming(Response::Data(b))) == (
            after_front_read(v),
            SourceActionView { connect: Some(front_read(v)), ..no_action() },
        ),
{
    crate::read_fsm::lemma_success_only_at_end(v, EventView::Init);
    if front_covers(v) && v.q[0].locs.len() > 0 {
        crate::read_fsm::lemma_resume_reads_front_block(v, EventView::BlockComplete);
    }
}

/// Law: a failed read fails over: where the front block covers the read position below
/// the range end and has a replica left, the stream reads the same range from that
/// block's next replica and reports no error; the failure is passed on as the stream's
/// error only where no block is queued.
pub proof fn lemma_stream_failover(src: Seq<char>, v: FsmView, e: HdfsError)
    ensures
        front_covers(v) && v.q[0].locs.len() > 0 ==> handle_n_spec(src, v, NetEvent::Error(e)) == (
            after_front_read(v),
            SourceActionView { connect: Some(front_read(v)), ..no_action() },
        ),
        v.q.len() == 0 ==> handle_n_spec(src, v, NetEvent::Error(e)) == (
            v,
            SourceActionView { error: Some(e), ..no_action() },
        ),
{
    if front_covers(v) && v.q[0].locs.len() > 0 {
        crate::read_fsm::lemma_resume_reads_front_block(v, EventView::Error(e));
    }
}

/// Law: a block locations reply with no corrupt block becomes one located block per
/// record, in order, each with the record's offset, block, access token and replicas.
pub proof fn lemma_located_blocks_are_records(recs: Seq<LocatedBlockRecord>)
    requires
        forall|i: int| 0 <= i < recs.len() ==> !(#[trigger] recs[i]).corrupt,
    ensures
        located_blocks_spec(recs) is Ok,
        located_blocks_spec(recs)->Ok_0.len() == recs.len(),
        forall|i: int| 0 <= i < recs.len() ==> {
            let blk = #[trigger] located_blocks_spec(recs)->Ok_0[i];
            &&& blk.o == recs[i].offset
            &&& blk.b == recs[i].b
            &&& blk.t == recs[i].block_token@
            &&& blk.locs.len() == recs[i].locs@.len()
            &&& forall|j: int| 0 <= j < blk.locs.len() ==> (#[trigger] blk.locs[j]).inner == recs[i].locs@[j]
        },
    decreases recs.len(),
{
    if recs.len() > 0 {
        let rest = recs.drop_first();
        assert forall|i: int| 0 <= i < rest.len() implies !(#[trigger] rest[i]).corrupt by {
            assert(rest[i] == recs[i + 1]);
        }
        assert(!recs[0].corrupt);
        lemma_located_blocks_are_records(rest);
        let bs = located_blocks_spec(recs)->Ok_0;
        let tail = located_blocks_spec(rest)->Ok_0;
        assert(bs == seq![record_view(recs[0])] + tail);
        assert forall|i: int| 0 <= i < recs.len() implies {
            let blk = #[trigger] located_blocks_spec(recs)->Ok_0[i];
            &&& blk.o == recs[i].offset
            &&& blk.b == recs[i].b
            &&& blk.t == recs[i].block_token@
            &&& blk.locs.len() == recs[i].locs@.len()
            &&& forall|j: int| 0 <= j < blk.locs.len() ==> (#[trigger] blk.locs[j]).inner == recs[i].locs@[j]
        } by {
            if i > 0 {
                assert(bs[i] == tail[i - 1]);
                assert(rest[i - 1] == recs[i]);
            }
        }
    }
}

/// Law: the stream waits for replies from the network exactly after it starts; at
/// the start it acts as the machine does at its start.
pub proof fn lemma_start_listens(src: Seq<char>, v: FsmView, ne: NetEvent)
    ensures
        handle_n_spec(src, v, ne).1.recv <==> ne is Init,
        ne is Init ==> handle_n_spec(src, v, ne) == (
            handle_t_spec(src, v, EventView::Init).0,
            SourceActionView { recv: true, ..handle_t_spec(src, v, EventView::Init).1 },
        ),
{
}

/// Law: a connection that ends before the transfer fails the stream with
/// `PrematureEof`, an unexpected reply fails it with that reply, and an idle tick does
/// nothing; none of them changes the machine.
pub proof fn lemma_unexpected_events_fail(src: Seq<char>, v: FsmView, ne: NetEvent)
    ensures
        ne is EndOfStream ==> handle_n_spec(src, v, ne) == (v, SourceActionView { error: Some(HdfsError::PrematureEof), ..no_action() }),
        ne is Idle ==> handle_n_spec(src, v, ne) == (v, no_action()),
        ne matches NetEvent::Incoming(Response::Other(d)) ==> handle_n_spec(src, v, ne) == (
            v,
            SourceActionView { error: Some(HdfsError::UnexpectedResponse(Response::Other(d))), ..no_action() },
        ),
        ne matches NetEvent::Incoming(Response::NameNode(NameNodeResponse::GetListing(l))) ==> handle_n_spec(src, v, ne)
            == (
            v,
            SourceActionView {
                error: Some(HdfsError::UnexpectedResponse(Response::NameNode(NameNodeResponse::GetListing(l)))),
                ..no_action()
            },
        ),
{
}

/// Law: a block locations reply with no block fails the stream with
/// `EmptyBlockLocations`; the range end is still lowered to the file length.
pub proof fn lemma_empty_locations_fail(src: Seq<char>, v: FsmView, g: GetBlockLocationsResponse)
    requires
        g.locations.blocks@.len() == 0,
    ensures
        handle_n_spec(src, v, NetEvent::Incoming(Response::NameNode(NameNodeResponse::GetBlockLocations(g)))) == (
            FsmView { max_read_offset: min_u64(g.locations.file_length, v.max_read_offset), ..v },
            SourceActionView { error: Some(HdfsError::EmptyBlockLocations), ..no_action() },
        ),
{
}

/// Law: located blocks that arrive are queued after the blocks already located, and
/// the machine then goes on as it does at its start.
pub proof fn lemma_blocks_queued_after(v: FsmView, bs: Seq<LocatedBlockView>)
    requires
        bs.len() > 0,
    ensures
        handle_spec(v, EventView::BlockLocations(bs)) == handle_spec(FsmView { q: v.q + bs, ..v }, EventView::Init),
{
}

/// Law: a pending read whose address does not parse fails the stream with that address
/// text and sends nothing; one whose address parses sends the pending read, unchanged,
/// to the parsed address and the pending port.
pub proof fn lemma_resolve(p: PendingRead, octets: Seq<u8>)
    ensures
        resolve_spec(p, None) == (SourceActionView { error: Some(HdfsError::InvalidDatanodeIp(p.ip)), ..no_action() }),
        resolve_spec(p, Some(octets)) == (SourceActionView {
            send: Some(RequestView::ReadBlock { ip: octets, port: p.port, op: p.op@ }),
            ..no_action()
        }),
{
}

} // verus!
