//! The state machine that reads a byte range of a file block by block.
//!
//! The machine keeps the blocks that the NameNode located, in file order, the read
//! position (how far the file has been received) and the end of the range to read.
//! On each event it decides what to do next: ask the NameNode for block locations,
//! ask a DataNode for the rest of the current block, report success or an error.
//! A DataNode that fails is dropped and the block is read from its next replica.

use vstd::prelude::*;
use std::collections::VecDeque;
use crate::datanode::DatanodeInfo;
use crate::error::HdfsError;
use crate::messages::{ExtendedBlock, ReadBlock, ReadBlockView, Token, TokenView};

verus! {

// ------------------------------------------------------------------------------------------
// Located blocks
// ------------------------------------------------------------------------------------------

/// A block of the file, where it starts, its access token and the replicas not tried yet.
#[derive(Debug)]
pub struct LocatedBlock {
    /// Offset of the block within the file.
    pub o: u64,
    pub b: ExtendedBlock,
    pub t: Token,
    /// Remaining DataNodes.
    pub locs: VecDeque<DatanodeInfo>,
}

pub struct LocatedBlockView {
    pub o: u64,
    pub b: ExtendedBlock,
    pub t: TokenView,
    pub locs: Seq<DatanodeInfo>,
}

impl View for LocatedBlock {
    type V = LocatedBlockView;

    open spec fn view(&self) -> LocatedBlockView {
        LocatedBlockView { o: self.o, b: self.b, t: self.t@, locs: self.locs@ }
    }
}

/// One past the block's last offset within the file.
pub open spec fn block_end(blk: LocatedBlockView) -> int {
    blk.o + blk.b.num_bytes
}

pub open spec fn min_u64(a: u64, b: u64) -> u64 {
    if a <= b { a } else { b }
}

// ------------------------------------------------------------------------------------------
// Actions and events
// ------------------------------------------------------------------------------------------

/// What the machine asks for.
#[derive(Debug)]
pub enum GetFsmAction {
    /// Nothing to do.
    Nop,
    /// Ask the NameNode where the blocks covering `len` bytes from `offset` are.
    RequestBlockLocations { offset: u64, len: u64 },
    /// Ask the DataNode for a range of a block.
    ReadBlock(DatanodeInfo, ReadBlock),
    /// Fail the transfer.
    Error(HdfsError),
    /// The whole range has been read.
    Success,
}

pub enum ActionView {
    Nop,
    RequestBlockLocations { offset: u64, len: u64 },
    ReadBlock(DatanodeInfo, ReadBlockView),
    Error(HdfsError),
    Success,
}

impl View for GetFsmAction {
    type V = ActionView;

    open spec fn view(&self) -> ActionView {
        match self {
            GetFsmAction::Nop => ActionView::Nop,
            GetFsmAction::RequestBlockLocations { offset, len } => ActionView::RequestBlockLocations {
                offset: *offset,
                len: *len,
            },
            GetFsmAction::ReadBlock(dn, rb) => ActionView::ReadBlock(*dn, rb@),
            GetFsmAction::Error(e) => ActionView::Error(*e),
            GetFsmAction::Success => ActionView::Success,
        }
    }
}

/// What happens to the machine.
#[derive(Debug)]
pub enum GetFsmEvent {
    /// The transfer starts.
    Init,
    /// A packet of the given length was received.
    PacketAck(u64),
    /// Receiving failed.
    Error(HdfsError),
    /// The end of the current block was received.
    BlockComplete,
    /// Block locations were received.
    BlockLocations(Vec<LocatedBlock>),
}

pub enum EventView {
    Init,
    PacketAck(u64),
    Error(HdfsError),
    BlockComplete,
    BlockLocations(Seq<LocatedBlockView>),
}

pub open spec fn blocks_view(bs: Seq<LocatedBlock>) -> Seq<LocatedBlockView> {
    bs.map_values(|b: LocatedBlock| b@)
}

impl View for GetFsmEvent {
    type V = EventView;

    open spec fn view(&self) -> EventView {
        match self {
            GetFsmEvent::Init => EventView::Init,
            GetFsmEvent::PacketAck(n) => EventView::PacketAck(*n),
            GetFsmEvent::Error(e) => EventView::Error(*e),
            GetFsmEvent::BlockComplete => EventView::BlockComplete,
            GetFsmEvent::BlockLocations(bs) => EventView::BlockLocations(blocks_view(bs@)),
        }
    }
}

// ------------------------------------------------------------------------------------------
// The machine
// ------------------------------------------------------------------------------------------

#[derive(Debug)]
pub struct GetFsm {
    pub q: VecDeque<LocatedBlock>,
    /// Upper bound of `read_offset` (size of the file).
    pub max_read_offset: u64,
    /// File position read successfully so far. This is at a packet boundary or at the end.
    pub read_offset: u64,
}

pub struct FsmView {
    pub q: Seq<LocatedBlockView>,
    pub max_read_offset: u64,
    pub read_offset: u64,
}

impl View for GetFsm {
    type V = FsmView;

    open spec fn view(&self) -> FsmView {
        FsmView { q: blocks_view(self.q@), max_read_offset: self.max_read_offset, read_offset: self.read_offset }
    }
}

/// The event can be handled without overflow: an acknowledged packet does not carry
/// the read position past `u64::MAX`.
pub open spec fn event_fits(v: FsmView, e: EventView) -> bool {
    match e {
        EventView::PacketAck(len) => v.read_offset + len <= u64::MAX,
        _ => true,
    }
}

// ------------------------------------------------------------------------------------------
// What the machine does
// ------------------------------------------------------------------------------------------

/// The action for block `blk` at read position `r` with range end `max`, and the block
/// afterwards. Where the block covers `r`, its first remaining replica is asked for the
/// rest of the block up to `max` and is taken off the block; with no replica left the
/// read fails. A block that ends at or before `r` is passed over (`Nop`). A block that
/// starts after `r` leaves a gap: an error.
pub open spec fn build_spec(blk: LocatedBlockView, r: u64, max: u64) -> (LocatedBlockView, ActionView) {
    let lb = blk.o;
    let ub = block_end(blk);
    if lb <= r && r < ub {
        if blk.locs.len() > 0 {
            (
                LocatedBlockView { locs: blk.locs.drop_first(), ..blk },
                ActionView::ReadBlock(
                    blk.locs[0],
                    ReadBlockView {
                        b: blk.b,
                        t: blk.t,
                        offset: (r - lb) as u64,
                        len: (if max <= ub { max - r } else { ub - r }) as u64,
                    },
                ),
            )
        } else {
            (blk, ActionView::Error(HdfsError::AllReplicasCorrupt(blk.b)))
        }
    } else if r >= ub {
        (blk, ActionView::Nop)
    } else {
        (blk, ActionView::Error(HdfsError::BlockGap { block: blk.b, block_start: lb, read_offset: r, max_read_offset: max }))
    }
}

/// The next action from the queue `q`: success once `r` reached `max`; otherwise the
/// blocks that end at or before `r` are dropped, and the first remaining block gives
/// the action; with no block left, the locations of the rest of the range are asked for.
pub open spec fn next_block_spec(q: Seq<LocatedBlockView>, r: u64, max: u64) -> (Seq<LocatedBlockView>, ActionView)
    decreases q.len(),
{
    if r < max {
        if q.len() == 0 {
            (q, ActionView::RequestBlockLocations { offset: r, len: (max - r) as u64 })
        } else {
            let (b2, a) = build_spec(q[0], r, max);
            if a is Nop {
                next_block_spec(q.drop_first(), r, max)
            } else {
                (seq![b2] + q.drop_first(), a)
            }
        }
    } else {
        (q, ActionView::Success)
    }
}

/// The machine after `next_block`, and its action.
pub open spec fn next_spec(v: FsmView) -> (FsmView, ActionView) {
    let (q2, a) = next_block_spec(v.q, v.read_offset, v.max_read_offset);
    (FsmView { q: q2, ..v }, a)
}

/// The machine after handling `e`, and its action.
pub open spec fn handle_spec(v: FsmView, e: EventView) -> (FsmView, ActionView) {
    match e {
        EventView::Init => next_spec(v),
        EventView::BlockComplete => next_spec(v),
        EventView::Error(err) => if v.q.len() == 0 {
            (v, ActionView::Error(err))
        } else {
            next_spec(v)
        },
        EventView::BlockLocations(bs) => if bs.len() == 0 {
            (v, ActionView::Error(HdfsError::EmptyBlockLocations))
        } else {
            next_spec(FsmView { q: v.q + bs, ..v })
        },
        EventView::PacketAck(len) => (FsmView { read_offset: (v.read_offset + len) as u64, ..v }, ActionView::Nop),
    }
}

impl LocatedBlock {
    /// Builds the read action for `[read_offset, max_read_offset)`: a read of the
    /// block's first remaining replica where the block covers `read_offset`, `Nop`
    /// where `read_offset` is past the block, an error otherwise (see `build_spec`).
    pub fn build_read_block(&mut self, read_offset: u64, max_read_offset: u64) -> (a: GetFsmAction)
        requires
            old(self).o <= read_offset < old(self).o + old(self).b.num_bytes && old(self).locs@.len() > 0
                ==> read_offset <= max_read_offset,
        ensures
            (final(self)@, a@) == build_spec(old(self)@, read_offset, max_read_offset),
    {
        let lb = self.o;
        let n = self.b.num_bytes;
        if lb <= read_offset {
            let into_block = read_offset - lb;
            if into_block < n {
                // fetch the next replica
                match self.locs.pop_front() {
                    Some(dni) => {
                        let to_range_end = max_read_offset - read_offset;
                        let to_block_end = n - into_block;
                        let len = if to_range_end <= to_block_end { to_range_end } else { to_block_end };
                        let rb = ReadBlock { b: self.b.copy(), t: self.t.copy(), offset: into_block, len };
                        proof {
                            assert(self.locs@ =~= old(self).locs@.drop_first());
                        }
                        GetFsmAction::ReadBlock(dni, rb)
                    },
                    // no valid replica
                    None => GetFsmAction::Error(HdfsError::AllReplicasCorrupt(self.b.copy())),
                }
            } else {
                // skip to the next block
                GetFsmAction::Nop
            }
        } else {
            // gap between blocks: the block starts after the read position
            GetFsmAction::Error(
                HdfsError::BlockGap { block: self.b.copy(), block_start: lb, read_offset, max_read_offset },
            )
        }
    }
}

impl GetFsm {
    /// A machine that reads `[read_offset, max_read_offset)`, with no block located yet.
    pub fn new(read_offset: u64, max_read_offset: u64) -> (r: GetFsm)
        ensures
            r@ == (FsmView { q: Seq::empty(), max_read_offset, read_offset }),
    {
        let r = GetFsm { q: VecDeque::new(), read_offset, max_read_offset };
        assert(r@.q =~= Seq::<LocatedBlockView>::empty());
        r
    }

    /// Lowers the end of the range to `max_read_offset` where that is below it.
    pub fn adjust_max_read_offset(&mut self, max_read_offset: u64)
        ensures
            final(self)@ == (FsmView { max_read_offset: min_u64(max_read_offset, old(self).max_read_offset), ..old(self)@ }),
    {
        self.max_read_offset = if max_read_offset <= self.max_read_offset {
            max_read_offset
        } else {
            self.max_read_offset
        };
    }

    /// The next action (see `next_block_spec`).
    pub fn next_block(&mut self) -> (a: GetFsmAction)
        ensures
            (final(self)@, a@) == next_spec(old(self)@),
    {
        if self.read_offset < self.max_read_offset {
            loop
                invariant
                    self.read_offset == old(self).read_offset,
                    self.max_read_offset == old(self).max_read_offset,
                    self.read_offset < self.max_read_offset,
                    next_spec(self@) == next_spec(old(self)@),
                decreases self.q@.len(),
            {
                let ghost q0 = self@.q;
                match self.q.pop_front() {
                    Some(mut located_block) => {
                        proof {
                            assert(self@.q =~= q0.drop_first());
                        }
                        let a = located_block.build_read_block(self.read_offset, self.max_read_offset);
                        if let GetFsmAction::Nop = a {
                            // the block is behind the read position: drop it and start over
                        } else {
                            let ghost rest = self@.q;
                            self.q.push_front(located_block);
                            proof {
                                assert(self@.q =~= seq![located_block@] + rest);
                            }
                            return a;
                        }
                    },
                    None => {
                        return GetFsmAction::RequestBlockLocations {
                            offset: self.read_offset,
                            len: self.max_read_offset - self.read_offset,
                        };
                    },
                }
            }
        } else {
            GetFsmAction::Success
        }
    }

    /// Handles an event (see `handle_spec`).
    pub fn handle(&mut self, evt: GetFsmEvent) -> (a: GetFsmAction)
        requires
            event_fits(old(self)@, evt@),
        ensures
            (final(self)@, a@) == handle_spec(old(self)@, evt@),
    {
        match evt {
            GetFsmEvent::Init => self.next_block(),
            GetFsmEvent::BlockComplete => self.next_block(),
            GetFsmEvent::Error(e) => if self.q.len() == 0 {
                GetFsmAction::Error(e)
            } else {
                self.next_block()
            },
            GetFsmEvent::BlockLocations(blocks) => if blocks.len() == 0 {
                GetFsmAction::Error(HdfsError::EmptyBlockLocations)
            } else {
                let mut blocks = blocks;
                let ghost q0 = self@.q;
                let ghost bs0 = blocks_view(blocks@);
                while blocks.len() > 0
                    invariant
                        self.read_offset == old(self).read_offset,
                        self.max_read_offset == old(self).max_read_offset,
                        self@.q + blocks_view(blocks@) == q0 + bs0,
                    decreases blocks.len(),
                {
                    let ghost before = self@.q;
                    let ghost rest = blocks_view(blocks@);
                    let blk = blocks.remove(0);
                    self.q.push_back(blk);
                    proof {
                        assert(blocks_view(blocks@) =~= rest.drop_first());
                        assert(self@.q =~= before.push(blk@));
                        assert(self@.q + blocks_view(blocks@) =~= before + rest);
                    }
                }
                proof {
                    assert(blocks_view(blocks@) =~= Seq::<LocatedBlockView>::empty());
                    assert(self@.q =~= q0 + bs0);
                }
                self.next_block()
            },
            GetFsmEvent::PacketAck(len) => {
                self.read_offset = self.read_offset + len;
                GetFsmAction::Nop
            },
        }
    }
}

// ------------------------------------------------------------------------------------------
// Laws
// ------------------------------------------------------------------------------------------

/// What a read request asks for: a nonempty range that starts at the read position
/// within the front block and runs to the block's end or to the range end, whichever
/// comes first.
pub open spec fn read_request_in_bounds(v2: FsmView, rb: ReadBlockView) -> bool {
    &&& 0 < rb.len
    &&& rb.offset + rb.len <= rb.b.num_bytes
    &&& v2.read_offset + rb.len <= v2.max_read_offset
    &&& (v2.read_offset + rb.len == v2.max_read_offset || rb.offset + rb.len == rb.b.num_bytes)
    &&& v2.q.len() > 0
    &&& v2.q[0].b == rb.b
    &&& v2.q[0].t == rb.t
    &&& v2.q[0].o + rb.offset == v2.read_offset
}

proof fn lemma_next_block(q: Seq<LocatedBlockView>, r: u64, max: u64)
    ensures
        !(next_block_spec(q, r, max).1 is Nop),
        next_block_spec(q, r, max).1 is Success <==> r >= max,
        next_block_spec(q, r, max).1 matches ActionView::ReadBlock(dn, rb) ==> read_request_in_bounds(
            FsmView { q: next_block_spec(q, r, max).0, max_read_offset: max, read_offset: r },
            rb,
        ),
        next_block_spec(q, r, max).1 matches ActionView::RequestBlockLocations { offset, len } ==> {
            &&& offset == r
            &&& offset + len == max
            &&& next_block_spec(q, r, max).0.len() == 0
        },
    decreases q.len(),
{
    if r < max && q.len() > 0 {
        let (b2, a) = build_spec(q[0], r, max);
        if a is Nop {
            lemma_next_block(q.drop_first(), r, max);
        }
    }
}

proof fn lemma_handle(v: FsmView, e: EventView)
    ensures
        e is PacketAck <==> handle_spec(v, e).1 is Nop,
        handle_spec(v, e).1 is Success ==> v.read_offset >= v.max_read_offset,
        e is Init ==> (handle_spec(v, e).1 is Success <==> v.read_offset >= v.max_read_offset),
        handle_spec(v, e).1 matches ActionView::ReadBlock(dn, rb) ==> read_request_in_bounds(handle_spec(v, e).0, rb),
        handle_spec(v, e).1 matches ActionView::RequestBlockLocations { offset, len } ==> {
            &&& offset == v.read_offset
            &&& offset + len == v.max_read_offset
            &&& handle_spec(v, e).0.q.len() == 0
        },
{
    match e {
        EventView::BlockLocations(bs) => {
            lemma_next_block(v.q + bs, v.read_offset, v.max_read_offset);
        },
        EventView::PacketAck(_) => {},
        _ => {
            lemma_next_block(v.q, v.read_offset, v.max_read_offset);
        },
    }
}

/// Law: after any event other than an acknowledged packet the machine has something
/// to do: it answers `Nop` exactly to acknowledged packets.
pub proof fn lemma_nop_only_on_packet_ack(v: FsmView, e: EventView)
    ensures
        handle_spec(v, e).1 is Nop <==> e is PacketAck,
{
    lemma_handle(v, e);
}

/// Law: the machine reports success only once the read position has reached the end
/// of the range, and, at the start, reports it at once when the range is empty.
pub proof fn lemma_success_only_at_end(v: FsmView, e: EventView)
    ensures
        handle_spec(v, e).1 is Success ==> v.read_offset >= v.max_read_offset,
        e is Init ==> (handle_spec(v, e).1 is Success <==> v.read_offset >= v.max_read_offset),
{
    lemma_handle(v, e);
}

/// Law: every read request that the machine makes asks for a nonempty range that
/// starts at the read position, lies inside the block at the front of the queue, and
/// does not pass the end of the range to read.
pub proof fn lemma_read_request_in_bounds(v: FsmView, e: EventView)
    ensures
        handle_spec(v, e).1 matches ActionView::ReadBlock(dn, rb) ==> read_request_in_bounds(handle_spec(v, e).0, rb),
{
    lemma_handle(v, e);
}

/// Law: when the machine asks the NameNode for block locations it asks for exactly
/// the rest of the range, from the read position to the range end, and it has no
/// located block left.
pub proof fn lemma_locations_request_covers_rest(v: FsmView, e: EventView)
    ensures
        handle_spec(v, e).1 matches ActionView::RequestBlockLocations { offset, len } ==> {
            &&& offset == v.read_offset
            &&& offset + len == v.max_read_offset
            &&& handle_spec(v, e).0.q.len() == 0
        },
{
    lemma_handle(v, e);
}

/// Law: no event moves the read position back or changes the range end; only an
/// acknowledged packet moves the read position, by exactly the packet's length.
pub proof fn lemma_position_advances_by_acks(v: FsmView, e: EventView)
    requires
        event_fits(v, e),
    ensures
        handle_spec(v, e).0.max_read_offset == v.max_read_offset,
        handle_spec(v, e).0.read_offset == match e {
            EventView::PacketAck(len) => v.read_offset + len,
            _ => v.read_offset as int,
        },
{
}

/// Law: when reading a block fails, the machine asks the block's next replica for the
/// same range; once no replica is left it fails with the block's error.
pub proof fn lemma_failover_to_next_replica(v: FsmView, err: HdfsError)
    requires
        v.read_offset < v.max_read_offset,
        v.q.len() > 0,
        v.q[0].o <= v.read_offset < block_end(v.q[0]),
    ensures
        v.q[0].locs.len() > 0 ==> handle_spec(v, EventView::Error(err)) == (
            FsmView { q: v.q.update(0, LocatedBlockView { locs: v.q[0].locs.drop_first(), ..v.q[0] }), ..v },
            ActionView::ReadBlock(
                v.q[0].locs[0],
                ReadBlockView {
                    b: v.q[0].b,
                    t: v.q[0].t,
                    offset: (v.read_offset - v.q[0].o) as u64,
                    len: (if v.max_read_offset <= block_end(v.q[0]) {
                        v.max_read_offset - v.read_offset
                    } else {
                        block_end(v.q[0]) - v.read_offset
                    }) as u64,
                },
            ),
        ),
        v.q[0].locs.len() == 0 ==> handle_spec(v, EventView::Error(err)) == (
            v,
            ActionView::Error(HdfsError::AllReplicasCorrupt(v.q[0].b)),
        ),
{
    let (q2, a) = next_block_spec(v.q, v.read_offset, v.max_read_offset);
    if v.q[0].locs.len() > 0 {
        assert(q2 =~= v.q.update(0, LocatedBlockView { locs: v.q[0].locs.drop_first(), ..v.q[0] }));
    } else {
        assert(q2 =~= v.q);
    }
}

/// The front block covers the read position, which is below the range end.
pub open spec fn front_covers(v: FsmView) -> bool {
    &&& v.read_offset < v.max_read_offset
    &&& v.q.len() > 0
    &&& v.q[0].o <= v.read_offset
    &&& v.read_offset < v.q[0].o + v.q[0].b.num_bytes
}

/// Law: when the machine resumes (at the start, after a block is complete, or after a
/// failed read) and the front block covers the read position below the range end, it
/// reads from that block's first remaining replica, from the read position to the
/// block's end or the range end, whichever comes first, and drops that replica from
/// the block; with no replica left it fails with the block's error.
pub proof fn lemma_resume_reads_front_block(v: FsmView, e: EventView)
    requires
        e is Init || e is BlockComplete || e is Error,
        front_covers(v),
    ensures
        v.q[0].locs.len() > 0 ==> {
            &&& handle_spec(v, e).0 == FsmView {
                q: v.q.update(0, LocatedBlockView { locs: v.q[0].locs.drop_first(), ..v.q[0] }),
                ..v
            }
            &&& handle_spec(v, e).1 matches ActionView::ReadBlock(dn, rb) && {
                &&& dn == v.q[0].locs[0]
                &&& rb.b == v.q[0].b
                &&& rb.t == v.q[0].t
                &&& v.q[0].o + rb.offset == v.read_offset
                &&& v.read_offset + rb.len == if v.max_read_offset <= v.q[0].o + v.q[0].b.num_bytes {
                    v.max_read_offset as int
                } else {
                    v.q[0].o + v.q[0].b.num_bytes
                }
            }
        },
        v.q[0].locs.len() == 0 ==> handle_spec(v, e) == (v, ActionView::Error(HdfsError::AllReplicasCorrupt(v.q[0].b))),
{
    let (q2, a) = next_block_spec(v.q, v.read_offset, v.max_read_offset);
    if v.q[0].locs.len() > 0 {
        assert(q2 =~= v.q.update(0, LocatedBlockView { locs: v.q[0].locs.drop_first(), ..v.q[0] }));
    } else {
        assert(q2 =~= v.q);
    }
}

/// Law: a block that ends at or before the read position is passed over: the machine
/// acts as if it were not queued.
pub proof fn lemma_passed_block_skipped(v: FsmView, e: EventView)
    requires
        e is Init || e is BlockComplete || (e is Error && v.q.len() > 1),
        v.read_offset < v.max_read_offset,
        v.q.len() > 0,
        v.q[0].o + v.q[0].b.num_bytes <= v.read_offset,
    ensures
        handle_spec(v, e) == handle_spec(FsmView { q: v.q.drop_first(), ..v }, e),
{
}

/// Law: a block that starts after the read position leaves a gap: the machine fails
/// with the block, where it starts, the read position and the range end.
pub proof fn lemma_gap_fails(v: FsmView, e: EventView)
    requires
        e is Init || e is BlockComplete || e is Error,
        v.read_offset < v.max_read_offset,
        v.q.len() > 0,
        v.read_offset < v.q[0].o,
    ensures
        handle_spec(v, e) == (
            v,
            ActionView::Error(
                HdfsError::BlockGap {
                    block: v.q[0].b,
                    block_start: v.q[0].o,
                    read_offset: v.read_offset,
                    max_read_offset: v.max_read_offset,
                },
            ),
        ),
{
    assert(next_block_spec(v.q, v.read_offset, v.max_read_offset).0 =~= v.q);
}

} // verus!
