//! The conversation with an operating system that hands out its adapters as
//! a linked list in a block of memory.
//!
//! The probe decides; its driver acts. The driver performs each request,
//! hands the reply to `Probe::step` and gets the next request, until the
//! request is `Done`. The probe never touches memory itself, so what it
//! asks for is all that happens to the block.

use crate::error::MacError;
use crate::mac::{is_valid_mac, lemma_format_round_trip, mac_text};
use crate::win::{
    adapter_text, buffer_plan, convert_mac_bytes, find_from, first_zero, get_adapters,
    get_if_index, lemma_first_zero_from, must_release, name_text, records_of, resolved,
    should_release, units_of, visit, visit_rule, Adapter, AdapterRecord, Visit, MAX_ADAPTERS,
    MAX_NAME_LENGTH, NO_ERROR,
};
use crate::utf16::{decode_lossy, decode_utf16_lossy};
use crate::{MacInfo, MacText};
use vstd::prelude::*;

verus! {

/// The address whose route decides which interface is the primary one. It
/// is asked about and never contacted.
pub const PROBE_ADDRESS: u32 = 0x08080808;

/// What the probe asks its driver to do.
#[derive(Clone, Copy, Debug, PartialEq, Eq, Structural)]
pub enum Request {
    /// Ask for the index of the interface that reaches `destination`.
    BestInterface { destination: u32 },
    /// Ask how many bytes the adapter list needs.
    BufferSize,
    /// Allocate a block of `size` bytes aligned to `align`.
    Allocate { size: usize, align: usize },
    /// Have the block of `size` bytes filled with the adapter list.
    Populate { size: usize },
    /// Read the record at `at`.
    ReadRecord { at: usize },
    /// Read code unit `index` of the display name of the record at `at`.
    ReadNameUnit { at: usize, index: usize },
    /// Give the block back, with the size and alignment it was allocated
    /// with.
    Release { size: usize, align: usize },
    /// Nothing is left to do: the outcome is ready.
    Done,
}

/// What the driver answers.
#[derive(Clone, Debug)]
pub enum Reply {
    /// The status of the route query and the index it gave.
    BestInterface { status: u32, if_index: u32 },
    /// The number of bytes that the adapter list needs.
    BufferSize { size: u32 },
    /// The place of the new block, `None` where the allocator gave none.
    Allocated { block: Option<usize> },
    /// The status of the query that fills the block.
    Populated { status: u32 },
    /// The record that was read.
    Record { record: AdapterRecord },
    /// The code unit that was read, `None` where the record's pointer to
    /// its display name is null.
    NameUnit { unit: Option<u16> },
    /// The block has been given back.
    Released,
}

/// Where the probe stands: which reply it waits for.
#[derive(Clone, Copy, Debug, PartialEq, Eq, Structural)]
pub enum Stage {
    Routing,
    Sizing,
    Allocating,
    Populating,
    Walking,
    Naming,
    Releasing,
    Finished,
}

/// What the driver may do to the block at a point of the conversation.
#[derive(Clone, Copy, Debug, PartialEq, Eq, Structural)]
pub enum Custody {
    /// No block has been handed out.
    Unallocated,
    /// The block is in use.
    Held { size: usize, align: usize },
    /// The block has been given back.
    Released,
}

/// The state of a probe.
pub struct Probe {
    stage: Stage,
    align: usize,
    target: u32,
    block: Option<usize>,
    size: usize,
    seen: Vec<usize>,
    addr: String,
    name: Vec<u16>,
    outcome: Option<Result<MacInfo, MacError>>,
}

/// What a probe holds.
pub struct ProbeView {
    /// The reply that the probe waits for.
    pub stage: Stage,
    /// The alignment that a record needs.
    pub align: usize,
    /// The index of the interface looked for.
    pub target: u32,
    /// The place of the block, once the allocator has answered.
    pub block: Option<usize>,
    /// The size of the block, once it is planned.
    pub size: usize,
    /// The places of the records read so far, that of the pending one last.
    pub seen: Seq<usize>,
    /// The address of the record found.
    pub addr: Seq<char>,
    /// The code units of the display name read so far.
    pub name: Seq<u16>,
    /// The outcome, once it is settled.
    pub outcome: Option<Result<MacText, MacError>>,
}

/// What an outcome holds, as text.
pub open spec fn settled(outcome: Option<Result<MacInfo, MacError>>) -> Option<
    Result<MacText, MacError>,
> {
    match outcome {
        None => None,
        Some(Ok(info)) => Some(Ok(info@)),
        Some(Err(e)) => Some(Err(e)),
    }
}

impl View for Probe {
    type V = ProbeView;

    closed spec fn view(&self) -> ProbeView {
        ProbeView {
            stage: self.stage,
            align: self.align,
            target: self.target,
            block: self.block,
            size: self.size,
            seen: self.seen@,
            addr: self.addr@,
            name: self.name@,
            outcome: settled(self.outcome),
        }
    }
}

/// The first request of every probe.
pub open spec fn first_request() -> Request {
    Request::BestInterface { destination: PROBE_ADDRESS }
}

/// The state of a probe that has asked its first request.
pub open spec fn initial(align: usize) -> ProbeView {
    ProbeView {
        stage: Stage::Routing,
        align,
        target: 0,
        block: None,
        size: 0,
        seen: Seq::empty(),
        addr: Seq::empty(),
        name: Seq::empty(),
        outcome: None,
    }
}

/// The probe settles on `outcome`: it asks for the block to be given back
/// where it has one, and is done where it has none.
pub open spec fn finish_rule(pre: ProbeView, outcome: Result<MacText, MacError>) -> (
    ProbeView,
    Request,
) {
    if must_release(pre.block, pre.size) {
        (
            ProbeView { stage: Stage::Releasing, outcome: Some(outcome), ..pre },
            Request::Release { size: pre.size, align: pre.align },
        )
    } else {
        (ProbeView { stage: Stage::Finished, outcome: Some(outcome), ..pre }, Request::Done)
    }
}

/// The next state of the probe and its next request, from its state and the
/// reply of the driver.
///
/// A failed route query ends in `NoAdapterFound`. A reported size of zero
/// or above the limit means an empty adapter list, which holds no adapter;
/// a size without a layout ends in `AllocationError`. A query that does not
/// fill the block ends in `AdapterQueryError`. The records are then read one
/// after the other as `visit_rule` says, from the start of the block. Of the
/// record found the address is written and the display name read, one code
/// unit after the other up to its terminator; a null pointer to the name,
/// and a name without a terminator among its first `MAX_NAME_LENGTH` code
/// units, end in `CorruptAdapterList`. A reply that does not answer the
/// pending request ends in `AdapterQueryError`.
/// Whatever the end, a block that is held is given back before the probe is
/// done.
pub open spec fn step_rule(pre: ProbeView, reply: Reply) -> (ProbeView, Request) {
    match pre.stage {
        Stage::Finished => (pre, Request::Done),
        Stage::Releasing => (ProbeView { stage: Stage::Finished, ..pre }, Request::Done),
        Stage::Routing => match reply {
            Reply::BestInterface { status, if_index } => if status == NO_ERROR {
                (ProbeView { stage: Stage::Sizing, target: if_index, ..pre }, Request::BufferSize)
            } else {
                finish_rule(pre, Err(MacError::NoAdapterFound))
            },
            _ => finish_rule(pre, Err(MacError::AdapterQueryError)),
        },
        Stage::Sizing => match reply {
            Reply::BufferSize { size } => match buffer_plan(size, pre.align) {
                Err(e) => finish_rule(pre, Err(e)),
                Ok(None) => finish_rule(pre, Err(MacError::NoAdapterFound)),
                Ok(Some(bytes)) => (
                    ProbeView { stage: Stage::Allocating, size: bytes, ..pre },
                    Request::Allocate { size: bytes, align: pre.align },
                ),
            },
            _ => finish_rule(pre, Err(MacError::AdapterQueryError)),
        },
        Stage::Allocating => match reply {
            Reply::Allocated { block } => (
                ProbeView { stage: Stage::Populating, block, ..pre },
                Request::Populate { size: pre.size },
            ),
            _ => finish_rule(pre, Err(MacError::AdapterQueryError)),
        },
        Stage::Populating => match reply {
            Reply::Populated { status } => if status != NO_ERROR {
                finish_rule(pre, Err(MacError::AdapterQueryError))
            } else {
                match pre.block {
                    None => finish_rule(pre, Err(MacError::NoAdapterFound)),
                    Some(head) => (
                        ProbeView { stage: Stage::Walking, seen: seq![head], ..pre },
                        Request::ReadRecord { at: head },
                    ),
                }
            },
            _ => finish_rule(pre, Err(MacError::AdapterQueryError)),
        },
        Stage::Walking => match reply {
            Reply::Record { record } => match visit_rule(pre.target, pre.seen, record) {
                Visit::Fail(e) => finish_rule(pre, Err(e)),
                Visit::Next(next) => (
                    ProbeView { seen: pre.seen.push(next), ..pre },
                    Request::ReadRecord { at: next },
                ),
                Visit::Found => if record.physical_address_length != 6 {
                    finish_rule(pre, Err(MacError::InvalidMacLength))
                } else if pre.seen.len() == 0 {
                    finish_rule(pre, Err(MacError::CorruptAdapterList))
                } else {
                    (
                        ProbeView {
                            stage: Stage::Naming,
                            addr: mac_text(record.physical_address@),
                            name: Seq::empty(),
                            ..pre
                        },
                        Request::ReadNameUnit { at: pre.seen.last(), index: 0 },
                    )
                },
            },
            _ => finish_rule(pre, Err(MacError::AdapterQueryError)),
        },
        Stage::Naming => match reply {
            Reply::NameUnit { unit } => match unit {
                None => finish_rule(pre, Err(MacError::CorruptAdapterList)),
                Some(u) => if u == 0 {
                    finish_rule(pre, Ok(MacText { name: decode_lossy(pre.name), addr: pre.addr }))
                } else if pre.name.len() + 1 >= MAX_NAME_LENGTH || pre.seen.len() == 0 {
                    finish_rule(pre, Err(MacError::CorruptAdapterList))
                } else {
                    (
                        ProbeView { name: pre.name.push(u), ..pre },
                        Request::ReadNameUnit {
                            at: pre.seen.last(),
                            index: (pre.name.len() + 1) as usize,
                        },
                    )
                },
            },
            _ => finish_rule(pre, Err(MacError::AdapterQueryError)),
        },
    }
}

/// What becomes of the block when `reply` answers `request`: a block that
/// the allocator hands out is held from then on, and a block whose release
/// was asked for is gone.
pub open spec fn custody_after(custody: Custody, request: Request, reply: Reply) -> Custody {
    match request {
        Request::Allocate { size, align } => match reply {
            Reply::Allocated { block: Some(_) } => Custody::Held { size, align },
            _ => custody,
        },
        Request::Release { .. } => Custody::Released,
        _ => custody,
    }
}

/// `request` keeps to the discipline of the block. A block is allocated
/// only where none was handed out before. Records and names are read only
/// from a block that is held. A block is given back only while it is held,
/// and with the size and alignment it was allocated with. The probe is done
/// only where no block is held.
pub open spec fn allowed(custody: Custody, request: Request) -> bool {
    match request {
        Request::BestInterface { .. } => custody is Unallocated,
        Request::BufferSize => custody is Unallocated,
        Request::Allocate { .. } => custody is Unallocated,
        Request::Populate { size } => match custody {
            Custody::Unallocated => true,
            Custody::Held { size: held, .. } => held == size,
            Custody::Released => false,
        },
        Request::ReadRecord { .. } => custody is Held,
        Request::ReadNameUnit { .. } => custody is Held,
        Request::Release { size, align } => custody == (Custody::Held { size, align }),
        Request::Done => !(custody is Held),
    }
}

/// The pending request and every request that the probe makes in answer to
/// `replies`, one after the other, keep to the discipline of the block.
pub open spec fn disciplined(
    custody: Custody,
    pending: Request,
    probe: ProbeView,
    replies: Seq<Reply>,
) -> bool
    decreases replies.len(),
{
    allowed(custody, pending) && (replies.len() > 0 ==> disciplined(
        custody_after(custody, pending, replies[0]),
        step_rule(probe, replies[0]).1,
        step_rule(probe, replies[0]).0,
        replies.drop_first(),
    ))
}

/// The state of the probe, the request it waits on and the custody of the
/// block belong together.
spec fn agrees(probe: ProbeView, pending: Request, custody: Custody) -> bool {
    let held = Custody::Held { size: probe.size, align: probe.align };
    match probe.stage {
        Stage::Routing => custody is Unallocated && probe.block is None
            && pending is BestInterface,
        Stage::Sizing => custody is Unallocated && probe.block is None && pending is BufferSize,
        Stage::Allocating => custody is Unallocated && probe.block is None && probe.size != 0
            && pending == (Request::Allocate { size: probe.size, align: probe.align }),
        Stage::Populating => probe.size != 0 && pending == (Request::Populate { size: probe.size })
            && custody == (if probe.block is Some {
            held
        } else {
            Custody::Unallocated
        }),
        Stage::Walking => probe.size != 0 && probe.block is Some && custody == held
            && pending is ReadRecord,
        Stage::Naming => probe.size != 0 && probe.block is Some && custody == held
            && pending is ReadNameUnit,
        Stage::Releasing => custody == held && pending == (Request::Release {
            size: probe.size,
            align: probe.align,
        }),
        Stage::Finished => !(custody is Held) && pending is Done,
    }
}

/// One exchange keeps state, request and custody together.
proof fn lemma_step_agrees(probe: ProbeView, pending: Request, custody: Custody, reply: Reply)
    requires
        agrees(probe, pending, custody),
    ensures
        allowed(custody, pending),
        agrees(
            step_rule(probe, reply).0,
            step_rule(probe, reply).1,
            custody_after(custody, pending, reply),
        ),
{
}

/// From a state that agrees with the custody of the block, every run keeps
/// to the discipline.
proof fn lemma_runs_are_disciplined(
    probe: ProbeView,
    pending: Request,
    custody: Custody,
    replies: Seq<Reply>,
)
    requires
        agrees(probe, pending, custody),
    ensures
        disciplined(custody, pending, probe, replies),
    decreases replies.len(),
{
    lemma_step_agrees(probe, pending, custody, replies[0]);
    if replies.len() > 0 {
        lemma_runs_are_disciplined(
            step_rule(probe, replies[0]).0,
            step_rule(probe, replies[0]).1,
            custody_after(custody, pending, replies[0]),
            replies.drop_first(),
        );
    }
}

/// Whatever the driver answers, and however often, the probe keeps to the
/// discipline of the block: it has at most one block allocated, reads
/// records and names only while the block is held, gives a held block back
/// once, with the size and alignment of its allocation, asks nothing of the
/// block after that, and is not done while the block is held.
pub proof fn lemma_buffer_discipline(align: usize, replies: Seq<Reply>)
    ensures
        disciplined(Custody::Unallocated, first_request(), initial(align), replies),
{
    lemma_runs_are_disciplined(initial(align), first_request(), Custody::Unallocated, replies);
}

/// The state of the probe after it has taken `replies`, one after the other.
pub open spec fn after(probe: ProbeView, replies: Seq<Reply>) -> ProbeView
    decreases replies.len(),
{
    if replies.len() == 0 {
        probe
    } else {
        after(step_rule(probe, replies[0]).0, replies.drop_first())
    }
}

/// The most replies that a probe takes before it is done: four up to the
/// filled block, one for each record up to the ceiling, one for each code
/// unit of the name up to its limit, and one for the release.
pub open spec fn most_replies() -> int {
    MAX_ADAPTERS + MAX_NAME_LENGTH + 5
}

/// The most replies that the probe can still take before it is done.
spec fn replies_left(probe: ProbeView) -> int {
    match probe.stage {
        Stage::Routing => MAX_ADAPTERS + MAX_NAME_LENGTH + 5,
        Stage::Sizing => MAX_ADAPTERS + MAX_NAME_LENGTH + 4,
        Stage::Allocating => MAX_ADAPTERS + MAX_NAME_LENGTH + 3,
        Stage::Populating => MAX_ADAPTERS + MAX_NAME_LENGTH + 2,
        Stage::Walking => MAX_ADAPTERS - probe.seen.len() + MAX_NAME_LENGTH + 2,
        Stage::Naming => MAX_NAME_LENGTH - probe.name.len() + 1,
        Stage::Releasing => 1,
        Stage::Finished => 0,
    }
}

/// What holds of every state that a probe comes to.
spec fn sound(probe: ProbeView) -> bool {
    &&& probe.stage is Walking ==> 1 <= probe.seen.len() <= MAX_ADAPTERS
    &&& probe.stage is Naming ==> probe.name.len() < MAX_NAME_LENGTH
    &&& probe.stage is Releasing || probe.stage is Finished ==> probe.outcome is Some
}

/// Every reply brings the probe nearer to its end.
proof fn lemma_step_nears_end(probe: ProbeView, reply: Reply)
    requires
        sound(probe),
    ensures
        sound(step_rule(probe, reply).0),
        replies_left(step_rule(probe, reply).0) < replies_left(probe) || replies_left(
            step_rule(probe, reply).0,
        ) == 0,
{
}

/// A run of replies brings the probe nearer to its end by its length.
proof fn lemma_run_nears_end(probe: ProbeView, replies: Seq<Reply>)
    requires
        sound(probe),
    ensures
        sound(after(probe, replies)),
        replies_left(after(probe, replies)) <= replies_left(probe) - replies.len()
            || replies_left(after(probe, replies)) == 0,
    decreases replies.len(),
{
    if replies.len() > 0 {
        lemma_step_nears_end(probe, replies[0]);
        lemma_run_nears_end(step_rule(probe, replies[0]).0, replies.drop_first());
    }
}

/// The probe comes to an end whatever it is told: after `most_replies()`
/// replies it is done and has an outcome. A list that runs in a circle, or
/// a driver that answers without end, cannot keep it going.
pub proof fn lemma_probe_finishes(align: usize, replies: Seq<Reply>)
    requires
        replies.len() >= most_replies(),
    ensures
        after(initial(align), replies).stage == Stage::Finished,
        after(initial(align), replies).outcome is Some,
{
    lemma_run_nears_end(initial(align), replies);
}

/// An operating system as far as the probe can tell: what it would answer.
/// The adapter list lies in the block from place 0 on, and a record's
/// `next` is the place of the record that follows. Of a display name the
/// code units of the adapter can be read, and nothing behind them.
pub struct System {
    /// The status of the route query.
    pub route_status: u32,
    /// The index that the route query gives.
    pub if_index: u32,
    /// The size that the adapter list is reported to need.
    pub reported: u32,
    /// The status of the query that fills the block.
    pub populate_status: u32,
    /// The adapters, each at the place of its position.
    pub adapters: Seq<Adapter>,
}

/// What `system` answers to `request`.
pub open spec fn answer(system: System, request: Request) -> Reply {
    match request {
        Request::BestInterface { .. } => Reply::BestInterface {
            status: system.route_status,
            if_index: system.if_index,
        },
        Request::BufferSize => Reply::BufferSize { size: system.reported },
        Request::Allocate { .. } => Reply::Allocated { block: Some(0) },
        Request::Populate { .. } => Reply::Populated { status: system.populate_status },
        Request::ReadRecord { at } => Reply::Record { record: system.adapters[at as int].record },
        Request::ReadNameUnit { at, index } => Reply::NameUnit {
            unit: match system.adapters[at as int].friendly_name {
                None => None,
                Some(units) => if index < units@.len() {
                    Some(units@[index as int])
                } else {
                    None
                },
            },
        },
        Request::Release { .. } => Reply::Released,
        Request::Done => Reply::Released,
    }
}

/// The state of the probe once `system` has answered its requests, up to
/// `turns` of them, or all where the probe is done before.
pub open spec fn driven(system: System, probe: ProbeView, pending: Request, turns: nat) -> ProbeView
    decreases turns,
{
    if turns == 0 || pending is Done {
        probe
    } else {
        driven(
            system,
            step_rule(probe, answer(system, pending)).0,
            step_rule(probe, answer(system, pending)).1,
            (turns - 1) as nat,
        )
    }
}

/// Every link of the list leads to a record of the list.
pub open spec fn well_linked(adapters: Seq<Adapter>) -> bool {
    forall|i: int|
        0 <= i < adapters.len() ==> ((#[trigger] adapters[i]).record.next matches Some(next)
            ==> next < adapters.len())
}

/// What the resolution on `system` is to give: the failure of the first
/// stage that fails, and else what the adapter list holds for the
/// interface of the default route.
pub open spec fn expected_outcome(system: System, align: usize) -> Result<MacText, MacError> {
    if system.route_status != NO_ERROR {
        Err(MacError::NoAdapterFound)
    } else {
        match buffer_plan(system.reported, align) {
            Err(e) => Err(e),
            Ok(None) => Err(MacError::NoAdapterFound),
            Ok(Some(_)) => if system.populate_status != NO_ERROR {
                Err(MacError::AdapterQueryError)
            } else {
                resolved(system.adapters, system.if_index)
            },
        }
    }
}

/// What a traversal that has read the places of `seen` is to give.
spec fn expected_from(system: System, seen: Seq<usize>) -> Result<MacText, MacError> {
    match find_from(records_of(system.adapters), system.if_index, seen) {
        Err(e) => Err(e),
        Ok(at) => adapter_text(system.adapters[at as int]),
    }
}

/// What the reading of the display name of the record found is to give.
spec fn expected_name(system: System, probe: ProbeView) -> Result<MacText, MacError> {
    match name_text(units_of(system.adapters[probe.seen.last() as int].friendly_name)) {
        Err(e) => Err(e),
        Ok(name) => Ok(MacText { name, addr: probe.addr }),
    }
}

/// What has been read of the display name is its beginning, and holds no
/// terminator.
spec fn name_so_far(system: System, probe: ProbeView) -> bool {
    match system.adapters[probe.seen.last() as int].friendly_name {
        None => true,
        Some(units) => {
            &&& probe.name.len() <= units@.len()
            &&& probe.name == units@.take(probe.name.len() as int)
            &&& first_zero(units@, 0) == first_zero(units@, probe.name.len() as int)
        },
    }
}

/// Driven from any point of the reading of the name, the probe ends with
/// the name that stands in the snapshot.
proof fn lemma_name_resolves(system: System, probe: ProbeView, turns: nat)
    requires
        probe.stage is Naming,
        probe.block is Some,
        probe.size != 0,
        probe.seen.len() >= 1,
        probe.seen.last() < system.adapters.len(),
        probe.name.len() < MAX_NAME_LENGTH,
        name_so_far(system, probe),
        turns >= replies_left(probe),
    ensures
        driven(
            system,
            probe,
            Request::ReadNameUnit { at: probe.seen.last(), index: probe.name.len() as usize },
            turns,
        ).stage == Stage::Finished,
        driven(
            system,
            probe,
            Request::ReadNameUnit { at: probe.seen.last(), index: probe.name.len() as usize },
            turns,
        ).outcome == Some(expected_name(system, probe)),
    decreases MAX_NAME_LENGTH - probe.name.len(),
{
    reveal_with_fuel(driven, 4);
    let count = probe.name.len() as int;
    let pending = Request::ReadNameUnit { at: probe.seen.last(), index: count as usize };
    let next = step_rule(probe, answer(system, pending));
    match system.adapters[probe.seen.last() as int].friendly_name {
        None => {},
        Some(units) => {
            if count < units@.len() && units@[count] != 0 {
                lemma_first_zero_from(units@, count + 1);
                if count + 1 < MAX_NAME_LENGTH {
                    assert(next.0.name =~= units@.take(count + 1));
                    lemma_name_resolves(system, next.0, (turns - 1) as nat);
                }
            }
        },
    }
}

/// Driven from any point of the traversal, the probe ends with what the
/// search on the snapshot gives from that point.
proof fn lemma_walk_resolves(system: System, probe: ProbeView, turns: nat)
    requires
        well_linked(system.adapters),
        probe.stage is Walking,
        probe.target == system.if_index,
        probe.block is Some,
        probe.size != 0,
        1 <= probe.seen.len() <= MAX_ADAPTERS,
        probe.seen.last() < system.adapters.len(),
        turns >= replies_left(probe),
    ensures
        driven(system, probe, Request::ReadRecord { at: probe.seen.last() }, turns).stage
            == Stage::Finished,
        driven(system, probe, Request::ReadRecord { at: probe.seen.last() }, turns).outcome
            == Some(expected_from(system, probe.seen)),
    decreases MAX_ADAPTERS - probe.seen.len(),
{
    reveal_with_fuel(driven, 4);
    let pending = Request::ReadRecord { at: probe.seen.last() };
    let at = probe.seen.last() as int;
    let record = system.adapters[at].record;
    assert(records_of(system.adapters)[at] == record);
    let next = step_rule(probe, answer(system, pending));
    match visit_rule(probe.target, probe.seen, record) {
        Visit::Next(place) => {
            assert(next.0.seen.last() == place);
            lemma_walk_resolves(system, next.0, (turns - 1) as nat);
        },
        Visit::Fail(e) => {},
        Visit::Found => {
            if record.physical_address_length == 6 {
                assert(next.0.name =~= Seq::<u16>::empty());
                match system.adapters[at].friendly_name {
                    None => {},
                    Some(units) => {
                        assert(units@.take(0) =~= Seq::<u16>::empty());
                    },
                }
                lemma_name_resolves(system, next.0, (turns - 1) as nat);
            }
        },
    }
}

/// Driven by a system whose adapter list is well linked, the probe ends
/// with the outcome that is expected of the system: the stages run in their
/// order, the first failure is the outcome, and a list that is reached is
/// resolved as its snapshot is.
pub proof fn lemma_probe_resolves(system: System, align: usize)
    requires
        system.adapters.len() > 0,
        well_linked(system.adapters),
    ensures
        driven(system, initial(align), first_request(), most_replies() as nat).stage
            == Stage::Finished,
        driven(system, initial(align), first_request(), most_replies() as nat).outcome == Some(
            expected_outcome(system, align),
        ),
{
    reveal_with_fuel(driven, 6);
    let routed = step_rule(initial(align), answer(system, first_request()));
    if system.route_status == NO_ERROR {
        let sized = step_rule(routed.0, answer(system, routed.1));
        if buffer_plan(system.reported, align) matches Ok(Some(bytes)) {
            let allocated = step_rule(sized.0, answer(system, sized.1));
            let populated = step_rule(allocated.0, answer(system, allocated.1));
            if system.populate_status == NO_ERROR {
                assert(populated.0.seen.last() == 0);
                lemma_walk_resolves(system, populated.0, (most_replies() - 4) as nat);
            }
        }
    }
}

impl Probe {
    /// A probe for records that need the alignment `align`, and its first
    /// request.
    pub fn new(align: usize) -> (start: (Probe, Request))
        ensures
            start.0@ == initial(align),
            start.1 == first_request(),
    {
        (
            Probe {
                stage: Stage::Routing,
                align,
                target: 0,
                block: None,
                size: 0,
                seen: Vec::new(),
                addr: String::new(),
                name: Vec::new(),
                outcome: None,
            },
            Request::BestInterface { destination: PROBE_ADDRESS },
        )
    }

    /// Settles on `outcome` and asks for what is left to do.
    fn finish(self, outcome: Result<MacInfo, MacError>) -> (next: (Probe, Request))
        ensures
            (next.0@, next.1) == finish_rule(self@, crate::outcome_text(outcome)),
    {
        let release = should_release(self.block, self.size);
        let probe = Probe {
            stage: if release {
                Stage::Releasing
            } else {
                Stage::Finished
            },
            align: self.align,
            target: self.target,
            block: self.block,
            size: self.size,
            seen: self.seen,
            addr: self.addr,
            name: self.name,
            outcome: Some(outcome),
        };
        if release {
            let request = Request::Release { size: probe.size, align: probe.align };
            (probe, request)
        } else {
            (probe, Request::Done)
        }
    }

    /// Takes the reply to the pending request and gives the next request.
    pub fn step(self, reply: Reply) -> (next: (Probe, Request))
        ensures
            (next.0@, next.1) == step_rule(self@, reply),
    {
        match self.stage {
            Stage::Finished => (self, Request::Done),
            Stage::Releasing => {
                let mut probe = self;
                probe.stage = Stage::Finished;
                (probe, Request::Done)
            },
            Stage::Routing => match reply {
                Reply::BestInterface { status, if_index } => match get_if_index(status, if_index) {
                    Ok(target) => {
                        let mut probe = self;
                        probe.stage = Stage::Sizing;
                        probe.target = target;
                        (probe, Request::BufferSize)
                    },
                    Err(e) => self.finish(Err(e)),
                },
                _ => self.finish(Err(MacError::AdapterQueryError)),
            },
            Stage::Sizing => match reply {
                Reply::BufferSize { size } => match get_adapters(size, self.align) {
                    Err(e) => self.finish(Err(e)),
                    Ok(None) => self.finish(Err(MacError::NoAdapterFound)),
                    Ok(Some(bytes)) => {
                        let mut probe = self;
                        probe.stage = Stage::Allocating;
                        probe.size = bytes;
                        let request = Request::Allocate { size: bytes, align: probe.align };
                        (probe, request)
                    },
                },
                _ => self.finish(Err(MacError::AdapterQueryError)),
            },
            Stage::Allocating => match reply {
                Reply::Allocated { block } => {
                    let mut probe = self;
                    probe.stage = Stage::Populating;
                    probe.block = block;
                    let request = Request::Populate { size: probe.size };
                    (probe, request)
                },
                _ => self.finish(Err(MacError::AdapterQueryError)),
            },
            Stage::Populating => match reply {
                Reply::Populated { status } => {
                    if status != NO_ERROR {
                        return self.finish(Err(MacError::AdapterQueryError));
                    }
                    match self.block {
                        None => self.finish(Err(MacError::NoAdapterFound)),
                        Some(head) => {
                            let mut probe = self;
                            probe.stage = Stage::Walking;
                            let mut seen: Vec<usize> = Vec::new();
                            seen.push(head);
                            assert(seen@ =~= seq![head]);
                            probe.seen = seen;
                            (probe, Request::ReadRecord { at: head })
                        },
                    }
                },
                _ => self.finish(Err(MacError::AdapterQueryError)),
            },
            Stage::Walking => match reply {
                Reply::Record { record } => match visit(self.target, &self.seen, &record) {
                    Visit::Fail(e) => self.finish(Err(e)),
                    Visit::Next(next) => {
                        let mut probe = self;
                        probe.seen.push(next);
                        (probe, Request::ReadRecord { at: next })
                    },
                    Visit::Found => {
                        let addr = match convert_mac_bytes(&record) {
                            Ok(addr) => addr,
                            Err(e) => {
                                return self.finish(Err(e));
                            },
                        };
                        proof {
                            lemma_format_round_trip(record.physical_address@);
                        }
                        if !is_valid_mac(addr.as_str()) {
                            return self.finish(Err(MacError::InvalidMacFormat));
                        }
                        if self.seen.len() == 0 {
                            return self.finish(Err(MacError::CorruptAdapterList));
                        }
                        let at = self.seen[self.seen.len() - 1];
                        let mut probe = self;
                        probe.stage = Stage::Naming;
                        probe.addr = addr;
                        probe.name = Vec::new();
                        (probe, Request::ReadNameUnit { at, index: 0 })
                    },
                },
                _ => self.finish(Err(MacError::AdapterQueryError)),
            },
            Stage::Naming => match reply {
                Reply::NameUnit { unit } => match unit {
                    None => self.finish(Err(MacError::CorruptAdapterList)),
                    Some(u) => {
                        if u == 0 {
                            let name = decode_utf16_lossy(self.name.as_slice());
                            let info = MacInfo { name, addr: self.addr.clone() };
                            return self.finish(Ok(info));
                        }
                        if self.name.len() >= MAX_NAME_LENGTH - 1 || self.seen.len() == 0 {
                            return self.finish(Err(MacError::CorruptAdapterList));
                        }
                        let at = self.seen[self.seen.len() - 1];
                        let mut probe = self;
                        probe.name.push(u);
                        let index = probe.name.len();
                        (probe, Request::ReadNameUnit { at, index })
                    },
                },
                _ => self.finish(Err(MacError::AdapterQueryError)),
            },
        }
    }

    /// Tells whether the probe is done.
    pub fn is_finished(&self) -> (yes: bool)
        ensures
            yes == (self@.stage == Stage::Finished),
    {
        match self.stage {
            Stage::Finished => true,
            _ => false,
        }
    }

    /// The outcome of the probe: `None` as long as it is not settled.
    pub fn into_outcome(self) -> (outcome: Option<Result<MacInfo, MacError>>)
        ensures
            settled(outcome) == self@.outcome,
    {
        self.outcome
    }
}

} // verus!
