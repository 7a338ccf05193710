//! Resolution from the adapter records of an operating system that answers
//! with a route's interface index and a linked list of adapters.

use crate::error::MacError;
use crate::mac::{is_valid_mac, mac_text, write_octets};
use crate::utf16::{decode_lossy, decode_utf16_lossy};
use crate::{outcome_text, MacInfo, MacText};
use vstd::prelude::*;
use vstd::slice::slice_subrange;

verus! {

/// The status with which the operating system reports success.
pub const NO_ERROR: u32 = 0;

/// The most records that a traversal reads before it gives the list up.
pub const MAX_ADAPTERS: usize = 1024;

/// The most code units that a display name may hold before its terminator.
pub const MAX_NAME_LENGTH: usize = 2048;

/// The length that a physical address must declare.
pub const MAC_LENGTH: u32 = 6;

/// The fixed part of one adapter record.
#[derive(Clone, Copy, Debug)]
pub struct AdapterRecord {
    /// The index of the interface that the adapter serves.
    pub if_index: u32,
    /// The bytes of the physical address, of which the first
    /// `physical_address_length` count.
    pub physical_address: [u8; 8],
    /// The declared length of the physical address.
    pub physical_address_length: u32,
    /// The record that follows in the list, if any.
    pub next: Option<usize>,
}

/// An adapter record together with the code units found where its display
/// name points: `None` for a null pointer.
#[derive(Clone, Debug)]
pub struct Adapter {
    pub record: AdapterRecord,
    pub friendly_name: Option<Vec<u16>>,
}

/// A snapshot of the adapter list. The list begins at position 0, and a
/// record's `next` is a position in `adapters`.
#[derive(Clone, Debug)]
pub struct AdapterDirectory {
    pub adapters: Vec<Adapter>,
}

/// What a traversal does after it has looked at a record.
#[derive(Clone, Copy, Debug, PartialEq, Eq, Structural)]
pub enum Visit {
    /// The record belongs to the interface looked for.
    Found,
    /// The record at this place is to be read next.
    Next(usize),
    /// The traversal ends without a record.
    Fail(MacError),
}

/// The index of the interface of the default route, from the status and the
/// index that the route query gave.
pub fn get_if_index(status: u32, if_index: u32) -> (found: Result<u32, MacError>)
    ensures
        found == (if status == NO_ERROR {
            Ok::<u32, MacError>(if_index)
        } else {
            Err::<u32, MacError>(MacError::NoAdapterFound)
        }),
{
    if status == NO_ERROR {
        Ok(if_index)
    } else {
        Err(MacError::NoAdapterFound)
    }
}

/// Writes the physical address of `record`, which must declare six bytes.
pub fn convert_mac_bytes(record: &AdapterRecord) -> (text: Result<String, MacError>)
    ensures
        match text {
            Ok(addr) => record.physical_address_length == 6 && addr@ == mac_text(
                record.physical_address@,
            ),
            Err(e) => e == MacError::InvalidMacLength && record.physical_address_length != 6,
        },
{
    if record.physical_address_length != MAC_LENGTH {
        return Err(MacError::InvalidMacLength);
    }
    Ok(write_octets(record.physical_address.as_slice()))
}

/// The first position at or after `from` that holds a zero, or the length of
/// `units` where none follows.
pub open spec fn first_zero(units: Seq<u16>, from: int) -> int
    decreases units.len() - from,
{
    if 0 <= from < units.len() && units[from] != 0 {
        first_zero(units, from + 1)
    } else {
        from
    }
}

/// The position of the terminator of a display name: the first zero, where
/// it stands among the first `MAX_NAME_LENGTH` code units.
pub open spec fn null_position(units: Seq<u16>) -> Option<int> {
    let at = first_zero(units, 0);
    if at < units.len() && at < MAX_NAME_LENGTH {
        Some(at)
    } else {
        None
    }
}

/// The display name that stands in `name`: the text before the terminator.
/// A null pointer and a name without terminator are marks of a corrupt
/// record.
pub open spec fn name_text(name: Option<Seq<u16>>) -> Result<Seq<char>, MacError> {
    match name {
        None => Err(MacError::CorruptAdapterList),
        Some(units) => match null_position(units) {
            None => Err(MacError::CorruptAdapterList),
            Some(len) => Ok(decode_lossy(units.take(len))),
        },
    }
}

/// The code units of a display name, if there are any.
pub open spec fn units_of(name: Option<Vec<u16>>) -> Option<Seq<u16>> {
    match name {
        Some(units) => Some(units@),
        None => None,
    }
}

/// What a string or a failure holds, as text.
pub open spec fn string_text(text: Result<String, MacError>) -> Result<Seq<char>, MacError> {
    match text {
        Ok(s) => Ok(s@),
        Err(e) => Err(e),
    }
}

/// Finds the terminator of a display name.
pub fn get_null_position(units: &Vec<u16>) -> (found: Result<usize, MacError>)
    ensures
        match found {
            Ok(at) => null_position(units@) == Some(at as int),
            Err(e) => e == MacError::CorruptAdapterList && null_position(units@) is None,
        },
{
    let mut i: usize = 0;
    while i < units.len() && i < MAX_NAME_LENGTH
        invariant
            i <= units.len(),
            i <= MAX_NAME_LENGTH,
            first_zero(units@, 0) == first_zero(units@, i as int),
        decreases units.len() - i,
    {
        if units[i] == 0 {
            return Ok(i);
        }
        i += 1;
    }
    proof {
        lemma_first_zero_from(units@, i as int);
    }
    Err(MacError::CorruptAdapterList)
}

/// The first zero at or after `from` stands between `from` and the end.
pub proof fn lemma_first_zero_from(units: Seq<u16>, from: int)
    requires
        0 <= from <= units.len(),
    ensures
        from <= first_zero(units, from) <= units.len(),
    decreases units.len() - from,
{
    if from < units.len() && units[from] != 0 {
        lemma_first_zero_from(units, from + 1);
    }
}

/// Reads a display name as text.
pub fn construct_string(name: &Option<Vec<u16>>) -> (text: Result<String, MacError>)
    ensures
        string_text(text) == name_text(units_of(*name)),
{
    match name {
        None => Err(MacError::CorruptAdapterList),
        Some(units) => match get_null_position(units) {
            Err(e) => Err(e),
            Ok(len) => {
                let name = slice_subrange(units.as_slice(), 0, len);
                assert(name@ =~= units@.take(len as int));
                Ok(decode_utf16_lossy(name))
            },
        },
    }
}

/// The most bytes that the adapter list may ask for.
pub const MAX_BUFFER_SIZE: u32 = 1024 * 1024;

/// `n` is a power of two.
pub open spec fn is_power_of_two(n: int) -> bool
    decreases n,
{
    n == 1 || (n > 1 && n % 2 == 0 && is_power_of_two(n / 2))
}

/// A block of `size` bytes aligned to `align` can be described: the
/// alignment is a power of two, and the size, rounded up to a multiple of
/// it, is not above the largest `isize`.
pub open spec fn layout_exists(size: usize, align: usize) -> bool {
    is_power_of_two(align as int) && size + (align - 1) <= isize::MAX
}

/// What follows from the size that the operating system reports for the
/// adapter list: no directory at all where the size is zero or above
/// `MAX_BUFFER_SIZE`, else a block of just that many bytes, and a failure
/// where no such block can be described.
pub open spec fn buffer_plan(reported: u32, align: usize) -> Result<Option<usize>, MacError> {
    if reported == 0 || reported > MAX_BUFFER_SIZE {
        Ok(None)
    } else if layout_exists(reported as usize, align) {
        Ok(Some(reported as usize))
    } else {
        Err(MacError::AllocationError)
    }
}

/// A block is given back only where there is one: `block` is not null and
/// `size` is not zero.
pub open spec fn must_release(block: Option<usize>, size: usize) -> bool {
    block is Some && size != 0
}

/// Tells whether `n` is a power of two.
fn power_of_two(n: usize) -> (yes: bool)
    ensures
        yes == is_power_of_two(n as int),
{
    let mut rest: usize = n;
    while rest > 1 && rest % 2 == 0
        invariant
            is_power_of_two(n as int) == is_power_of_two(rest as int),
        decreases rest,
    {
        rest = rest / 2;
    }
    rest == 1
}

/// Tells whether a block of `size` bytes aligned to `align` can be
/// described.
pub fn has_layout(size: usize, align: usize) -> (yes: bool)
    ensures
        yes == layout_exists(size, align),
{
    let limit: usize = isize::MAX as usize;
    power_of_two(align) && align - 1 <= limit && size <= limit - (align - 1)
}

/// Plans the buffer for the adapter list from the size that the operating
/// system reported and the alignment that a record needs.
pub fn get_adapters(reported: u32, align: usize) -> (plan: Result<Option<usize>, MacError>)
    ensures
        plan == buffer_plan(reported, align),
{
    if reported == 0 || reported > MAX_BUFFER_SIZE {
        return Ok(None);
    }
    let size: usize = reported as usize;
    if has_layout(size, align) {
        Ok(Some(size))
    } else {
        Err(MacError::AllocationError)
    }
}

/// Tells whether the block is to be given back.
pub fn should_release(block: Option<usize>, size: usize) -> (yes: bool)
    ensures
        yes == must_release(block, size),
{
    block.is_some() && size != 0
}

/// What a traversal that looks for `target` does after the record `record`,
/// when `seen` lists the places it has read so far, that of `record` last.
///
/// A record of the interface ends the search. Otherwise the list ends
/// without a find where no record follows. It is corrupt where the next
/// record has been read before, or where `MAX_ADAPTERS` records have been
/// read and another follows.
pub open spec fn visit_rule(target: u32, seen: Seq<usize>, record: AdapterRecord) -> Visit {
    if record.if_index == target {
        Visit::Found
    } else {
        match record.next {
            None => Visit::Fail(MacError::NoAdapterFound),
            Some(next) => if seen.contains(next) || seen.len() >= MAX_ADAPTERS {
                Visit::Fail(MacError::CorruptAdapterList)
            } else {
                Visit::Next(next)
            },
        }
    }
}

/// Decides what follows the record `record` in a traversal that looks for
/// `target` and has read the places of `seen`.
pub fn visit(target: u32, seen: &Vec<usize>, record: &AdapterRecord) -> (step: Visit)
    ensures
        step == visit_rule(target, seen@, *record),
{
    if record.if_index == target {
        return Visit::Found;
    }
    match record.next {
        None => Visit::Fail(MacError::NoAdapterFound),
        Some(next) => {
            if seen.len() >= MAX_ADAPTERS {
                return Visit::Fail(MacError::CorruptAdapterList);
            }
            let mut i: usize = 0;
            while i < seen.len()
                invariant
                    i <= seen.len(),
                    record.if_index != target,
                    record.next == Some(next),
                    forall|j: int| 0 <= j < i ==> seen@[j] != next,
                decreases seen.len() - i,
            {
                if seen[i] == next {
                    assert(seen@[i as int] == next);
                    return Visit::Fail(MacError::CorruptAdapterList);
                }
                i += 1;
            }
            Visit::Next(next)
        },
    }
}

/// The fixed parts of the adapters of a snapshot.
pub open spec fn records_of(adapters: Seq<Adapter>) -> Seq<AdapterRecord> {
    Seq::new(adapters.len(), |i: int| adapters[i].record)
}

/// The outcome of a traversal of `records` that has read the places of
/// `seen` and stands at the last of them: the position of the record found,
/// or the failure. A place outside the snapshot is a mark of a corrupt list.
pub open spec fn find_from(records: Seq<AdapterRecord>, target: u32, seen: Seq<usize>) -> Result<
    usize,
    MacError,
>
    decreases MAX_ADAPTERS - seen.len(),
{
    if seen.len() == 0 || seen.len() > MAX_ADAPTERS || seen.last() >= records.len() {
        Err(MacError::CorruptAdapterList)
    } else {
        match visit_rule(target, seen, records[seen.last() as int]) {
            Visit::Found => Ok(seen.last()),
            Visit::Fail(e) => Err(e),
            Visit::Next(next) => find_from(records, target, seen.push(next)),
        }
    }
}

/// The outcome of the search for the record of interface `target` in a
/// snapshot: the traversal begins at position 0, and an empty snapshot holds
/// no adapter.
pub open spec fn find(records: Seq<AdapterRecord>, target: u32) -> Result<usize, MacError> {
    if records.len() == 0 {
        Err(MacError::NoAdapterFound)
    } else {
        find_from(records, target, seq![0usize])
    }
}

/// `records` is a plain chain: every record is followed by the record at the
/// next position, and the last by none.
pub open spec fn is_chain(records: Seq<AdapterRecord>) -> bool {
    forall|i: int|
        0 <= i < records.len() ==> (#[trigger] records[i]).next == (if i + 1 < records.len() {
            Some((i + 1) as usize)
        } else {
            None::<usize>
        })
}

/// The places `0, 1, .., count - 1`.
spec fn places_up_to(count: int) -> Seq<usize> {
    Seq::new(count as nat, |i: int| i as usize)
}

/// The traversal of a chain without a record of the interface, from the
/// point where the first `count` records have been read.
proof fn lemma_chain_walk(records: Seq<AdapterRecord>, target: u32, count: int)
    requires
        is_chain(records),
        records.len() <= usize::MAX,
        1 <= count <= records.len(),
        count <= MAX_ADAPTERS,
        forall|i: int|
            0 <= i < records.len() && i < MAX_ADAPTERS ==> (#[trigger] records[i]).if_index
                != target,
    ensures
        find_from(records, target, places_up_to(count)) == (if records.len() <= MAX_ADAPTERS {
            Err::<usize, MacError>(MacError::NoAdapterFound)
        } else {
            Err::<usize, MacError>(MacError::CorruptAdapterList)
        }),
    decreases MAX_ADAPTERS - count,
{
    let seen = places_up_to(count);
    let record = records[count - 1];
    assert(seen.last() == count - 1);
    assert(record.if_index != target);
    if count < records.len() {
        let next = count as usize;
        assert(record.next == Some(next));
        assert(!seen.contains(next));
        if count < MAX_ADAPTERS {
            assert(seen.push(next) =~= places_up_to(count + 1));
            lemma_chain_walk(records, target, count + 1);
        }
    }
}

/// A plain chain that holds no record of the interface is not mistaken for
/// a corrupt list as long as it is not longer than `MAX_ADAPTERS`: the
/// search ends without a find. A longer chain is given up as corrupt once
/// `MAX_ADAPTERS` records have been read.
pub proof fn lemma_chain_without_match(records: Seq<AdapterRecord>, target: u32)
    requires
        is_chain(records),
        records.len() <= usize::MAX,
        forall|i: int|
            0 <= i < records.len() && i < MAX_ADAPTERS ==> (#[trigger] records[i]).if_index
                != target,
    ensures
        find(records, target) == (if records.len() <= MAX_ADAPTERS {
            Err::<usize, MacError>(MacError::NoAdapterFound)
        } else {
            Err::<usize, MacError>(MacError::CorruptAdapterList)
        }),
{
    if records.len() > 0 {
        assert(places_up_to(1) =~= seq![0usize]);
        lemma_chain_walk(records, target, 1);
    }
}

/// The traversal of a chain towards the first record of the interface,
/// from the point where the first `count` records have been read.
proof fn lemma_chain_walk_to(records: Seq<AdapterRecord>, target: u32, at: int, count: int)
    requires
        is_chain(records),
        records.len() <= usize::MAX,
        0 <= at < records.len(),
        at < MAX_ADAPTERS,
        1 <= count <= at + 1,
        records[at].if_index == target,
        forall|i: int| 0 <= i < at ==> (#[trigger] records[i]).if_index != target,
    ensures
        find_from(records, target, places_up_to(count)) == Ok::<usize, MacError>(at as usize),
    decreases at + 1 - count,
{
    let seen = places_up_to(count);
    let record = records[count - 1];
    assert(seen.last() == count - 1);
    if count <= at {
        let next = count as usize;
        assert(record.if_index != target);
        assert(record.next == Some(next));
        assert(!seen.contains(next));
        assert(seen.push(next) =~= places_up_to(count + 1));
        lemma_chain_walk_to(records, target, at, count + 1);
    }
}

/// In a plain chain the first record of the interface is the one found, as
/// long as it is among the first `MAX_ADAPTERS` records.
pub proof fn lemma_chain_with_match(records: Seq<AdapterRecord>, target: u32, at: int)
    requires
        is_chain(records),
        records.len() <= usize::MAX,
        0 <= at < records.len(),
        at < MAX_ADAPTERS,
        records[at].if_index == target,
        forall|i: int| 0 <= i < at ==> (#[trigger] records[i]).if_index != target,
    ensures
        find(records, target) == Ok::<usize, MacError>(at as usize),
{
    assert(places_up_to(1) =~= seq![0usize]);
    lemma_chain_walk_to(records, target, at, 1);
}

/// The traversal of a list without an end, from any point.
proof fn lemma_endless_walk(
    records: Seq<AdapterRecord>,
    target: u32,
    places: Set<usize>,
    seen: Seq<usize>,
)
    requires
        forall|p: usize| #[trigger]
            places.contains(p) ==> p < records.len() && records[p as int].if_index != target && (
            records[p as int].next matches Some(next) && places.contains(next)),
        1 <= seen.len() <= MAX_ADAPTERS,
        places.contains(seen.last()),
    ensures
        find_from(records, target, seen) == Err::<usize, MacError>(MacError::CorruptAdapterList),
    decreases MAX_ADAPTERS - seen.len(),
{
    let record = records[seen.last() as int];
    let next = record.next->0;
    assert(places.contains(next));
    if !seen.contains(next) && seen.len() < MAX_ADAPTERS {
        lemma_endless_walk(records, target, places, seen.push(next));
    }
}

/// A list that runs in a circle is given up as corrupt. Where the records
/// at `places` include the first, hold no record of the interface, and each
/// lead to another of them, the traversal never comes to an end of the
/// list; it stops at the first record that it meets again, or at the
/// ceiling.
pub proof fn lemma_cycle_is_corrupt(records: Seq<AdapterRecord>, target: u32, places: Set<usize>)
    requires
        places.contains(0),
        forall|p: usize| #[trigger]
            places.contains(p) ==> p < records.len() && records[p as int].if_index != target && (
            records[p as int].next matches Some(next) && places.contains(next)),
    ensures
        find(records, target) == Err::<usize, MacError>(MacError::CorruptAdapterList),
{
    lemma_endless_walk(records, target, places, seq![0usize]);
}

/// The record that a search finds lies in the snapshot and belongs to the
/// interface looked for.
pub proof fn lemma_found_record_matches(records: Seq<AdapterRecord>, target: u32)
    ensures
        find(records, target) matches Ok(at) ==> at < records.len() && records[at as int].if_index
            == target,
{
    if records.len() > 0 {
        lemma_found_from(records, target, seq![0usize]);
    }
}

/// The same, from any point of the traversal.
proof fn lemma_found_from(records: Seq<AdapterRecord>, target: u32, seen: Seq<usize>)
    ensures
        find_from(records, target, seen) matches Ok(at) ==> at < records.len()
            && records[at as int].if_index == target,
    decreases MAX_ADAPTERS - seen.len(),
{
    if !(seen.len() == 0 || seen.len() > MAX_ADAPTERS || seen.last() >= records.len()) {
        match visit_rule(target, seen, records[seen.last() as int]) {
            Visit::Next(next) => {
                lemma_found_from(records, target, seen.push(next));
            },
            _ => {},
        }
    }
}

/// What the adapter `adapter` gives once it is found: its address as text
/// and its display name.
pub open spec fn adapter_text(adapter: Adapter) -> Result<MacText, MacError> {
    if adapter.record.physical_address_length != 6 {
        Err(MacError::InvalidMacLength)
    } else {
        match name_text(units_of(adapter.friendly_name)) {
            Err(e) => Err(e),
            Ok(name) => Ok(MacText { name, addr: mac_text(adapter.record.physical_address@) }),
        }
    }
}

/// What the resolution of interface `target` in a snapshot gives.
pub open spec fn resolved(adapters: Seq<Adapter>, target: u32) -> Result<MacText, MacError> {
    match find(records_of(adapters), target) {
        Err(e) => Err(e),
        Ok(at) => adapter_text(adapters[at as int]),
    }
}

/// Searches the snapshot for the record of interface `if_index`, one record
/// after the other from the first.
pub fn find_adapter(directory: &AdapterDirectory, if_index: u32) -> (found: Result<
    usize,
    MacError,
>)
    ensures
        found == find(records_of(directory.adapters@), if_index),
        found matches Ok(at) ==> at < directory.adapters.len(),
{
    if directory.adapters.len() == 0 {
        return Err(MacError::NoAdapterFound);
    }
    let ghost records = records_of(directory.adapters@);
    let mut seen: Vec<usize> = Vec::new();
    seen.push(0);
    let mut at: usize = 0;
    assert(seen@ =~= seq![0usize]);
    loop
        invariant
            records == records_of(directory.adapters@),
            1 <= seen.len() <= MAX_ADAPTERS,
            seen@.last() == at,
            find(records, if_index) == find_from(records, if_index, seen@),
        decreases MAX_ADAPTERS - seen.len(),
    {
        if at >= directory.adapters.len() {
            return Err(MacError::CorruptAdapterList);
        }
        match visit(if_index, &seen, &directory.adapters[at].record) {
            Visit::Found => {
                return Ok(at);
            },
            Visit::Fail(e) => {
                return Err(e);
            },
            Visit::Next(next) => {
                seen.push(next);
                at = next;
            },
        }
    }
}

/// Resolves interface `if_index` in a snapshot of the adapter list: finds
/// its record, writes its address and reads its display name. The first
/// failure is the outcome.
pub fn get_mac(if_index: u32, directory: &AdapterDirectory) -> (found: Result<MacInfo, MacError>)
    ensures
        outcome_text(found) == resolved(directory.adapters@, if_index),
        found matches Ok(info) ==> info.wf(),
{
    let at = match find_adapter(directory, if_index) {
        Ok(at) => at,
        Err(e) => {
            return Err(e);
        },
    };
    let adapter = &directory.adapters[at];
    let addr = match convert_mac_bytes(&adapter.record) {
        Ok(addr) => addr,
        Err(e) => {
            return Err(e);
        },
    };
    if !is_valid_mac(addr.as_str()) {
        return Err(MacError::InvalidMacFormat);
    }
    match construct_string(&adapter.friendly_name) {
        Ok(name) => Ok(MacInfo { name, addr }),
        Err(e) => Err(e),
    }
}

} // verus!
