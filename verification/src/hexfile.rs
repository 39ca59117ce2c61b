//! Intel-HEX text with vendor block framing.
//!
//! The text is read line by line.  Each record line spells, in hexadecimal
//! digits after the record mark, a byte count, a 16-bit address, a record
//! type, that many payload bytes and a checksum.  Data records are copied into
//! the address space while a block is open; extended linear address records
//! set the upper half of the address of the data records that follow; block
//! start and block end records open and close the block.
//!
//! Two choices are made here once.  The checksum byte has to be present and is
//! not compared with the record's sum.  Of the two block start markers only
//! [`BLOCK_MARKER`] opens a block: a record with [`ALTERNATE_BLOCK_MARKER`] is
//! reported in the trace and leaves the state as it is.

use vstd::prelude::*;
use vstd::slice::slice_subrange;
use crate::byteorder::{as_u16_be, half_of, word_of};
use crate::hexdigits::{decode_hex, hex_bytes, is_hex_digit, is_hex_text};
use crate::loader::LoadResult;
use crate::memory::{overwritten, AddressSpace};
use crate::text::{chars_of, find_line_end, lemma_first_line, lines_of};

verus! {

/// The character that begins a record line.
pub const RECORD_MARK: char = ':';


/// Record type: data.
pub const DATA: u8 = 0x00;

/// Record type: extended linear address.
pub const EXTENDED_LINEAR_ADDRESS: u8 = 0x04;

/// Record type: block start.
pub const BLOCK_START: u8 = 0x0A;

/// Record type: block end.
pub const BLOCK_END: u8 = 0x0B;

/// Record type: block end after padding.
pub const PADDED_BLOCK_END: u8 = 0x0C;

/// The first half-word of a block start record that opens a block.
pub const BLOCK_MARKER: u16 = 0x9900;

/// The first half-word of a block start record of the other board revision.
pub const ALTERNATE_BLOCK_MARKER: u16 = 0x9903;

/// What the parser carries from one line to the next.
#[derive(Clone, Copy, Debug, PartialEq, Eq, Structural)]
pub struct HexRecordState {
    /// Whether a block is open, so that data records are applied.
    pub in_block: bool,
    /// The base that is added to the address of each data record; its lower
    /// half is zero.
    pub extended_linear_address: u32,
}

/// Why a text was rejected.
#[derive(Clone, Copy, Debug, PartialEq, Eq, Structural)]
pub enum HexError {
    /// A line that is not empty begins with something else than the record
    /// mark.
    UnexpectedCharacter { line_index: usize, character: char },
    /// What follows the record mark is not an even number of hexadecimal
    /// digits.
    FormatError { line_index: usize },
    /// The bytes of a record do not have the shape of a record, or an extended
    /// linear address record does not carry two bytes.
    MalformedRecord { line_index: usize },
    /// A data record inside a block reaches beyond the address space;
    /// `address` is where its first byte would go.
    AddressOutOfRange { line_index: usize, address: u64 },
}

/// What was done with a record.
#[derive(Clone, Copy, Debug, PartialEq, Eq, Structural)]
pub enum RecordAction {
    /// A block start record with [`BLOCK_MARKER`]: the block is open.
    BlockOpened,
    /// A block start record with [`ALTERNATE_BLOCK_MARKER`]: nothing changes.
    AlternateBlockSeen,
    /// A block end record: the block is closed.
    BlockClosed,
    /// An extended linear address record: the base is set.
    BaseSet,
    /// A data record inside a block: its payload is in memory.
    DataWritten,
    /// A data record outside a block: nothing changes.
    DataSkipped,
    /// Any other record: nothing changes.
    Ignored,
}

/// One record as it was met, for diagnostics.
#[derive(Clone, Copy, Debug, PartialEq, Eq, Structural)]
pub struct TraceEntry {
    /// The line of the record, the first line being line 0.
    pub line_index: usize,
    /// Whether a block was open when the record was met.
    pub in_block: bool,
    /// The record's byte count.
    pub count: u8,
    /// The record's 16-bit address.
    pub address: u16,
    /// The record's type.
    pub record_type: u8,
    /// What was done with the record.
    pub action: RecordAction,
}

/// The state in which the parse of a text begins: no block is open and the
/// base is zero.
pub open spec fn initial_state() -> HexRecordState {
    HexRecordState { in_block: false, extended_linear_address: 0 }
}

/// Whether `record` has the shape of a record: a count, two address bytes, a
/// type, as many payload bytes as the count says, and a checksum.
pub open spec fn record_well_formed(record: Seq<u8>) -> bool {
    &&& record.len() >= 5
    &&& record.len() == record[0] + 5
}

/// The byte count of a record.
pub open spec fn record_count(record: Seq<u8>) -> u8 {
    record[0]
}

/// The 16-bit address of a record.
pub open spec fn record_address(record: Seq<u8>) -> u16 {
    half_of(record[1], record[2])
}

/// The type of a record.
pub open spec fn record_type(record: Seq<u8>) -> u8 {
    record[3]
}

/// The payload of a record.
pub open spec fn record_payload(record: Seq<u8>) -> Seq<u8> {
    record.subrange(4, 4 + record[0])
}

/// The half-word that begins the payload of a record.
pub open spec fn record_marker(record: Seq<u8>) -> u16 {
    half_of(record[4], record[5])
}

/// What is done with a well-formed record in a given state; `None` for an
/// extended linear address record whose count is not two.
pub open spec fn action_of(state: HexRecordState, record: Seq<u8>) -> Option<RecordAction> {
    let kind = record_type(record);
    let count = record_count(record);
    if kind == DATA {
        if state.in_block {
            Some(RecordAction::DataWritten)
        } else {
            Some(RecordAction::DataSkipped)
        }
    } else if kind == EXTENDED_LINEAR_ADDRESS {
        if count == 2 {
            Some(RecordAction::BaseSet)
        } else {
            None
        }
    } else if kind == BLOCK_START && count == 4 && record_marker(record) == BLOCK_MARKER {
        Some(RecordAction::BlockOpened)
    } else if kind == BLOCK_START && count == 4 && record_marker(record)
        == ALTERNATE_BLOCK_MARKER {
        Some(RecordAction::AlternateBlockSeen)
    } else if (kind == BLOCK_END || kind == PADDED_BLOCK_END) && count == 0 {
        Some(RecordAction::BlockClosed)
    } else {
        Some(RecordAction::Ignored)
    }
}

/// The state after a record on which `action` was taken.
pub open spec fn state_after(
    state: HexRecordState,
    record: Seq<u8>,
    action: RecordAction,
) -> HexRecordState {
    match action {
        RecordAction::BlockOpened => HexRecordState { in_block: true, ..state },
        RecordAction::BlockClosed => HexRecordState { in_block: false, ..state },
        RecordAction::BaseSet => HexRecordState {
            extended_linear_address: word_of(record[4], record[5], 0, 0),
            ..state
        },
        _ => state,
    }
}

/// The address at which the first payload byte of a data record is written.
pub open spec fn target_address(state: HexRecordState, record: Seq<u8>) -> int {
    state.extended_linear_address + record_address(record)
}

/// The memory after a record on which `action` was taken.
pub open spec fn memory_after(
    state: HexRecordState,
    memory: Seq<u8>,
    record: Seq<u8>,
    action: RecordAction,
) -> Seq<u8> {
    if action == RecordAction::DataWritten {
        overwritten(memory, target_address(state, record), record_payload(record))
    } else {
        memory
    }
}

/// The trace entry of a record on which `action` was taken.
pub open spec fn entry_of(
    state: HexRecordState,
    line_index: usize,
    record: Seq<u8>,
    action: RecordAction,
) -> TraceEntry {
    TraceEntry {
        line_index,
        in_block: state.in_block,
        count: record_count(record),
        address: record_address(record),
        record_type: record_type(record),
        action,
    }
}

/// The number of bytes that the record of a trace entry wrote.
pub open spec fn written_by(entry: TraceEntry) -> nat {
    if entry.action == RecordAction::DataWritten {
        entry.count as nat
    } else {
        0
    }
}

/// What a record does: the state and the memory after it with its trace
/// entry, or the reason for which it is rejected.
pub open spec fn record_outcome(
    state: HexRecordState,
    memory: Seq<u8>,
    line_index: usize,
    record: Seq<u8>,
) -> Result<(HexRecordState, Seq<u8>, TraceEntry), HexError> {
    if !record_well_formed(record) {
        Err(HexError::MalformedRecord { line_index })
    } else {
        match action_of(state, record) {
            None => Err(HexError::MalformedRecord { line_index }),
            Some(action) => {
                let target = target_address(state, record);
                if action == RecordAction::DataWritten && target + record_count(record)
                    > memory.len() {
                    Err(HexError::AddressOutOfRange { line_index, address: target as u64 })
                } else {
                    Ok(
                        (
                            state_after(state, record, action),
                            memory_after(state, memory, record, action),
                            entry_of(state, line_index, record, action),
                        ),
                    )
                }
            },
        }
    }
}

/// Takes the action that belongs to the type of a well-formed record.
fn choose_action(state: &HexRecordState, record: &[u8]) -> (action: Option<RecordAction>)
    requires
        record_well_formed(record@),
    ensures
        action == action_of(*state, record@),
{
    let kind: u8 = record[3];
    let count: u8 = record[0];
    if kind == DATA {
        if state.in_block {
            Some(RecordAction::DataWritten)
        } else {
            Some(RecordAction::DataSkipped)
        }
    } else if kind == EXTENDED_LINEAR_ADDRESS {
        if count == 2 {
            Some(RecordAction::BaseSet)
        } else {
            None
        }
    } else if kind == BLOCK_START && count == 4 {
        let marker: u16 = as_u16_be(record[4], record[5]);
        if marker == BLOCK_MARKER {
            Some(RecordAction::BlockOpened)
        } else if marker == ALTERNATE_BLOCK_MARKER {
            Some(RecordAction::AlternateBlockSeen)
        } else {
            Some(RecordAction::Ignored)
        }
    } else if (kind == BLOCK_END || kind == PADDED_BLOCK_END) && count == 0 {
        Some(RecordAction::BlockClosed)
    } else {
        Some(RecordAction::Ignored)
    }
}

/// Applies the decoded bytes of one record line to the state and the memory.
///
/// A rejected record leaves both as they were.
pub fn apply_record(
    state: &mut HexRecordState,
    memory: &mut AddressSpace,
    line_index: usize,
    record: &[u8],
) -> (res: Result<TraceEntry, HexError>)
    ensures
        res matches Ok(entry) ==> record_outcome(*old(state), old(memory)@, line_index, record@)
            == Ok::<(HexRecordState, Seq<u8>, TraceEntry), HexError>(
            (*final(state), final(memory)@, entry),
        ),
        res matches Err(e) ==> {
            &&& record_outcome(*old(state), old(memory)@, line_index, record@) == Err::<
                (HexRecordState, Seq<u8>, TraceEntry),
                HexError,
            >(e)
            &&& *final(state) == *old(state)
            &&& final(memory)@ == old(memory)@
        },
{
    let len: usize = record.len();
    if len < 5 || len - 5 != record[0] as usize {
        return Err(HexError::MalformedRecord { line_index });
    }
    let count: u8 = record[0];
    let address: u16 = as_u16_be(record[1], record[2]);
    let action: RecordAction = match choose_action(state, record) {
        None => {
            return Err(HexError::MalformedRecord { line_index });
        },
        Some(action) => action,
    };
    let entry = TraceEntry {
        line_index,
        in_block: state.in_block,
        count,
        address,
        record_type: record[3],
        action,
    };
    match action {
        RecordAction::DataWritten => {
            let target: u64 = state.extended_linear_address as u64 + address as u64;
            if target + count as u64 > memory.len() as u64 {
                return Err(HexError::AddressOutOfRange { line_index, address: target });
            }
            memory.write(target as usize, slice_subrange(record, 4, 4 + count as usize));
        },
        RecordAction::BlockOpened => {
            state.in_block = true;
        },
        RecordAction::BlockClosed => {
            state.in_block = false;
        },
        RecordAction::BaseSet => {
            let upper: u32 = as_u16_be(record[4], record[5]) as u32;
            assert(upper << 16 == upper * 0x1_0000) by (bit_vector)
                requires
                    upper < 0x1_0000,
            ;
            state.extended_linear_address = upper << 16;
        },
        _ => {},
    }
    Ok(entry)
}

/// Whether `c` is a hexadecimal digit.
pub open spec fn is_hex_char(c: char) -> bool {
    (c as u32) < 0x80 && is_hex_digit(c as u8)
}

/// Whether `digits` is an even number of hexadecimal digits.
pub open spec fn is_hex_line(digits: Seq<char>) -> bool {
    &&& digits.len() % 2 == 0
    &&& forall|i: int| 0 <= i < digits.len() ==> is_hex_char(#[trigger] digits[i])
}

/// The ASCII codes of `digits`.
pub open spec fn digit_codes(digits: Seq<char>) -> Seq<u8> {
    Seq::new(digits.len(), |i: int| digits[i] as u8)
}

/// The bytes of the record that `digits` spell.
pub open spec fn record_of(digits: Seq<char>) -> Seq<u8>
    recommends
        is_hex_line(digits),
{
    hex_bytes(digit_codes(digits))
}

/// What a line does: the state and the memory after it, with the trace entry
/// of its record if it holds one, or the reason for which it is rejected.  An
/// empty line does nothing.
pub open spec fn line_outcome(
    state: HexRecordState,
    memory: Seq<u8>,
    line_index: usize,
    line: Seq<char>,
) -> Result<(HexRecordState, Seq<u8>, Option<TraceEntry>), HexError> {
    let digits = line.subrange(1, line.len() as int);
    if line.len() == 0 {
        Ok((state, memory, None))
    } else if line[0] != RECORD_MARK {
        Err(HexError::UnexpectedCharacter { line_index, character: line[0] })
    } else if !is_hex_line(digits) {
        Err(HexError::FormatError { line_index })
    } else {
        match record_outcome(state, memory, line_index, record_of(digits)) {
            Ok((state, memory, entry)) => Ok((state, memory, Some(entry))),
            Err(e) => Err(e),
        }
    }
}

/// Decodes what follows the record mark of a line: `None` unless it is an
/// even number of hexadecimal digits.
pub fn decode_line(digits: &[char]) -> (decoded: Option<Vec<u8>>)
    ensures
        decoded is Some <==> is_hex_line(digits@),
        decoded matches Some(record) ==> record@ == record_of(digits@),
{
    let size: usize = digits.len();
    let mut codes: Vec<u8> = Vec::new();
    let mut i: usize = 0;
    while i < size
        invariant
            i <= size,
            size == digits@.len(),
            codes@.len() == i,
            forall|j: int| 0 <= j < i ==> (#[trigger] digits@[j] as u32) < 0x80,
            forall|j: int| 0 <= j < i ==> #[trigger] codes@[j] == digits@[j] as u8,
        decreases size - i,
    {
        let c: char = digits[i];
        if c as u32 >= 0x80 {
            assert(!is_hex_char(digits@[i as int]));
            return None;
        }
        codes.push(c as u8);
        i = i + 1;
    }
    assert(codes@ =~= digit_codes(digits@));
    proof {
        if is_hex_text(codes@) {
            assert forall|j: int| 0 <= j < digits@.len() implies is_hex_char(
                #[trigger] digits@[j],
            ) by {
                assert(is_hex_digit(codes@[j]));
            }
        }
        if is_hex_line(digits@) {
            assert forall|j: int| 0 <= j < codes@.len() implies is_hex_digit(
                #[trigger] codes@[j],
            ) by {
                assert(is_hex_char(digits@[j]));
            }
        }
    }
    decode_hex(codes.as_slice())
}

/// Applies one line of the text to the state and the memory.
///
/// A rejected line leaves both as they were.
pub fn apply_line(
    state: &mut HexRecordState,
    memory: &mut AddressSpace,
    line_index: usize,
    line: &[char],
) -> (res: Result<Option<TraceEntry>, HexError>)
    ensures
        res matches Ok(entry) ==> line_outcome(*old(state), old(memory)@, line_index, line@)
            == Ok::<(HexRecordState, Seq<u8>, Option<TraceEntry>), HexError>(
            (*final(state), final(memory)@, entry),
        ),
        res matches Err(e) ==> {
            &&& line_outcome(*old(state), old(memory)@, line_index, line@) == Err::<
                (HexRecordState, Seq<u8>, Option<TraceEntry>),
                HexError,
            >(e)
            &&& *final(state) == *old(state)
            &&& final(memory)@ == old(memory)@
        },
{
    let size: usize = line.len();
    if size == 0 {
        return Ok(None);
    }
    let first: char = line[0];
    if first != RECORD_MARK {
        return Err(HexError::UnexpectedCharacter { line_index, character: first });
    }
    match decode_line(slice_subrange(line, 1, size)) {
        None => Err(HexError::FormatError { line_index }),
        Some(record) => match apply_record(state, memory, line_index, record.as_slice()) {
            Ok(entry) => Ok(Some(entry)),
            Err(e) => Err(e),
        },
    }
}

/// How far a parse has come.
pub struct Progress {
    /// The state after the last line that was applied.
    pub state: HexRecordState,
    /// The memory after the last line that was applied.
    pub memory: Seq<u8>,
    /// The number of bytes that data records have written.
    pub bytes_written: nat,
    /// The trace entries of the records that were applied, in order.
    pub trace: Seq<TraceEntry>,
    /// Why the parse stopped, if it did.
    pub failure: Option<HexError>,
}

/// The parse before its first line.
pub open spec fn start_of_parse(memory: Seq<u8>) -> Progress {
    Progress {
        state: initial_state(),
        memory,
        bytes_written: 0,
        trace: Seq::empty(),
        failure: None,
    }
}

/// The parse after one more line.  A rejected line stops it and leaves the
/// rest as it was.
pub open spec fn after_line(before: Progress, line_index: int, line: Seq<char>) -> Progress {
    match line_outcome(before.state, before.memory, line_index as usize, line) {
        Err(e) => Progress { failure: Some(e), ..before },
        Ok((state, memory, None)) => Progress { state, memory, failure: None, ..before },
        Ok((state, memory, Some(entry))) => Progress {
            state,
            memory,
            bytes_written: before.bytes_written + written_by(entry),
            trace: before.trace.push(entry),
            failure: None,
        },
    }
}

/// The parse after `lines`, of which the first is line `line_index`.  The
/// lines are applied in order up to the first that is rejected.
pub open spec fn after_lines(before: Progress, line_index: int, lines: Seq<Seq<char>>) -> Progress
    decreases lines.len(),
{
    if lines.len() == 0 {
        before
    } else {
        let next = after_line(before, line_index, lines[0]);
        if next.failure is Some {
            next
        } else {
            after_lines(next, line_index + 1, lines.drop_first())
        }
    }
}

/// The parse of a whole text into the given memory.
pub open spec fn parsed(text: Seq<char>, memory: Seq<u8>) -> Progress {
    after_lines(start_of_parse(memory), 0, lines_of(text))
}

/// What a parse hands back.
pub struct HexOutcome {
    /// The number of bytes written, or why the text was rejected.
    pub result: Result<LoadResult, HexError>,
    /// The records that were applied, if a trace was asked for.
    pub trace: Vec<TraceEntry>,
}

/// A record that is applied writes at most half as many bytes as the line
/// after its mark has characters.
proof fn lemma_written_bound(
    state: HexRecordState,
    memory: Seq<u8>,
    line_index: usize,
    line: Seq<char>,
)
    ensures
        line_outcome(state, memory, line_index, line) matches Ok((_, _, Some(entry)))
            ==> 2 * written_by(entry) < line.len(),
{
}

/// Reads `text` line by line and applies its records to `memory`.
///
/// The parse stops at the first line that is rejected; the memory then holds
/// what the lines before it wrote.  The trace lists the records that were
/// applied if `verbose` is set, and is empty if not.
pub fn parse(memory: &mut AddressSpace, text: &str, verbose: bool) -> (outcome: HexOutcome)
    ensures
        final(memory)@ == parsed(text@, old(memory)@).memory,
        outcome.result matches Ok(load) ==> {
            &&& parsed(text@, old(memory)@).failure is None
            &&& load.bytes_written == parsed(text@, old(memory)@).bytes_written
            &&& load.origin == 0
        },
        outcome.result matches Err(e) ==> parsed(text@, old(memory)@).failure == Some(e),
        verbose ==> outcome.trace@ == parsed(text@, old(memory)@).trace,
        !verbose ==> outcome.trace@ == Seq::<TraceEntry>::empty(),
{
    let chars: Vec<char> = chars_of(text);
    let size: usize = chars.len();
    let mut state = HexRecordState { in_block: false, extended_linear_address: 0 };
    let mut written: usize = 0;
    let mut trace: Vec<TraceEntry> = Vec::new();
    let mut start: usize = 0;
    let mut line_index: usize = 0;
    let ghost mut now: Progress = start_of_parse(memory@);
    assert(chars@.subrange(0, size as int) =~= text@);
    loop
        invariant
            chars@ == text@,
            size == chars@.len(),
            start <= size,
            line_index <= start,
            written <= start,
            now.failure is None,
            now.state == state,
            now.memory == memory@,
            now.bytes_written == written,
            verbose ==> trace@ == now.trace,
            !verbose ==> trace@ == Seq::<TraceEntry>::empty(),
            parsed(text@, old(memory)@) == after_lines(
                now,
                line_index as int,
                lines_of(chars@.subrange(start as int, size as int)),
            ),
        decreases size - start,
    {
        let ghost rest = chars@.subrange(start as int, size as int);
        let end: usize = find_line_end(chars.as_slice(), start);
        let line: &[char] = slice_subrange(chars.as_slice(), start, end);
        proof {
            lemma_first_line(rest);
            lemma_written_bound(state, memory@, line_index, line@);
            assert(rest.subrange(0, end - start) =~= line@);
            assert(lines_of(rest)[0] == line@);
            if end < size {
                assert(rest.subrange(end - start + 1, rest.len() as int) =~= chars@.subrange(
                    end + 1,
                    size as int,
                ));
                assert(lines_of(rest).drop_first() =~= lines_of(
                    chars@.subrange(end + 1, size as int),
                ));
            } else {
                assert(lines_of(rest).drop_first() =~= Seq::<Seq<char>>::empty());
            }
        }
        let ghost before = now;
        let ghost next = after_line(before, line_index as int, line@);
        assert(parsed(text@, old(memory)@) == if next.failure is Some {
            next
        } else {
            after_lines(next, line_index + 1, lines_of(rest).drop_first())
        });
        match apply_line(&mut state, memory, line_index, line) {
            Err(e) => {
                proof {
                    now = after_line(before, line_index as int, line@);
                }
                return HexOutcome { result: Err(e), trace };
            },
            Ok(entry) => {
                proof {
                    now = after_line(before, line_index as int, line@);
                }
                match entry {
                    Some(entry) => {
                        if entry.action == RecordAction::DataWritten {
                            written = written + entry.count as usize;
                        }
                        if verbose {
                            trace.push(entry);
                        }
                    },
                    None => {},
                }
            },
        }
        if end >= size {
            assert(after_lines(now, line_index + 1, Seq::<Seq<char>>::empty()) == now);
            return HexOutcome { result: Ok(LoadResult { bytes_written: written, origin: 0 }), trace };
        }
        start = end + 1;
        line_index = line_index + 1;
    }
}

} // verus!
