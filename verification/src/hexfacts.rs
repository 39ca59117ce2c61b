//! What holds of every parse of Intel-HEX text.

use vstd::prelude::*;
use crate::byteorder::half_of;
use crate::hexfile::{
    after_line, after_lines, is_hex_line, line_outcome, parsed, record_address, record_count,
    record_of, record_outcome, record_payload, record_type, record_well_formed, start_of_parse,
    target_address, written_by, HexError, HexRecordState, Progress, RecordAction, TraceEntry, DATA,
    EXTENDED_LINEAR_ADDRESS, RECORD_MARK,
};
use crate::memory::overwritten;
use crate::text::lines_of;

verus! {

/// The number of bytes that the records of a trace wrote: the sum of the
/// counts of the data records that were met inside a block.
pub open spec fn written_total(trace: Seq<TraceEntry>) -> nat
    decreases trace.len(),
{
    if trace.len() == 0 {
        0
    } else {
        written_total(trace.drop_last()) + written_by(trace.last())
    }
}

/// Whether a trace entry says of its record what the parser did with it: a
/// record was written if and only if it is a data record that was met inside
/// a block.
pub open spec fn entry_consistent(entry: TraceEntry) -> bool {
    entry.action == RecordAction::DataWritten <==> entry.record_type == DATA && entry.in_block
}

/// Whether a parse counts what its trace shows.
pub open spec fn progress_consistent(progress: Progress) -> bool {
    &&& progress.bytes_written == written_total(progress.trace)
    &&& forall|i: int|
        0 <= i < progress.trace.len() ==> entry_consistent(#[trigger] progress.trace[i])
}

/// Whether `line` is a record line that holds the record `record`.
pub open spec fn line_holds(line: Seq<char>, record: Seq<u8>) -> bool {
    &&& line.len() > 0
    &&& line[0] == RECORD_MARK
    &&& is_hex_line(line.subrange(1, line.len() as int))
    &&& record_of(line.subrange(1, line.len() as int)) == record
    &&& record_well_formed(record)
}

/// Whether `line` is a record line with an extended linear address record.
pub open spec fn sets_base(line: Seq<char>) -> bool {
    exists|record: Seq<u8>|
        #[trigger] line_holds(line, record) && record_type(record) == EXTENDED_LINEAR_ADDRESS
}

proof fn lemma_line_keeps_consistent(before: Progress, line_index: int, line: Seq<char>)
    requires
        progress_consistent(before),
    ensures
        progress_consistent(after_line(before, line_index, line)),
{
    let after = after_line(before, line_index, line);
    match line_outcome(before.state, before.memory, line_index as usize, line) {
        Ok((_, _, Some(entry))) => {
            assert(after.trace.drop_last() =~= before.trace);
            assert(after.trace.last() == entry);
            assert forall|i: int| 0 <= i < after.trace.len() implies entry_consistent(
                #[trigger] after.trace[i],
            ) by {
                if i < before.trace.len() {
                    assert(after.trace[i] == before.trace[i]);
                }
            }
        },
        _ => {},
    }
}

proof fn lemma_lines_keep_consistent(before: Progress, line_index: int, lines: Seq<Seq<char>>)
    requires
        progress_consistent(before),
    ensures
        progress_consistent(after_lines(before, line_index, lines)),
    decreases lines.len(),
{
    if lines.len() != 0 {
        lemma_line_keeps_consistent(before, line_index, lines[0]);
        let next = after_line(before, line_index, lines[0]);
        if next.failure is None {
            lemma_lines_keep_consistent(next, line_index + 1, lines.drop_first());
        }
    }
}

/// The number of bytes written is the sum of the counts of the data records
/// that were met inside an open block, and no other record is counted.
pub proof fn lemma_bytes_written_is_sum(text: Seq<char>, memory: Seq<u8>)
    ensures
        parsed(text, memory).bytes_written == written_total(parsed(text, memory).trace),
        forall|i: int|
            0 <= i < parsed(text, memory).trace.len() ==> entry_consistent(
                #[trigger] parsed(text, memory).trace[i],
            ),
{
    lemma_lines_keep_consistent(start_of_parse(memory), 0, lines_of(text));
}

/// A data record that is met while no block is open writes no byte and
/// changes neither the memory nor the state.
pub proof fn lemma_data_outside_block(
    before: Progress,
    line_index: int,
    line: Seq<char>,
    record: Seq<u8>,
)
    requires
        line_holds(line, record),
        record_type(record) == DATA,
        !before.state.in_block,
    ensures
        after_line(before, line_index, line).failure is None,
        after_line(before, line_index, line).memory == before.memory,
        after_line(before, line_index, line).state == before.state,
        after_line(before, line_index, line).bytes_written == before.bytes_written,
{
}

/// A data record that is met while a block is open, and that the memory has
/// room for, is copied to the base plus its own address and counted with as
/// many bytes as it holds; the state stays as it was.
pub proof fn lemma_data_inside_block(
    before: Progress,
    line_index: int,
    line: Seq<char>,
    record: Seq<u8>,
)
    requires
        line_holds(line, record),
        record_type(record) == DATA,
        before.state.in_block,
        target_address(before.state, record) + record_count(record) <= before.memory.len(),
    ensures
        after_line(before, line_index, line).failure is None,
        after_line(before, line_index, line).memory == overwritten(
            before.memory,
            before.state.extended_linear_address + record_address(record),
            record_payload(record),
        ),
        after_line(before, line_index, line).state == before.state,
        after_line(before, line_index, line).bytes_written == before.bytes_written
            + record_count(record),
{
}

/// An extended linear address record with two payload bytes is accepted in
/// every state.  After it the upper half of the address of a data record is
/// the payload of that record, and the lower half is the data record's own
/// address.
pub proof fn lemma_base_set(
    state: HexRecordState,
    memory: Seq<u8>,
    line_index: usize,
    record: Seq<u8>,
    data: Seq<u8>,
)
    requires
        record_well_formed(record),
        record_type(record) == EXTENDED_LINEAR_ADDRESS,
        record_count(record) == 2,
    ensures
        record_outcome(state, memory, line_index, record) matches Ok((after, unchanged, _)) && {
            &&& unchanged == memory
            &&& after.in_block == state.in_block
            &&& after.extended_linear_address == half_of(record[4], record[5]) * 0x1_0000
            &&& target_address(after, data) / 0x1_0000 == half_of(record[4], record[5])
            &&& target_address(after, data) % 0x1_0000 == record_address(data)
        },
{
}

/// A record that is accepted and is no extended linear address record leaves
/// the base as it was.
pub proof fn lemma_base_kept_by_record(
    state: HexRecordState,
    memory: Seq<u8>,
    line_index: usize,
    record: Seq<u8>,
)
    requires
        record_type(record) != EXTENDED_LINEAR_ADDRESS,
    ensures
        record_outcome(state, memory, line_index, record) matches Ok((after, _, _))
            ==> after.extended_linear_address == state.extended_linear_address,
{
}

/// The base lasts until the next extended linear address record: lines that
/// hold none leave it as it was.
pub proof fn lemma_base_kept_by_lines(before: Progress, line_index: int, lines: Seq<Seq<char>>)
    requires
        forall|i: int| 0 <= i < lines.len() ==> !sets_base(#[trigger] lines[i]),
    ensures
        after_lines(before, line_index, lines).state.extended_linear_address
            == before.state.extended_linear_address,
    decreases lines.len(),
{
    if lines.len() != 0 {
        let line = lines[0];
        let next = after_line(before, line_index, line);
        assert(next.state.extended_linear_address == before.state.extended_linear_address) by {
            let digits = line.subrange(1, line.len() as int);
            if line.len() > 0 && line[0] == RECORD_MARK && is_hex_line(digits)
                && record_well_formed(record_of(digits)) {
                assert(!sets_base(line));
                assert(line_holds(line, record_of(digits)));
            }
        }
        if next.failure is None {
            let rest = lines.drop_first();
            assert forall|i: int| 0 <= i < rest.len() implies !sets_base(#[trigger] rest[i]) by {
                assert(rest[i] == lines[i + 1]);
            }
            lemma_base_kept_by_lines(next, line_index + 1, rest);
        }
    }
}

/// The first line that is not empty and does not begin with the record mark
/// stops the parse, if the lines before it were accepted; the failure names
/// that line, counted from `line_index` for the first of `lines`, and the
/// character with which it begins.
pub proof fn lemma_unexpected_character(
    before: Progress,
    line_index: int,
    lines: Seq<Seq<char>>,
    at: int,
)
    requires
        0 <= at < lines.len(),
        after_lines(before, line_index, lines.take(at)).failure is None,
        lines[at].len() > 0,
        lines[at][0] != RECORD_MARK,
    ensures
        after_lines(before, line_index, lines).failure == Some(
            HexError::UnexpectedCharacter {
                line_index: (line_index + at) as usize,
                character: lines[at][0],
            },
        ),
    decreases at,
{
    let next = after_line(before, line_index, lines[0]);
    if at > 0 {
        let head = lines.take(at);
        assert(head[0] == lines[0]);
        assert(head.drop_first() =~= lines.drop_first().take(at - 1));
        lemma_unexpected_character(next, line_index + 1, lines.drop_first(), at - 1);
    }
}

/// In a text, the first line that is not empty and does not begin with the
/// record mark is reported with its index, the first line being line 0, and
/// with its first character.
pub proof fn lemma_unexpected_character_in_text(text: Seq<char>, memory: Seq<u8>, at: int)
    requires
        0 <= at < lines_of(text).len(),
        after_lines(start_of_parse(memory), 0, lines_of(text).take(at)).failure is None,
        lines_of(text)[at].len() > 0,
        lines_of(text)[at][0] != RECORD_MARK,
    ensures
        parsed(text, memory).failure == Some(
            HexError::UnexpectedCharacter {
                line_index: at as usize,
                character: lines_of(text)[at][0],
            },
        ),
{
    lemma_unexpected_character(start_of_parse(memory), 0, lines_of(text), at);
}

} // verus!
