use armv6m_sim::hexfile::{parse, HexError, RecordAction};
use armv6m_sim::loader::LoadResult;
use armv6m_sim::memory::AddressSpace;

const BLOCK_START: &str = ":0400000A9900000059";
const ALTERNATE_BLOCK_START: &str = ":0400000A9903000056";
const BLOCK_END: &str = ":0000000BF5";
const DATA: &str = ":04000000DEADBEEFC4";

fn text_of(lines: &[&str]) -> String {
    lines.join("\n")
}

#[test]
fn data_inside_a_block_is_written() {
    let mut memory = AddressSpace::new(0x100);
    let outcome = parse(&mut memory, &text_of(&[BLOCK_START, DATA]), false);
    assert_eq!(outcome.result, Ok(LoadResult { bytes_written: 4, origin: 0 }));
    assert_eq!(&memory.as_slice()[0..4], &[0xDE, 0xAD, 0xBE, 0xEF]);
    assert!(memory.as_slice()[4..].iter().all(|b| *b == 0));
    assert!(outcome.trace.is_empty());
}

#[test]
fn data_outside_a_block_is_skipped() {
    let mut memory = AddressSpace::new(0x100);
    let outcome = parse(&mut memory, DATA, true);
    assert_eq!(outcome.result, Ok(LoadResult { bytes_written: 0, origin: 0 }));
    assert!(memory.as_slice().iter().all(|b| *b == 0));
    assert_eq!(outcome.trace.len(), 1);
    assert_eq!(outcome.trace[0].action, RecordAction::DataSkipped);
    assert_eq!(outcome.trace[0].count, 4);
    assert!(!outcome.trace[0].in_block);
}

#[test]
fn extended_address_moves_data_up() {
    let mut memory = AddressSpace::new(0x0001_0020);
    let text = text_of(&[BLOCK_START, ":020000040001F9", ":01001000AA45"]);
    let outcome = parse(&mut memory, &text, false);
    assert_eq!(outcome.result, Ok(LoadResult { bytes_written: 1, origin: 0 }));
    assert_eq!(memory.read_u8(0x0001_0010), 0xAA);
    assert_eq!(memory.read_u8(0x0010), 0);
}

#[test]
fn extended_address_lasts_until_the_next_one() {
    let mut memory = AddressSpace::new(0x0003_0000);
    let text = text_of(&[
        BLOCK_START,
        ":020000040001F9",
        ":01001000AA45",
        ":03010000010203F6",
        ":020000040002F8",
        ":01001000AA45",
    ]);
    let outcome = parse(&mut memory, &text, false);
    assert_eq!(outcome.result, Ok(LoadResult { bytes_written: 5, origin: 0 }));
    assert_eq!(memory.read_u8(0x0001_0010), 0xAA);
    assert_eq!(&memory.as_slice()[0x0001_0100..0x0001_0103], &[1, 2, 3]);
    assert_eq!(memory.read_u8(0x0002_0010), 0xAA);
}

#[test]
fn unexpected_character_names_line_and_character() {
    let mut memory = AddressSpace::new(0x100);
    let text = text_of(&[BLOCK_START, DATA, "", "XYZ", DATA]);
    let outcome = parse(&mut memory, &text, false);
    assert_eq!(
        outcome.result,
        Err(HexError::UnexpectedCharacter { line_index: 3, character: 'X' })
    );
    assert_eq!(&memory.as_slice()[0..4], &[0xDE, 0xAD, 0xBE, 0xEF]);
}

#[test]
fn unexpected_character_beyond_ascii() {
    let mut memory = AddressSpace::new(0x100);
    let outcome = parse(&mut memory, "\u{e9}t\u{e9}", false);
    assert_eq!(
        outcome.result,
        Err(HexError::UnexpectedCharacter { line_index: 0, character: '\u{e9}' })
    );
}

#[test]
fn carriage_return_is_no_line_end() {
    let mut memory = AddressSpace::new(0x100);
    let outcome = parse(&mut memory, ":0400000A9900000059\r\n", false);
    assert_eq!(outcome.result, Err(HexError::FormatError { line_index: 0 }));
    let outcome = parse(&mut memory, "\n\r\n", false);
    assert_eq!(
        outcome.result,
        Err(HexError::UnexpectedCharacter { line_index: 1, character: '\r' })
    );
}

#[test]
fn empty_text_and_empty_lines_write_nothing() {
    let mut memory = AddressSpace::new(0x10);
    assert_eq!(parse(&mut memory, "", true).result, Ok(LoadResult { bytes_written: 0, origin: 0 }));
    assert_eq!(
        parse(&mut memory, "\n\n\n", true).result,
        Ok(LoadResult { bytes_written: 0, origin: 0 })
    );
    assert!(memory.as_slice().iter().all(|b| *b == 0));
}

#[test]
fn odd_digit_count_is_a_format_error() {
    let mut memory = AddressSpace::new(0x10);
    let outcome = parse(&mut memory, "\n:0000000BF", false);
    assert_eq!(outcome.result, Err(HexError::FormatError { line_index: 1 }));
}

#[test]
fn non_digit_is_a_format_error() {
    let mut memory = AddressSpace::new(0x10);
    let outcome = parse(&mut memory, ":0000000BG5", false);
    assert_eq!(outcome.result, Err(HexError::FormatError { line_index: 0 }));
    let outcome = parse(&mut memory, ":0000000B\u{e9}5", false);
    assert_eq!(outcome.result, Err(HexError::FormatError { line_index: 0 }));
}

#[test]
fn lower_case_digits_are_accepted() {
    let mut memory = AddressSpace::new(0x10);
    let text = text_of(&[":0400000a9900000059", ":04000000deadbeefc4"]);
    let outcome = parse(&mut memory, &text, false);
    assert_eq!(outcome.result, Ok(LoadResult { bytes_written: 4, origin: 0 }));
    assert_eq!(&memory.as_slice()[0..4], &[0xDE, 0xAD, 0xBE, 0xEF]);
}

#[test]
fn short_or_mismatched_record_is_malformed() {
    let mut memory = AddressSpace::new(0x10);
    assert_eq!(
        parse(&mut memory, ":", false).result,
        Err(HexError::MalformedRecord { line_index: 0 })
    );
    assert_eq!(
        parse(&mut memory, ":00000001", false).result,
        Err(HexError::MalformedRecord { line_index: 0 })
    );
    assert_eq!(
        parse(&mut memory, ":04000000DEADBEC4", false).result,
        Err(HexError::MalformedRecord { line_index: 0 })
    );
}

#[test]
fn extended_address_needs_two_bytes() {
    let mut memory = AddressSpace::new(0x10);
    let text = text_of(&[BLOCK_START, ":0100000401FA"]);
    assert_eq!(
        parse(&mut memory, &text, false).result,
        Err(HexError::MalformedRecord { line_index: 1 })
    );
}

#[test]
fn data_beyond_the_space_is_out_of_range() {
    let mut memory = AddressSpace::new(0x10);
    let text = text_of(&[BLOCK_START, ":01001000AA45"]);
    assert_eq!(
        parse(&mut memory, &text, false).result,
        Err(HexError::AddressOutOfRange { line_index: 1, address: 0x10 })
    );
    let text = text_of(&[BLOCK_START, ":02000004FFFFFC", ":02FFFF000102FD"]);
    assert_eq!(
        parse(&mut memory, &text, false).result,
        Err(HexError::AddressOutOfRange { line_index: 2, address: 0xFFFF_FFFF })
    );
    assert!(memory.as_slice().iter().all(|b| *b == 0));
}

#[test]
fn data_that_ends_with_the_space_fits() {
    let mut memory = AddressSpace::new(0x11);
    let text = text_of(&[BLOCK_START, ":01001000AA45"]);
    assert_eq!(
        parse(&mut memory, &text, false).result,
        Ok(LoadResult { bytes_written: 1, origin: 0 })
    );
    assert_eq!(memory.read_u8(0x10), 0xAA);
}

#[test]
fn block_end_closes_the_block() {
    for end in [BLOCK_END, ":0000000CF4"] {
        let mut memory = AddressSpace::new(0x10);
        let text = text_of(&[BLOCK_START, end, DATA]);
        let outcome = parse(&mut memory, &text, true);
        assert_eq!(outcome.result, Ok(LoadResult { bytes_written: 0, origin: 0 }));
        assert!(memory.as_slice().iter().all(|b| *b == 0));
        let actions: Vec<RecordAction> = outcome.trace.iter().map(|e| e.action).collect();
        assert_eq!(
            actions,
            vec![RecordAction::BlockOpened, RecordAction::BlockClosed, RecordAction::DataSkipped]
        );
    }
}

#[test]
fn alternate_marker_opens_no_block() {
    let mut memory = AddressSpace::new(0x10);
    let text = text_of(&[ALTERNATE_BLOCK_START, DATA]);
    let outcome = parse(&mut memory, &text, true);
    assert_eq!(outcome.result, Ok(LoadResult { bytes_written: 0, origin: 0 }));
    assert_eq!(outcome.trace[0].action, RecordAction::AlternateBlockSeen);
    assert_eq!(outcome.trace[1].action, RecordAction::DataSkipped);
}

#[test]
fn alternate_marker_leaves_an_open_block_open() {
    let mut memory = AddressSpace::new(0x10);
    let text = text_of(&[BLOCK_START, ALTERNATE_BLOCK_START, DATA]);
    let outcome = parse(&mut memory, &text, false);
    assert_eq!(outcome.result, Ok(LoadResult { bytes_written: 4, origin: 0 }));
}

#[test]
fn other_record_types_are_ignored() {
    let mut memory = AddressSpace::new(0x10);
    let text = text_of(&[BLOCK_START, ":00000001FF", DATA]);
    let outcome = parse(&mut memory, &text, true);
    assert_eq!(outcome.result, Ok(LoadResult { bytes_written: 4, origin: 0 }));
    assert_eq!(outcome.trace[1].action, RecordAction::Ignored);
    assert_eq!(outcome.trace[1].record_type, 1);
    assert_eq!(outcome.trace[1].line_index, 1);
    assert!(outcome.trace[1].in_block);
}

#[test]
fn checksum_is_not_compared() {
    let mut memory = AddressSpace::new(0x10);
    let text = text_of(&[BLOCK_START, ":04000000DEADBEEF00"]);
    let outcome = parse(&mut memory, &text, false);
    assert_eq!(outcome.result, Ok(LoadResult { bytes_written: 4, origin: 0 }));
}

#[test]
fn bytes_written_sums_the_counts_of_applied_data() {
    let mut memory = AddressSpace::new(0x200);
    let text = text_of(&[
        DATA,
        BLOCK_START,
        DATA,
        ":03010000010203F6",
        BLOCK_END,
        ":03010000010203F6",
        BLOCK_START,
        ":01001000AA45",
        "",
    ]);
    let outcome = parse(&mut memory, &text, true);
    assert_eq!(outcome.result, Ok(LoadResult { bytes_written: 8, origin: 0 }));
    let sum: usize = outcome
        .trace
        .iter()
        .filter(|e| e.action == RecordAction::DataWritten)
        .map(|e| e.count as usize)
        .sum();
    assert_eq!(sum, 8);
    assert_eq!(outcome.trace.len(), 8);
}

#[test]
fn trace_records_the_header_of_each_record() {
    let mut memory = AddressSpace::new(0x6000);
    let text = text_of(&[BLOCK_START, ":015678009A97"]);
    let outcome = parse(&mut memory, &text, true);
    assert_eq!(outcome.trace.len(), 2);
    let entry = outcome.trace[1];
    assert_eq!(entry.line_index, 1);
    assert_eq!(entry.count, 1);
    assert_eq!(entry.address, 0x5678);
    assert_eq!(entry.record_type, 0);
    assert_eq!(entry.action, RecordAction::DataWritten);
    assert_eq!(memory.read_u8(0x5678), 0x9A);
}
