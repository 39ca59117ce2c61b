//! Loading a firmware image into the address space.
//!
//! An image comes in one of two formats.  Whichever reads it, the number of
//! bytes that it wrote is held against the capacity of the ROM afterwards, and
//! nowhere else.

use vstd::prelude::*;
use crate::elf::{
    extract, extraction_memory, extraction_result, ElfError, ElfImage, SectionData,
};
use crate::hexfile::{parse, parsed, HexError, TraceEntry};
use crate::memory::{overwritten, AddressSpace};
use crate::regions::MAX_ROM;

verus! {

/// What a load reports.
#[derive(Clone, Copy, Debug, PartialEq, Eq, Structural)]
pub struct LoadResult {
    /// The number of bytes that were copied into the address space.
    pub bytes_written: usize,
    /// The entry point that the image names, for information.
    pub origin: usize,
}

/// A firmware image in its declared format.
pub enum ImageSource {
    /// What was read of an ELF image.
    Elf(ElfImage),
    /// The text of an Intel-HEX file.
    Hex(String),
}

/// Why an image was not loaded.
#[derive(Clone, Copy, Debug, PartialEq, Eq, Structural)]
pub enum LoadError {
    /// The ELF image was rejected.
    Elf(ElfError),
    /// The Intel-HEX text was rejected.
    Hex(HexError),
    /// The image wrote more bytes than the ROM holds.
    CapacityExceeded { bytes_written: usize },
}

/// What a load hands back.
pub struct LoadOutcome {
    /// What the load reports, or why the image was rejected.
    pub result: Result<LoadResult, LoadError>,
    /// The records of an Intel-HEX text that were applied, if a trace was
    /// asked for.
    pub trace: Vec<TraceEntry>,
}

/// Whether a load of `bytes_written` bytes fits the ROM.
pub open spec fn fits_rom(bytes_written: int) -> bool {
    bytes_written <= MAX_ROM
}

/// A report as it stands after the capacity of the ROM was held against it.
pub open spec fn capacity_checked(report: LoadResult) -> Result<LoadResult, LoadError> {
    if fits_rom(report.bytes_written as int) {
        Ok(report)
    } else {
        Err(LoadError::CapacityExceeded { bytes_written: report.bytes_written })
    }
}

/// The memory after the load of `source`.
pub open spec fn loaded_memory(source: ImageSource, memory: Seq<u8>) -> Seq<u8> {
    match source {
        ImageSource::Elf(image) => extraction_memory(image, memory),
        ImageSource::Hex(text) => parsed(text@, memory).memory,
    }
}

/// What the load of `source` answers.
pub open spec fn loaded_result(source: ImageSource, memory: Seq<u8>) -> Result<
    LoadResult,
    LoadError,
> {
    match source {
        ImageSource::Elf(image) => match extraction_result(image, memory) {
            Ok(report) => capacity_checked(report),
            Err(e) => Err(LoadError::Elf(e)),
        },
        ImageSource::Hex(text) => match parsed(text@, memory).failure {
            None => capacity_checked(
                LoadResult { bytes_written: parsed(text@, memory).bytes_written as usize, origin: 0 },
            ),
            Some(e) => Err(LoadError::Hex(e)),
        },
    }
}

/// The trace of the load of `source`.
pub open spec fn loaded_trace(source: ImageSource, memory: Seq<u8>, verbose: bool) -> Seq<
    TraceEntry,
> {
    match source {
        ImageSource::Elf(image) => Seq::empty(),
        ImageSource::Hex(text) => if verbose {
            parsed(text@, memory).trace
        } else {
            Seq::empty()
        },
    }
}

/// Holds the number of bytes written against the capacity of the ROM.
pub fn check_capacity(report: LoadResult) -> (res: Result<LoadResult, LoadError>)
    ensures
        res == capacity_checked(report),
{
    if report.bytes_written > MAX_ROM as usize {
        Err(LoadError::CapacityExceeded { bytes_written: report.bytes_written })
    } else {
        Ok(report)
    }
}

/// Loads `source` into `memory` and holds what was written against the
/// capacity of the ROM.
///
/// The memory is left as the reader of the format left it: a load that
/// exceeds the capacity writes nothing after that is found.
pub fn load_image(memory: &mut AddressSpace, source: &ImageSource, verbose: bool) -> (outcome:
    LoadOutcome)
    ensures
        final(memory)@ == loaded_memory(*source, old(memory)@),
        outcome.result == loaded_result(*source, old(memory)@),
        outcome.trace@ == loaded_trace(*source, old(memory)@, verbose),
{
    match source {
        ImageSource::Elf(image) => {
            let result = match extract(memory, image) {
                Ok(report) => check_capacity(report),
                Err(e) => Err(LoadError::Elf(e)),
            };
            LoadOutcome { result, trace: Vec::new() }
        },
        ImageSource::Hex(text) => {
            let parse_outcome = parse(memory, text.as_str(), verbose);
            let result = match parse_outcome.result {
                Ok(report) => check_capacity(report),
                Err(e) => Err(LoadError::Hex(e)),
            };
            LoadOutcome { result, trace: parse_outcome.trace }
        },
    }
}

/// A load that is accepted wrote no more bytes than the ROM holds.
pub proof fn lemma_accepted_load_fits(source: ImageSource, memory: Seq<u8>)
    ensures
        loaded_result(source, memory) matches Ok(report) ==> fits_rom(report.bytes_written as int),
{
}

/// An Intel-HEX text that is accepted line by line and writes more bytes than
/// the ROM holds is rejected for that, and the memory is as the parse left
/// it.
pub proof fn lemma_hex_capacity_exceeded(text: String, memory: Seq<u8>)
    requires
        parsed(text@, memory).failure is None,
        MAX_ROM < parsed(text@, memory).bytes_written <= usize::MAX,
    ensures
        loaded_result(ImageSource::Hex(text), memory) == Err::<LoadResult, LoadError>(
            LoadError::CapacityExceeded {
                bytes_written: parsed(text@, memory).bytes_written as usize,
            },
        ),
        loaded_memory(ImageSource::Hex(text), memory) == parsed(text@, memory).memory,
{
}

/// An ELF image whose code section fits the address space and has more bytes
/// than the ROM holds is rejected for that, and the memory holds the section.
pub proof fn lemma_elf_capacity_exceeded(entry: usize, bytes: Vec<u8>, memory: Seq<u8>)
    requires
        MAX_ROM < bytes@.len() <= memory.len(),
        bytes@.len() <= usize::MAX,
    ensures
        loaded_result(
            ImageSource::Elf(ElfImage { entry, code: Some(SectionData::Bytes(bytes)) }),
            memory,
        ) == Err::<LoadResult, LoadError>(
            LoadError::CapacityExceeded { bytes_written: bytes@.len() as usize },
        ),
        loaded_memory(
            ImageSource::Elf(ElfImage { entry, code: Some(SectionData::Bytes(bytes)) }),
            memory,
        ) == overwritten(memory, 0, bytes@),
{
}

} // verus!
