//! The code section of an ELF image.
//!
//! The image is handed over as what was read from it: its entry point and the
//! content of its code section.  The section's bytes are copied to the
//! beginning of the ROM, whatever the entry point is, and the number of bytes
//! copied is the length of the section.

use vstd::prelude::*;
use crate::loader::LoadResult;
use crate::memory::{overwritten, AddressSpace};
use crate::regions::ROM_PHYSICAL_ADDRESS;

verus! {

/// The name of the section that holds the code.
pub const CODE_SECTION: &'static str = ".text";

/// What a section of an image holds.
pub enum SectionData {
    /// Raw bytes, such as code.
    Bytes(Vec<u8>),
    /// Nothing, or something else than raw bytes.
    Other,
}

/// What the loader reads of an ELF image.
pub struct ElfImage {
    /// The entry point that the header names.
    pub entry: usize,
    /// The content of the code section, if the image has one.
    pub code: Option<SectionData>,
}

/// Why the code section of an image was not loaded.
#[derive(Clone, Copy, Debug, PartialEq, Eq, Structural)]
pub enum ElfError {
    /// The image has no code section.
    SectionNotFound,
    /// The code section does not hold raw bytes.
    DataAbsent,
    /// The code section has more bytes than the address space.
    AddressOutOfRange { size: usize },
}

/// What the extraction of the code section answers.
pub open spec fn extraction_result(image: ElfImage, memory: Seq<u8>) -> Result<
    LoadResult,
    ElfError,
> {
    match image.code {
        None => Err(ElfError::SectionNotFound),
        Some(SectionData::Other) => Err(ElfError::DataAbsent),
        Some(SectionData::Bytes(bytes)) => if bytes@.len() > memory.len() {
            Err(ElfError::AddressOutOfRange { size: bytes@.len() as usize })
        } else {
            Ok(LoadResult { bytes_written: bytes@.len() as usize, origin: image.entry })
        },
    }
}

/// The memory after the extraction of the code section.
pub open spec fn extraction_memory(image: ElfImage, memory: Seq<u8>) -> Seq<u8> {
    match image.code {
        Some(SectionData::Bytes(bytes)) => if bytes@.len() > memory.len() {
            memory
        } else {
            overwritten(memory, ROM_PHYSICAL_ADDRESS as int, bytes@)
        },
        _ => memory,
    }
}

/// Copies the code section of `image` to the beginning of the ROM.
///
/// An image that is rejected leaves the memory as it was.
pub fn extract(memory: &mut AddressSpace, image: &ElfImage) -> (res: Result<LoadResult, ElfError>)
    ensures
        res == extraction_result(*image, old(memory)@),
        final(memory)@ == extraction_memory(*image, old(memory)@),
{
    match &image.code {
        None => Err(ElfError::SectionNotFound),
        Some(SectionData::Other) => Err(ElfError::DataAbsent),
        Some(SectionData::Bytes(bytes)) => {
            let size: usize = bytes.len();
            if size > memory.len() {
                Err(ElfError::AddressOutOfRange { size })
            } else {
                memory.write(ROM_PHYSICAL_ADDRESS as usize, bytes.as_slice());
                Ok(LoadResult { bytes_written: size, origin: image.entry })
            }
        },
    }
}

} // verus!
