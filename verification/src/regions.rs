//! The device's memory map, and the scan that tells whether a load disturbed
//! an address range that the device does not back.
//!
//! The reserved ranges are held as a table.  Each begins one byte before the
//! end of the part that is in use, so the last byte of the ROM and the last
//! byte of the RAM count as reserved.  The scan reads only addresses that the
//! address space backs: a range that reaches beyond its length is scanned up
//! to that length.

use vstd::prelude::*;
use crate::memory::AddressSpace;

verus! {

/// The address at which the ROM begins.
pub const ROM_PHYSICAL_ADDRESS: u32 = 0x0000_0000;

/// The capacity of the ROM in bytes.
pub const MAX_ROM: u32 = 0x0004_0000;

/// The address at which the RAM begins.
pub const RAM_PHYSICAL_ADDRESS: u32 = 0x2000_0000;

/// The capacity of the RAM in bytes.
pub const MAX_RAM: u32 = 0x0000_4000;

/// The number of bytes of the whole simulated address space.
pub const MEMORY_MAX_ADDRESSABLE_ADDRESS: u32 = 0xFFFF_FFFF;

/// The parts of the memory map.
#[derive(Clone, Copy, Debug, PartialEq, Eq, Structural)]
pub enum RegionTag {
    /// The ROM, into which an image is loaded.
    Rom,
    /// What follows the ROM in the code range.
    ReservedCode,
    /// The RAM window.
    Ram,
    /// What follows the RAM in the RAM range.
    ReservedRam,
    /// What follows the peripherals on the APB.
    ApbPeripherals,
    /// What follows the peripherals on the AHB.
    AhbPeripherals,
    /// What follows the system registers on the private peripheral bus.
    PrivatePeripheralBus,
}

/// A range of addresses, from `start` up to but not including `end`.
#[derive(Clone, Copy, Debug, PartialEq, Eq, Structural)]
pub struct MemoryRegion {
    /// Which part of the memory map this is.
    pub tag: RegionTag,
    /// The first address of the range.
    pub start: u32,
    /// The address after the last of the range.
    pub end: u32,
    /// Whether the scan reads the range from its highest address down.
    pub descending: bool,
}

/// A byte that is not zero in a reserved range.
#[derive(Clone, Copy, Debug, PartialEq, Eq, Structural)]
pub struct SafetyViolation {
    /// The reserved range in which the byte lies.
    pub region: RegionTag,
    /// The address of the byte.
    pub address: usize,
}

/// The ROM window.
pub open spec fn rom_window() -> MemoryRegion {
    MemoryRegion { tag: RegionTag::Rom, start: 0, end: 0x0004_0000, descending: false }
}

/// The RAM window.
pub open spec fn ram_window() -> MemoryRegion {
    MemoryRegion {
        tag: RegionTag::Ram,
        start: 0x2000_0000,
        end: 0x2000_4000,
        descending: false,
    }
}

/// The reserved ranges of the device, in the order in which they are scanned.
pub open spec fn reserved_table() -> Seq<MemoryRegion> {
    seq![
        MemoryRegion {
            tag: RegionTag::ReservedCode,
            start: 0x0003_FFFF,
            end: 0x1000_0000,
            descending: false,
        },
        MemoryRegion {
            tag: RegionTag::ReservedRam,
            start: 0x2000_3FFF,
            end: 0x4000_0000,
            descending: false,
        },
        MemoryRegion {
            tag: RegionTag::ApbPeripherals,
            start: 0x4007_FFFF,
            end: 0x5000_0000,
            descending: false,
        },
        MemoryRegion {
            tag: RegionTag::AhbPeripherals,
            start: 0x5007_FFFF,
            end: 0xE000_0000,
            descending: true,
        },
        MemoryRegion {
            tag: RegionTag::PrivatePeripheralBus,
            start: 0xE00F_FFFF,
            end: 0xFFFF_FFFF,
            descending: true,
        },
    ]
}

/// Whether `address` lies in `region`.
pub open spec fn in_region(region: MemoryRegion, address: int) -> bool {
    region.start <= address < region.end
}

/// Whether `address` lies in one of `regions`.
pub open spec fn in_regions(regions: Seq<MemoryRegion>, address: int) -> bool {
    exists|i: int| 0 <= i < regions.len() && in_region(#[trigger] regions[i], address)
}

/// Whether `memory` backs `address` of `region` with a byte that is not zero.
pub open spec fn disturbed_at(memory: Seq<u8>, region: MemoryRegion, address: int) -> bool {
    &&& in_region(region, address)
    &&& 0 <= address < memory.len()
    &&& memory[address] != 0
}

/// Whether every byte of `region` that `memory` backs is zero.
pub open spec fn region_clean(memory: Seq<u8>, region: MemoryRegion) -> bool {
    forall|address: int| !disturbed_at(memory, region, address)
}

/// Whether the scan of `region` reads `earlier` before `later`.
pub open spec fn scanned_before(region: MemoryRegion, earlier: int, later: int) -> bool {
    if region.descending {
        earlier > later
    } else {
        earlier < later
    }
}

/// Whether `address` is the first byte of `region`, in the order of its scan,
/// that is not zero.
pub open spec fn first_disturbed(memory: Seq<u8>, region: MemoryRegion, address: int) -> bool {
    &&& disturbed_at(memory, region, address)
    &&& forall|other: int|
        scanned_before(region, other, address) ==> !disturbed_at(memory, region, other)
}

/// The number of regions at the head of `regions` that are clean.
pub open spec fn clean_prefix(memory: Seq<u8>, regions: Seq<MemoryRegion>) -> nat
    decreases regions.len(),
{
    if regions.len() == 0 || !region_clean(memory, regions[0]) {
        0
    } else {
        1 + clean_prefix(memory, regions.drop_first())
    }
}

/// Whether every one of `regions` is clean.
pub open spec fn regions_clean(memory: Seq<u8>, regions: Seq<MemoryRegion>) -> bool {
    forall|i: int| 0 <= i < regions.len() ==> region_clean(memory, #[trigger] regions[i])
}

/// Whether `violation` is what the scan of `regions` reports: the first byte
/// that is not zero in the first region that is not clean.
pub open spec fn first_violation(
    memory: Seq<u8>,
    regions: Seq<MemoryRegion>,
    violation: SafetyViolation,
) -> bool {
    let at = clean_prefix(memory, regions) as int;
    &&& at < regions.len()
    &&& violation.region == regions[at].tag
    &&& first_disturbed(memory, regions[at], violation.address as int)
}

/// The clean regions at the head of a table are clean, and the one after them
/// is not.
pub proof fn lemma_clean_prefix(memory: Seq<u8>, regions: Seq<MemoryRegion>)
    ensures
        clean_prefix(memory, regions) <= regions.len(),
        forall|i: int|
            0 <= i < clean_prefix(memory, regions) ==> region_clean(memory, #[trigger] regions[i]),
        clean_prefix(memory, regions) < regions.len() ==> !region_clean(
            memory,
            regions[clean_prefix(memory, regions) as int],
        ),
        clean_prefix(memory, regions) == regions.len() <==> regions_clean(memory, regions),
    decreases regions.len(),
{
    if regions.len() != 0 && region_clean(memory, regions[0]) {
        let rest = regions.drop_first();
        lemma_clean_prefix(memory, rest);
        assert forall|i: int| 0 <= i < clean_prefix(memory, regions) implies region_clean(
            memory,
            #[trigger] regions[i],
        ) by {
            if i > 0 {
                assert(regions[i] == rest[i - 1]);
            }
        }
        if regions_clean(memory, regions) {
            assert forall|i: int| 0 <= i < rest.len() implies region_clean(
                memory,
                #[trigger] rest[i],
            ) by {
                assert(rest[i] == regions[i + 1]);
            }
        }
    }
}

/// The reserved ranges of the device, in the order in which they are scanned.
pub fn reserved_regions() -> (regions: [MemoryRegion; 5])
    ensures
        regions@ == reserved_table(),
{
    let regions: [MemoryRegion; 5] = [
        MemoryRegion {
            tag: RegionTag::ReservedCode,
            start: MAX_ROM - 1,
            end: 0x1000_0000,
            descending: false,
        },
        MemoryRegion {
            tag: RegionTag::ReservedRam,
            start: RAM_PHYSICAL_ADDRESS + MAX_RAM - 1,
            end: 0x4000_0000,
            descending: false,
        },
        MemoryRegion {
            tag: RegionTag::ApbPeripherals,
            start: 0x4008_0000 - 1,
            end: 0x5000_0000,
            descending: false,
        },
        MemoryRegion {
            tag: RegionTag::AhbPeripherals,
            start: 0x5008_0000 - 1,
            end: 0xE000_0000,
            descending: true,
        },
        MemoryRegion {
            tag: RegionTag::PrivatePeripheralBus,
            start: 0xE010_0000 - 1,
            end: 0xFFFF_FFFF,
            descending: true,
        },
    ];
    assert(regions@ =~= reserved_table());
    regions
}

/// Scans one region in its order and reports the first byte that is not zero.
pub fn scan_region(memory: &[u8], region: &MemoryRegion) -> (hit: Option<usize>)
    ensures
        hit is None ==> region_clean(memory@, *region),
        hit matches Some(address) ==> first_disturbed(memory@, *region, address as int),
{
    let size: usize = memory.len();
    let low: usize = region.start as usize;
    let high: usize = if (region.end as usize) < size {
        region.end as usize
    } else {
        size
    };
    if region.descending {
        let mut address: usize = high;
        while address > low
            invariant
                size == memory@.len(),
                low == region.start,
                high <= size,
                high <= region.end,
                high == region.end || high == size,
                address <= high,
                region.descending,
                forall|other: int| address <= other ==> !disturbed_at(memory@, *region, other),
            decreases address,
        {
            address = address - 1;
            if memory[address] != 0 {
                return Some(address);
            }
        }
    } else {
        let mut address: usize = low;
        while address < high
            invariant
                size == memory@.len(),
                low == region.start,
                high <= size,
                high <= region.end,
                high == region.end || high == size,
                low <= address,
                !region.descending,
                forall|other: int| other < address ==> !disturbed_at(memory@, *region, other),
            decreases high - address,
        {
            if memory[address] != 0 {
                return Some(address);
            }
            address = address + 1;
        }
    }
    None
}

/// Scans `regions` in order and reports the first byte that is not zero.
pub fn validate_regions(memory: &[u8], regions: &[MemoryRegion]) -> (res: Result<
    (),
    SafetyViolation,
>)
    ensures
        res is Ok <==> regions_clean(memory@, regions@),
        res matches Err(violation) ==> first_violation(memory@, regions@, violation),
{
    let count: usize = regions.len();
    let mut i: usize = 0;
    assert(regions@.subrange(0, count as int) =~= regions@);
    while i < count
        invariant
            i <= count,
            count == regions@.len(),
            clean_prefix(memory@, regions@) == i + clean_prefix(
                memory@,
                regions@.subrange(i as int, count as int),
            ),
        decreases count - i,
    {
        let ghost rest = regions@.subrange(i as int, count as int);
        assert(rest[0] == regions@[i as int]);
        assert(rest.drop_first() =~= regions@.subrange(i + 1, count as int));
        match scan_region(memory, &regions[i]) {
            Some(address) => {
                proof {
                    lemma_clean_prefix(memory@, regions@);
                }
                return Err(SafetyViolation { region: regions[i].tag, address });
            },
            None => {},
        }
        i = i + 1;
    }
    proof {
        lemma_clean_prefix(memory@, regions@);
    }
    Ok(())
}

impl AddressSpace {
    /// Scans the reserved ranges of the device in the order of their table,
    /// and reports the first byte that is not zero.
    pub fn validate_reserved_regions(&self) -> (res: Result<(), SafetyViolation>)
        ensures
            res is Ok <==> regions_clean(self@, reserved_table()),
            res matches Err(violation) ==> first_violation(self@, reserved_table(), violation),
    {
        let regions: [MemoryRegion; 5] = reserved_regions();
        validate_regions(self.as_slice(), regions.as_slice())
    }
}

/// Whether `address` lies in the ROM window or in the RAM window.
pub open spec fn in_live_window(address: int) -> bool {
    in_region(rom_window(), address) || in_region(ram_window(), address)
}

/// The reserved ranges follow one another without overlap, and none is empty.
pub proof fn lemma_reserved_table_ordered()
    ensures
        reserved_table().len() == 5,
        forall|i: int|
            0 <= i < 5 ==> (#[trigger] reserved_table()[i]).start < reserved_table()[i].end,
        forall|i: int, j: int|
            0 <= i < j < 5 ==> (#[trigger] reserved_table()[i]).end <= (
            #[trigger] reserved_table()[j]).start,
{
}

/// A byte that is not zero in a reserved range makes the scan fail.
pub proof fn lemma_disturbance_is_found(memory: Seq<u8>, address: int)
    requires
        in_regions(reserved_table(), address),
        0 <= address < memory.len(),
        memory[address] != 0,
    ensures
        !regions_clean(memory, reserved_table()),
{
    let i = choose|i: int|
        0 <= i < reserved_table().len() && in_region(#[trigger] reserved_table()[i], address);
    assert(disturbed_at(memory, reserved_table()[i], address));
}

/// The scan reports one thing only: two violations that it may report of one
/// memory are the same.
pub proof fn lemma_violation_unique(
    memory: Seq<u8>,
    regions: Seq<MemoryRegion>,
    one: SafetyViolation,
    other: SafetyViolation,
)
    requires
        first_violation(memory, regions, one),
        first_violation(memory, regions, other),
    ensures
        one == other,
{
    let region = regions[clean_prefix(memory, regions) as int];
    if one.address != other.address {
        if scanned_before(region, one.address as int, other.address as int) {
            assert(!disturbed_at(memory, region, one.address as int));
        } else {
            assert(scanned_before(region, other.address as int, one.address as int));
            assert(!disturbed_at(memory, region, other.address as int));
        }
    }
}

/// Where one byte alone is not zero, and it lies in a reserved range, the scan
/// reports that range and the address of that byte.
pub proof fn lemma_single_disturbance(memory: Seq<u8>, at: int, address: usize)
    requires
        0 <= at < 5,
        in_region(reserved_table()[at], address as int),
        address < memory.len(),
        memory[address as int] != 0,
        forall|other: int| 0 <= other < memory.len() && other != address ==> memory[other] == 0,
    ensures
        first_violation(
            memory,
            reserved_table(),
            SafetyViolation { region: reserved_table()[at].tag, address },
        ),
{
    let table = reserved_table();
    lemma_clean_prefix(memory, table);
    lemma_reserved_table_ordered();
    let found = clean_prefix(memory, table) as int;
    assert(disturbed_at(memory, table[at], address as int));
    assert(!region_clean(memory, table[at]));
    assert(found <= at);
    assert(!region_clean(memory, table[found]));
    let hit = choose|hit: int| disturbed_at(memory, table[found], hit);
    assert(hit == address);
    assert(found == at);
}

/// Where every byte outside the ROM window and the RAM window is zero, and
/// the last byte of each window too, the scan passes.
pub proof fn lemma_clean_outside_windows(memory: Seq<u8>)
    requires
        forall|address: int|
            0 <= address < memory.len() && memory[address] != 0 ==> in_live_window(address),
        memory.len() > rom_window().end - 1 ==> memory[rom_window().end - 1] == 0,
        memory.len() > ram_window().end - 1 ==> memory[ram_window().end - 1] == 0,
    ensures
        regions_clean(memory, reserved_table()),
{
    assert forall|i: int| 0 <= i < reserved_table().len() implies region_clean(
        memory,
        #[trigger] reserved_table()[i],
    ) by {
        assert forall|address: int| !disturbed_at(memory, reserved_table()[i], address) by {
            if in_region(reserved_table()[i], address) && 0 <= address < memory.len() {
                assert(!in_live_window(address) || address == rom_window().end - 1 || address
                    == ram_window().end - 1);
            }
        }
    }
}

} // verus!
