use armv6m_sim::memory::AddressSpace;
use armv6m_sim::regions::{
    reserved_regions, scan_region, validate_regions, MemoryRegion, RegionTag, SafetyViolation,
    MAX_RAM, MAX_ROM, RAM_PHYSICAL_ADDRESS,
};

fn region(tag: RegionTag, start: u32, end: u32, descending: bool) -> MemoryRegion {
    MemoryRegion { tag, start, end, descending }
}

#[test]
fn table_lists_the_five_reserved_ranges() {
    let table = reserved_regions();
    assert_eq!(table[0], region(RegionTag::ReservedCode, 0x0003_FFFF, 0x1000_0000, false));
    assert_eq!(table[1], region(RegionTag::ReservedRam, 0x2000_3FFF, 0x4000_0000, false));
    assert_eq!(table[2], region(RegionTag::ApbPeripherals, 0x4007_FFFF, 0x5000_0000, false));
    assert_eq!(table[3], region(RegionTag::AhbPeripherals, 0x5007_FFFF, 0xE000_0000, true));
    assert_eq!(table[4], region(RegionTag::PrivatePeripheralBus, 0xE00F_FFFF, 0xFFFF_FFFF, true));
    assert_eq!(table[0].start, MAX_ROM - 1);
    assert_eq!(table[1].start, RAM_PHYSICAL_ADDRESS + MAX_RAM - 1);
    for pair in table.windows(2) {
        assert!(pair[0].start < pair[0].end);
        assert!(pair[0].end <= pair[1].start);
    }
}

#[test]
fn zero_memory_passes() {
    let memory = AddressSpace::new(0x0005_0000);
    assert_eq!(memory.validate_reserved_regions(), Ok(()));
    assert_eq!(AddressSpace::new(0).validate_reserved_regions(), Ok(()));
}

#[test]
fn image_inside_the_rom_passes() {
    let mut memory = AddressSpace::new(0x0005_0000);
    memory.write(0, &[0xFF; 16]);
    memory.write(0x0003_FFF0, &[0xFF; 15]);
    assert_eq!(memory.validate_reserved_regions(), Ok(()));
}

#[test]
fn last_byte_of_the_rom_counts_as_reserved() {
    let mut memory = AddressSpace::new(0x0005_0000);
    memory.write(0x0003_FFFF, &[1]);
    assert_eq!(
        memory.validate_reserved_regions(),
        Err(SafetyViolation { region: RegionTag::ReservedCode, address: 0x0003_FFFF })
    );
}

#[test]
fn byte_after_the_rom_is_reported() {
    let mut memory = AddressSpace::new(0x0005_0000);
    memory.write(0x0004_0000, &[7]);
    memory.write(0x0004_8000, &[9]);
    assert_eq!(
        memory.validate_reserved_regions(),
        Err(SafetyViolation { region: RegionTag::ReservedCode, address: 0x0004_0000 })
    );
}

#[test]
fn start_of_the_reserved_ram_tail_is_reported() {
    let address: usize = 0x2000_3FFF;
    let mut memory = AddressSpace::new(address + 1);
    memory.write(address, &[0x01]);
    assert_eq!(
        memory.validate_reserved_regions(),
        Err(SafetyViolation { region: RegionTag::ReservedRam, address })
    );
}

#[test]
fn ascending_scan_reports_the_lowest_address() {
    let mut memory = vec![0u8; 32];
    memory[20] = 1;
    memory[12] = 2;
    memory[3] = 3;
    let hit = scan_region(&memory, &region(RegionTag::ReservedCode, 8, 24, false));
    assert_eq!(hit, Some(12));
}

#[test]
fn descending_scan_reports_the_highest_address() {
    let mut memory = vec![0u8; 32];
    memory[20] = 1;
    memory[12] = 2;
    memory[30] = 3;
    let hit = scan_region(&memory, &region(RegionTag::AhbPeripherals, 8, 24, true));
    assert_eq!(hit, Some(20));
}

#[test]
fn scan_stops_at_the_bounds_of_the_region() {
    let mut memory = vec![0u8; 32];
    memory[7] = 1;
    memory[24] = 1;
    assert_eq!(scan_region(&memory, &region(RegionTag::ReservedCode, 8, 24, false)), None);
    assert_eq!(scan_region(&memory, &region(RegionTag::ReservedCode, 8, 24, true)), None);
    assert_eq!(scan_region(&memory, &region(RegionTag::ReservedCode, 7, 24, true)), Some(7));
    assert_eq!(scan_region(&memory, &region(RegionTag::ReservedCode, 8, 25, false)), Some(24));
}

#[test]
fn scan_reads_only_what_the_memory_backs() {
    let mut memory = vec![0u8; 16];
    memory[15] = 5;
    assert_eq!(scan_region(&memory, &region(RegionTag::ReservedRam, 8, 1000, false)), Some(15));
    assert_eq!(scan_region(&memory, &region(RegionTag::ReservedRam, 8, 1000, true)), Some(15));
    assert_eq!(scan_region(&memory, &region(RegionTag::ReservedRam, 16, 1000, true)), None);
    assert_eq!(scan_region(&memory, &region(RegionTag::ReservedRam, 100, 1000, false)), None);
    assert_eq!(scan_region(&memory, &region(RegionTag::ReservedRam, 12, 4, false)), None);
}

#[test]
fn regions_are_scanned_in_the_order_of_the_table() {
    let mut memory = vec![0u8; 64];
    memory[10] = 1;
    memory[40] = 1;
    memory[50] = 1;
    let table = [
        region(RegionTag::AhbPeripherals, 32, 64, true),
        region(RegionTag::ReservedCode, 0, 16, false),
    ];
    assert_eq!(
        validate_regions(&memory, &table),
        Err(SafetyViolation { region: RegionTag::AhbPeripherals, address: 50 })
    );
    let table = [
        region(RegionTag::ReservedRam, 16, 32, false),
        region(RegionTag::ReservedCode, 0, 16, false),
        region(RegionTag::AhbPeripherals, 32, 64, true),
    ];
    assert_eq!(
        validate_regions(&memory, &table),
        Err(SafetyViolation { region: RegionTag::ReservedCode, address: 10 })
    );
    assert_eq!(validate_regions(&memory, &[]), Ok(()));
    assert_eq!(validate_regions(&memory, &[region(RegionTag::ReservedRam, 16, 32, false)]), Ok(()));
}

#[test]
fn every_single_disturbed_byte_of_a_small_table_is_found() {
    let table = [
        region(RegionTag::ReservedCode, 4, 8, false),
        region(RegionTag::ReservedRam, 12, 16, true),
    ];
    for address in 0..20usize {
        let mut memory = vec![0u8; 20];
        memory[address] = 0x80;
        let expected = if (4..8).contains(&address) {
            Err(SafetyViolation { region: RegionTag::ReservedCode, address })
        } else if (12..16).contains(&address) {
            Err(SafetyViolation { region: RegionTag::ReservedRam, address })
        } else {
            Ok(())
        };
        assert_eq!(validate_regions(&memory, &table), expected);
    }
}
