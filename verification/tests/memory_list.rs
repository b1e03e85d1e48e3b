use leafboot::boot::memory::{
    align_up, classify_memory_type, region_from_descriptor, reserve_handover_region,
    DynamicMemoryList, MemoryDescriptorInfo, MemoryRegionEntry, MemoryRegionType,
    MEMORY_TYPE_ACPI_NON_VOLATILE, MEMORY_TYPE_ACPI_RECLAIM, MEMORY_TYPE_BOOT_SERVICES_CODE,
    MEMORY_TYPE_BOOT_SERVICES_DATA, MEMORY_TYPE_CONVENTIONAL, MEMORY_TYPE_LOADER_CODE,
    MEMORY_TYPE_LOADER_DATA, MEMORY_TYPE_MMIO, MEMORY_TYPE_RESERVED,
    MEMORY_TYPE_RUNTIME_SERVICES_CODE, MEMORY_TYPE_RUNTIME_SERVICES_DATA,
};
use uefi::boot::MemoryType;

fn entry(start: u64, size: u64, ty: MemoryRegionType, name: &'static str) -> MemoryRegionEntry {
    MemoryRegionEntry {
        start,
        end: start + size - 1,
        size,
        page_count: size / 4096,
        region_type: ty,
        type_str: name,
    }
}

fn list_of(cap: usize, entries: &[MemoryRegionEntry]) -> DynamicMemoryList {
    let mut l = DynamicMemoryList::new(cap).unwrap();
    for e in entries {
        l.push(*e).unwrap();
    }
    l
}

fn starts(l: &DynamicMemoryList) -> Vec<u64> {
    let mut v = Vec::new();
    let mut it = l.iter();
    while let Some(e) = it.next() {
        v.push(e.start);
    }
    v
}

#[test]
fn memory_type_codes_match_uefi() {
    assert_eq!(MEMORY_TYPE_RESERVED, MemoryType::RESERVED.0);
    assert_eq!(MEMORY_TYPE_LOADER_CODE, MemoryType::LOADER_CODE.0);
    assert_eq!(MEMORY_TYPE_LOADER_DATA, MemoryType::LOADER_DATA.0);
    assert_eq!(MEMORY_TYPE_BOOT_SERVICES_CODE, MemoryType::BOOT_SERVICES_CODE.0);
    assert_eq!(MEMORY_TYPE_BOOT_SERVICES_DATA, MemoryType::BOOT_SERVICES_DATA.0);
    assert_eq!(MEMORY_TYPE_RUNTIME_SERVICES_CODE, MemoryType::RUNTIME_SERVICES_CODE.0);
    assert_eq!(MEMORY_TYPE_RUNTIME_SERVICES_DATA, MemoryType::RUNTIME_SERVICES_DATA.0);
    assert_eq!(MEMORY_TYPE_CONVENTIONAL, MemoryType::CONVENTIONAL.0);
    assert_eq!(MEMORY_TYPE_ACPI_RECLAIM, MemoryType::ACPI_RECLAIM.0);
    assert_eq!(MEMORY_TYPE_ACPI_NON_VOLATILE, MemoryType::ACPI_NON_VOLATILE.0);
    assert_eq!(MEMORY_TYPE_MMIO, MemoryType::MMIO.0);
    assert_eq!(uefi::boot::PAGE_SIZE, 4096);
}

#[test]
fn classify_every_memory_type() {
    let cases: [(u32, MemoryRegionType, &str); 16] = [
        (0, MemoryRegionType::Reserved, "Reserved"),
        (1, MemoryRegionType::Reserved, "Reserved"),
        (2, MemoryRegionType::Reserved, "Reserved"),
        (3, MemoryRegionType::RECLAIMABLE, "Reclaimable"),
        (4, MemoryRegionType::RECLAIMABLE, "Reclaimable"),
        (5, MemoryRegionType::Runtime, "Runtime"),
        (6, MemoryRegionType::Runtime, "Runtime"),
        (7, MemoryRegionType::Usable, "Usable"),
        (8, MemoryRegionType::Reserved, "Unknown"),
        (9, MemoryRegionType::Acpi, "ACPI"),
        (10, MemoryRegionType::Acpi, "ACPI"),
        (11, MemoryRegionType::MMIO, "MMIO"),
        (12, MemoryRegionType::Reserved, "Unknown"),
        (14, MemoryRegionType::Reserved, "Unknown"),
        (15, MemoryRegionType::Reserved, "Unknown"),
        (0x8000_0001, MemoryRegionType::Reserved, "Unknown"),
    ];
    for (ty, want, name) in cases {
        let (got, got_name) = classify_memory_type(ty);
        assert_eq!(got, want, "type {}", ty);
        assert_eq!(got_name, name, "type {}", ty);
    }
}

#[test]
fn descriptor_becomes_entry() {
    let d = MemoryDescriptorInfo { phys_start: 0x10_0000, page_count: 3, ty: 7 };
    let e = region_from_descriptor(&d);
    assert_eq!(e.start, 0x10_0000);
    assert_eq!(e.size, 3 * 4096);
    assert_eq!(e.end, 0x10_0000 + 3 * 4096 - 1);
    assert_eq!(e.page_count, 3);
    assert_eq!(e.region_type, MemoryRegionType::Usable);
    assert_eq!(e.type_str, "Usable");
}

#[test]
fn align_up_rounds_to_multiples() {
    assert_eq!(align_up(0, 4096), 0);
    assert_eq!(align_up(1, 4096), 4096);
    assert_eq!(align_up(4095, 4096), 4096);
    assert_eq!(align_up(4096, 4096), 4096);
    assert_eq!(align_up(4097, 4096), 8192);
    assert_eq!(align_up(504, 4096), 4096);
    assert_eq!(align_up(10, 3), 12);
    assert_eq!(align_up(0xFFFF_FFFF_FFFF_EFFF, 4096), 0xFFFF_FFFF_FFFF_F000);
    for v in [0u64, 7, 100, 4096, 12345, 999_999] {
        for a in [1u64, 3, 16, 4096] {
            let r = align_up(v, a);
            assert_eq!(r % a, 0);
            assert!(v <= r && r < v + a);
        }
    }
}

#[test]
fn default_entry_is_unknown_reserved() {
    let e = MemoryRegionEntry::default();
    assert_eq!(e.start, 0);
    assert_eq!(e.end, 0);
    assert_eq!(e.size, 0);
    assert_eq!(e.page_count, 0);
    assert_eq!(e.region_type, MemoryRegionType::Reserved);
    assert_eq!(e.type_str, "Unknown");
}

#[test]
fn push_until_full() {
    let mut l = DynamicMemoryList::new(2).unwrap();
    assert!(l.is_empty());
    assert_eq!(l.capacity(), 2);
    assert_eq!(l.push(entry(0, 4096, MemoryRegionType::Usable, "Usable")), Ok(()));
    assert_eq!(l.push(entry(4096, 4096, MemoryRegionType::Acpi, "ACPI")), Ok(()));
    assert_eq!(
        l.push(entry(8192, 4096, MemoryRegionType::MMIO, "MMIO")),
        Err("DynamicMemoryList capacity exceeded")
    );
    assert_eq!(l.len(), 2);
    assert!(!l.is_empty());
    assert_eq!(l.get(1).unwrap().start, 4096);
    assert_eq!(l.get(1).unwrap().region_type, MemoryRegionType::Acpi);
    assert!(l.get(2).is_none());
}

#[test]
fn insert_shifts_later_entries() {
    let mut l = list_of(
        4,
        &[
            entry(0, 4096, MemoryRegionType::Usable, "Usable"),
            entry(8192, 4096, MemoryRegionType::Usable, "Usable"),
        ],
    );
    assert_eq!(l.insert(1, entry(4096, 4096, MemoryRegionType::Reserved, "Reserved")), Ok(()));
    assert_eq!(starts(&l), vec![0, 4096, 8192]);
    assert_eq!(
        l.insert(5, entry(1, 1, MemoryRegionType::Reserved, "Reserved")),
        Err("DynamicMemoryList insert index out of bounds")
    );
    assert_eq!(l.insert(3, entry(12288, 4096, MemoryRegionType::Acpi, "ACPI")), Ok(()));
    assert_eq!(starts(&l), vec![0, 4096, 8192, 12288]);
    assert_eq!(
        l.insert(0, entry(1, 1, MemoryRegionType::Reserved, "Reserved")),
        Err("DynamicMemoryList capacity exceeded")
    );
    assert_eq!(l.len(), 4);
}

#[test]
fn get_mut_updates_in_place() {
    let mut l = list_of(2, &[entry(0, 4096, MemoryRegionType::Usable, "Usable")]);
    if let Some(e) = l.get_mut(0) {
        e.region_type = MemoryRegionType::Reserved;
        e.type_str = "Reserved";
    }
    assert!(l.get_mut(1).is_none());
    assert_eq!(l.get(0).unwrap().region_type, MemoryRegionType::Reserved);
    assert_eq!(l.get(0).unwrap().type_str, "Reserved");
    assert_eq!(l.len(), 1);
}

#[test]
fn free_empties_the_list() {
    let mut l = list_of(3, &[entry(0, 4096, MemoryRegionType::Usable, "Usable")]);
    l.free();
    assert_eq!(l.len(), 0);
    assert_eq!(l.capacity(), 0);
    assert_eq!(l.push(entry(0, 4096, MemoryRegionType::Usable, "Usable")), Err("DynamicMemoryList capacity exceeded"));
}

#[test]
fn iterator_yields_entries_in_order() {
    let l = list_of(
        3,
        &[
            entry(0, 4096, MemoryRegionType::Usable, "Usable"),
            entry(4096, 4096, MemoryRegionType::Acpi, "ACPI"),
        ],
    );
    let mut it = l.iter();
    assert_eq!(it.next().unwrap().start, 0);
    assert_eq!(it.next().unwrap().start, 4096);
    assert!(it.next().is_none());
    assert!(it.next().is_none());
}

#[test]
fn reserve_splits_first_large_usable_region() {
    let mut l = list_of(
        4,
        &[
            entry(0, 4096, MemoryRegionType::Reserved, "Reserved"),
            entry(0x1000, 0x1000, MemoryRegionType::Usable, "Usable"),
            entry(0x10_0000, 0x10_0000, MemoryRegionType::Usable, "Usable"),
        ],
    );
    // 5000 bytes round up to two pages; the one-page usable region is too small.
    let r = reserve_handover_region(&mut l, 5000);
    assert_eq!(r, Ok(0x10_0000));
    assert_eq!(l.len(), 4);
    let h = *l.get(2).unwrap();
    assert_eq!(h.start, 0x10_0000);
    assert_eq!(h.end, 0x10_1FFF);
    assert_eq!(h.size, 0x2000);
    assert_eq!(h.page_count, 2);
    assert_eq!(h.region_type, MemoryRegionType::Reserved);
    assert_eq!(h.type_str, "Reserved(Handover)");
    let rest = *l.get(3).unwrap();
    assert_eq!(rest.start, 0x10_2000);
    assert_eq!(rest.end, 0x1F_FFFF);
    assert_eq!(rest.size, 0x10_0000 - 0x2000);
    assert_eq!(rest.page_count, (0x10_0000 - 0x2000) / 4096);
    assert_eq!(rest.region_type, MemoryRegionType::Usable);
    assert_eq!(rest.type_str, "Usable");
    assert_eq!(l.get(1).unwrap().region_type, MemoryRegionType::Usable);
}

#[test]
fn reserve_takes_whole_region_when_exact() {
    let mut l = list_of(2, &[entry(0x3000, 0x2000, MemoryRegionType::Usable, "Usable")]);
    assert_eq!(reserve_handover_region(&mut l, 0x2000), Ok(0x3000));
    assert_eq!(l.len(), 1);
    let h = *l.get(0).unwrap();
    assert_eq!(h.region_type, MemoryRegionType::Reserved);
    assert_eq!(h.type_str, "Reserved(Handover)");
    assert_eq!(h.size, 0x2000);
    assert_eq!(h.end, 0x4FFF);
}

#[test]
fn reserve_fails_without_room() {
    let mut l = list_of(
        3,
        &[
            entry(0, 0x1000, MemoryRegionType::Usable, "Usable"),
            entry(0x1000, 0x10000, MemoryRegionType::RECLAIMABLE, "Reclaimable"),
        ],
    );
    assert_eq!(reserve_handover_region(&mut l, 0x1001), Err("Failed to reserve handover memory region"));
    assert_eq!(starts(&l), vec![0, 0x1000]);
    assert_eq!(l.get(0).unwrap().size, 0x1000);
}

#[test]
fn reserve_in_full_list_leaves_remainder() {
    let mut l = list_of(1, &[entry(0x8000, 0x4000, MemoryRegionType::Usable, "Usable")]);
    assert_eq!(reserve_handover_region(&mut l, 100), Err("DynamicMemoryList capacity exceeded"));
    assert_eq!(l.len(), 1);
    let e = *l.get(0).unwrap();
    assert_eq!(e.start, 0x9000);
    assert_eq!(e.size, 0x3000);
    assert_eq!(e.region_type, MemoryRegionType::Usable);
}

#[test]
fn reserve_moves_size_from_usable_to_reserved() {
    let regions = [
        entry(0, 0x1000, MemoryRegionType::Reserved, "Reserved"),
        entry(0x1000, 0x9F000, MemoryRegionType::Usable, "Usable"),
        entry(0x10_0000, 0x40_0000, MemoryRegionType::Usable, "Usable"),
    ];
    let mut l = list_of(4, &regions);
    let total = |l: &DynamicMemoryList, t: MemoryRegionType| {
        let mut s = 0u64;
        for i in 0..l.len() {
            let e = l.get(i).unwrap();
            if e.region_type == t {
                s += e.size;
            }
        }
        s
    };
    let usable_before = total(&l, MemoryRegionType::Usable);
    let reserved_before = total(&l, MemoryRegionType::Reserved);
    reserve_handover_region(&mut l, 3 * 4096 + 1).unwrap();
    assert_eq!(total(&l, MemoryRegionType::Usable), usable_before - 4 * 4096);
    assert_eq!(total(&l, MemoryRegionType::Reserved), reserved_before + 4 * 4096);
}
