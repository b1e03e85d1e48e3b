use leafboot::boot::memory::{DynamicMemoryList, MemoryRegionEntry, MemoryRegionType};

fn entry(start: u64, size: u64, ty: MemoryRegionType, name: &'static str) -> MemoryRegionEntry {
    MemoryRegionEntry {
        start,
        end: start + size - 1,
        size,
        page_count: size / 4096,
        region_type: ty,
        type_str: name,
    }
}

fn list_of(entries: &[MemoryRegionEntry]) -> DynamicMemoryList {
    let mut l = DynamicMemoryList::new(entries.len() + 1).unwrap();
    for e in entries {
        l.push(*e).unwrap();
    }
    l
}

fn contents(l: &DynamicMemoryList) -> Vec<(u64, u64, u64, u64, MemoryRegionType, &'static str)> {
    let mut v = Vec::new();
    for i in 0..l.len() {
        let e = l.get(i).unwrap();
        v.push((e.start, e.end, e.size, e.page_count, e.region_type, e.type_str));
    }
    v
}

#[test]
fn merge_joins_contiguous_same_type_runs() {
    let mut l = list_of(&[
        entry(0x0000, 0x1000, MemoryRegionType::Usable, "Usable"),
        entry(0x1000, 0x2000, MemoryRegionType::Usable, "Free"),
        entry(0x3000, 0x1000, MemoryRegionType::Usable, "Usable"),
        entry(0x4000, 0x1000, MemoryRegionType::Reserved, "Reserved"),
        entry(0x6000, 0x1000, MemoryRegionType::Reserved, "Reserved"),
        entry(0x7000, 0x1000, MemoryRegionType::Reserved, "Reserved"),
    ]);
    l.merge_adjacent();
    assert_eq!(
        contents(&l),
        vec![
            (0x0000, 0x3FFF, 0x4000, 4, MemoryRegionType::Usable, "Usable"),
            (0x4000, 0x4FFF, 0x1000, 1, MemoryRegionType::Reserved, "Reserved"),
            (0x6000, 0x7FFF, 0x2000, 2, MemoryRegionType::Reserved, "Reserved"),
        ]
    );
    assert_eq!(l.capacity(), 7);
}

#[test]
fn merge_keeps_different_types_apart() {
    let mut l = list_of(&[
        entry(0x0000, 0x1000, MemoryRegionType::Usable, "Usable"),
        entry(0x1000, 0x1000, MemoryRegionType::Acpi, "ACPI"),
        entry(0x2000, 0x1000, MemoryRegionType::Usable, "Usable"),
    ]);
    let before = contents(&l);
    l.merge_adjacent();
    assert_eq!(contents(&l), before);
}

#[test]
fn merge_leaves_short_lists() {
    let mut empty = DynamicMemoryList::new(4).unwrap();
    empty.merge_adjacent();
    assert_eq!(empty.len(), 0);
    let mut one = list_of(&[entry(0x1000, 0x1000, MemoryRegionType::MMIO, "MMIO")]);
    one.merge_adjacent();
    assert_eq!(contents(&one), vec![(0x1000, 0x1FFF, 0x1000, 1, MemoryRegionType::MMIO, "MMIO")]);
}

#[test]
fn merge_twice_is_merge_once() {
    let mut l = list_of(&[
        entry(0x0000, 0x1000, MemoryRegionType::Runtime, "Runtime"),
        entry(0x1000, 0x1000, MemoryRegionType::Runtime, "Runtime"),
        entry(0x3000, 0x1000, MemoryRegionType::Runtime, "Runtime"),
        entry(0x4000, 0x1000, MemoryRegionType::Runtime, "Runtime"),
    ]);
    l.merge_adjacent();
    let once = contents(&l);
    l.merge_adjacent();
    assert_eq!(contents(&l), once);
    assert_eq!(once.len(), 2);
}

#[test]
fn merge_keeps_total_size_and_leaves_no_mergeable_neighbours() {
    let entries = [
        entry(0x0000, 0x1000, MemoryRegionType::Usable, "Usable"),
        entry(0x1000, 0x3000, MemoryRegionType::Usable, "Usable"),
        entry(0x4000, 0x1000, MemoryRegionType::RECLAIMABLE, "Reclaimable"),
        entry(0x5000, 0x1000, MemoryRegionType::RECLAIMABLE, "Reclaimable"),
        entry(0x9000, 0x1000, MemoryRegionType::RECLAIMABLE, "Reclaimable"),
        entry(0xA000, 0x5000, MemoryRegionType::Usable, "Usable"),
    ];
    let total_before: u64 = entries.iter().map(|e| e.size).sum();
    let mut l = list_of(&entries);
    l.merge_adjacent();
    let after = contents(&l);
    let total_after: u64 = after.iter().map(|e| e.2).sum();
    assert_eq!(total_before, total_after);
    for w in after.windows(2) {
        assert!(!(w[0].4 == w[1].4 && w[0].1 + 1 == w[1].0));
    }
    assert_eq!(after.len(), 4);
}
