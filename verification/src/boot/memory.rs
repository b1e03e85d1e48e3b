//! The physical memory map: classification of firmware memory descriptors,
//! the bounded region list, reservation of the kernel hand-over region and
//! the boot parameters passed to the kernel.
use vstd::prelude::*;

verus! {

/// The UEFI page size in bytes, as a number for specifications.
pub open spec fn spec_page_size() -> int {
    4096
}

/// `uefi::boot::PAGE_SIZE` (re-exported from `uefi_raw::table::boot`), which
/// the crate defines as the constant 4096; it is returned as a `u64`.
#[verifier::external_body]
fn uefi_page_size() -> (r: u64)
    ensures
        r == spec_page_size(),
{
    uefi::boot::PAGE_SIZE as u64
}

/// The magic number ("Leaf") that marks valid boot parameters.
pub const BOOT_PARAMS_MAGIC: u64 = 0x4C656146;

/// Boot parameters describing the memory map handed to the kernel.
pub struct MemoryParams {
    /// Magic number for validation (`BOOT_PARAMS_MAGIC`).
    pub magic: u64,
    /// Physical address of the hand-over copy of the memory map.
    pub memory_map_phys: u64,
    /// Number of entries in the memory map.
    pub memory_map_entries: u64,
    /// Total size of the memory map in bytes.
    pub memory_map_size: u64,
    /// Total size of usable RAM (usable plus reclaimable).
    pub usable_ram_size: u64,
}

/// The kind of a memory region as the kernel sees it.
#[allow(non_camel_case_types)]
#[derive(Debug, Clone, Copy, PartialEq, Eq, Structural)]
pub enum MemoryRegionType {
    Usable,
    RECLAIMABLE,
    Reserved,
    Runtime,
    Acpi,
    MMIO,
}

/// A memory region given by start and size.
pub struct MemoryRegion {
    pub start: usize,
    pub size: usize,
    pub region_type: MemoryRegionType,
    pub type_str: &'static str,
}

/// One entry of the memory map handed to the kernel. `end` is inclusive.
#[derive(Debug, Clone, Copy)]
pub struct MemoryRegionEntry {
    pub start: u64,
    pub end: u64,
    pub size: u64,
    pub page_count: u64,
    pub region_type: MemoryRegionType,
    pub type_str: &'static str,
}

/// The entry that `MemoryRegionEntry::default` returns.
pub open spec fn default_entry() -> MemoryRegionEntry {
    MemoryRegionEntry {
        start: 0,
        end: 0,
        size: 0,
        page_count: 0,
        region_type: MemoryRegionType::Reserved,
        type_str: "Unknown",
    }
}

impl Default for MemoryRegionEntry {
    fn default() -> (e: Self)
        ensures
            e == default_entry(),
    {
        MemoryRegionEntry {
            start: 0,
            end: 0,
            size: 0,
            page_count: 0,
            region_type: MemoryRegionType::Reserved,
            type_str: "Unknown",
        }
    }
}

/// A list of memory region entries with a fixed capacity.
pub struct DynamicMemoryList {
    entries: Vec<MemoryRegionEntry>,
    capacity: usize,
}

impl View for DynamicMemoryList {
    type V = Seq<MemoryRegionEntry>;

    closed spec fn view(&self) -> Seq<MemoryRegionEntry> {
        self.entries@
    }
}

impl DynamicMemoryList {
    /// The list holds no more entries than its capacity. Every operation of
    /// the list keeps this.
    pub closed spec fn wf(&self) -> bool {
        self.entries@.len() <= self.capacity
    }

    /// The number of entries the list can hold.
    pub closed spec fn cap(&self) -> nat {
        self.capacity as nat
    }

    /// Creates an empty list able to hold `capacity` entries.
    pub fn new(capacity: usize) -> (r: Result<Self, &'static str>)
        ensures
            r matches Ok(l) && l@ == Seq::<MemoryRegionEntry>::empty() && l.cap() == capacity
                && l.wf(),
    {
        Ok(DynamicMemoryList { entries: Vec::new(), capacity })
    }

    /// Appends an entry; fails when the list is full.
    pub fn push(&mut self, entry: MemoryRegionEntry) -> (r: Result<(), &'static str>)
        ensures
            final(self).cap() == old(self).cap(),
            old(self).wf() ==> final(self).wf(),
            old(self)@.len() < old(self).cap() ==> r is Ok && final(self)@ == old(self)@.push(entry),
            old(self)@.len() >= old(self).cap() ==> r == Err::<(), &'static str>(
                "DynamicMemoryList capacity exceeded",
            ) && final(self)@ == old(self)@,
    {
        if self.entries.len() >= self.capacity {
            return Err("DynamicMemoryList capacity exceeded");
        }
        self.entries.push(entry);
        Ok(())
    }

    /// Inserts an entry at `index`, shifting the later entries up by one.
    /// Fails when the list is full, or else when `index` is past the end.
    pub fn insert(&mut self, index: usize, entry: MemoryRegionEntry) -> (r: Result<
        (),
        &'static str,
    >)
        ensures
            final(self).cap() == old(self).cap(),
            old(self).wf() ==> final(self).wf(),
            old(self)@.len() >= old(self).cap() ==> r == Err::<(), &'static str>(
                "DynamicMemoryList capacity exceeded",
            ) && final(self)@ == old(self)@,
            old(self)@.len() < old(self).cap() && index > old(self)@.len() ==> r == Err::<
                (),
                &'static str,
            >("DynamicMemoryList insert index out of bounds") && final(self)@ == old(self)@,
            old(self)@.len() < old(self).cap() && index <= old(self)@.len() ==> r is Ok
                && final(self)@ == old(self)@.insert(index as int, entry),
    {
        if self.entries.len() >= self.capacity {
            return Err("DynamicMemoryList capacity exceeded");
        }
        if index > self.entries.len() {
            return Err("DynamicMemoryList insert index out of bounds");
        }
        self.entries.insert(index, entry);
        Ok(())
    }

    /// The entry at `index`, if there is one.
    pub fn get(&self, index: usize) -> (r: Option<&MemoryRegionEntry>)
        ensures
            index < self@.len() <==> r is Some,
            r matches Some(e) ==> *e == self@[index as int],
    {
        if index >= self.entries.len() {
            None
        } else {
            Some(&self.entries[index])
        }
    }

    /// The entry at `index` for in-place update, if there is one.
    pub fn get_mut(&mut self, index: usize) -> (r: Option<&mut MemoryRegionEntry>)
        ensures
            index < old(self)@.len() <==> r is Some,
            final(self).cap() == old(self).cap(),
            old(self).wf() ==> final(self).wf(),
            match r {
                Some(e) => *e == old(self)@[index as int] && final(self)@ == old(self)@.update(
                    index as int,
                    *final(e),
                ),
                None => final(self)@ == old(self)@,
            },
    {
        if index >= self.entries.len() {
            None
        } else {
            Some(&mut self.entries[index])
        }
    }

    /// A cursor over the entries, from the first to the last.
    pub fn iter(&self) -> (it: DynamicIterator<'_>)
        ensures
            it.remaining() == self@,
    {
        DynamicIterator { entries: self.entries.as_slice(), count: self.entries.len(), index: 0 }
    }

    /// The number of entries.
    pub fn len(&self) -> (n: usize)
        ensures
            n == self@.len(),
    {
        self.entries.len()
    }

    /// Whether the list holds no entry.
    pub fn is_empty(&self) -> (b: bool)
        ensures
            b <==> self@.len() == 0,
    {
        self.entries.len() == 0
    }

    /// The number of entries the list can hold.
    pub fn capacity(&self) -> (c: usize)
        ensures
            c == self.cap(),
    {
        self.capacity
    }

    /// Releases the storage: the list becomes empty with capacity zero.
    pub fn free(&mut self)
        ensures
            final(self)@ == Seq::<MemoryRegionEntry>::empty(),
            final(self).cap() == 0,
            final(self).wf(),
    {
        self.entries = Vec::new();
        self.capacity = 0;
    }
}

/// A cursor over the entries of a `DynamicMemoryList`.
pub struct DynamicIterator<'a> {
    entries: &'a [MemoryRegionEntry],
    count: usize,
    index: usize,
}

impl<'a> DynamicIterator<'a> {
    #[verifier::type_invariant]
    spec fn in_bounds(self) -> bool {
        &&& self.count == self.entries@.len()
        &&& self.index <= self.count
    }

    /// The entries that `next` has yet to return, in order.
    pub closed spec fn remaining(&self) -> Seq<MemoryRegionEntry> {
        self.entries@.subrange(self.index as int, self.count as int)
    }

    /// Returns the next entry, or `None` when all have been returned.
    pub fn next(&mut self) -> (r: Option<MemoryRegionEntry>)
        ensures
            old(self).remaining().len() == 0 ==> r is None && final(self).remaining() == old(
                self,
            ).remaining(),
            old(self).remaining().len() > 0 ==> r == Some(old(self).remaining()[0])
                && final(self).remaining() == old(self).remaining().drop_first(),
    {
        proof {
            use_type_invariant(&*self);
        }
        if self.index >= self.count {
            None
        } else {
            let entry = self.entries[self.index];
            self.index = self.index + 1;
            Some(entry)
        }
    }
}

/// UEFI memory type codes (the `u32` inside `uefi::boot::MemoryType`).
pub const MEMORY_TYPE_RESERVED: u32 = 0;
pub const MEMORY_TYPE_LOADER_CODE: u32 = 1;
pub const MEMORY_TYPE_LOADER_DATA: u32 = 2;
pub const MEMORY_TYPE_BOOT_SERVICES_CODE: u32 = 3;
pub const MEMORY_TYPE_BOOT_SERVICES_DATA: u32 = 4;
pub const MEMORY_TYPE_RUNTIME_SERVICES_CODE: u32 = 5;
pub const MEMORY_TYPE_RUNTIME_SERVICES_DATA: u32 = 6;
pub const MEMORY_TYPE_CONVENTIONAL: u32 = 7;
pub const MEMORY_TYPE_ACPI_RECLAIM: u32 = 9;
pub const MEMORY_TYPE_ACPI_NON_VOLATILE: u32 = 10;
pub const MEMORY_TYPE_MMIO: u32 = 11;

/// One descriptor of the firmware memory map: the physical start, the number
/// of 4 KiB pages and the UEFI memory type code.
#[derive(Debug, Clone, Copy)]
pub struct MemoryDescriptorInfo {
    pub phys_start: u64,
    pub page_count: u64,
    pub ty: u32,
}

/// The region type that a UEFI memory type becomes. Types this loader does
/// not know count as reserved.
pub open spec fn region_type_of(ty: u32) -> MemoryRegionType {
    if ty == MEMORY_TYPE_CONVENTIONAL {
        MemoryRegionType::Usable
    } else if ty == MEMORY_TYPE_BOOT_SERVICES_CODE || ty == MEMORY_TYPE_BOOT_SERVICES_DATA {
        MemoryRegionType::RECLAIMABLE
    } else if ty == MEMORY_TYPE_RESERVED || ty == MEMORY_TYPE_LOADER_CODE || ty
        == MEMORY_TYPE_LOADER_DATA {
        MemoryRegionType::Reserved
    } else if ty == MEMORY_TYPE_RUNTIME_SERVICES_CODE || ty == MEMORY_TYPE_RUNTIME_SERVICES_DATA {
        MemoryRegionType::Runtime
    } else if ty == MEMORY_TYPE_ACPI_RECLAIM || ty == MEMORY_TYPE_ACPI_NON_VOLATILE {
        MemoryRegionType::Acpi
    } else if ty == MEMORY_TYPE_MMIO {
        MemoryRegionType::MMIO
    } else {
        MemoryRegionType::Reserved
    }
}

/// The name recorded with a region of the given UEFI memory type.
pub open spec fn type_str_of(ty: u32) -> &'static str {
    if ty == MEMORY_TYPE_CONVENTIONAL {
        "Usable"
    } else if ty == MEMORY_TYPE_BOOT_SERVICES_CODE || ty == MEMORY_TYPE_BOOT_SERVICES_DATA {
        "Reclaimable"
    } else if ty == MEMORY_TYPE_RESERVED || ty == MEMORY_TYPE_LOADER_CODE || ty
        == MEMORY_TYPE_LOADER_DATA {
        "Reserved"
    } else if ty == MEMORY_TYPE_RUNTIME_SERVICES_CODE || ty == MEMORY_TYPE_RUNTIME_SERVICES_DATA {
        "Runtime"
    } else if ty == MEMORY_TYPE_ACPI_RECLAIM || ty == MEMORY_TYPE_ACPI_NON_VOLATILE {
        "ACPI"
    } else if ty == MEMORY_TYPE_MMIO {
        "MMIO"
    } else {
        "Unknown"
    }
}

/// Classifies a UEFI memory type code into a region type and its name.
pub fn classify_memory_type(ty: u32) -> (r: (MemoryRegionType, &'static str))
    ensures
        r.0 == region_type_of(ty),
        r.1 == type_str_of(ty),
{
    if ty == MEMORY_TYPE_CONVENTIONAL {
        (MemoryRegionType::Usable, "Usable")
    } else if ty == MEMORY_TYPE_BOOT_SERVICES_CODE || ty == MEMORY_TYPE_BOOT_SERVICES_DATA {
        (MemoryRegionType::RECLAIMABLE, "Reclaimable")
    } else if ty == MEMORY_TYPE_RESERVED || ty == MEMORY_TYPE_LOADER_CODE || ty
        == MEMORY_TYPE_LOADER_DATA {
        (MemoryRegionType::Reserved, "Reserved")
    } else if ty == MEMORY_TYPE_RUNTIME_SERVICES_CODE || ty == MEMORY_TYPE_RUNTIME_SERVICES_DATA {
        (MemoryRegionType::Runtime, "Runtime")
    } else if ty == MEMORY_TYPE_ACPI_RECLAIM || ty == MEMORY_TYPE_ACPI_NON_VOLATILE {
        (MemoryRegionType::Acpi, "ACPI")
    } else if ty == MEMORY_TYPE_MMIO {
        (MemoryRegionType::MMIO, "MMIO")
    } else {
        (MemoryRegionType::Reserved, "Unknown")
    }
}

/// The descriptor's size and inclusive end can be computed in 64 bits: the
/// size fits, and start + size lies in 1 ..= u64::MAX.
pub open spec fn descriptor_ok(d: MemoryDescriptorInfo) -> bool {
    &&& d.page_count * spec_page_size() <= u64::MAX
    &&& 1 <= d.phys_start + d.page_count * spec_page_size() <= u64::MAX
}

/// The region entry made from a descriptor.
pub open spec fn region_of(d: MemoryDescriptorInfo) -> MemoryRegionEntry {
    MemoryRegionEntry {
        start: d.phys_start,
        end: (d.phys_start + d.page_count * spec_page_size() - 1) as u64,
        size: (d.page_count * spec_page_size()) as u64,
        page_count: d.page_count,
        region_type: region_type_of(d.ty),
        type_str: type_str_of(d.ty),
    }
}

/// The region entry made from a descriptor: its byte size, inclusive end,
/// region type and name.
pub fn region_from_descriptor(d: &MemoryDescriptorInfo) -> (e: MemoryRegionEntry)
    requires
        descriptor_ok(*d),
    ensures
        e == region_of(*d),
{
    let start = d.phys_start;
    let page_count = d.page_count;
    let size = page_count * uefi_page_size();
    let end = start + size - 1;
    let (region_type, type_str) = classify_memory_type(d.ty);
    MemoryRegionEntry { start, end, size, page_count, region_type, type_str }
}

/// `value` rounded up to a multiple of `align`.
pub open spec fn spec_align_up(value: int, align: int) -> int {
    if value % align == 0 {
        value
    } else {
        value + (align - value % align)
    }
}

/// Rounds `value` up to a multiple of `align`.
pub fn align_up(value: u64, align: u64) -> (r: u64)
    requires
        align > 0,
        spec_align_up(value as int, align as int) <= u64::MAX,
    ensures
        r == spec_align_up(value as int, align as int),
{
    if value % align == 0 {
        value
    } else {
        value + (align - (value % align))
    }
}

/// Rounding up gives the least multiple of `align` that is at least `value`.
pub proof fn lemma_align_up(value: int, align: int)
    requires
        align > 0,
        value >= 0,
    ensures
        spec_align_up(value, align) % align == 0,
        value <= spec_align_up(value, align) < value + align,
{
    vstd::arithmetic::div_mod::lemma_fundamental_div_mod(value, align);
    let q = value / align;
    let r = value % align;
    if r != 0 {
        assert(spec_align_up(value, align) == (q + 1) * align) by (nonlinear_arith)
            requires
                value == align * q + r,
                spec_align_up(value, align) == value + (align - r),
        ;
        vstd::arithmetic::div_mod::lemma_mod_multiples_basic(q + 1, align);
    }
}

/// How much of region type `t` a single entry contributes.
pub open spec fn type_size(e: MemoryRegionEntry, t: MemoryRegionType) -> int {
    if e.region_type == t {
        e.size as int
    } else {
        0
    }
}

/// The total size of the entries of region type `t`.
pub open spec fn type_total(s: Seq<MemoryRegionEntry>, t: MemoryRegionType) -> int
    decreases s.len(),
{
    if s.len() == 0 {
        0
    } else {
        type_total(s.drop_last(), t) + type_size(s.last(), t)
    }
}

/// The total size of all entries.
pub open spec fn size_total(s: Seq<MemoryRegionEntry>) -> int
    decreases s.len(),
{
    if s.len() == 0 {
        0
    } else {
        size_total(s.drop_last()) + s.last().size
    }
}

/// The entries of region type `t`, in order.
pub open spec fn entries_of_type(s: Seq<MemoryRegionEntry>, t: MemoryRegionType) -> Seq<
    MemoryRegionEntry,
>
    decreases s.len(),
{
    if s.len() == 0 {
        Seq::empty()
    } else if s.last().region_type == t {
        entries_of_type(s.drop_last(), t).push(s.last())
    } else {
        entries_of_type(s.drop_last(), t)
    }
}

/// Totals add up over concatenation.
pub proof fn lemma_type_total_add(a: Seq<MemoryRegionEntry>, b: Seq<MemoryRegionEntry>, t: MemoryRegionType)
    ensures
        type_total(a + b, t) == type_total(a, t) + type_total(b, t),
        size_total(a + b) == size_total(a) + size_total(b),
    decreases b.len(),
{
    if b.len() == 0 {
        assert(a + b =~= a);
    } else {
        lemma_type_total_add(a, b.drop_last(), t);
        assert((a + b).drop_last() =~= a + b.drop_last());
    }
}

/// Totals are never negative.
pub proof fn lemma_type_total_nonneg(s: Seq<MemoryRegionEntry>, t: MemoryRegionType)
    ensures
        type_total(s, t) >= 0,
        size_total(s) >= 0,
    decreases s.len(),
{
    if s.len() > 0 {
        lemma_type_total_nonneg(s.drop_last(), t);
    }
}

/// Totals over a prefix grow by the next entry.
pub proof fn lemma_type_total_prefix_step(s: Seq<MemoryRegionEntry>, i: int, t: MemoryRegionType)
    requires
        0 <= i < s.len(),
    ensures
        type_total(s.subrange(0, i + 1), t) == type_total(s.subrange(0, i), t) + type_size(s[i], t),
        entries_of_type(s.subrange(0, i + 1), t) == if s[i].region_type == t {
            entries_of_type(s.subrange(0, i), t).push(s[i])
        } else {
            entries_of_type(s.subrange(0, i), t)
        },
{
    assert(s.subrange(0, i + 1).drop_last() =~= s.subrange(0, i));
}

/// The total over a prefix is at most the total over the whole sequence.
pub proof fn lemma_type_total_prefix_le(s: Seq<MemoryRegionEntry>, i: int, t: MemoryRegionType)
    requires
        0 <= i <= s.len(),
    ensures
        type_total(s.subrange(0, i), t) <= type_total(s, t),
{
    assert(s =~= s.subrange(0, i) + s.subrange(i, s.len() as int));
    lemma_type_total_add(s.subrange(0, i), s.subrange(i, s.len() as int), t);
    lemma_type_total_nonneg(s.subrange(i, s.len() as int), t);
}

/// Replacing the entry at `i` changes each total by the difference.
pub proof fn lemma_type_total_update(
    s: Seq<MemoryRegionEntry>,
    i: int,
    x: MemoryRegionEntry,
    t: MemoryRegionType,
)
    requires
        0 <= i < s.len(),
    ensures
        type_total(s.update(i, x), t) == type_total(s, t) - type_size(s[i], t) + type_size(x, t),
        size_total(s.update(i, x)) == size_total(s) - s[i].size + x.size,
{
    let a = s.subrange(0, i);
    let b = s.subrange(i + 1, s.len() as int);
    assert(s =~= a + seq![s[i]] + b);
    assert(s.update(i, x) =~= a + seq![x] + b);
    lemma_type_total_add(a + seq![s[i]], b, t);
    lemma_type_total_add(a, seq![s[i]], t);
    lemma_type_total_add(a + seq![x], b, t);
    lemma_type_total_add(a, seq![x], t);
    assert(seq![s[i]].drop_last() =~= Seq::<MemoryRegionEntry>::empty());
    assert(seq![x].drop_last() =~= Seq::<MemoryRegionEntry>::empty());
}

/// Inserting an entry adds its size to the totals.
pub proof fn lemma_type_total_insert(
    s: Seq<MemoryRegionEntry>,
    i: int,
    x: MemoryRegionEntry,
    t: MemoryRegionType,
)
    requires
        0 <= i <= s.len(),
    ensures
        type_total(s.insert(i, x), t) == type_total(s, t) + type_size(x, t),
        size_total(s.insert(i, x)) == size_total(s) + x.size,
{
    let a = s.subrange(0, i);
    let b = s.subrange(i, s.len() as int);
    assert(s =~= a + b);
    assert(s.insert(i, x) =~= a + seq![x] + b);
    lemma_type_total_add(a, b, t);
    lemma_type_total_add(a + seq![x], b, t);
    lemma_type_total_add(a, seq![x], t);
    lemma_type_total_single(x, t);
}

/// The totals of a one-entry sequence.
proof fn lemma_type_total_single(x: MemoryRegionEntry, t: MemoryRegionType)
    ensures
        type_total(seq![x], t) == type_size(x, t),
        size_total(seq![x]) == x.size,
{
    let s = seq![x];
    assert(s.len() == 1);
    assert(s.last() == x);
    assert(s.drop_last() =~= Seq::<MemoryRegionEntry>::empty());
    assert(type_total(Seq::<MemoryRegionEntry>::empty(), t) == 0);
    assert(size_total(Seq::<MemoryRegionEntry>::empty()) == 0);
}

/// The largest size whose page-rounded value still fits in 64 bits.
pub open spec fn max_handover_size() -> int {
    0xFFFF_FFFF_FFFF_F000
}

/// `size` rounded up to whole pages.
pub open spec fn handover_aligned(size: u64) -> u64 {
    spec_align_up(size as int, spec_page_size()) as u64
}

/// An entry that can hold the hand-over region: usable and large enough.
pub open spec fn fits_handover(e: MemoryRegionEntry, aligned: u64) -> bool {
    e.region_type == MemoryRegionType::Usable && e.size >= aligned
}

/// The index of the first entry from `i` on that can hold the hand-over
/// region, or the length of `s` when there is none.
pub open spec fn first_fit_from(s: Seq<MemoryRegionEntry>, aligned: u64, i: int) -> int
    decreases s.len() - i,
{
    if i < 0 || i >= s.len() {
        s.len() as int
    } else if fits_handover(s[i], aligned) {
        i
    } else {
        first_fit_from(s, aligned, i + 1)
    }
}

/// The index of the first entry that can hold the hand-over region, or the
/// length of `s` when there is none.
pub open spec fn first_fit(s: Seq<MemoryRegionEntry>, aligned: u64) -> int {
    first_fit_from(s, aligned, 0)
}

/// The entry recording the hand-over region carved from the start of `e`.
pub open spec fn handover_entry(e: MemoryRegionEntry, aligned: u64) -> MemoryRegionEntry {
    MemoryRegionEntry {
        start: e.start,
        end: (e.start + aligned - 1) as u64,
        size: aligned,
        page_count: (aligned as int / spec_page_size()) as u64,
        region_type: MemoryRegionType::Reserved,
        type_str: "Reserved(Handover)",
    }
}

/// What is left of `e` after the hand-over region is carved from its start.
pub open spec fn remainder_entry(e: MemoryRegionEntry, aligned: u64) -> MemoryRegionEntry {
    MemoryRegionEntry {
        start: (e.start + aligned) as u64,
        end: e.end,
        size: (e.size - aligned) as u64,
        page_count: ((e.size - aligned) / spec_page_size()) as u64,
        region_type: e.region_type,
        type_str: e.type_str,
    }
}

/// The end address of the carved region, computed as start + size - 1,
/// stays in 64 bits.
pub open spec fn handover_arith_ok(e: MemoryRegionEntry, aligned: u64) -> bool {
    1 <= e.start + aligned <= u64::MAX
}

/// The inputs on which reserving the hand-over region computes in 64 bits.
pub open spec fn reserve_ok(s: Seq<MemoryRegionEntry>, size: u64) -> bool {
    &&& size <= max_handover_size()
    &&& first_fit(s, handover_aligned(size)) < s.len() ==> handover_arith_ok(
        s[first_fit(s, handover_aligned(size))],
        handover_aligned(size),
    )
}

/// The list and result after reserving a hand-over region of `size` bytes
/// in the list `s` of capacity `cap`: the region is carved from the start of
/// the first usable entry large enough for the page-rounded size; an entry
/// used up whole is replaced by the reserved entry, else the reserved entry
/// is inserted before the remainder (which fails when the list is full,
/// after the remainder has replaced the entry).
pub open spec fn reserve_outcome(s: Seq<MemoryRegionEntry>, cap: nat, size: u64) -> (
    Seq<MemoryRegionEntry>,
    Result<u64, &'static str>,
) {
    let a = handover_aligned(size);
    let i = first_fit(s, a);
    if i >= s.len() {
        (s, Err("Failed to reserve handover memory region"))
    } else if s[i].size == a {
        (s.update(i, handover_entry(s[i], a)), Ok(s[i].start))
    } else if s.len() >= cap {
        (s.update(i, remainder_entry(s[i], a)), Err("DynamicMemoryList capacity exceeded"))
    } else {
        (s.update(i, remainder_entry(s[i], a)).insert(i, handover_entry(s[i], a)), Ok(s[i].start))
    }
}

/// Reserves room for the hand-over copy of the memory map: carves `size`
/// bytes, rounded up to whole pages, from the start of the first usable
/// region large enough, and returns the start address of the reserved part.
pub fn reserve_handover_region(all_regions: &mut DynamicMemoryList, size: u64) -> (r: Result<
    u64,
    &'static str,
>)
    requires
        reserve_ok(old(all_regions)@, size),
    ensures
        final(all_regions)@ == reserve_outcome(old(all_regions)@, old(all_regions).cap(), size).0,
        r == reserve_outcome(old(all_regions)@, old(all_regions).cap(), size).1,
        final(all_regions).cap() == old(all_regions).cap(),
        old(all_regions).wf() ==> final(all_regions).wf(),
{
    let ghost s = all_regions@;
    proof {
        lemma_align_up(size as int, spec_page_size());
    }
    let aligned_size = align_up(size, uefi_page_size());
    assert(aligned_size == handover_aligned(size));
    let n = all_regions.len();
    let mut index: usize = 0;
    while index < n
        invariant
            all_regions@ == s,
            n == s.len(),
            index <= n,
            aligned_size == handover_aligned(size),
            first_fit(s, aligned_size) == first_fit_from(s, aligned_size, index as int),
            reserve_ok(s, size),
            all_regions.cap() == old(all_regions).cap(),
            s == old(all_regions)@,
            *all_regions == *old(all_regions),
        decreases n - index,
    {
        let entry = match all_regions.get(index) {
            Some(entry) => *entry,
            None => {
                index = index + 1;
                continue ;
            },
        };
        if entry.region_type != MemoryRegionType::Usable {
            index = index + 1;
            continue ;
        }
        if entry.size < aligned_size {
            index = index + 1;
            continue ;
        }
        assert(first_fit(s, aligned_size) == index);
        let reserved_start = entry.start;
        let reserved_end = reserved_start + aligned_size - 1;
        let remaining_size = entry.size - aligned_size;
        let page = uefi_page_size();
        let reserved_entry = MemoryRegionEntry {
            start: reserved_start,
            end: reserved_end,
            size: aligned_size,
            page_count: aligned_size / page,
            region_type: MemoryRegionType::Reserved,
            type_str: "Reserved(Handover)",
        };
        if remaining_size == 0 {
            if let Some(entry_mut) = all_regions.get_mut(index) {
                *entry_mut = reserved_entry;
            }
        } else {
            let updated_entry = MemoryRegionEntry {
                start: reserved_end + 1,
                end: entry.end,
                size: remaining_size,
                page_count: remaining_size / page,
                region_type: entry.region_type,
                type_str: entry.type_str,
            };
            if let Some(entry_mut) = all_regions.get_mut(index) {
                *entry_mut = updated_entry;
            }
            match all_regions.insert(index, reserved_entry) {
                Ok(()) => {},
                Err(e) => {
                    return Err(e);
                },
            }
        }
        return Ok(reserved_start);
    }
    Err("Failed to reserve handover memory region")
}

/// Reserving the hand-over region moves exactly the page-rounded size from
/// the usable total to the reserved total, leaves every other total and the
/// total size unchanged, and the reserved entry starts at the returned
/// address and lies inside the usable entry it was carved from.
pub proof fn lemma_reserve_moves_usable_to_reserved(s: Seq<MemoryRegionEntry>, cap: nat, size: u64)
    requires
        reserve_ok(s, size),
        reserve_outcome(s, cap, size).1 is Ok,
    ensures
        ({
            let a = handover_aligned(size);
            let i = first_fit(s, a);
            let after = reserve_outcome(s, cap, size).0;
            &&& 0 <= i < s.len()
            &&& reserve_outcome(s, cap, size).1 == Ok::<u64, &'static str>(s[i].start)
            &&& s[i].region_type == MemoryRegionType::Usable
            &&& a as int % spec_page_size() == 0
            &&& size <= a <= s[i].size
            &&& after[i] == handover_entry(s[i], a)
            &&& type_total(after, MemoryRegionType::Usable) == type_total(
                s,
                MemoryRegionType::Usable,
            ) - a
            &&& type_total(after, MemoryRegionType::Reserved) == type_total(
                s,
                MemoryRegionType::Reserved,
            ) + a
            &&& forall|t: MemoryRegionType|
                t != MemoryRegionType::Usable && t != MemoryRegionType::Reserved ==> type_total(
                    after,
                    t,
                ) == type_total(s, t)
            &&& size_total(after) == size_total(s)
        }),
{
    let a = handover_aligned(size);
    let i = first_fit(s, a);
    lemma_align_up(size as int, spec_page_size());
    lemma_first_fit_found(s, a, 0);
    let h = handover_entry(s[i], a);
    let rem = remainder_entry(s[i], a);
    if s[i].size == a {
        assert forall|t: MemoryRegionType| #![auto]
            type_total(s.update(i, h), t) == type_total(s, t) - type_size(s[i], t) + type_size(
                h,
                t,
            ) by {
            lemma_type_total_update(s, i, h, t);
        }
        lemma_type_total_update(s, i, h, MemoryRegionType::Usable);
    } else {
        assert forall|t: MemoryRegionType| #![auto]
            type_total(s.update(i, rem).insert(i, h), t) == type_total(s, t) - type_size(s[i], t)
                + type_size(rem, t) + type_size(h, t) by {
            lemma_type_total_update(s, i, rem, t);
            lemma_type_total_insert(s.update(i, rem), i, h, t);
        }
        lemma_type_total_update(s, i, rem, MemoryRegionType::Usable);
        lemma_type_total_insert(s.update(i, rem), i, h, MemoryRegionType::Usable);
    }
}

/// The first fit, when it is inside the sequence, can hold the region.
proof fn lemma_first_fit_found(s: Seq<MemoryRegionEntry>, a: u64, i: int)
    requires
        0 <= i,
    ensures
        first_fit_from(s, a, i) == s.len() || (i <= first_fit_from(s, a, i) < s.len()
            && fits_handover(s[first_fit_from(s, a, i)], a)),
    decreases s.len() - i,
{
    if i < s.len() && !fits_handover(s[i], a) {
        lemma_first_fit_found(s, a, i + 1);
    }
}

/// `uefi::mem::memory_map::MemoryMapKey`, the key of the firmware memory map
/// the loader read; it is carried through unchanged.
#[verifier::external_type_specification]
#[verifier::external_body]
pub struct ExMemoryMapKey(uefi::mem::memory_map::MemoryMapKey);

/// The size in bytes of one `MemoryRegionEntry`.
pub open spec fn entry_size() -> nat {
    vstd::layout::size_of::<MemoryRegionEntry>()
}

/// The region entries made from the descriptors, in order.
pub open spec fn regions_of(ds: Seq<MemoryDescriptorInfo>) -> Seq<MemoryRegionEntry> {
    ds.map_values(|d: MemoryDescriptorInfo| region_of(d))
}

/// The size of the hand-over copy of a map of `n` descriptors: one entry
/// more than the map, for the entry that the reservation may add.
pub open spec fn handover_size(n: int) -> int {
    (n + 1) * entry_size()
}

/// The list, and the outcome of the reservation, that `MemoryInfo::new`
/// builds from the descriptors.
pub open spec fn memory_map_outcome(ds: Seq<MemoryDescriptorInfo>) -> (
    Seq<MemoryRegionEntry>,
    Result<u64, &'static str>,
) {
    reserve_outcome(regions_of(ds), (ds.len() + 2) as nat, handover_size(ds.len() as int) as u64)
}

/// The descriptors on which `MemoryInfo::new` computes in machine integers:
/// every descriptor's size and end fit, the sizes derived from the number of
/// descriptors fit, the reservation's addresses fit, and so do the totals of
/// the final list.
pub open spec fn memory_map_ok(ds: Seq<MemoryDescriptorInfo>) -> bool {
    &&& forall|i: int| 0 <= i < ds.len() ==> descriptor_ok(#[trigger] ds[i])
    &&& ds.len() + 2 <= usize::MAX
    &&& ds.len() * entry_size() <= usize::MAX
    &&& handover_size(ds.len() as int) <= max_handover_size()
    &&& reserve_ok(regions_of(ds), handover_size(ds.len() as int) as u64)
    &&& memory_map_outcome(ds).1 is Ok ==> forall|t: MemoryRegionType|
        #[trigger] type_total(memory_map_outcome(ds).0, t) <= u64::MAX
}

/// Everything the loader knows about physical memory.
pub struct MemoryInfo {
    pub all_regions: DynamicMemoryList,
    pub usable_regions: DynamicMemoryList,
    pub reclaimable_regions: DynamicMemoryList,
    pub total_usable: u64,
    pub total_reclaimable: u64,
    pub total_reserved: u64,
    pub total_runtime: u64,
    pub total_acpi: u64,
    pub total_mmio: u64,
    pub map_key: uefi::mem::memory_map::MemoryMapKey,
    pub descriptor_size: usize,
    pub handover_map_phys: u64,
}

fn fill_regions(all_regions: &mut DynamicMemoryList, descriptors: &[MemoryDescriptorInfo])
    requires
        old(all_regions)@ == Seq::<MemoryRegionEntry>::empty(),
        old(all_regions).cap() == descriptors@.len() + 2,
        forall|i: int| 0 <= i < descriptors@.len() ==> descriptor_ok(#[trigger] descriptors@[i]),
    ensures
        final(all_regions).wf(),
        final(all_regions)@ == regions_of(descriptors@),
        final(all_regions).cap() == descriptors@.len() + 2,
{
    let n = descriptors.len();
    let mut i: usize = 0;
    while i < n
        invariant
            n == descriptors@.len(),
            i <= n,
            all_regions.cap() == n + 2,
            forall|k: int| 0 <= k < descriptors@.len() ==> descriptor_ok(#[trigger] descriptors@[k]),
            all_regions@ =~= regions_of(descriptors@.subrange(0, i as int)),
        decreases n - i,
    {
        let entry = region_from_descriptor(&descriptors[i]);
        let _ = all_regions.push(entry);
        assert(regions_of(descriptors@.subrange(0, i + 1)) =~= regions_of(
            descriptors@.subrange(0, i as int),
        ).push(entry));
        i = i + 1;
    }
    assert(descriptors@.subrange(0, n as int) =~= descriptors@);
}

/// The entries of one type are never more than all entries.
proof fn lemma_entries_of_type_len(s: Seq<MemoryRegionEntry>, t: MemoryRegionType)
    ensures
        entries_of_type(s, t).len() <= s.len(),
    decreases s.len(),
{
    if s.len() > 0 {
        lemma_entries_of_type_len(s.drop_last(), t);
    }
}

/// The six totals of a list, in the order usable, reclaimable, reserved,
/// runtime, ACPI, MMIO.
pub struct RegionTotals {
    pub usable: u64,
    pub reclaimable: u64,
    pub reserved: u64,
    pub runtime: u64,
    pub acpi: u64,
    pub mmio: u64,
}

/// `r` holds the six totals of `s`.
pub open spec fn totals_of(r: RegionTotals, s: Seq<MemoryRegionEntry>) -> bool {
    &&& r.usable == type_total(s, MemoryRegionType::Usable)
    &&& r.reclaimable == type_total(s, MemoryRegionType::RECLAIMABLE)
    &&& r.reserved == type_total(s, MemoryRegionType::Reserved)
    &&& r.runtime == type_total(s, MemoryRegionType::Runtime)
    &&& r.acpi == type_total(s, MemoryRegionType::Acpi)
    &&& r.mmio == type_total(s, MemoryRegionType::MMIO)
}

/// One more entry in the tally: the totals and per-type lists of the
/// prefix grow by it, and the totals stay within the whole list's.
proof fn lemma_tally_step(s: Seq<MemoryRegionEntry>, i: int, t: MemoryRegionType)
    requires
        0 <= i < s.len(),
    ensures
        type_total(s.subrange(0, i + 1), t) <= type_total(s, t),
        type_total(s.subrange(0, i + 1), t) == type_total(s.subrange(0, i), t) + type_size(s[i], t),
        entries_of_type(s.subrange(0, i + 1), t) == if s[i].region_type == t {
            entries_of_type(s.subrange(0, i), t).push(s[i])
        } else {
            entries_of_type(s.subrange(0, i), t)
        },
{
    lemma_type_total_prefix_step(s, i, t);
    lemma_type_total_prefix_le(s, i + 1, t);
}

fn tally_regions(
    all_regions: &DynamicMemoryList,
    usable_regions: &mut DynamicMemoryList,
    reclaimable_regions: &mut DynamicMemoryList,
) -> (r: RegionTotals)
    requires
        old(usable_regions)@ == Seq::<MemoryRegionEntry>::empty(),
        old(usable_regions).cap() == all_regions@.len(),
        old(reclaimable_regions)@ == Seq::<MemoryRegionEntry>::empty(),
        old(reclaimable_regions).cap() == all_regions@.len(),
        forall|t: MemoryRegionType| #[trigger] type_total(all_regions@, t) <= u64::MAX,
    ensures
        totals_of(r, all_regions@),
        final(usable_regions)@ == entries_of_type(all_regions@, MemoryRegionType::Usable),
        final(usable_regions).cap() == all_regions@.len(),
        final(usable_regions).wf(),
        final(reclaimable_regions)@ == entries_of_type(
            all_regions@,
            MemoryRegionType::RECLAIMABLE,
        ),
        final(reclaimable_regions).cap() == all_regions@.len(),
        final(reclaimable_regions).wf(),
{
    let ghost s = all_regions@;
    let n = all_regions.len();
    let mut totals = RegionTotals {
        usable: 0,
        reclaimable: 0,
        reserved: 0,
        runtime: 0,
        acpi: 0,
        mmio: 0,
    };
    let mut it = all_regions.iter();
    let mut i: usize = 0;
    while i < n
        invariant
            n == s.len(),
            s == all_regions@,
            i <= n,
            it.remaining() == s.subrange(i as int, n as int),
            forall|t: MemoryRegionType| #[trigger] type_total(s, t) <= u64::MAX,
            totals_of(totals, s.subrange(0, i as int)),
            usable_regions@ == entries_of_type(s.subrange(0, i as int), MemoryRegionType::Usable),
            usable_regions.cap() == n,
            reclaimable_regions@ == entries_of_type(
                s.subrange(0, i as int),
                MemoryRegionType::RECLAIMABLE,
            ),
            reclaimable_regions.cap() == n,
        decreases n - i,
    {
        let next = it.next();
        proof {
            lemma_tally_step(s, i as int, MemoryRegionType::Usable);
            lemma_tally_step(s, i as int, MemoryRegionType::RECLAIMABLE);
            lemma_tally_step(s, i as int, MemoryRegionType::Reserved);
            lemma_tally_step(s, i as int, MemoryRegionType::Runtime);
            lemma_tally_step(s, i as int, MemoryRegionType::Acpi);
            lemma_tally_step(s, i as int, MemoryRegionType::MMIO);
            lemma_entries_of_type_len(s.subrange(0, i as int), MemoryRegionType::Usable);
            lemma_entries_of_type_len(s.subrange(0, i as int), MemoryRegionType::RECLAIMABLE);
            assert(s.subrange(i as int, n as int).drop_first() =~= s.subrange(i + 1, n as int));
        }
        if let Some(entry) = next {
        assert(entry == s[i as int]);
        match entry.region_type {
            MemoryRegionType::Usable => {
                totals.usable = totals.usable + entry.size;
                let _ = usable_regions.push(entry);
            },
            MemoryRegionType::RECLAIMABLE => {
                totals.reclaimable = totals.reclaimable + entry.size;
                let _ = reclaimable_regions.push(entry);
            },
            MemoryRegionType::Reserved => {
                totals.reserved = totals.reserved + entry.size;
            },
            MemoryRegionType::Runtime => {
                totals.runtime = totals.runtime + entry.size;
            },
            MemoryRegionType::Acpi => {
                totals.acpi = totals.acpi + entry.size;
            },
            MemoryRegionType::MMIO => {
                totals.mmio = totals.mmio + entry.size;
            },
        }
        }
        i = i + 1;
    }
    assert(s.subrange(0, n as int) =~= s);
    proof {
        lemma_entries_of_type_len(s, MemoryRegionType::Usable);
        lemma_entries_of_type_len(s, MemoryRegionType::RECLAIMABLE);
    }
    totals
}

/// `info` is what `MemoryInfo::new` builds from the descriptors `ds` and the
/// map key `key`: the region list with the hand-over region reserved, its
/// usable and reclaimable entries, its six totals, the key, and the size of
/// the descriptors as region entries.
pub open spec fn memory_info_from(
    info: MemoryInfo,
    ds: Seq<MemoryDescriptorInfo>,
    key: uefi::mem::memory_map::MemoryMapKey,
) -> bool {
    let out = memory_map_outcome(ds);
    &&& info.all_regions@ == out.0
    &&& info.all_regions.cap() == ds.len() + 2
    &&& info.all_regions.wf()
    &&& out.1 == Ok::<u64, &'static str>(info.handover_map_phys)
    &&& info.usable_regions@ == entries_of_type(out.0, MemoryRegionType::Usable)
    &&& info.usable_regions.cap() == out.0.len()
    &&& info.usable_regions.wf()
    &&& info.reclaimable_regions@ == entries_of_type(out.0, MemoryRegionType::RECLAIMABLE)
    &&& info.reclaimable_regions.cap() == out.0.len()
    &&& info.reclaimable_regions.wf()
    &&& info.total_usable == type_total(out.0, MemoryRegionType::Usable)
    &&& info.total_reclaimable == type_total(out.0, MemoryRegionType::RECLAIMABLE)
    &&& info.total_reserved == type_total(out.0, MemoryRegionType::Reserved)
    &&& info.total_runtime == type_total(out.0, MemoryRegionType::Runtime)
    &&& info.total_acpi == type_total(out.0, MemoryRegionType::Acpi)
    &&& info.total_mmio == type_total(out.0, MemoryRegionType::MMIO)
    &&& info.map_key == key
    &&& info.descriptor_size == ds.len() * entry_size()
}

impl MemoryInfo {
    /// Builds the memory information from the firmware memory map: one
    /// entry per descriptor, the hand-over region reserved for the kernel's
    /// copy of the list, the usable and reclaimable entries, and the total
    /// size of each region type. Fails when no usable region can hold the
    /// hand-over region.
    pub fn new(
        descriptors: &[MemoryDescriptorInfo],
        map_key: uefi::mem::memory_map::MemoryMapKey,
    ) -> (r: Result<MemoryInfo, &'static str>)
        requires
            memory_map_ok(descriptors@),
        ensures
            r is Err <==> first_fit(
                regions_of(descriptors@),
                handover_aligned(handover_size(descriptors@.len() as int) as u64),
            ) >= descriptors@.len(),
            r matches Err(e) ==> e == "Failed to reserve handover memory region",
            r matches Ok(info) ==> memory_info_from(info, descriptors@, map_key),
    {
        let ghost ds = descriptors@;
        let entry_count = descriptors.len();
        let mut all_regions = match DynamicMemoryList::new(entry_count + 2) {
            Ok(l) => l,
            Err(e) => {
                return Err(e);
            },
        };
        fill_regions(&mut all_regions, descriptors);
        assert(regions_of(ds).len() == ds.len());
        let descriptor_size = entry_count * core::mem::size_of::<MemoryRegionEntry>();
        let entry_size = core::mem::size_of::<MemoryRegionEntry>() as u64;
        let count = (all_regions.len() + 1) as u64;
        assert(count * entry_size == handover_size(ds.len() as int));
        let handover_size = count * entry_size;
        let handover_map_phys = match reserve_handover_region(&mut all_regions, handover_size) {
            Ok(addr) => addr,
            Err(e) => {
                return Err(e);
            },
        };
        let mut usable_regions = match DynamicMemoryList::new(all_regions.len()) {
            Ok(l) => l,
            Err(e) => {
                return Err(e);
            },
        };
        let mut reclaimable_regions = match DynamicMemoryList::new(all_regions.len()) {
            Ok(l) => l,
            Err(e) => {
                return Err(e);
            },
        };
        let totals = tally_regions(&all_regions, &mut usable_regions, &mut reclaimable_regions);
        Ok(MemoryInfo {
            all_regions,
            usable_regions,
            reclaimable_regions,
            total_usable: totals.usable,
            total_reclaimable: totals.reclaimable,
            total_reserved: totals.reserved,
            total_runtime: totals.runtime,
            total_acpi: totals.acpi,
            total_mmio: totals.mmio,
            map_key,
            descriptor_size,
            handover_map_phys,
        })
    }
}

/// Every entry is counted in exactly one of the six totals: together they
/// make up the total size of the list.
pub proof fn lemma_type_totals_cover(s: Seq<MemoryRegionEntry>)
    ensures
        type_total(s, MemoryRegionType::Usable) + type_total(s, MemoryRegionType::RECLAIMABLE)
            + type_total(s, MemoryRegionType::Reserved) + type_total(s, MemoryRegionType::Runtime)
            + type_total(s, MemoryRegionType::Acpi) + type_total(s, MemoryRegionType::MMIO)
            == size_total(s),
    decreases s.len(),
{
    if s.len() > 0 {
        lemma_type_totals_cover(s.drop_last());
    }
}

/// One mebibyte.
pub const MIB: u64 = 1024 * 1024;

/// The memory sizes, in whole mebibytes, that the loader reports.
pub struct MemoryReport {
    /// Usable plus reclaimable RAM.
    pub total_ram_mb: u64,
    pub usable_mb: u64,
    pub reclaimable_mb: u64,
    /// The reserved total, reported as memory-mapped address space.
    pub mmio_space_mb: u64,
    pub runtime_mb: u64,
    pub acpi_mb: u64,
}

impl MemoryInfo {
    /// The boot parameters handed to the kernel: the magic number, the
    /// address, entry count and byte size of the hand-over copy of the
    /// region list, and the usable plus reclaimable RAM.
    pub fn get_boot_params(&self) -> (p: MemoryParams)
        requires
            self.all_regions@.len() * entry_size() <= usize::MAX,
            self.total_usable + self.total_reclaimable <= u64::MAX,
        ensures
            p.magic == BOOT_PARAMS_MAGIC,
            p.memory_map_phys == self.handover_map_phys,
            p.memory_map_entries == self.all_regions@.len(),
            p.memory_map_size == self.all_regions@.len() * entry_size(),
            p.usable_ram_size == self.total_usable + self.total_reclaimable,
    {
        let n = self.all_regions.len();
        let size = n * core::mem::size_of::<MemoryRegionEntry>();
        MemoryParams {
            magic: BOOT_PARAMS_MAGIC,
            memory_map_phys: self.handover_map_phys,
            memory_map_entries: n as u64,
            memory_map_size: size as u64,
            usable_ram_size: self.total_usable + self.total_reclaimable,
        }
    }

    /// The sizes, in whole mebibytes, that the memory information printout
    /// shows.
    pub fn summary(&self) -> (r: MemoryReport)
        requires
            self.total_usable + self.total_reclaimable <= u64::MAX,
        ensures
            r.total_ram_mb == (self.total_usable + self.total_reclaimable) / MIB as int,
            r.usable_mb == self.total_usable / MIB,
            r.reclaimable_mb == self.total_reclaimable / MIB,
            r.mmio_space_mb == self.total_reserved / MIB,
            r.runtime_mb == self.total_runtime / MIB,
            r.acpi_mb == self.total_acpi / MIB,
    {
        let total_ram = self.total_usable + self.total_reclaimable;
        MemoryReport {
            total_ram_mb: total_ram / MIB,
            usable_mb: self.total_usable / MIB,
            reclaimable_mb: self.total_reclaimable / MIB,
            mmio_space_mb: self.total_reserved / MIB,
            runtime_mb: self.total_runtime / MIB,
            acpi_mb: self.total_acpi / MIB,
        }
    }
}

/// Every total of the information `MemoryInfo::new` builds is the total of
/// its region list for that type, and together they make up the total size
/// of the list.
pub proof fn lemma_memory_info_totals(
    info: MemoryInfo,
    ds: Seq<MemoryDescriptorInfo>,
    key: uefi::mem::memory_map::MemoryMapKey,
)
    requires
        memory_info_from(info, ds, key),
    ensures
        info.total_usable + info.total_reclaimable + info.total_reserved + info.total_runtime
            + info.total_acpi + info.total_mmio == size_total(info.all_regions@),
{
    lemma_type_totals_cover(info.all_regions@);
}

/// Two neighbouring entries that merge: same type, and the second starts
/// right after the first ends.
pub open spec fn can_merge(prev: MemoryRegionEntry, curr: MemoryRegionEntry) -> bool {
    prev.region_type == curr.region_type && prev.end + 1 == curr.start
}

/// The entry that covers `prev` and `curr` together; it keeps the type and
/// name of `prev`.
pub open spec fn merged_entry(prev: MemoryRegionEntry, curr: MemoryRegionEntry) -> MemoryRegionEntry {
    MemoryRegionEntry {
        start: prev.start,
        end: curr.end,
        size: (curr.end - prev.start + 1) as u64,
        page_count: ((curr.end - prev.start + 1) / spec_page_size()) as u64,
        region_type: prev.region_type,
        type_str: prev.type_str,
    }
}

/// Adds `e` to the merged list `acc`: it extends the last entry when the two
/// merge, else it is appended.
pub open spec fn merge_step(acc: Seq<MemoryRegionEntry>, e: MemoryRegionEntry) -> Seq<
    MemoryRegionEntry,
> {
    if acc.len() > 0 && can_merge(acc.last(), e) {
        acc.update(acc.len() - 1, merged_entry(acc.last(), e))
    } else {
        acc.push(e)
    }
}

/// The list with each run of neighbouring, mergeable entries merged into one,
/// scanning from the first entry to the last.
pub open spec fn merged(s: Seq<MemoryRegionEntry>) -> Seq<MemoryRegionEntry>
    decreases s.len(),
{
    if s.len() == 0 {
        s
    } else {
        merge_step(merged(s.drop_last()), s.last())
    }
}

/// Adding `e` to `acc` computes in 64 bits: the end + 1 of the last entry
/// when the types match, and the merged size when they merge.
pub open spec fn merge_step_ok(acc: Seq<MemoryRegionEntry>, e: MemoryRegionEntry) -> bool {
    acc.len() > 0 && acc.last().region_type == e.region_type ==> {
        &&& acc.last().end < u64::MAX
        &&& acc.last().end + 1 == e.start ==> acc.last().start <= e.end && e.end - acc.last().start
            < u64::MAX
    }
}

/// Merging the whole list computes in 64 bits.
pub open spec fn merge_ok(s: Seq<MemoryRegionEntry>) -> bool {
    forall|i: int| 0 <= i < s.len() ==> merge_step_ok(#[trigger] merged(s.subrange(0, i)), s[i])
}

proof fn lemma_merged_prefix(s: Seq<MemoryRegionEntry>, i: int)
    requires
        0 <= i < s.len(),
    ensures
        merged(s.subrange(0, i + 1)) == merge_step(merged(s.subrange(0, i)), s[i]),
{
    assert(s.subrange(0, i + 1).drop_last() =~= s.subrange(0, i));
}

/// Merging never makes the list longer.
pub proof fn lemma_merged_len(s: Seq<MemoryRegionEntry>)
    ensures
        merged(s).len() <= s.len(),
        s.len() > 0 ==> merged(s).len() > 0,
    decreases s.len(),
{
    if s.len() > 0 {
        lemma_merged_len(s.drop_last());
    }
}

impl DynamicMemoryList {
    /// Merges neighbouring entries of the same type where one ends right
    /// before the next starts.
    pub fn merge_adjacent(&mut self)
        requires
            merge_ok(old(self)@),
        ensures
            final(self)@ == merged(old(self)@),
            final(self).cap() == old(self).cap(),
            old(self).wf() ==> final(self).wf(),
            forall|k: int|
                #![trigger final(self)@[k]]
                0 <= k < final(self)@.len() - 1 ==> !(final(self)@[k].region_type
                    == final(self)@[k + 1].region_type
                    && final(self)@[k].end + 1 == final(self)@[k + 1].start),
    {
        let ghost s = self.entries@;
        proof {
            lemma_merged_neighbours_differ(s);
        }
        proof {
            lemma_merged_len(s);
        }
        if self.entries.len() < 2 {
            proof {
                if s.len() == 1 {
                    assert(s.drop_last() =~= Seq::<MemoryRegionEntry>::empty());
                    assert(merged(Seq::<MemoryRegionEntry>::empty()).len() == 0);
                    assert(Seq::<MemoryRegionEntry>::empty().push(s[0]) =~= s);
                    assert(merged(s) =~= s);
                } else {
                    assert(s =~= Seq::<MemoryRegionEntry>::empty());
                }
            }
            return ;
        }
        let n = self.entries.len();
        let page = uefi_page_size();
        let mut out: Vec<MemoryRegionEntry> = Vec::new();
        let mut read_idx: usize = 0;
        assert(s.subrange(0, 0) =~= Seq::<MemoryRegionEntry>::empty());
        while read_idx < n
            invariant
                n == s.len(),
                self.entries@ == s,
                page == spec_page_size(),
                read_idx <= n,
                merge_ok(s),
                out@ == merged(s.subrange(0, read_idx as int)),
            decreases n - read_idx,
        {
            proof {
                lemma_merged_prefix(s, read_idx as int);
                assert(merge_step_ok(merged(s.subrange(0, read_idx as int)), s[read_idx as int]));
            }
            let curr = self.entries[read_idx];
            if out.len() == 0 {
                out.push(curr);
            } else {
                let w = out.len() - 1;
                let prev = out[w];
                if prev.region_type == curr.region_type && prev.end + 1 == curr.start {
                    let size = curr.end - prev.start + 1;
                    let entry = MemoryRegionEntry {
                        start: prev.start,
                        end: curr.end,
                        size,
                        page_count: size / page,
                        region_type: prev.region_type,
                        type_str: prev.type_str,
                    };
                    out.set(w, entry);
                } else {
                    out.push(curr);
                }
            }
            read_idx = read_idx + 1;
        }
        assert(s.subrange(0, n as int) =~= s);
        self.entries = out;
    }
}

/// No two neighbouring entries of `s` merge.
pub open spec fn no_mergeable_neighbours(s: Seq<MemoryRegionEntry>) -> bool {
    forall|k: int| #![trigger s[k]] 0 <= k < s.len() - 1 ==> !can_merge(s[k], s[k + 1])
}

/// After merging, no two neighbouring entries merge any more.
pub proof fn lemma_merged_no_mergeable_neighbours(s: Seq<MemoryRegionEntry>)
    ensures
        no_mergeable_neighbours(merged(s)),
    decreases s.len(),
{
    if s.len() > 0 {
        let acc = merged(s.drop_last());
        let e = s.last();
        lemma_merged_no_mergeable_neighbours(s.drop_last());
        let r = merged(s);
        if acc.len() > 0 && can_merge(acc.last(), e) {
            assert forall|k: int| #![trigger r[k]] 0 <= k < r.len() - 1 implies !can_merge(
                r[k],
                r[k + 1],
            ) by {
                assert(r[k] == acc[k]);
                if k + 1 < acc.len() - 1 {
                    assert(r[k + 1] == acc[k + 1]);
                } else {
                    assert(!can_merge(acc[k], acc[k + 1]));
                }
            }
        } else {
            assert forall|k: int| #![trigger r[k]] 0 <= k < r.len() - 1 implies !can_merge(
                r[k],
                r[k + 1],
            ) by {
                assert(r[k] == acc[k]);
                if k + 1 < acc.len() {
                    assert(r[k + 1] == acc[k + 1]);
                    assert(!can_merge(acc[k], acc[k + 1]));
                }
            }
        }
    }
}

/// A list in which no neighbours merge is left as it is by merging.
pub proof fn lemma_merged_unchanged(s: Seq<MemoryRegionEntry>)
    requires
        no_mergeable_neighbours(s),
    ensures
        merged(s) == s,
    decreases s.len(),
{
    if s.len() > 0 {
        let p = s.drop_last();
        assert forall|k: int| #![trigger p[k]] 0 <= k < p.len() - 1 implies !can_merge(
            p[k],
            p[k + 1],
        ) by {
            assert(p[k] == s[k]);
            assert(p[k + 1] == s[k + 1]);
        }
        lemma_merged_unchanged(p);
        if p.len() > 0 {
            assert(p.last() == s[s.len() - 2]);
            assert(!can_merge(s[s.len() - 2], s[s.len() - 1]));
        }
        assert(p.push(s.last()) =~= s);
    }
}

/// Merging twice gives the same list as merging once.
pub proof fn lemma_merge_idempotent(s: Seq<MemoryRegionEntry>)
    ensures
        merged(merged(s)) == merged(s),
{
    lemma_merged_no_mergeable_neighbours(s);
    lemma_merged_unchanged(merged(s));
}

/// The entry's size is its inclusive extent.
pub open spec fn entry_consistent(e: MemoryRegionEntry) -> bool {
    e.start <= e.end && e.size == e.end - e.start + 1
}

/// Every entry's size is its inclusive extent.
pub open spec fn all_consistent(s: Seq<MemoryRegionEntry>) -> bool {
    forall|i: int| 0 <= i < s.len() ==> entry_consistent(#[trigger] s[i])
}

/// Merging keeps the total size of a list whose entries' sizes match their
/// extents, and the merged entries' sizes match their extents too.
pub proof fn lemma_merged_sizes(s: Seq<MemoryRegionEntry>)
    requires
        merge_ok(s),
        all_consistent(s),
    ensures
        all_consistent(merged(s)),
        size_total(merged(s)) == size_total(s),
    decreases s.len(),
{
    if s.len() > 0 {
        let p = s.drop_last();
        let n = s.len() - 1;
        assert forall|i: int| 0 <= i < p.len() implies merge_step_ok(
            #[trigger] merged(p.subrange(0, i)),
            p[i],
        ) by {
            assert(p.subrange(0, i) =~= s.subrange(0, i));
            assert(merge_step_ok(merged(s.subrange(0, i)), s[i]));
        }
        assert forall|i: int| 0 <= i < p.len() implies entry_consistent(#[trigger] p[i]) by {
            assert(entry_consistent(s[i]));
        }
        lemma_merged_sizes(p);
        assert(s.subrange(0, n) =~= p);
        assert(merge_step_ok(merged(s.subrange(0, n)), s[n]));
        let acc = merged(p);
        let e = s.last();
        assert(entry_consistent(s[n]));
        if acc.len() > 0 && can_merge(acc.last(), e) {
            let m = merged_entry(acc.last(), e);
            assert(entry_consistent(acc[acc.len() - 1]));
            lemma_type_total_update(acc, acc.len() - 1, m, MemoryRegionType::Usable);
            let r = acc.update(acc.len() - 1, m);
            assert forall|i: int| 0 <= i < r.len() implies entry_consistent(#[trigger] r[i]) by {
                if i < acc.len() - 1 {
                    assert(entry_consistent(acc[i]));
                }
            }
        } else {
            let r = acc.push(e);
            assert(r.drop_last() =~= acc);
            assert forall|i: int| 0 <= i < r.len() implies entry_consistent(#[trigger] r[i]) by {
                if i < acc.len() {
                    assert(entry_consistent(acc[i]));
                }
            }
        }
    }
}

/// When `MemoryInfo::new` succeeds, the hand-over region it reserves is an
/// entry of the final list, reserved, starting at the returned address, and
/// large enough to hold a copy of the whole final list.
pub proof fn lemma_handover_copy_fits(ds: Seq<MemoryDescriptorInfo>)
    requires
        memory_map_ok(ds),
        memory_map_outcome(ds).1 is Ok,
    ensures
        ({
            let out = memory_map_outcome(ds);
            let a = handover_aligned(handover_size(ds.len() as int) as u64);
            let i = first_fit(regions_of(ds), a);
            &&& 0 <= i < out.0.len()
            &&& out.1 == Ok::<u64, &'static str>(out.0[i].start)
            &&& out.0[i].region_type == MemoryRegionType::Reserved
            &&& out.0[i].size == a
            &&& out.0.len() * entry_size() <= a
        }),
{
    let s = regions_of(ds);
    let hs = handover_size(ds.len() as int) as u64;
    let a = handover_aligned(hs);
    let out = memory_map_outcome(ds);
    lemma_reserve_moves_usable_to_reserved(s, (ds.len() + 2) as nat, hs);
    lemma_align_up(hs as int, spec_page_size());
    assert(out.0.len() <= ds.len() + 1);
    vstd::arithmetic::mul::lemma_mul_inequality(
        out.0.len() as int,
        (ds.len() + 1) as int,
        entry_size() as int,
    );
}

/// After merging, no two neighbouring entries are of the same region type
/// with the second starting right after the first ends: every such pair of
/// the input has been joined into one entry.
pub proof fn lemma_merged_neighbours_differ(s: Seq<MemoryRegionEntry>)
    ensures
        forall|k: int|
            0 <= k < merged(s).len() - 1 ==> !(#[trigger] merged(s)[k].region_type == merged(
                s,
            )[k + 1].region_type && merged(s)[k].end + 1 == merged(s)[k + 1].start),
{
    lemma_merged_no_mergeable_neighbours(s);
    let r = merged(s);
    assert forall|k: int|
        0 <= k < r.len() - 1 implies !(#[trigger] r[k].region_type == r[k + 1].region_type
        && r[k].end + 1 == r[k + 1].start) by {
        assert(!can_merge(r[k], r[k + 1]));
    }
}

} // verus!
