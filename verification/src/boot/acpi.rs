//! ACPI and SMBIOS discovery: the firmware configuration table lookup, the
//! RSDP and XSDT checks, the SMBIOS entry point checks and scan, and the
//! record of table addresses handed to the kernel.
use vstd::prelude::*;
use crate::boot::bytes::{
    byte_sum,
    checksum_range,
    le_u16,
    le_u32,
    le_u64,
    matches_at,
    read_u16_le,
    read_u32_le,
    read_u64_le,
};

verus! {

/// The size in bytes of an ACPI system description table header.
pub const ACPI_HEADER_SIZE: usize = 36;

/// The size in bytes of the ACPI 2.0 RSDP structure.
pub const RSDP_SIZE: usize = 36;

/// `acpi::rsdp::Rsdp`, the `acpi` crate's RSDP structure. The loader records
/// its size as the size of the RSDP.
#[verifier::external_type_specification]
#[verifier::external_body]
pub struct ExRsdp(acpi::rsdp::Rsdp);

/// The size in bytes of `acpi::rsdp::Rsdp`.
pub open spec fn rsdp_struct_size() -> nat {
    vstd::layout::size_of::<acpi::rsdp::Rsdp>()
}

/// The most tables that the record of ACPI tables holds.
pub const MAX_ACPI_TABLES: usize = 32;

/// The physical address at which `copy_acpi_tables_to_fixed` places its copies.
pub const ACPI_COPY_BASE: u64 = 0x200000;

/// The header shared by all ACPI system description tables.
#[derive(Debug, Clone, Copy)]
pub struct AcpiHeader {
    pub signature: [u8; 4],
    pub length: u32,
    pub revision: u8,
    pub checksum: u8,
    pub oem_id: [u8; 6],
    pub oem_table_id: [u8; 8],
    pub oem_revision: u32,
    pub creator_id: [u8; 4],
    pub creator_revision: u32,
}

/// The SMBIOS 2.x entry point structure, in the packed layout this loader reads.
#[derive(Debug, Clone, Copy)]
pub struct SmbiosEp {
    pub signature: [u8; 4],
    pub checksum: u8,
    pub length: u8,
    pub major_version: u8,
    pub minor_version: u8,
    pub max_struct_size: u16,
    pub revision: u8,
    pub formatted_area: [u8; 5],
    pub intermediate_checksum: u8,
    pub table_length: u16,
    pub table_address: u32,
    pub struct_count: u16,
    pub bcd_revision: u8,
}

/// The SMBIOS 3.0 entry point structure.
#[derive(Debug, Clone, Copy)]
pub struct Smbios3Ep {
    pub signature: [u8; 5],
    pub checksum: u8,
    pub length: u8,
    pub major_version: u8,
    pub minor_version: u8,
    pub docrev: u8,
    pub revision: u8,
    pub reserved: u8,
    pub table_length: u32,
    pub table_address: u64,
}

/// The size in bytes of `SmbiosEp` as read from memory.
pub const SMBIOS_EP_SIZE: usize = 26;

/// The size in bytes of `Smbios3Ep` as read from memory.
pub const SMBIOS3_EP_SIZE: usize = 24;

/// The physical addresses and sizes of the ACPI tables and of the SMBIOS table.
pub struct AcpiCopiedData {
    pub rsdp_phys: u64,
    pub xsdt_phys: u64,
    pub table_count: u32,
    pub table_phys_addrs: [u64; 32],
    pub table_sizes: [u32; 32],
    pub rsdp_size: u32,
    pub xsdt_size: u32,
    pub smbios_phys: u64,
    pub smbios_length: u32,
    pub smbios_version: u32,
    pub smbios_table_count: u16,
    pub smbios_type: u8,
}

/// All fields zero.
pub open spec fn is_zero_data(d: AcpiCopiedData) -> bool {
    &&& d.rsdp_phys == 0
    &&& d.xsdt_phys == 0
    &&& d.table_count == 0
    &&& forall|i: int| 0 <= i < 32 ==> #[trigger] d.table_phys_addrs@[i] == 0
    &&& forall|i: int| 0 <= i < 32 ==> #[trigger] d.table_sizes@[i] == 0
    &&& d.rsdp_size == 0
    &&& d.xsdt_size == 0
    &&& d.smbios_phys == 0
    &&& d.smbios_length == 0
    &&& d.smbios_version == 0
    &&& d.smbios_table_count == 0
    &&& d.smbios_type == 0
}

impl Default for AcpiCopiedData {
    fn default() -> (d: Self)
        ensures
            is_zero_data(d),
    {
        AcpiCopiedData {
            rsdp_phys: 0,
            xsdt_phys: 0,
            table_count: 0,
            table_phys_addrs: [0u64; 32],
            table_sizes: [0u32; 32],
            rsdp_size: 0,
            xsdt_size: 0,
            smbios_phys: 0,
            smbios_length: 0,
            smbios_version: 0,
            smbios_table_count: 0,
            smbios_type: 0,
        }
    }
}

fn bytes4(b: &[u8], off: usize) -> (r: [u8; 4])
    requires
        off + 4 <= b.len(),
    ensures
        r@ == b@.subrange(off as int, off + 4),
{
    let r = [b[off], b[off + 1], b[off + 2], b[off + 3]];
    assert(r@ =~= b@.subrange(off as int, off + 4));
    r
}

fn bytes5(b: &[u8], off: usize) -> (r: [u8; 5])
    requires
        off + 5 <= b.len(),
    ensures
        r@ == b@.subrange(off as int, off + 5),
{
    let r = [b[off], b[off + 1], b[off + 2], b[off + 3], b[off + 4]];
    assert(r@ =~= b@.subrange(off as int, off + 5));
    r
}

fn bytes6(b: &[u8], off: usize) -> (r: [u8; 6])
    requires
        off + 6 <= b.len(),
    ensures
        r@ == b@.subrange(off as int, off + 6),
{
    let r = [b[off], b[off + 1], b[off + 2], b[off + 3], b[off + 4], b[off + 5]];
    assert(r@ =~= b@.subrange(off as int, off + 6));
    r
}

fn bytes8(b: &[u8], off: usize) -> (r: [u8; 8])
    requires
        off + 8 <= b.len(),
    ensures
        r@ == b@.subrange(off as int, off + 8),
{
    let r = [
        b[off],
        b[off + 1],
        b[off + 2],
        b[off + 3],
        b[off + 4],
        b[off + 5],
        b[off + 6],
        b[off + 7],
    ];
    assert(r@ =~= b@.subrange(off as int, off + 8));
    r
}

/// `h` holds the header fields laid out in the bytes `s`.
pub open spec fn header_matches(h: AcpiHeader, s: Seq<u8>) -> bool {
    &&& h.signature@ == s.subrange(0, 4)
    &&& h.length == le_u32(s, 4)
    &&& h.revision == s[8]
    &&& h.checksum == s[9]
    &&& h.oem_id@ == s.subrange(10, 16)
    &&& h.oem_table_id@ == s.subrange(16, 24)
    &&& h.oem_revision == le_u32(s, 24)
    &&& h.creator_id@ == s.subrange(28, 32)
    &&& h.creator_revision == le_u32(s, 32)
}

impl AcpiHeader {
    /// Reads a table header from the first 36 bytes of a table.
    pub fn from_bytes(b: &[u8]) -> (h: AcpiHeader)
        requires
            b.len() >= ACPI_HEADER_SIZE,
        ensures
            header_matches(h, b@),
    {
        AcpiHeader {
            signature: bytes4(b, 0),
            length: read_u32_le(b, 4),
            revision: b[8],
            checksum: b[9],
            oem_id: bytes6(b, 10),
            oem_table_id: bytes8(b, 16),
            oem_revision: read_u32_le(b, 24),
            creator_id: bytes4(b, 28),
            creator_revision: read_u32_le(b, 32),
        }
    }
}

/// `e` holds the SMBIOS 2.x entry point fields laid out in the bytes `s`.
pub open spec fn smbios_ep_matches(e: SmbiosEp, s: Seq<u8>) -> bool {
    &&& e.signature@ == s.subrange(0, 4)
    &&& e.checksum == s[4]
    &&& e.length == s[5]
    &&& e.major_version == s[6]
    &&& e.minor_version == s[7]
    &&& e.max_struct_size == le_u16(s, 8)
    &&& e.revision == s[10]
    &&& e.formatted_area@ == s.subrange(11, 16)
    &&& e.intermediate_checksum == s[16]
    &&& e.table_length == le_u16(s, 17)
    &&& e.table_address == le_u32(s, 19)
    &&& e.struct_count == le_u16(s, 23)
    &&& e.bcd_revision == s[25]
}

impl SmbiosEp {
    /// Reads an SMBIOS 2.x entry point from its first 26 bytes.
    pub fn from_bytes(b: &[u8]) -> (e: SmbiosEp)
        requires
            b.len() >= SMBIOS_EP_SIZE,
        ensures
            smbios_ep_matches(e, b@),
    {
        SmbiosEp {
            signature: bytes4(b, 0),
            checksum: b[4],
            length: b[5],
            major_version: b[6],
            minor_version: b[7],
            max_struct_size: read_u16_le(b, 8),
            revision: b[10],
            formatted_area: bytes5(b, 11),
            intermediate_checksum: b[16],
            table_length: read_u16_le(b, 17),
            table_address: read_u32_le(b, 19),
            struct_count: read_u16_le(b, 23),
            bcd_revision: b[25],
        }
    }
}

/// `e` holds the SMBIOS 3.0 entry point fields laid out in the bytes `s`.
pub open spec fn smbios3_ep_matches(e: Smbios3Ep, s: Seq<u8>) -> bool {
    &&& e.signature@ == s.subrange(0, 5)
    &&& e.checksum == s[5]
    &&& e.length == s[6]
    &&& e.major_version == s[7]
    &&& e.minor_version == s[8]
    &&& e.docrev == s[9]
    &&& e.revision == s[10]
    &&& e.reserved == s[11]
    &&& e.table_length == le_u32(s, 12)
    &&& e.table_address == le_u64(s, 16)
}

impl Smbios3Ep {
    /// Reads an SMBIOS 3.0 entry point from its first 24 bytes.
    pub fn from_bytes(b: &[u8]) -> (e: Smbios3Ep)
        requires
            b.len() >= SMBIOS3_EP_SIZE,
        ensures
            smbios3_ep_matches(e, b@),
    {
        Smbios3Ep {
            signature: bytes5(b, 0),
            checksum: b[5],
            length: b[6],
            major_version: b[7],
            minor_version: b[8],
            docrev: b[9],
            revision: b[10],
            reserved: b[11],
            table_length: read_u32_le(b, 12),
            table_address: read_u64_le(b, 16),
        }
    }
}

/// The sum modulo 256 of all bytes: zero for a table with a valid checksum.
pub fn checksum(data: &[u8]) -> (r: u8)
    ensures
        r == byte_sum(data@) % 256,
{
    let r = checksum_range(data, 0, data.len());
    assert(data@.subrange(0, data@.len() as int) =~= data@);
    r
}

/// The RSDP signature "RSD PTR ".
pub open spec fn rsdp_signature() -> Seq<u8> {
    seq![0x52u8, 0x53, 0x44, 0x20, 0x50, 0x54, 0x52, 0x20]
}

/// What `parse_rsdp` gives for the RSDP bytes `s`.
pub open spec fn rsdp_result(s: Seq<u8>) -> Result<u64, &'static str> {
    if s.subrange(0, 8) != rsdp_signature() {
        Err("Invalid RSDP signature")
    } else if byte_sum(s.subrange(0, 20)) % 256 != 0 {
        Err("RSDP checksum failed")
    } else if s[15] < 2 {
        Err("Only ACPI 2.0+ supported")
    } else {
        Ok(le_u64(s, 24) as u64)
    }
}

/// Checks the RSDP (its signature, the checksum of its first 20 bytes, and
/// an ACPI revision of 2 or more) and returns the XSDT's physical address.
pub fn parse_rsdp(b: &[u8]) -> (r: Result<u64, &'static str>)
    requires
        b.len() >= RSDP_SIZE,
    ensures
        r == rsdp_result(b@),
{
    let sig: [u8; 8] = [0x52, 0x53, 0x44, 0x20, 0x50, 0x54, 0x52, 0x20];
    assert(sig@ =~= rsdp_signature());
    if !matches_at(b, 0, &sig) {
        return Err("Invalid RSDP signature");
    }
    if checksum_range(b, 0, 20) != 0 {
        return Err("RSDP checksum failed");
    }
    if b[15] < 2 {
        return Err("Only ACPI 2.0+ supported");
    }
    Ok(read_u64_le(b, 24))
}

/// The number of 64-bit table addresses in an XSDT of `xsdt_length` bytes.
pub fn xsdt_entry_count(xsdt_length: u32) -> (n: usize)
    requires
        xsdt_length >= ACPI_HEADER_SIZE,
    ensures
        n == (xsdt_length - ACPI_HEADER_SIZE) / 8,
{
    (xsdt_length as usize - ACPI_HEADER_SIZE) / 8
}

/// The number of XSDT entries that the record keeps: at most 32.
pub open spec fn kept_tables(entry_count: int) -> int {
    if entry_count < MAX_ACPI_TABLES {
        entry_count
    } else {
        MAX_ACPI_TABLES as int
    }
}

/// The number of XSDT entries that the record keeps: at most 32.
pub fn kept_table_count(entry_count: usize) -> (n: usize)
    ensures
        n == kept_tables(entry_count as int),
{
    if entry_count < MAX_ACPI_TABLES {
        entry_count
    } else {
        MAX_ACPI_TABLES
    }
}

/// Reads the first `count` table addresses from the XSDT entry bytes (the
/// bytes that follow the XSDT header).
pub fn parse_xsdt_entries(b: &[u8], count: usize) -> (r: Vec<u64>)
    requires
        count * 8 <= b.len(),
    ensures
        r@.len() == count,
        forall|i: int| 0 <= i < count ==> #[trigger] r@[i] == le_u64(b@, 8 * i),
{
    let mut r: Vec<u64> = Vec::new();
    let mut i: usize = 0;
    while i < count
        invariant
            i <= count,
            count * 8 <= b.len(),
            r@.len() == i,
            forall|j: int| 0 <= j < i ==> #[trigger] r@[j] == le_u64(b@, 8 * j),
        decreases count - i,
    {
        let v = read_u64_le(b, 8 * i);
        r.push(v);
        i = i + 1;
    }
    r
}

/// An entry of the firmware configuration table: a vendor GUID (its 16 bytes
/// in memory order) and the address of the table it names.
#[derive(Debug, Clone, Copy)]
pub struct ConfigTableInfo {
    pub guid: [u8; 16],
    pub address: u64,
}

/// The GUID of the ACPI 2.0 RSDP entry, 8868e871-e4f1-11d3-bc22-0080c73c8881.
pub open spec fn acpi2_guid() -> Seq<u8> {
    seq![
        0x71u8, 0xe8, 0x68, 0x88, 0xf1, 0xe4, 0xd3, 0x11,
        0xbc, 0x22, 0x00, 0x80, 0xc7, 0x3c, 0x88, 0x81,
    ]
}

/// The GUID of the SMBIOS entry, eb9d2d31-2d88-11d3-9a16-0090273fc14d.
pub open spec fn smbios_guid() -> Seq<u8> {
    seq![
        0x31u8, 0x2d, 0x9d, 0xeb, 0x88, 0x2d, 0xd3, 0x11,
        0x9a, 0x16, 0x00, 0x90, 0x27, 0x3f, 0xc1, 0x4d,
    ]
}

/// The GUID of the SMBIOS 3.0 entry, f2fd1544-9794-4a2c-992e-e5bbcf20e394.
pub open spec fn smbios3_guid() -> Seq<u8> {
    seq![
        0x44u8, 0x15, 0xfd, 0xf2, 0x94, 0x97, 0x2c, 0x4a,
        0x99, 0x2e, 0xe5, 0xbb, 0xcf, 0x20, 0xe3, 0x94,
    ]
}

/// The bytes of `acpi2_guid`.
pub fn acpi2_guid_bytes() -> (g: [u8; 16])
    ensures
        g@ == acpi2_guid(),
{
    let g = [
        0x71u8, 0xe8, 0x68, 0x88, 0xf1, 0xe4, 0xd3, 0x11,
        0xbc, 0x22, 0x00, 0x80, 0xc7, 0x3c, 0x88, 0x81,
    ];
    assert(g@ =~= acpi2_guid());
    g
}

/// The bytes of `smbios_guid`.
pub fn smbios_guid_bytes() -> (g: [u8; 16])
    ensures
        g@ == smbios_guid(),
{
    let g = [
        0x31u8, 0x2d, 0x9d, 0xeb, 0x88, 0x2d, 0xd3, 0x11,
        0x9a, 0x16, 0x00, 0x90, 0x27, 0x3f, 0xc1, 0x4d,
    ];
    assert(g@ =~= smbios_guid());
    g
}

/// The bytes of `smbios3_guid`.
pub fn smbios3_guid_bytes() -> (g: [u8; 16])
    ensures
        g@ == smbios3_guid(),
{
    let g = [
        0x44u8, 0x15, 0xfd, 0xf2, 0x94, 0x97, 0x2c, 0x4a,
        0x99, 0x2e, 0xe5, 0xbb, 0xcf, 0x20, 0xe3, 0x94,
    ];
    assert(g@ =~= smbios3_guid());
    g
}

fn same_guid(a: &[u8; 16], b: &[u8; 16]) -> (r: bool)
    ensures
        r == (a@ == b@),
{
    let r = matches_at(a.as_slice(), 0, b.as_slice());
    assert(a@.subrange(0, 16) =~= a@);
    r
}

/// The address of the first entry from index `i` on whose GUID is `g`.
pub open spec fn first_with_guid(s: Seq<ConfigTableInfo>, g: Seq<u8>, i: int) -> Option<u64>
    decreases s.len() - i,
{
    if 0 <= i < s.len() {
        if s[i].guid@ == g {
            Some(s[i].address)
        } else {
            first_with_guid(s, g, i + 1)
        }
    } else {
        None
    }
}

/// The address of the ACPI 2.0 RSDP: that of the first configuration table
/// entry with the ACPI 2.0 GUID.
pub fn find_rsdp(entries: &[ConfigTableInfo]) -> (r: Option<u64>)
    ensures
        r == first_with_guid(entries@, acpi2_guid(), 0),
{
    let g = acpi2_guid_bytes();
    let mut i: usize = 0;
    while i < entries.len()
        invariant
            i <= entries@.len(),
            g@ == acpi2_guid(),
            first_with_guid(entries@, acpi2_guid(), 0) == first_with_guid(
                entries@,
                acpi2_guid(),
                i as int,
            ),
        decreases entries@.len() - i,
    {
        if same_guid(&entries[i].guid, &g) {
            return Some(entries[i].address);
        }
        i = i + 1;
    }
    None
}

/// The two SMBIOS entry point formats.
#[derive(Debug, Clone, Copy, PartialEq, Eq, Structural)]
pub enum SmbiosKind {
    /// SMBIOS 2.x, anchor "_SM_".
    Smbios,
    /// SMBIOS 3.0, anchor "_SM3_".
    Smbios3,
}

/// An SMBIOS table found: (table address, table length, version as
/// major * 65536 + minor, number of structures).
pub type SmbiosEntryInfo = (u64, usize, u32, u16);

/// The SMBIOS kind that a configuration table GUID names, if any.
pub open spec fn kind_of_guid(g: Seq<u8>) -> Option<SmbiosKind> {
    if g == smbios_guid() {
        Some(SmbiosKind::Smbios)
    } else if g == smbios3_guid() {
        Some(SmbiosKind::Smbios3)
    } else {
        None
    }
}

/// The SMBIOS entries of a configuration table, in table order.
pub open spec fn smbios_candidate_list(s: Seq<ConfigTableInfo>) -> Seq<(u64, SmbiosKind)>
    decreases s.len(),
{
    if s.len() == 0 {
        Seq::empty()
    } else {
        let rest = smbios_candidate_list(s.drop_last());
        match kind_of_guid(s.last().guid@) {
            Some(k) => rest.push((s.last().address, k)),
            None => rest,
        }
    }
}

/// The entries of the configuration table that point to an SMBIOS entry
/// point, with the format their GUID names, in table order.
pub fn smbios_candidates(entries: &[ConfigTableInfo]) -> (r: Vec<(u64, SmbiosKind)>)
    ensures
        r@ == smbios_candidate_list(entries@),
{
    let g2 = smbios_guid_bytes();
    let g3 = smbios3_guid_bytes();
    let mut r: Vec<(u64, SmbiosKind)> = Vec::new();
    let mut i: usize = 0;
    while i < entries.len()
        invariant
            i <= entries@.len(),
            g2@ == smbios_guid(),
            g3@ == smbios3_guid(),
            r@ == smbios_candidate_list(entries@.subrange(0, i as int)),
        decreases entries@.len() - i,
    {
        assert(entries@.subrange(0, i + 1).drop_last() =~= entries@.subrange(0, i as int));
        if same_guid(&entries[i].guid, &g2) {
            r.push((entries[i].address, SmbiosKind::Smbios));
        } else if same_guid(&entries[i].guid, &g3) {
            r.push((entries[i].address, SmbiosKind::Smbios3));
        }
        i = i + 1;
    }
    assert(entries@.subrange(0, entries@.len() as int) =~= entries@);
    r
}

/// The number of bytes of the entry point structure of the given format.
pub open spec fn ep_size(kind: SmbiosKind) -> int {
    match kind {
        SmbiosKind::Smbios => SMBIOS_EP_SIZE as int,
        SmbiosKind::Smbios3 => SMBIOS3_EP_SIZE as int,
    }
}

/// The anchor string of the entry point of the given format.
pub open spec fn ep_anchor(kind: SmbiosKind) -> Seq<u8> {
    match kind {
        SmbiosKind::Smbios => seq![0x5fu8, 0x53, 0x4d, 0x5f],
        SmbiosKind::Smbios3 => seq![0x5fu8, 0x53, 0x4d, 0x33, 0x5f],
    }
}

/// The entry point's own length field, for an entry point at `off`.
pub open spec fn ep_length(kind: SmbiosKind, s: Seq<u8>, off: int) -> int {
    match kind {
        SmbiosKind::Smbios => s[off + 5] as int,
        SmbiosKind::Smbios3 => s[off + 6] as int,
    }
}

/// The bytes at `off` begin with the anchor of the given format.
pub open spec fn ep_anchor_at(kind: SmbiosKind, s: Seq<u8>, off: int) -> bool {
    s.subrange(off, off + ep_anchor(kind).len()) == ep_anchor(kind)
}

/// An entry point of the given format starts at `off`: its anchor matches,
/// its length fits in the bytes, and its bytes sum to zero modulo 256.
pub open spec fn ep_valid_at(kind: SmbiosKind, s: Seq<u8>, off: int) -> bool {
    &&& ep_anchor_at(kind, s, off)
    &&& off + ep_length(kind, s, off) <= s.len()
    &&& byte_sum(s.subrange(off, off + ep_length(kind, s, off))) % 256 == 0
}

/// The table that an entry point at `off` describes.
pub open spec fn ep_info_at(kind: SmbiosKind, s: Seq<u8>, off: int) -> SmbiosEntryInfo {
    match kind {
        SmbiosKind::Smbios => (
            le_u32(s, off + 19) as u64,
            le_u16(s, off + 17) as usize,
            (s[off + 6] * 65536 + s[off + 7]) as u32,
            le_u16(s, off + 23) as u16,
        ),
        SmbiosKind::Smbios3 => (
            le_u64(s, off + 16) as u64,
            le_u32(s, off + 12) as usize,
            (s[off + 7] * 65536 + s[off + 8]) as u32,
            0u16,
        ),
    }
}

/// What an entry point of the given format at `off` yields.
pub open spec fn ep_result_at(kind: SmbiosKind, s: Seq<u8>, off: int) -> Option<SmbiosEntryInfo> {
    if ep_valid_at(kind, s, off) {
        Some(ep_info_at(kind, s, off))
    } else {
        None
    }
}

fn ep_at(kind: SmbiosKind, b: &[u8], off: usize) -> (r: Option<SmbiosEntryInfo>)
    requires
        off + ep_size(kind) <= b.len(),
    ensures
        r == ep_result_at(kind, b@, off as int),
{
    match kind {
        SmbiosKind::Smbios => {
            let anchor: [u8; 4] = [0x5f, 0x53, 0x4d, 0x5f];
            assert(anchor@ =~= ep_anchor(kind));
            if !matches_at(b, off, anchor.as_slice()) {
                return None;
            }
            let ep = SmbiosEp::from_bytes(vstd::slice::slice_subrange(b, off, off + SMBIOS_EP_SIZE));
            let len = ep.length as usize;
            if len > b.len() - off {
                return None;
            }
            if checksum_range(b, off, len) != 0 {
                return None;
            }
            let version = (ep.major_version as u32) * 65536 + ep.minor_version as u32;
            Some((ep.table_address as u64, ep.table_length as usize, version, ep.struct_count))
        },
        SmbiosKind::Smbios3 => {
            let anchor: [u8; 5] = [0x5f, 0x53, 0x4d, 0x33, 0x5f];
            assert(anchor@ =~= ep_anchor(kind));
            if !matches_at(b, off, anchor.as_slice()) {
                return None;
            }
            let ep = Smbios3Ep::from_bytes(
                vstd::slice::slice_subrange(b, off, off + SMBIOS3_EP_SIZE),
            );
            let len = ep.length as usize;
            if len > b.len() - off {
                return None;
            }
            if checksum_range(b, off, len) != 0 {
                return None;
            }
            let version = (ep.major_version as u32) * 65536 + ep.minor_version as u32;
            Some((ep.table_address, ep.table_length as usize, version, 0))
        },
    }
}

/// How many bytes to read at an entry point of the given format whose first
/// `ep_size(kind)` bytes are `s`: the structure, or, when the anchor matches,
/// the longer of the structure and its length field.
pub open spec fn ep_read_len(kind: SmbiosKind, s: Seq<u8>) -> int {
    if ep_anchor_at(kind, s, 0) && ep_length(kind, s, 0) > ep_size(kind) {
        ep_length(kind, s, 0)
    } else {
        ep_size(kind)
    }
}

/// The size of the entry point structure of the given format.
pub fn smbios_ep_size(kind: SmbiosKind) -> (n: usize)
    ensures
        n == ep_size(kind),
{
    match kind {
        SmbiosKind::Smbios => SMBIOS_EP_SIZE,
        SmbiosKind::Smbios3 => SMBIOS3_EP_SIZE,
    }
}

/// How many bytes the entry point check reads, given the structure's bytes.
pub fn smbios_ep_read_len(kind: SmbiosKind, head: &[u8]) -> (n: usize)
    requires
        head.len() >= ep_size(kind),
    ensures
        n == ep_read_len(kind, head@),
{
    let size = smbios_ep_size(kind);
    let (anchor_ok, len) = match kind {
        SmbiosKind::Smbios => {
            let anchor: [u8; 4] = [0x5f, 0x53, 0x4d, 0x5f];
            assert(anchor@ =~= ep_anchor(kind));
            (matches_at(head, 0, anchor.as_slice()), head[5] as usize)
        },
        SmbiosKind::Smbios3 => {
            let anchor: [u8; 5] = [0x5f, 0x53, 0x4d, 0x33, 0x5f];
            assert(anchor@ =~= ep_anchor(kind));
            (matches_at(head, 0, anchor.as_slice()), head[6] as usize)
        },
    };
    if anchor_ok && len > size {
        len
    } else {
        size
    }
}

/// Checks the entry point of the given format held in `b` (read from the
/// address a configuration table entry gives) and returns the table it
/// describes.
pub fn parse_smbios_ep(kind: SmbiosKind, b: &[u8]) -> (r: Option<SmbiosEntryInfo>)
    requires
        b.len() >= ep_size(kind),
    ensures
        r == ep_result_at(kind, b@, 0),
{
    ep_at(kind, b, 0)
}

/// The bytes read at the address of one SMBIOS configuration table entry.
pub struct SmbiosCandidate {
    pub kind: SmbiosKind,
    pub bytes: Vec<u8>,
}

/// The first candidate from index `i` on that holds a valid entry point.
pub open spec fn first_valid_candidate(cs: Seq<SmbiosCandidate>, i: int) -> Option<SmbiosEntryInfo>
    decreases cs.len() - i,
{
    if 0 <= i < cs.len() {
        let r = ep_result_at(cs[i].kind, cs[i].bytes@, 0);
        if r is Some {
            r
        } else {
            first_valid_candidate(cs, i + 1)
        }
    } else {
        None
    }
}

/// The table described by the first valid entry point among the SMBIOS
/// configuration table entries.
pub fn smbios_from_config(cands: &[SmbiosCandidate]) -> (r: Option<SmbiosEntryInfo>)
    requires
        forall|i: int|
            0 <= i < cands@.len() ==> #[trigger] cands@[i].bytes@.len() >= ep_size(cands@[i].kind),
    ensures
        r == first_valid_candidate(cands@, 0),
{
    let mut i: usize = 0;
    while i < cands.len()
        invariant
            i <= cands@.len(),
            forall|j: int|
                0 <= j < cands@.len() ==> #[trigger] cands@[j].bytes@.len() >= ep_size(
                    cands@[j].kind,
                ),
            first_valid_candidate(cands@, 0) == first_valid_candidate(cands@, i as int),
        decreases cands@.len() - i,
    {
        let c = &cands[i];
        let r = parse_smbios_ep(c.kind, c.bytes.as_slice());
        if r.is_some() {
            return r;
        }
        i = i + 1;
    }
    None
}

/// The result of scanning the legacy BIOS area `s` from offset `off` on,
/// in steps of 16 bytes while 32 bytes remain.
pub open spec fn bios_scan_from(s: Seq<u8>, off: int) -> Option<SmbiosEntryInfo>
    decreases s.len() - off,
{
    if off < 0 || off + 32 > s.len() {
        None
    } else if ep_result_at(SmbiosKind::Smbios, s, off) is Some {
        ep_result_at(SmbiosKind::Smbios, s, off)
    } else if ep_result_at(SmbiosKind::Smbios3, s, off) is Some {
        ep_result_at(SmbiosKind::Smbios3, s, off)
    } else {
        bios_scan_from(s, off + 16)
    }
}

/// Scans the bytes of the legacy BIOS area (physical 0xF0000 to 0x100000) on
/// 16-byte boundaries for a valid SMBIOS 2.x or 3.0 entry point.
pub fn scan_bios_for_smbios(region: &[u8]) -> (r: Option<SmbiosEntryInfo>)
    ensures
        r == bios_scan_from(region@, 0),
{
    let mut off: usize = 0;
    while off <= region.len() && region.len() - off >= 32
        invariant
            bios_scan_from(region@, 0) == bios_scan_from(region@, off as int),
        decreases region@.len() - off,
    {
        let r = ep_at(SmbiosKind::Smbios, region, off);
        if r.is_some() {
            return r;
        }
        let r3 = ep_at(SmbiosKind::Smbios3, region, off);
        if r3.is_some() {
            return r3;
        }
        off = off + 16;
    }
    None
}

/// The SMBIOS type recorded for a version: 1 for SMBIOS 3 and later, else 0.
pub open spec fn smbios_type_of(version: u32) -> u8 {
    if version / 65536 >= 3 {
        1
    } else {
        0
    }
}

/// The SMBIOS fields of `d` record `smbios` at address `phys`, or are zero
/// when no SMBIOS table was found.
pub open spec fn smbios_recorded(d: AcpiCopiedData, smbios: Option<SmbiosEntryInfo>, phys: u64) -> bool {
    match smbios {
        None => {
            &&& d.smbios_phys == 0
            &&& d.smbios_length == 0
            &&& d.smbios_version == 0
            &&& d.smbios_table_count == 0
            &&& d.smbios_type == 0
        },
        Some(e) => {
            &&& d.smbios_phys == phys
            &&& d.smbios_length == e.1 as u32
            &&& d.smbios_version == e.2
            &&& d.smbios_table_count == e.3
            &&& d.smbios_type == smbios_type_of(e.2)
        },
    }
}

fn smbios_type(version: u32) -> (t: u8)
    ensures
        t == smbios_type_of(version),
{
    if version / 65536 >= 3 {
        1
    } else {
        0
    }
}

/// The record of the ACPI tables found in place: the RSDP and XSDT
/// addresses, the kept XSDT entries (address and length of each table), and
/// the SMBIOS table if one was found.
pub fn acpi_data_from_tables(
    rsdp_phys: u64,
    xsdt_phys: u64,
    xsdt_size: u32,
    tables: &[(u64, u32)],
    smbios: Option<SmbiosEntryInfo>,
) -> (d: AcpiCopiedData)
    requires
        tables.len() <= MAX_ACPI_TABLES,
    ensures
        d.rsdp_phys == rsdp_phys,
        d.xsdt_phys == xsdt_phys,
        d.table_count == tables@.len(),
        forall|i: int|
            0 <= i < 32 ==> #[trigger] d.table_phys_addrs@[i] == if i < tables@.len() {
                tables@[i].0
            } else {
                0
            },
        forall|i: int|
            0 <= i < 32 ==> #[trigger] d.table_sizes@[i] == if i < tables@.len() {
                tables@[i].1
            } else {
                0
            },
        d.rsdp_size == rsdp_struct_size() as u32,
        d.xsdt_size == xsdt_size,
        smbios_recorded(
            d,
            smbios,
            match smbios {
                Some(e) => e.0,
                None => 0,
            },
        ),
{
    let mut d = AcpiCopiedData::default();
    d.rsdp_phys = rsdp_phys;
    d.xsdt_phys = xsdt_phys;
    d.table_count = tables.len() as u32;
    d.rsdp_size = core::mem::size_of::<acpi::rsdp::Rsdp>() as u32;
    d.xsdt_size = xsdt_size;
    let mut i: usize = 0;
    while i < tables.len()
        invariant
            i <= tables@.len() <= 32,
            d.rsdp_phys == rsdp_phys,
            d.xsdt_phys == xsdt_phys,
            d.table_count == tables@.len(),
            d.rsdp_size == rsdp_struct_size() as u32,
            d.xsdt_size == xsdt_size,
            smbios_recorded(d, None, 0),
            forall|j: int|
                0 <= j < 32 ==> #[trigger] d.table_phys_addrs@[j] == if j < i {
                    tables@[j].0
                } else {
                    0
                },
            forall|j: int|
                0 <= j < 32 ==> #[trigger] d.table_sizes@[j] == if j < i {
                    tables@[j].1
                } else {
                    0
                },
        decreases tables@.len() - i,
    {
        d.table_phys_addrs[i] = tables[i].0;
        d.table_sizes[i] = tables[i].1;
        i = i + 1;
    }
    if let Some(e) = smbios {
        d.smbios_phys = e.0;
        d.smbios_length = e.1 as u32;
        d.smbios_version = e.2;
        d.smbios_table_count = e.3;
        d.smbios_type = smbios_type(e.2);
    }
    d
}

/// The sum of the given table sizes.
pub open spec fn sum_sizes(s: Seq<u32>) -> int
    decreases s.len(),
{
    if s.len() == 0 {
        0
    } else {
        sum_sizes(s.drop_last()) + s.last()
    }
}

/// Where the copy of table `i` goes: right after the RSDP copy, the XSDT
/// copy and the copies of the tables before it.
pub open spec fn fixed_table_addr(xsdt_size: u32, sizes: Seq<u32>, i: int) -> int {
    ACPI_COPY_BASE + rsdp_struct_size() + xsdt_size + sum_sizes(sizes.subrange(0, i))
}

/// The sum of a prefix of table sizes grows by the next size.
proof fn lemma_sum_sizes_step(s: Seq<u32>, i: int)
    requires
        0 <= i < s.len(),
    ensures
        sum_sizes(s.subrange(0, i + 1)) == sum_sizes(s.subrange(0, i)) + s[i],
{
    assert(s.subrange(0, i + 1).drop_last() =~= s.subrange(0, i));
}

/// Sums of sizes are never negative.
proof fn lemma_sum_sizes_nonneg(s: Seq<u32>)
    ensures
        0 <= sum_sizes(s),
    decreases s.len(),
{
    if s.len() > 0 {
        lemma_sum_sizes_nonneg(s.drop_last());
    }
}

/// The sum over a prefix is at most the sum over the whole sequence.
proof fn lemma_sum_sizes_prefix_le(s: Seq<u32>, i: int)
    requires
        0 <= i <= s.len(),
    ensures
        sum_sizes(s.subrange(0, i)) <= sum_sizes(s.subrange(0, s.len() as int)),
    decreases s.len() - i,
{
    if i < s.len() {
        lemma_sum_sizes_step(s, i);
        lemma_sum_sizes_prefix_le(s, i + 1);
    }
}

/// The record of the ACPI tables as copied by `copy_acpi_tables_to_fixed`:
/// the RSDP copy at `ACPI_COPY_BASE`, then the XSDT copy, then each table,
/// then the SMBIOS table, each placed right after the one before.
pub fn fixed_copy_layout(xsdt_size: u32, table_sizes: &[u32], smbios: Option<SmbiosEntryInfo>) -> (d:
    AcpiCopiedData)
    requires
        table_sizes.len() <= MAX_ACPI_TABLES,
        fixed_table_addr(xsdt_size, table_sizes@, table_sizes@.len() as int) <= u64::MAX,
        smbios matches Some(e) ==> fixed_table_addr(xsdt_size, table_sizes@, table_sizes@.len() as int)
            - ACPI_COPY_BASE + e.1 <= u64::MAX,
    ensures
        d.rsdp_phys == ACPI_COPY_BASE,
        d.xsdt_phys == ACPI_COPY_BASE + rsdp_struct_size(),
        d.table_count == table_sizes@.len(),
        forall|i: int|
            0 <= i < 32 ==> #[trigger] d.table_phys_addrs@[i] == if i < table_sizes@.len() {
                fixed_table_addr(xsdt_size, table_sizes@, i)
            } else {
                0
            },
        forall|i: int|
            0 <= i < 32 ==> #[trigger] d.table_sizes@[i] == if i < table_sizes@.len() {
                table_sizes@[i]
            } else {
                0
            },
        d.rsdp_size == rsdp_struct_size() as u32,
        d.xsdt_size == xsdt_size,
        smbios_recorded(
            d,
            smbios,
            fixed_table_addr(xsdt_size, table_sizes@, table_sizes@.len() as int) as u64,
        ),
{
    let mut d = AcpiCopiedData::default();
    let rsdp_size = core::mem::size_of::<acpi::rsdp::Rsdp>() as u64;
    proof {
        lemma_sum_sizes_nonneg(table_sizes@.subrange(0, table_sizes@.len() as int));
    }
    let mut current_offset: u64 = 0;
    d.rsdp_phys = ACPI_COPY_BASE + current_offset;
    current_offset = current_offset + rsdp_size;
    d.xsdt_phys = ACPI_COPY_BASE + current_offset;
    current_offset = current_offset + xsdt_size as u64;
    d.table_count = table_sizes.len() as u32;
    d.rsdp_size = rsdp_size as u32;
    d.xsdt_size = xsdt_size;
    let mut i: usize = 0;
    proof {
        assert(table_sizes@.subrange(0, 0) =~= Seq::<u32>::empty());
    }
    while i < table_sizes.len()
        invariant
            i <= table_sizes@.len() <= 32,
            ACPI_COPY_BASE + current_offset == fixed_table_addr(xsdt_size, table_sizes@, i as int),
            fixed_table_addr(xsdt_size, table_sizes@, table_sizes@.len() as int) <= u64::MAX,
            d.rsdp_phys == ACPI_COPY_BASE,
            d.xsdt_phys == ACPI_COPY_BASE + rsdp_struct_size(),
            d.table_count == table_sizes@.len(),
            d.rsdp_size == rsdp_struct_size() as u32,
            d.xsdt_size == xsdt_size,
            smbios_recorded(d, None, 0),
            forall|j: int|
                0 <= j < 32 ==> #[trigger] d.table_phys_addrs@[j] == if j < i {
                    fixed_table_addr(xsdt_size, table_sizes@, j)
                } else {
                    0
                },
            forall|j: int|
                0 <= j < 32 ==> #[trigger] d.table_sizes@[j] == if j < i {
                    table_sizes@[j]
                } else {
                    0
                },
        decreases table_sizes@.len() - i,
    {
        proof {
            lemma_sum_sizes_step(table_sizes@, i as int);
            lemma_sum_sizes_prefix_le(table_sizes@, i + 1);
        }
        let size = table_sizes[i];
        d.table_phys_addrs[i] = ACPI_COPY_BASE + current_offset;
        current_offset = current_offset + size as u64;
        d.table_sizes[i] = size;
        i = i + 1;
    }
    if let Some(e) = smbios {
        d.smbios_phys = ACPI_COPY_BASE + current_offset;
        current_offset = current_offset + e.1 as u64;
        d.smbios_length = e.1 as u32;
        d.smbios_version = e.2;
        d.smbios_table_count = e.3;
        d.smbios_type = smbios_type(e.2);
    }
    d
}

/// Copies placed by `fixed_copy_layout` never overlap: each table copy ends
/// at or before the start of every later one, and the first starts where
/// the XSDT copy ends.
pub proof fn lemma_fixed_copies_disjoint(xsdt_size: u32, sizes: Seq<u32>, i: int, j: int)
    requires
        0 <= i < j <= sizes.len(),
    ensures
        fixed_table_addr(xsdt_size, sizes, i) + sizes[i] <= fixed_table_addr(xsdt_size, sizes, j),
        fixed_table_addr(xsdt_size, sizes, 0) == ACPI_COPY_BASE + rsdp_struct_size() + xsdt_size,
    decreases j - i,
{
    assert(sizes.subrange(0, 0) =~= Seq::<u32>::empty());
    lemma_sum_sizes_step(sizes, j - 1);
    if i < j - 1 {
        lemma_fixed_copies_disjoint(xsdt_size, sizes, i, j - 1);
    }
}

/// The SMBIOS record of `data`: None when no SMBIOS table was recorded
/// (address zero), else (address, length, version, structure count, type).
pub fn get_smbios_info(data: &AcpiCopiedData) -> (r: Option<(u64, u32, u32, u16, u8)>)
    ensures
        r == if data.smbios_phys == 0 {
            None
        } else {
            Some(
                (
                    data.smbios_phys,
                    data.smbios_length,
                    data.smbios_version,
                    data.smbios_table_count,
                    data.smbios_type,
                ),
            )
        },
{
    if data.smbios_phys == 0 {
        None
    } else {
        Some(
            (
                data.smbios_phys,
                data.smbios_length,
                data.smbios_version,
                data.smbios_table_count,
                data.smbios_type,
            ),
        )
    }
}

/// The address of the first recorded table from index `i` on whose address
/// is not zero and whose signature (as read at that address) is `sig`.
pub open spec fn first_table_with_signature(
    d: AcpiCopiedData,
    sigs: Seq<[u8; 4]>,
    sig: Seq<u8>,
    i: int,
) -> Option<u64>
    decreases d.table_count - i,
{
    if 0 <= i < d.table_count {
        if d.table_phys_addrs@[i] != 0 && sigs[i]@ == sig {
            Some(d.table_phys_addrs@[i])
        } else {
            first_table_with_signature(d, sigs, sig, i + 1)
        }
    } else {
        None
    }
}

/// Finds a recorded ACPI table by its signature. `table_signatures[i]` is
/// the signature read at `data.table_phys_addrs[i]`.
pub fn find_table_by_signature(
    data: &AcpiCopiedData,
    table_signatures: &[[u8; 4]],
    signature: &[u8; 4],
) -> (r: Option<u64>)
    requires
        data.table_count <= MAX_ACPI_TABLES,
        table_signatures@.len() >= data.table_count,
    ensures
        r == first_table_with_signature(*data, table_signatures@, signature@, 0),
{
    let mut i: usize = 0;
    while i < data.table_count as usize
        invariant
            data.table_count <= 32,
            table_signatures@.len() >= data.table_count,
            i <= data.table_count,
            first_table_with_signature(*data, table_signatures@, signature@, 0)
                == first_table_with_signature(*data, table_signatures@, signature@, i as int),
        decreases data.table_count - i,
    {
        let table_phys = data.table_phys_addrs[i];
        if table_phys != 0 {
            let same = matches_at(table_signatures[i].as_slice(), 0, signature.as_slice());
            assert(table_signatures@[i as int]@.subrange(0, 4) =~= table_signatures@[i as int]@);
            if same {
                return Some(table_phys);
            }
        }
        i = i + 1;
    }
    None
}

/// A valid SMBIOS entry point of the given format starts at `off` of `s`,
/// spelled out on the bytes: the anchor "_SM_" (2.x) or "_SM3_" (3.0), the
/// entry point's own length field (byte 5, resp. 6) within the bytes, and
/// that many bytes summing to 0 modulo 256.
pub open spec fn entry_point_bytes_valid(kind: SmbiosKind, s: Seq<u8>, off: int) -> bool {
    match kind {
        SmbiosKind::Smbios => {
            &&& s[off] == 0x5f && s[off + 1] == 0x53 && s[off + 2] == 0x4d && s[off + 3] == 0x5f
            &&& off + s[off + 5] <= s.len()
            &&& byte_sum(s.subrange(off, off + s[off + 5])) % 256 == 0
        },
        SmbiosKind::Smbios3 => {
            &&& s[off] == 0x5f && s[off + 1] == 0x53 && s[off + 2] == 0x4d && s[off + 3] == 0x33
                && s[off + 4] == 0x5f
            &&& off + s[off + 6] <= s.len()
            &&& byte_sum(s.subrange(off, off + s[off + 6])) % 256 == 0
        },
    }
}

/// The table an entry point at `off` names, spelled out on the bytes: for
/// 2.x the 32-bit address at byte 19, the 16-bit length at byte 17, the
/// version major (byte 6) * 65536 + minor (byte 7) and the 16-bit structure
/// count at byte 23; for 3.0 the 64-bit address at byte 16, the 32-bit
/// length at byte 12, the version from bytes 7 and 8, and no count.
pub open spec fn entry_point_bytes_table(kind: SmbiosKind, s: Seq<u8>, off: int) -> SmbiosEntryInfo {
    match kind {
        SmbiosKind::Smbios => (
            (s[off + 19] + 256 * s[off + 20] + 65536 * s[off + 21] + 16777216 * s[off + 22]) as u64,
            (s[off + 17] + 256 * s[off + 18]) as usize,
            (s[off + 6] * 65536 + s[off + 7]) as u32,
            (s[off + 23] + 256 * s[off + 24]) as u16,
        ),
        SmbiosKind::Smbios3 => (
            le_u64(s, off + 16) as u64,
            (s[off + 12] + 256 * s[off + 13] + 65536 * s[off + 14] + 16777216 * s[off + 15]) as usize,
            (s[off + 7] * 65536 + s[off + 8]) as u32,
            0u16,
        ),
    }
}

/// The entry point check accepts exactly the entry points whose anchor
/// matches, whose own length field fits in the bytes and whose first
/// length-field bytes sum to 0 modulo 256, and then gives the table the
/// entry point names.
pub proof fn lemma_entry_point_check(kind: SmbiosKind, s: Seq<u8>, off: int)
    requires
        0 <= off,
        off + (match kind {
            SmbiosKind::Smbios => 26int,
            SmbiosKind::Smbios3 => 24int,
        }) <= s.len(),
    ensures
        ep_result_at(kind, s, off) is Some <==> entry_point_bytes_valid(kind, s, off),
        ep_result_at(kind, s, off) matches Some(info) ==> info == entry_point_bytes_table(
            kind,
            s,
            off,
        ),
{
    let a = ep_anchor(kind);
    let sub = s.subrange(off, off + a.len());
    if entry_point_bytes_valid(kind, s, off) {
        assert(sub =~= a);
    }
    if ep_anchor_at(kind, s, off) {
        assert(sub[0] == a[0] && sub[1] == a[1] && sub[2] == a[2] && sub[3] == a[3]);
        if kind == SmbiosKind::Smbios3 {
            assert(sub[4] == a[4]);
        }
    }
}

/// `parse_smbios_ep` accepts exactly the bytes that start with the format's
/// anchor, whose own length field L is at most their length, and whose
/// first L bytes sum to 0 modulo 256; it then gives the named table.
pub proof fn lemma_parse_smbios_ep(kind: SmbiosKind, b: Seq<u8>)
    requires
        b.len() >= (match kind {
            SmbiosKind::Smbios => 26int,
            SmbiosKind::Smbios3 => 24int,
        }),
    ensures
        ep_result_at(kind, b, 0) is Some <==> entry_point_bytes_valid(kind, b, 0),
        ep_result_at(kind, b, 0) matches Some(info) ==> info == entry_point_bytes_table(kind, b, 0),
{
    lemma_entry_point_check(kind, b, 0);
}

/// No valid entry point of either format starts at any 16-byte-aligned
/// offset `j` with `from <= j` and `j + 32 <= s.len()`.
pub open spec fn no_entry_point_from(s: Seq<u8>, from: int) -> bool {
    forall|j: int|
        #![trigger entry_point_bytes_valid(SmbiosKind::Smbios, s, j)]
        #![trigger entry_point_bytes_valid(SmbiosKind::Smbios3, s, j)]
        from <= j && j % 16 == 0 && j + 32 <= s.len() ==> !entry_point_bytes_valid(
            SmbiosKind::Smbios,
            s,
            j,
        ) && !entry_point_bytes_valid(SmbiosKind::Smbios3, s, j)
}

proof fn lemma_bios_scan_none_from(s: Seq<u8>, off: int)
    requires
        0 <= off,
        off % 16 == 0,
    ensures
        bios_scan_from(s, off) is None <==> no_entry_point_from(s, off),
    decreases s.len() - off,
{
    if off + 32 <= s.len() {
        lemma_entry_point_check(SmbiosKind::Smbios, s, off);
        lemma_entry_point_check(SmbiosKind::Smbios3, s, off);
        lemma_bios_scan_none_from(s, off + 16);
        if no_entry_point_from(s, off + 16) && !entry_point_bytes_valid(SmbiosKind::Smbios, s, off)
            && !entry_point_bytes_valid(SmbiosKind::Smbios3, s, off) {
            assert forall|j: int|
                off <= j && j % 16 == 0 && j + 32 <= s.len() implies !entry_point_bytes_valid(
                SmbiosKind::Smbios,
                s,
                j,
            ) && !entry_point_bytes_valid(SmbiosKind::Smbios3, s, j) by {
                if j != off {
                    assert(off + 16 <= j);
                }
            }
        }
        if no_entry_point_from(s, off) {
            assert(!entry_point_bytes_valid(SmbiosKind::Smbios, s, off));
            assert(!entry_point_bytes_valid(SmbiosKind::Smbios3, s, off));
        }
    } else {
        assert forall|j: int|
            off <= j && j % 16 == 0 && j + 32 <= s.len() implies !entry_point_bytes_valid(
            SmbiosKind::Smbios,
            s,
            j,
        ) && !entry_point_bytes_valid(SmbiosKind::Smbios3, s, j) by {}
    }
}

/// The BIOS-area scan finds nothing exactly when no 16-byte-aligned offset
/// `j` with `j + 32 <= s.len()` holds a valid SMBIOS 2.x or 3.0 entry point.
pub proof fn lemma_bios_scan_none(s: Seq<u8>)
    ensures
        bios_scan_from(s, 0) is None <==> no_entry_point_from(s, 0),
{
    lemma_bios_scan_none_from(s, 0);
}

proof fn lemma_bios_scan_first_from(s: Seq<u8>, k: int, off: int)
    requires
        0 <= off <= k,
        off % 16 == 0,
        k % 16 == 0,
        k + 32 <= s.len(),
        entry_point_bytes_valid(SmbiosKind::Smbios, s, k) || entry_point_bytes_valid(
            SmbiosKind::Smbios3,
            s,
            k,
        ),
        forall|j: int|
            #![trigger entry_point_bytes_valid(SmbiosKind::Smbios, s, j)]
            #![trigger entry_point_bytes_valid(SmbiosKind::Smbios3, s, j)]
            0 <= j < k && j % 16 == 0 ==> !entry_point_bytes_valid(SmbiosKind::Smbios, s, j)
                && !entry_point_bytes_valid(SmbiosKind::Smbios3, s, j),
    ensures
        bios_scan_from(s, off) == if entry_point_bytes_valid(SmbiosKind::Smbios, s, k) {
            Some(entry_point_bytes_table(SmbiosKind::Smbios, s, k))
        } else {
            Some(entry_point_bytes_table(SmbiosKind::Smbios3, s, k))
        },
    decreases k - off,
{
    lemma_entry_point_check(SmbiosKind::Smbios, s, off);
    lemma_entry_point_check(SmbiosKind::Smbios3, s, off);
    if off < k {
        assert(!entry_point_bytes_valid(SmbiosKind::Smbios, s, off));
        assert(!entry_point_bytes_valid(SmbiosKind::Smbios3, s, off));
        lemma_bios_scan_first_from(s, k, off + 16);
    }
}

/// The BIOS-area scan returns the table named by the valid SMBIOS entry
/// point at the lowest 16-byte-aligned offset `k` (with `k + 32` within the
/// area), preferring the 2.x format when both match there.
pub proof fn lemma_bios_scan_first_entry_point(s: Seq<u8>, k: int)
    requires
        0 <= k,
        k % 16 == 0,
        k + 32 <= s.len(),
        entry_point_bytes_valid(SmbiosKind::Smbios, s, k) || entry_point_bytes_valid(
            SmbiosKind::Smbios3,
            s,
            k,
        ),
        forall|j: int|
            #![trigger entry_point_bytes_valid(SmbiosKind::Smbios, s, j)]
            #![trigger entry_point_bytes_valid(SmbiosKind::Smbios3, s, j)]
            0 <= j < k && j % 16 == 0 ==> !entry_point_bytes_valid(SmbiosKind::Smbios, s, j)
                && !entry_point_bytes_valid(SmbiosKind::Smbios3, s, j),
    ensures
        bios_scan_from(s, 0) == if entry_point_bytes_valid(SmbiosKind::Smbios, s, k) {
            Some(entry_point_bytes_table(SmbiosKind::Smbios, s, k))
        } else {
            Some(entry_point_bytes_table(SmbiosKind::Smbios3, s, k))
        },
{
    lemma_bios_scan_first_from(s, k, 0);
}

/// The SMBIOS type recorded for a version is 1 exactly when the major
/// version (version / 65536) is at least 3, i.e. version >= 0x30000, and 0
/// otherwise.
pub proof fn lemma_smbios_type_major_version(version: u32)
    ensures
        smbios_type_of(version) == 1 <==> version >= 0x30000,
        smbios_type_of(version) == 0 <==> version < 0x30000,
{
}

/// A recorded SMBIOS table has type 1 exactly when its version is 3.0 or
/// later (version >= 0x30000), and type 0 otherwise.
pub proof fn lemma_recorded_smbios_type(d: AcpiCopiedData, e: SmbiosEntryInfo, phys: u64)
    requires
        smbios_recorded(d, Some(e), phys),
    ensures
        d.smbios_type == 1 <==> e.2 >= 0x30000,
        d.smbios_type == 0 <==> e.2 < 0x30000,
        d.smbios_version == e.2,
{
    lemma_smbios_type_major_version(e.2);
}

/// The table at index `i` is non-zero and its signature equals `sig` in all
/// four bytes.
pub open spec fn signature_hit(d: AcpiCopiedData, sigs: Seq<[u8; 4]>, sig: [u8; 4], i: int) -> bool {
    &&& d.table_phys_addrs@[i] != 0
    &&& sigs[i]@[0] == sig@[0]
    &&& sigs[i]@[1] == sig@[1]
    &&& sigs[i]@[2] == sig@[2]
    &&& sigs[i]@[3] == sig@[3]
}

proof fn lemma_first_table_from(d: AcpiCopiedData, sigs: Seq<[u8; 4]>, sig: [u8; 4], i: int)
    requires
        0 <= i <= d.table_count,
        d.table_count <= 32,
        sigs.len() >= d.table_count,
    ensures
        first_table_with_signature(d, sigs, sig@, i) is None <==> forall|m: int|
            i <= m < d.table_count ==> !#[trigger] signature_hit(d, sigs, sig, m),
        first_table_with_signature(d, sigs, sig@, i) matches Some(a) ==> exists|j: int|
            #![trigger signature_hit(d, sigs, sig, j)]
            i <= j < d.table_count && signature_hit(d, sigs, sig, j) && d.table_phys_addrs@[j] == a
                && forall|m: int| i <= m < j ==> !#[trigger] signature_hit(d, sigs, sig, m),
    decreases d.table_count - i,
{
    if i < d.table_count {
        lemma_first_table_from(d, sigs, sig, i + 1);
        let hit_bytes = sigs[i]@ == sig@;
        if signature_hit(d, sigs, sig, i) {
            assert(sigs[i]@ =~= sig@);
        }
        if d.table_phys_addrs@[i] != 0 && sigs[i]@ == sig@ {
            assert(signature_hit(d, sigs, sig, i));
            assert(forall|m: int| i <= m < i ==> !#[trigger] signature_hit(d, sigs, sig, m));
        } else {
            assert(!signature_hit(d, sigs, sig, i));
            if first_table_with_signature(d, sigs, sig@, i) is Some {
                let a = first_table_with_signature(d, sigs, sig@, i).unwrap();
                let j = choose|j: int|
                    #![trigger signature_hit(d, sigs, sig, j)]
                    i + 1 <= j < d.table_count && signature_hit(d, sigs, sig, j)
                        && d.table_phys_addrs@[j] == a && forall|m: int|
                        i + 1 <= m < j ==> !#[trigger] signature_hit(d, sigs, sig, m);
                assert(forall|m: int| i <= m < j ==> !#[trigger] signature_hit(d, sigs, sig, m));
            }
        }
    }
}

/// `find_table_by_signature` returns the address of the first recorded table
/// (index below `table_count`) whose address is not zero and whose signature
/// equals the requested one in all four bytes, and returns None exactly when
/// there is no such table.
pub proof fn lemma_find_table_by_signature(d: AcpiCopiedData, sigs: Seq<[u8; 4]>, sig: [u8; 4])
    requires
        d.table_count <= 32,
        sigs.len() >= d.table_count,
    ensures
        first_table_with_signature(d, sigs, sig@, 0) is None <==> forall|m: int|
            0 <= m < d.table_count ==> !#[trigger] signature_hit(d, sigs, sig, m),
        first_table_with_signature(d, sigs, sig@, 0) matches Some(a) ==> exists|j: int|
            #![trigger signature_hit(d, sigs, sig, j)]
            0 <= j < d.table_count && signature_hit(d, sigs, sig, j) && d.table_phys_addrs@[j] == a
                && a != 0 && forall|m: int| 0 <= m < j ==> !#[trigger] signature_hit(d, sigs, sig, m),
{
    lemma_first_table_from(d, sigs, sig, 0);
}

} // verus!
