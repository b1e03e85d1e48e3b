use leafboot::boot::acpi::{
    acpi2_guid_bytes, acpi_data_from_tables, checksum, find_rsdp, find_table_by_signature,
    fixed_copy_layout, get_smbios_info, kept_table_count, parse_rsdp, parse_smbios_ep,
    parse_xsdt_entries, scan_bios_for_smbios, smbios3_guid_bytes, smbios_candidates,
    smbios_ep_read_len, smbios_ep_size, smbios_from_config, smbios_guid_bytes, xsdt_entry_count,
    AcpiCopiedData, AcpiHeader, ConfigTableInfo, Smbios3Ep, SmbiosCandidate, SmbiosEp,
    SmbiosKind, ACPI_COPY_BASE, RSDP_SIZE,
};
use uefi::table::cfg::ConfigTableEntry;

/// Sets `data[at]` so that `data[range]` sums to zero modulo 256.
fn fix_checksum(data: &mut [u8], at: usize, len: usize) {
    data[at] = 0;
    let sum: u32 = data[..len].iter().map(|b| *b as u32).sum();
    data[at] = ((256 - sum % 256) % 256) as u8;
}

fn rsdp_bytes(revision: u8, xsdt: u64) -> Vec<u8> {
    let mut b = vec![0u8; 36];
    b[..8].copy_from_slice(b"RSD PTR ");
    b[9..15].copy_from_slice(b"LEAFOS");
    b[15] = revision;
    b[16..20].copy_from_slice(&0x1234_5678u32.to_le_bytes());
    b[20..24].copy_from_slice(&36u32.to_le_bytes());
    b[24..32].copy_from_slice(&xsdt.to_le_bytes());
    fix_checksum(&mut b, 8, 20);
    b
}

fn header_bytes(sig: &[u8; 4], length: u32) -> Vec<u8> {
    let mut b = vec![0u8; 36];
    b[..4].copy_from_slice(sig);
    b[4..8].copy_from_slice(&length.to_le_bytes());
    b[8] = 1;
    b[9] = 0xAB;
    b[10..16].copy_from_slice(b"OEMIDX");
    b[16..24].copy_from_slice(b"TABLEID1");
    b[24..28].copy_from_slice(&7u32.to_le_bytes());
    b[28..32].copy_from_slice(b"CRTR");
    b[32..36].copy_from_slice(&0x0102_0304u32.to_le_bytes());
    b
}

fn smbios2_ep(length: u8, table_len: u16, table_addr: u32, count: u16) -> Vec<u8> {
    let mut b = vec![0u8; length.max(26) as usize];
    b[..4].copy_from_slice(b"_SM_");
    b[5] = length;
    b[6] = 2;
    b[7] = 8;
    b[8..10].copy_from_slice(&0x100u16.to_le_bytes());
    b[17..19].copy_from_slice(&table_len.to_le_bytes());
    b[19..23].copy_from_slice(&table_addr.to_le_bytes());
    b[23..25].copy_from_slice(&count.to_le_bytes());
    b[25] = 0x28;
    fix_checksum(&mut b, 4, length as usize);
    b
}

fn smbios3_ep(table_len: u32, table_addr: u64) -> Vec<u8> {
    let mut b = vec![0u8; 24];
    b[..5].copy_from_slice(b"_SM3_");
    b[6] = 24;
    b[7] = 3;
    b[8] = 4;
    b[9] = 1;
    b[10] = 1;
    b[12..16].copy_from_slice(&table_len.to_le_bytes());
    b[16..24].copy_from_slice(&table_addr.to_le_bytes());
    fix_checksum(&mut b, 5, 24);
    b
}

#[test]
fn guid_bytes_match_uefi() {
    assert_eq!(acpi2_guid_bytes(), ConfigTableEntry::ACPI2_GUID.to_bytes());
    assert_eq!(smbios_guid_bytes(), ConfigTableEntry::SMBIOS_GUID.to_bytes());
    assert_eq!(smbios3_guid_bytes(), ConfigTableEntry::SMBIOS3_GUID.to_bytes());
}

#[test]
fn rsdp_struct_is_36_bytes() {
    assert_eq!(core::mem::size_of::<acpi::rsdp::Rsdp>(), RSDP_SIZE);
    assert_eq!(RSDP_SIZE, 36);
}

#[test]
fn checksum_is_byte_sum_mod_256() {
    assert_eq!(checksum(&[]), 0);
    assert_eq!(checksum(&[1, 2, 3]), 6);
    assert_eq!(checksum(&[200, 100]), 44);
    assert_eq!(checksum(&[255, 1]), 0);
    let r = rsdp_bytes(2, 0x7FFE_0000);
    assert_eq!(checksum(&r[..20]), 0);
}

#[test]
fn header_fields_read_little_endian() {
    let b = header_bytes(b"APIC", 0x1_2345);
    let h = AcpiHeader::from_bytes(&b);
    assert_eq!(&h.signature, b"APIC");
    assert_eq!({ h.length }, 0x1_2345);
    assert_eq!(h.revision, 1);
    assert_eq!(h.checksum, 0xAB);
    assert_eq!(&h.oem_id, b"OEMIDX");
    assert_eq!(&h.oem_table_id, b"TABLEID1");
    assert_eq!({ h.oem_revision }, 7);
    assert_eq!(&h.creator_id, b"CRTR");
    assert_eq!({ h.creator_revision }, 0x0102_0304);
}

#[test]
fn rsdp_accepts_acpi2_and_returns_xsdt() {
    assert_eq!(parse_rsdp(&rsdp_bytes(2, 0x7FFE_1000)), Ok(0x7FFE_1000));
    assert_eq!(parse_rsdp(&rsdp_bytes(4, 0x1_0000_0000)), Ok(0x1_0000_0000));
}

#[test]
fn rsdp_errors() {
    let mut bad_sig = rsdp_bytes(2, 0x1000);
    bad_sig[0] = b'X';
    assert_eq!(parse_rsdp(&bad_sig), Err("Invalid RSDP signature"));
    let mut bad_sum = rsdp_bytes(2, 0x1000);
    bad_sum[10] ^= 0x55;
    assert_eq!(parse_rsdp(&bad_sum), Err("RSDP checksum failed"));
    assert_eq!(parse_rsdp(&rsdp_bytes(0, 0x1000)), Err("Only ACPI 2.0+ supported"));
    assert_eq!(parse_rsdp(&rsdp_bytes(1, 0x1000)), Err("Only ACPI 2.0+ supported"));
}

#[test]
fn xsdt_entry_counts() {
    assert_eq!(xsdt_entry_count(36), 0);
    assert_eq!(xsdt_entry_count(36 + 8 * 5), 5);
    assert_eq!(xsdt_entry_count(36 + 8 * 5 + 7), 5);
    assert_eq!(kept_table_count(5), 5);
    assert_eq!(kept_table_count(32), 32);
    assert_eq!(kept_table_count(40), 32);
}

#[test]
fn xsdt_entries_are_u64_addresses() {
    let mut b = Vec::new();
    for a in [0x7FFE_2000u64, 0x1_0000_3000, 0xDEAD_BEEF] {
        b.extend_from_slice(&a.to_le_bytes());
    }
    assert_eq!(parse_xsdt_entries(&b, 3), vec![0x7FFE_2000, 0x1_0000_3000, 0xDEAD_BEEF]);
    assert_eq!(parse_xsdt_entries(&b, 2), vec![0x7FFE_2000, 0x1_0000_3000]);
}

#[test]
fn rsdp_found_by_acpi2_guid() {
    let other = ConfigTableInfo { guid: [0; 16], address: 0x1111 };
    let smbios = ConfigTableInfo { guid: smbios_guid_bytes(), address: 0x2222 };
    let acpi = ConfigTableInfo { guid: acpi2_guid_bytes(), address: 0x3333 };
    let acpi_again = ConfigTableInfo { guid: acpi2_guid_bytes(), address: 0x4444 };
    assert_eq!(find_rsdp(&[other, smbios, acpi, acpi_again]), Some(0x3333));
    assert_eq!(find_rsdp(&[other, smbios]), None);
    assert_eq!(find_rsdp(&[]), None);
}

#[test]
fn smbios_candidates_in_table_order() {
    let entries = [
        ConfigTableInfo { guid: acpi2_guid_bytes(), address: 0x10 },
        ConfigTableInfo { guid: smbios3_guid_bytes(), address: 0x20 },
        ConfigTableInfo { guid: [7; 16], address: 0x30 },
        ConfigTableInfo { guid: smbios_guid_bytes(), address: 0x40 },
    ];
    assert_eq!(
        smbios_candidates(&entries),
        vec![(0x20, SmbiosKind::Smbios3), (0x40, SmbiosKind::Smbios)]
    );
}

#[test]
fn smbios_entry_point_structs() {
    let b = smbios2_ep(31, 0x1234, 0x000E_1000, 42);
    let ep = SmbiosEp::from_bytes(&b);
    assert_eq!(&ep.signature, b"_SM_");
    assert_eq!(ep.length, 31);
    assert_eq!(ep.major_version, 2);
    assert_eq!(ep.minor_version, 8);
    assert_eq!({ ep.max_struct_size }, 0x100);
    assert_eq!({ ep.table_length }, 0x1234);
    assert_eq!({ ep.table_address }, 0x000E_1000);
    assert_eq!({ ep.struct_count }, 42);
    assert_eq!(ep.bcd_revision, 0x28);
    let b3 = smbios3_ep(0x5000, 0x1_7F00_0000);
    let ep3 = Smbios3Ep::from_bytes(&b3);
    assert_eq!(&ep3.signature, b"_SM3_");
    assert_eq!(ep3.length, 24);
    assert_eq!(ep3.major_version, 3);
    assert_eq!(ep3.minor_version, 4);
    assert_eq!({ ep3.table_length }, 0x5000);
    assert_eq!({ ep3.table_address }, 0x1_7F00_0000);
}

#[test]
fn smbios_entry_points_parse() {
    let b = smbios2_ep(31, 0x1234, 0x000E_1000, 42);
    assert_eq!(smbios_ep_size(SmbiosKind::Smbios), 26);
    assert_eq!(smbios_ep_read_len(SmbiosKind::Smbios, &b[..26]), 31);
    assert_eq!(parse_smbios_ep(SmbiosKind::Smbios, &b), Some((0x000E_1000, 0x1234, 0x0002_0008, 42)));
    let b3 = smbios3_ep(0x5000, 0x1_7F00_0000);
    assert_eq!(smbios_ep_size(SmbiosKind::Smbios3), 24);
    assert_eq!(smbios_ep_read_len(SmbiosKind::Smbios3, &b3), 24);
    assert_eq!(parse_smbios_ep(SmbiosKind::Smbios3, &b3), Some((0x1_7F00_0000, 0x5000, 0x0003_0004, 0)));
    // The wrong format for the bytes, a bad checksum, or a missing anchor.
    assert_eq!(parse_smbios_ep(SmbiosKind::Smbios3, &b), None);
    let mut bad = b.clone();
    bad[20] ^= 1;
    assert_eq!(parse_smbios_ep(SmbiosKind::Smbios, &bad), None);
    let zeros = vec![0u8; 32];
    assert_eq!(smbios_ep_read_len(SmbiosKind::Smbios, &zeros), 26);
    assert_eq!(parse_smbios_ep(SmbiosKind::Smbios, &zeros), None);
}

#[test]
fn first_valid_config_candidate_wins() {
    let mut broken = smbios2_ep(31, 1, 2, 3);
    broken[4] ^= 0xFF;
    let cands = vec![
        SmbiosCandidate { kind: SmbiosKind::Smbios, bytes: broken },
        SmbiosCandidate { kind: SmbiosKind::Smbios3, bytes: smbios3_ep(0x800, 0x9000) },
        SmbiosCandidate { kind: SmbiosKind::Smbios, bytes: smbios2_ep(31, 5, 6, 7) },
    ];
    assert_eq!(smbios_from_config(&cands), Some((0x9000, 0x800, 0x0003_0004, 0)));
    assert_eq!(smbios_from_config(&cands[..1]), None);
}

#[test]
fn bios_scan_finds_paragraph_aligned_entry_point() {
    let mut region = vec![0u8; 0x10000];
    let ep = smbios2_ep(31, 0x300, 0x000F_2000, 12);
    region[0x8A0..0x8A0 + ep.len()].copy_from_slice(&ep);
    assert_eq!(scan_bios_for_smbios(&region), Some((0x000F_2000, 0x300, 0x0002_0008, 12)));

    let mut region3 = vec![0u8; 0x10000];
    let ep3 = smbios3_ep(0x700, 0x8000_0000);
    region3[0x40..0x40 + ep3.len()].copy_from_slice(&ep3);
    assert_eq!(scan_bios_for_smbios(&region3), Some((0x8000_0000, 0x700, 0x0003_0004, 0)));
}

#[test]
fn bios_scan_misses_unaligned_or_truncated_entry_points() {
    let mut region = vec![0u8; 0x10000];
    let ep = smbios2_ep(31, 0x300, 0x000F_2000, 12);
    region[0x8A8..0x8A8 + ep.len()].copy_from_slice(&ep);
    assert_eq!(scan_bios_for_smbios(&region), None);

    // An entry point whose length runs past the end of the area.
    let mut tail = vec![0u8; 0x10000];
    let long = smbios2_ep(0x30, 0x300, 0x000F_2000, 12);
    tail[0xFFE0..].copy_from_slice(&long[..0x20]);
    assert_eq!(scan_bios_for_smbios(&tail), None);
    assert_eq!(scan_bios_for_smbios(&[]), None);
}

#[test]
fn acpi_data_records_tables_and_smbios() {
    let tables = [(0x7FFE_2000u64, 0xF4u32), (0x7FFE_3000, 0x120)];
    let d = acpi_data_from_tables(
        0x7FFE_0000,
        0x7FFE_1000,
        36 + 16,
        &tables,
        Some((0x000F_2000, 0x300, 0x0003_0002, 0)),
    );
    assert_eq!(d.rsdp_phys, 0x7FFE_0000);
    assert_eq!(d.xsdt_phys, 0x7FFE_1000);
    assert_eq!(d.table_count, 2);
    assert_eq!(d.table_phys_addrs[0], 0x7FFE_2000);
    assert_eq!(d.table_phys_addrs[1], 0x7FFE_3000);
    assert_eq!(d.table_phys_addrs[2], 0);
    assert_eq!(d.table_sizes[0], 0xF4);
    assert_eq!(d.table_sizes[1], 0x120);
    assert_eq!(d.table_sizes[31], 0);
    assert_eq!(d.rsdp_size as usize, RSDP_SIZE);
    assert_eq!(d.xsdt_size, 52);
    assert_eq!(d.smbios_phys, 0x000F_2000);
    assert_eq!(d.smbios_length, 0x300);
    assert_eq!(d.smbios_version, 0x0003_0002);
    assert_eq!(d.smbios_table_count, 0);
    assert_eq!(d.smbios_type, 1);

    let legacy = acpi_data_from_tables(1, 2, 36, &[], Some((0x9000, 0x10, 0x0002_0007, 9)));
    assert_eq!(legacy.smbios_type, 0);
    let none = acpi_data_from_tables(1, 2, 36, &[], None);
    assert_eq!(none.smbios_phys, 0);
    assert_eq!(get_smbios_info(&none), None);
}

#[test]
fn default_acpi_data_is_zero() {
    let d = AcpiCopiedData::default();
    assert_eq!(d.rsdp_phys, 0);
    assert_eq!(d.table_count, 0);
    assert!(d.table_phys_addrs.iter().all(|a| *a == 0));
    assert!(d.table_sizes.iter().all(|a| *a == 0));
    assert_eq!(d.smbios_phys, 0);
    assert_eq!(d.smbios_type, 0);
}

#[test]
fn smbios_info_when_recorded() {
    let mut d = AcpiCopiedData::default();
    assert_eq!(get_smbios_info(&d), None);
    d.smbios_phys = 0xF0000;
    d.smbios_length = 0x1F;
    d.smbios_version = 0x0002_0008;
    d.smbios_table_count = 40;
    d.smbios_type = 0;
    assert_eq!(get_smbios_info(&d), Some((0xF0000, 0x1F, 0x0002_0008, 40, 0)));
}

#[test]
fn fixed_layout_packs_copies_back_to_back() {
    let sizes = [0xF4u32, 0x120, 0x38];
    let d = fixed_copy_layout(36 + 24, &sizes, Some((0xE1000, 0x200, 0x0002_0008, 30)));
    assert_eq!(d.rsdp_phys, ACPI_COPY_BASE);
    assert_eq!(d.rsdp_phys, 0x200000);
    assert_eq!(d.xsdt_phys, 0x200000 + 36);
    assert_eq!(d.table_count, 3);
    assert_eq!(d.table_phys_addrs[0], 0x200000 + 36 + 60);
    assert_eq!(d.table_phys_addrs[1], d.table_phys_addrs[0] + 0xF4);
    assert_eq!(d.table_phys_addrs[2], d.table_phys_addrs[1] + 0x120);
    assert_eq!(d.table_phys_addrs[3], 0);
    assert_eq!(d.table_sizes[2], 0x38);
    assert_eq!(d.smbios_phys, d.table_phys_addrs[2] + 0x38);
    assert_eq!(d.smbios_length, 0x200);
    assert_eq!(d.smbios_table_count, 30);
    assert_eq!(d.smbios_type, 0);
    assert_eq!(d.rsdp_size, 36);
    assert_eq!(d.xsdt_size, 60);
}

#[test]
fn table_lookup_by_signature() {
    let d = acpi_data_from_tables(1, 2, 36 + 24, &[(0x1000, 0x40), (0, 0), (0x3000, 0x40)], None);
    let sigs = [*b"FACP", *b"APIC", *b"APIC"];
    assert_eq!(find_table_by_signature(&d, &sigs, b"FACP"), Some(0x1000));
    // The second table has address zero and is skipped.
    assert_eq!(find_table_by_signature(&d, &sigs, b"APIC"), Some(0x3000));
    assert_eq!(find_table_by_signature(&d, &sigs, b"HPET"), None);
}
