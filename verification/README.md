# leafboot

The boot stage of the Leaf kernel, as a UEFI application. Before leaving the
boot services it collects the physical memory map, reserves a region for the
kernel's copy of that map, finds the ACPI tables and the SMBIOS table, and
reads a random seed; then it enters the kernel.

- `src/` is the verified library (Verus): classification of memory map
  descriptors, the bounded region list, hand-over reservation, merging of
  neighbouring regions, the boot parameters, and the RSDP / XSDT / SMBIOS
  entry point checks and scans over raw bytes.
- `app/` is the UEFI program around it: it reads the firmware memory map, the
  configuration table and physical memory, writes the hand-over copy, prints,
  reads the RNG protocol, exits the boot services and runs the kernel loop.
- `tests/` exercises the library on concrete memory maps and table bytes.
