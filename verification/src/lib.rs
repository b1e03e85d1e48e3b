//! Verified core of the Leaf UEFI boot stage: it turns the firmware memory map
//! into the region list handed to the kernel, reserves the hand-over region,
//! and reads the ACPI and SMBIOS entry structures out of raw bytes.
pub mod boot;
pub mod kernel;
