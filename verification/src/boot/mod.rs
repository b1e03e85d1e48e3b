//! The boot-time parts of the loader: memory map processing and firmware
//! table discovery.
pub mod acpi;
pub mod bytes;
pub mod memory;
