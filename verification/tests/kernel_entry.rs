use leafboot::boot::acpi::AcpiCopiedData;
use leafboot::boot::memory::{MemoryParams, BOOT_PARAMS_MAGIC};
use leafboot::kernel::kernel::{kernel_main, KernelAction};

#[test]
fn kernel_main_keeps_spinning() {
    let params = MemoryParams {
        magic: BOOT_PARAMS_MAGIC,
        memory_map_phys: 0x1000,
        memory_map_entries: 3,
        memory_map_size: 168,
        usable_ram_size: 0x100_0000,
    };
    let acpi = AcpiCopiedData::default();
    for _ in 0..3 {
        assert_eq!(kernel_main(&params, &acpi), KernelAction::Spin);
    }
}
