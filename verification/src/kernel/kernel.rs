//! The kernel entry point.
use vstd::prelude::*;
use crate::boot::acpi::AcpiCopiedData;
use crate::boot::memory::MemoryParams;

verus! {

/// What the kernel's main loop does next.
#[derive(Debug, Clone, Copy, PartialEq, Eq, Structural)]
pub enum KernelAction {
    /// Wait with a spin-loop hint, then ask again.
    Spin,
}

/// One step of the kernel's main loop, given the boot parameters and the
/// ACPI record handed over by the boot stage. The kernel does no work yet:
/// every step it spins, so the loop never ends.
pub fn kernel_main(boot_params: &MemoryParams, acpi_data: &AcpiCopiedData) -> (a: KernelAction)
    ensures
        a == KernelAction::Spin,
{
    KernelAction::Spin
}

} // verus!
