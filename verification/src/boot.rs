//! Validation of the information handed over by the bootloader.

use vstd::prelude::*;

verus! {

/// Information from bootloader.
#[derive(Debug, Clone, Copy)]
pub struct BootloaderInfo {
    pub memory_map_addr: u64,
    pub memory_map_size: u64,
    pub kernel_phys_base: u64,
    pub kernel_virt_base: u64,
    pub framebuffer_addr: u64,
    pub framebuffer_size: u64,
    pub acpi_rsdp_addr: u64,
}

/// Lowest physical address at which the kernel may be loaded (1 MiB).
pub const KERNEL_MIN_PHYS: u64 = 0x100000;

/// The last 32-bit physical address; the kernel must be loaded below it.
pub const KERNEL_PHYS_LIMIT: u64 = 0xFFFF_FFFF;

/// The error that `validate_bootloader_data` gives for `info`, if any, in the order the
/// checks are made.
pub open spec fn boot_data_error(info: Option<BootloaderInfo>) -> Option<&'static str> {
    match info {
        None => Some("Bootloader info not available"),
        Some(i) => if i.memory_map_addr == 0 || i.memory_map_size == 0 {
            Some("Invalid memory map from bootloader")
        } else if i.kernel_phys_base < KERNEL_MIN_PHYS || i.kernel_phys_base >= KERNEL_PHYS_LIMIT {
            Some("Kernel loaded at invalid physical address")
        } else if i.kernel_virt_base == i.kernel_phys_base && i.kernel_virt_base > KERNEL_MIN_PHYS {
            Some("Virtual and physical bases are identical (kernel needs higher-half mapping)")
        } else if i.framebuffer_size > 0 && i.framebuffer_addr == 0 {
            Some("Framebuffer size non-zero but address is null")
        } else {
            None
        },
    }
}

/// Validate bootloader provided data: the memory map is present, the kernel lies at a
/// valid physical address, it is mapped into the higher half, and a framebuffer with a
/// size has an address.
pub fn validate_bootloader_data(info: Option<BootloaderInfo>) -> (r: Result<(), &'static str>)
    ensures
        r == (match boot_data_error(info) {
            None => Ok::<(), &'static str>(()),
            Some(e) => Err(e),
        }),
{
    let info = match info {
        None => return Err("Bootloader info not available"),
        Some(i) => i,
    };
    if info.memory_map_addr == 0 || info.memory_map_size == 0 {
        return Err("Invalid memory map from bootloader");
    }
    if info.kernel_phys_base < KERNEL_MIN_PHYS || info.kernel_phys_base >= KERNEL_PHYS_LIMIT {
        return Err("Kernel loaded at invalid physical address");
    }
    if info.kernel_virt_base == info.kernel_phys_base && info.kernel_virt_base > KERNEL_MIN_PHYS {
        return Err("Virtual and physical bases are identical (kernel needs higher-half mapping)");
    }
    if info.framebuffer_size > 0 && info.framebuffer_addr == 0 {
        return Err("Framebuffer size non-zero but address is null");
    }
    Ok(())
}

/// Bootloader data is accepted exactly when the memory map has an address and a size,
/// the kernel's physical base lies in [1 MiB, 0xFFFF_FFFF), the kernel is not
/// identity-mapped above 1 MiB (its virtual base, as a full 64-bit value, differs from
/// its physical base), and a framebuffer with a size has an address.
pub proof fn lemma_boot_data_accepted_iff_consistent(i: BootloaderInfo)
    ensures
        boot_data_error(Some(i)) is None <==> {
            &&& i.memory_map_addr != 0
            &&& i.memory_map_size != 0
            &&& 0x100000 <= i.kernel_phys_base < 0xFFFF_FFFF
            &&& !(i.kernel_virt_base == i.kernel_phys_base && i.kernel_virt_base > 0x100000)
            &&& !(i.framebuffer_size > 0 && i.framebuffer_addr == 0)
        },
        boot_data_error(None) is Some,
{
}

/// Each error is reported for exactly its own failed check, the checks being taken in
/// order: the memory map, the kernel's physical range, the higher-half mapping, and
/// the framebuffer.
pub proof fn lemma_boot_data_errors(i: BootloaderInfo)
    ensures
        boot_data_error(Some(i)) == Some("Invalid memory map from bootloader")
            <==> (i.memory_map_addr == 0 || i.memory_map_size == 0),
        boot_data_error(Some(i)) == Some("Kernel loaded at invalid physical address") <==> {
            &&& i.memory_map_addr != 0 && i.memory_map_size != 0
            &&& (i.kernel_phys_base < 0x100000 || i.kernel_phys_base >= 0xFFFF_FFFF)
        },
        boot_data_error(Some(i)) == Some("Virtual and physical bases are identical (kernel needs higher-half mapping)") <==> {
            &&& i.memory_map_addr != 0 && i.memory_map_size != 0
            &&& 0x100000 <= i.kernel_phys_base < 0xFFFF_FFFF
            &&& i.kernel_virt_base == i.kernel_phys_base
            &&& i.kernel_virt_base > 0x100000
        },
        boot_data_error(Some(i)) == Some("Framebuffer size non-zero but address is null") <==> {
            &&& i.memory_map_addr != 0 && i.memory_map_size != 0
            &&& 0x100000 <= i.kernel_phys_base < 0xFFFF_FFFF
            &&& !(i.kernel_virt_base == i.kernel_phys_base && i.kernel_virt_base > 0x100000)
            &&& i.framebuffer_size > 0 && i.framebuffer_addr == 0
        },
{
    reveal_strlit("Bootloader info not available");
    reveal_strlit("Invalid memory map from bootloader");
    reveal_strlit("Kernel loaded at invalid physical address");
    reveal_strlit("Virtual and physical bases are identical (kernel needs higher-half mapping)");
    reveal_strlit("Framebuffer size non-zero but address is null");
}

} // verus!
