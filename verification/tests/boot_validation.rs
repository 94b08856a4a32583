use apollo_kernel::boot::{validate_bootloader_data, BootloaderInfo};

fn good_info() -> BootloaderInfo {
    BootloaderInfo {
        memory_map_addr: 0x8000,
        memory_map_size: 0x1000,
        kernel_phys_base: 0x100000,
        kernel_virt_base: 0xFFFF_8000_0000_0000,
        framebuffer_addr: 0xB8000,
        framebuffer_size: 4000,
        acpi_rsdp_addr: 0xE0000,
    }
}

#[test]
fn accepts_consistent_boot_data() {
    assert_eq!(validate_bootloader_data(Some(good_info())), Ok(()));
}

#[test]
fn rejects_missing_boot_info() {
    assert_eq!(validate_bootloader_data(None), Err("Bootloader info not available"));
}

#[test]
fn rejects_null_or_empty_memory_map() {
    let mut info = good_info();
    info.memory_map_addr = 0;
    assert_eq!(validate_bootloader_data(Some(info)), Err("Invalid memory map from bootloader"));
    let mut info = good_info();
    info.memory_map_size = 0;
    assert_eq!(validate_bootloader_data(Some(info)), Err("Invalid memory map from bootloader"));
}

#[test]
fn rejects_kernel_outside_physical_window() {
    let mut info = good_info();
    info.kernel_phys_base = 0xFFFFF;
    assert_eq!(validate_bootloader_data(Some(info)), Err("Kernel loaded at invalid physical address"));
    let mut info = good_info();
    info.kernel_phys_base = 0xFFFF_FFFF;
    assert_eq!(validate_bootloader_data(Some(info)), Err("Kernel loaded at invalid physical address"));
    let mut info = good_info();
    info.kernel_phys_base = 0xFFFF_FFFE;
    assert_eq!(validate_bootloader_data(Some(info)), Ok(()));
}

#[test]
fn rejects_identity_mapped_kernel_above_one_mib() {
    let mut info = good_info();
    info.kernel_phys_base = 0x200000;
    info.kernel_virt_base = 0x200000;
    assert_eq!(
        validate_bootloader_data(Some(info)),
        Err("Virtual and physical bases are identical (kernel needs higher-half mapping)")
    );
    // At exactly 1 MiB an identity mapping is still accepted.
    let mut info = good_info();
    info.kernel_phys_base = 0x100000;
    info.kernel_virt_base = 0x100000;
    assert_eq!(validate_bootloader_data(Some(info)), Ok(()));
}

#[test]
fn rejects_framebuffer_without_address() {
    let mut info = good_info();
    info.framebuffer_addr = 0;
    assert_eq!(
        validate_bootloader_data(Some(info)),
        Err("Framebuffer size non-zero but address is null")
    );
    let mut info = good_info();
    info.framebuffer_addr = 0;
    info.framebuffer_size = 0;
    assert_eq!(validate_bootloader_data(Some(info)), Ok(()));
}

#[test]
fn reports_first_failing_check() {
    let mut info = good_info();
    info.memory_map_addr = 0;
    info.kernel_phys_base = 0;
    info.framebuffer_addr = 0;
    assert_eq!(validate_bootloader_data(Some(info)), Err("Invalid memory map from bootloader"));
}
