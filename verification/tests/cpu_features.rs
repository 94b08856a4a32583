use apollo_kernel::hw::cpu::{cr4_with_smep, efer_update, smep_available, CpuFeatures};

fn all_features() -> CpuFeatures {
    CpuFeatures::from_cpuid(0xFFFF_FFFF, 0xFFFF_FFFF, 0xFFFF_FFFF)
}

#[test]
fn decodes_cpuid_bits() {
    let edx1 = (1u32 << 5) | (1 << 13) | (1 << 25);
    let ecx1 = 1u32 << 26;
    let ext = (1u32 << 20) | (1 << 27);
    let f = CpuFeatures::from_cpuid(edx1, ecx1, ext);
    assert!(f.has_msr && !f.has_pae && !f.has_pse && f.has_pge && !f.has_fxsr && f.has_sse);
    assert!(f.has_xsave && f.has_nx && !f.has_syscall && f.has_rdtscp);
    let g = CpuFeatures::from_cpuid(1 << 6 | 1 << 3 | 1 << 24, 0, 1 << 11);
    assert!(!g.has_msr && g.has_pae && g.has_pse && !g.has_pge && g.has_fxsr && !g.has_sse);
    assert!(!g.has_xsave && !g.has_nx && g.has_syscall && !g.has_rdtscp);
}

#[test]
fn accepts_cpu_with_required_features() {
    assert_eq!(CpuFeatures::verify_required(&all_features()), Ok(()));
}

#[test]
fn reports_each_missing_required_feature() {
    let mut f = all_features();
    f.has_pae = false;
    assert_eq!(CpuFeatures::verify_required(&f), Err("CPU missing PAE (Physical Address Extension)"));
    let mut f = all_features();
    f.has_pge = false;
    assert_eq!(CpuFeatures::verify_required(&f), Err("CPU missing PGE (Page Global Enable)"));
    let mut f = all_features();
    f.has_nx = false;
    assert_eq!(CpuFeatures::verify_required(&f), Err("CPU missing NX bit (No-Execute)"));
    let mut f = all_features();
    f.has_msr = false;
    assert_eq!(CpuFeatures::verify_required(&f), Err("CPU missing MSR support"));
    let f = CpuFeatures::from_cpuid(0, 0, 0);
    assert_eq!(CpuFeatures::verify_required(&f), Err("CPU missing PAE (Physical Address Extension)"));
}

#[test]
fn optional_features_are_not_required() {
    let mut f = all_features();
    f.has_pse = false;
    f.has_fxsr = false;
    f.has_sse = false;
    f.has_xsave = false;
    f.has_syscall = false;
    f.has_rdtscp = false;
    assert_eq!(CpuFeatures::verify_required(&f), Ok(()));
}

#[test]
fn efer_gets_nx_enable_only_with_nx() {
    assert_eq!(efer_update(&all_features(), 0x501), Some(0xD01));
    assert_eq!(efer_update(&all_features(), 0xD01), Some(0xD01));
    let mut f = all_features();
    f.has_nx = false;
    assert_eq!(efer_update(&f, 0x501), None);
}

#[test]
fn cr4_gets_smep() {
    assert_eq!(cr4_with_smep(true, 0x20), 0x100020);
    assert_eq!(cr4_with_smep(true, 0x100000), 0x100000);
}

#[test]
fn cr4_kept_without_smep() {
    assert_eq!(cr4_with_smep(false, 0x20), 0x20);
    assert_eq!(cr4_with_smep(false, 0x100020), 0x100020);
}

#[test]
fn smep_is_leaf7_ebx_bit7() {
    assert!(smep_available(1 << 7));
    assert!(smep_available(0xFFFF_FFFF));
    assert!(!smep_available(0xFFFF_FF7F));
    assert!(!smep_available(0));
}
