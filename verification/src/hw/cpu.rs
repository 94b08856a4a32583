//! CPU feature checks and the control-register values the kernel sets.

use vstd::prelude::*;

verus! {

/// Whether bit `b` of the register value `reg` is set.
pub open spec fn reg_bit(reg: u32, b: u32) -> bool {
    (reg >> b) & 1 == 1
}

/// Whether bit `b` of the 64-bit register value `reg` is set.
pub open spec fn reg64_bit(reg: u64, b: u64) -> bool {
    (reg >> b) & 1 == 1
}

/// CPU feature flags.
#[derive(Debug, Clone, Copy)]
pub struct CpuFeatures {
    pub has_msr: bool,
    pub has_pae: bool,
    pub has_pse: bool,
    pub has_pge: bool,
    pub has_fxsr: bool,
    pub has_sse: bool,
    pub has_xsave: bool,
    pub has_nx: bool,
    pub has_syscall: bool,
    pub has_rdtscp: bool,
}

proof fn lemma_mask_is_bit(reg: u32, b: u32)
    requires
        b < 32,
    ensures
        (reg & (1u32 << b) != 0) == reg_bit(reg, b),
{
    assert(b < 32 ==> ((reg & (1u32 << b) != 0) == ((reg >> b) & 1 == 1))) by (bit_vector);
}

/// Model-specific register number of IA32_EFER.
pub const IA32_EFER: u32 = 0xC000_0080;

/// Bit of IA32_EFER that enables the no-execute page protection (NXE).
pub const EFER_NXE_BIT: u64 = 11;

/// Bit of CR4 that enables supervisor mode execution prevention (SMEP).
pub const CR4_SMEP_BIT: u64 = 20;

proof fn lemma_set_reg64_bit(reg: u64, b: u64)
    requires
        b < 64,
    ensures
        reg64_bit(reg | (1u64 << b), b),
        forall|c: u64| c < 64 && c != b ==> reg64_bit(reg | (1u64 << b), c) == #[trigger] reg64_bit(reg, c),
{
    assert(b < 64 ==> ((reg | (1u64 << b)) >> b) & 1 == 1) by (bit_vector);
    assert forall|c: u64| c < 64 && c != b implies reg64_bit(reg | (1u64 << b), c) == #[trigger] reg64_bit(reg, c) by {
        assert(b < 64 && c < 64 && c != b ==> (((reg | (1u64 << b)) >> c) & 1 == 1) == ((reg >> c) & 1 == 1))
            by (bit_vector);
    }
}

impl CpuFeatures {
    /// Decode the feature flags from the CPUID registers: EDX and ECX of leaf 1 and
    /// EDX of leaf 0x80000001.
    pub fn from_cpuid(leaf1_edx: u32, leaf1_ecx: u32, ext_edx: u32) -> (f: Self)
        ensures
            f.has_msr == reg_bit(leaf1_edx, 5),
            f.has_pae == reg_bit(leaf1_edx, 6),
            f.has_pse == reg_bit(leaf1_edx, 3),
            f.has_pge == reg_bit(leaf1_edx, 13),
            f.has_fxsr == reg_bit(leaf1_edx, 24),
            f.has_sse == reg_bit(leaf1_edx, 25),
            f.has_xsave == reg_bit(leaf1_ecx, 26),
            f.has_nx == reg_bit(ext_edx, 20),
            f.has_syscall == reg_bit(ext_edx, 11),
            f.has_rdtscp == reg_bit(ext_edx, 27),
    {
        proof {
            lemma_mask_is_bit(leaf1_edx, 5);
            lemma_mask_is_bit(leaf1_edx, 6);
            lemma_mask_is_bit(leaf1_edx, 3);
            lemma_mask_is_bit(leaf1_edx, 13);
            lemma_mask_is_bit(leaf1_edx, 24);
            lemma_mask_is_bit(leaf1_edx, 25);
            lemma_mask_is_bit(leaf1_ecx, 26);
            lemma_mask_is_bit(ext_edx, 20);
            lemma_mask_is_bit(ext_edx, 11);
            lemma_mask_is_bit(ext_edx, 27);
        }
        CpuFeatures {
            has_msr: (leaf1_edx & (1u32 << 5u32)) != 0,
            has_pae: (leaf1_edx & (1u32 << 6u32)) != 0,
            has_pse: (leaf1_edx & (1u32 << 3u32)) != 0,
            has_pge: (leaf1_edx & (1u32 << 13u32)) != 0,
            has_fxsr: (leaf1_edx & (1u32 << 24u32)) != 0,
            has_sse: (leaf1_edx & (1u32 << 25u32)) != 0,
            has_xsave: (leaf1_ecx & (1u32 << 26u32)) != 0,
            has_nx: (ext_edx & (1u32 << 20u32)) != 0,
            has_syscall: (ext_edx & (1u32 << 11u32)) != 0,
            has_rdtscp: (ext_edx & (1u32 << 27u32)) != 0,
        }
    }

    /// Verify required features are present: PAE, PGE, NX and MSR, checked in that
    /// order; the first one missing is reported. A missing feature is fatal: the
    /// kernel cannot run without it, and callers must halt on `Err`, as the
    /// initialization does by panicking with the message.
    pub fn verify_required(features: &CpuFeatures) -> (r: Result<(), &'static str>)
        ensures
            r == (if !features.has_pae {
                Err("CPU missing PAE (Physical Address Extension)")
            } else if !features.has_pge {
                Err("CPU missing PGE (Page Global Enable)")
            } else if !features.has_nx {
                Err("CPU missing NX bit (No-Execute)")
            } else if !features.has_msr {
                Err("CPU missing MSR support")
            } else {
                Ok::<(), &'static str>(())
            }),
    {
        if !features.has_pae {
            return Err("CPU missing PAE (Physical Address Extension)");
        }
        if !features.has_pge {
            return Err("CPU missing PGE (Page Global Enable)");
        }
        if !features.has_nx {
            return Err("CPU missing NX bit (No-Execute)");
        }
        if !features.has_msr {
            return Err("CPU missing MSR support");
        }
        Ok(())
    }
}

/// The IA32_EFER value to write back: with the NX feature, `efer` with the NXE bit
/// set and every other bit kept; without it, nothing is written.
pub fn efer_update(features: &CpuFeatures, efer: u64) -> (r: Option<u64>)
    ensures
        features.has_nx <==> r is Some,
        r matches Some(v) ==> {
            &&& reg64_bit(v, EFER_NXE_BIT)
            &&& forall|c: u64| c < 64 && c != EFER_NXE_BIT ==> reg64_bit(v, c) == #[trigger] reg64_bit(efer, c)
        },
{
    if features.has_nx {
        proof {
            lemma_set_reg64_bit(efer, EFER_NXE_BIT);
        }
        Some(efer | (1u64 << EFER_NXE_BIT))
    } else {
        None
    }
}

/// Whether the CPU supports supervisor mode execution prevention: bit 7 of EBX of
/// CPUID leaf 7, subleaf 0.
pub fn smep_available(leaf7_ebx: u32) -> (r: bool)
    ensures
        r == reg_bit(leaf7_ebx, 7),
{
    proof {
        lemma_mask_is_bit(leaf7_ebx, 7);
    }
    (leaf7_ebx & (1u32 << 7u32)) != 0
}

/// The CR4 value to write back: with SMEP available, `cr4` with the SMEP bit set and
/// every other bit kept; without it, `cr4` unchanged, since setting a bit the CPU
/// does not support faults.
pub fn cr4_with_smep(has_smep: bool, cr4: u64) -> (r: u64)
    ensures
        !has_smep ==> r == cr4,
        has_smep ==> reg64_bit(r, CR4_SMEP_BIT),
        has_smep ==> forall|c: u64| c < 64 && c != CR4_SMEP_BIT ==> reg64_bit(r, c) == #[trigger] reg64_bit(cr4, c),
{
    if has_smep {
        proof {
            lemma_set_reg64_bit(cr4, CR4_SMEP_BIT);
        }
        cr4 | (1u64 << CR4_SMEP_BIT)
    } else {
        cr4
    }
}

} // verus!
