//! Coherence line sizes known per instruction-set architecture.

use vstd::prelude::*;
use crate::text::str_eq;

verus! {

/// Line size used when nothing better is known about the target.
pub const FALLBACK_COHERENCE_LINE_SIZE: usize = 64;

/// The architecture families with a known coherence line size.
#[allow(non_camel_case_types)]
#[derive(Clone, Copy, Debug, PartialEq, Eq, Structural)]
pub enum Arch {
    X86,
    X86_64,
    Mips,
    Mips64,
    PowerPc,
    PowerPc64,
    RiscV,
    S390x,
    Sparc,
    Sparc64,
    ThumbV6,
    ThumbV7,
    Wasm32,
    Arm,
    Nvptx,
    Nvptx64,
    AArch64,
}

/// The architecture that a target name stands for, if it is a known one.
/// Names are matched exactly.
pub open spec fn arch_named(name: Seq<char>) -> Option<Arch> {
    if name == "x86"@ {
        Some(Arch::X86)
    } else if name == "x86_64"@ {
        Some(Arch::X86_64)
    } else if name == "mips"@ {
        Some(Arch::Mips)
    } else if name == "mips64"@ {
        Some(Arch::Mips64)
    } else if name == "powerpc"@ {
        Some(Arch::PowerPc)
    } else if name == "powerpc64"@ {
        Some(Arch::PowerPc64)
    } else if name == "riscv"@ {
        Some(Arch::RiscV)
    } else if name == "s390x"@ {
        Some(Arch::S390x)
    } else if name == "sparc"@ {
        Some(Arch::Sparc)
    } else if name == "sparc64"@ {
        Some(Arch::Sparc64)
    } else if name == "thumbv6"@ {
        Some(Arch::ThumbV6)
    } else if name == "thumbv7"@ {
        Some(Arch::ThumbV7)
    } else if name == "wasm32"@ {
        Some(Arch::Wasm32)
    } else if name == "arm"@ {
        Some(Arch::Arm)
    } else if name == "nvptx"@ {
        Some(Arch::Nvptx)
    } else if name == "nvptx64"@ {
        Some(Arch::Nvptx64)
    } else if name == "aarch64"@ {
        Some(Arch::AArch64)
    } else {
        None
    }
}

/// The line size of the target: the architecture's own where the
/// architecture is known, the fallback where it is not.
pub open spec fn target_line_size(arch: Option<Arch>) -> usize {
    match arch {
        Some(a) => a.spec_line_size(),
        None => FALLBACK_COHERENCE_LINE_SIZE,
    }
}

impl Arch {
    /// Line size of the family, grouped by value: 256 bytes on s390x, 128 on
    /// x86_64 and NVPTX, 32 on the MIPS, 32-bit PowerPC, 32-bit SPARC, Thumb
    /// and ARM families, 64 on all others.
    pub open spec fn spec_line_size(self) -> usize {
        if self == Arch::S390x {
            256
        } else if self == Arch::X86_64 || self == Arch::Nvptx || self == Arch::Nvptx64 {
            128
        } else if self == Arch::Mips || self == Arch::Mips64 || self == Arch::PowerPc
            || self == Arch::Sparc || self == Arch::ThumbV6 || self == Arch::ThumbV7
            || self == Arch::Arm {
            32
        } else {
            64
        }
    }

    /// Coherence line size, in bytes, of this architecture family.
    pub fn line_size(self) -> (size: usize)
        ensures
            size == self.spec_line_size(),
            size != 0,
            size % 2 == 0,
    {
        match self {
            // Everything but the NetBurst parts uses 64 bytes.
            Arch::X86 => 64,
            // The L2 streamer works on blocks of 128 bytes.
            Arch::X86_64 => 128,
            Arch::Mips => 32,
            Arch::Mips64 => 32,
            Arch::PowerPc => 32,
            Arch::PowerPc64 => 64,
            Arch::RiscV => 64,
            Arch::S390x => 256,
            Arch::Sparc => 32,
            Arch::Sparc64 => 64,
            Arch::ThumbV6 => 32,
            Arch::ThumbV7 => 32,
            Arch::Wasm32 => FALLBACK_COHERENCE_LINE_SIZE,
            Arch::Arm => 32,
            // Four sectors of 32 bytes make one line.
            Arch::Nvptx => 128,
            Arch::Nvptx64 => 128,
            Arch::AArch64 => 64,
        }
    }

    /// Finds the architecture that a target name such as `"x86_64"` stands
    /// for. Unknown names give `None`.
    pub fn from_target(name: &str) -> (arch: Option<Arch>)
        ensures
            arch == arch_named(name@),
    {
        if str_eq(name, "x86") {
            Some(Arch::X86)
        } else if str_eq(name, "x86_64") {
            Some(Arch::X86_64)
        } else if str_eq(name, "mips") {
            Some(Arch::Mips)
        } else if str_eq(name, "mips64") {
            Some(Arch::Mips64)
        } else if str_eq(name, "powerpc") {
            Some(Arch::PowerPc)
        } else if str_eq(name, "powerpc64") {
            Some(Arch::PowerPc64)
        } else if str_eq(name, "riscv") {
            Some(Arch::RiscV)
        } else if str_eq(name, "s390x") {
            Some(Arch::S390x)
        } else if str_eq(name, "sparc") {
            Some(Arch::Sparc)
        } else if str_eq(name, "sparc64") {
            Some(Arch::Sparc64)
        } else if str_eq(name, "thumbv6") {
            Some(Arch::ThumbV6)
        } else if str_eq(name, "thumbv7") {
            Some(Arch::ThumbV7)
        } else if str_eq(name, "wasm32") {
            Some(Arch::Wasm32)
        } else if str_eq(name, "arm") {
            Some(Arch::Arm)
        } else if str_eq(name, "nvptx") {
            Some(Arch::Nvptx)
        } else if str_eq(name, "nvptx64") {
            Some(Arch::Nvptx64)
        } else if str_eq(name, "aarch64") {
            Some(Arch::AArch64)
        } else {
            None
        }
    }
}

/// Line size compiled in for the target: the entry of `arch` where there is
/// one, [`FALLBACK_COHERENCE_LINE_SIZE`] for an unrecognised architecture.
pub fn coherence_line_size(arch: Option<Arch>) -> (size: usize)
    ensures
        size == target_line_size(arch),
        arch is None ==> size == FALLBACK_COHERENCE_LINE_SIZE,
        size != 0,
        size % 2 == 0,
{
    match arch {
        Some(a) => a.line_size(),
        None => FALLBACK_COHERENCE_LINE_SIZE,
    }
}

} // verus!
