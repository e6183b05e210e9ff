use vstd::prelude::*;

verus! {

/// The instruction-set family the process was built for.
#[derive(Clone, Copy, Debug, PartialEq, Eq, Structural)]
pub enum TargetArch {
    X86_64,
    Aarch64,
    Other,
}

/// What the host reports about its vector units, as plain values.
#[derive(Clone, Copy, Debug, PartialEq, Eq, Structural)]
pub struct CpuFeatures {
    pub arch: TargetArch,
    /// The host reports the AVX2 extension (meaningful on x86_64 only).
    pub avx2: bool,
}

/// The vector-instruction capability a process works with.
#[derive(Clone, Copy, Debug, PartialEq, Eq, Structural)]
pub enum SimdFeatureLevel {
    /// No vector unit is used: every element goes through scalar arithmetic.
    Scalar,
    /// x86_64 with the AVX2 extension.
    Avx2,
    /// aarch64 with the NEON extension.
    Neon,
}

impl SimdFeatureLevel {
    /// The level chosen for a host: AVX2 on an x86_64 host that reports it,
    /// NEON on every aarch64 host, no acceleration otherwise.
    pub open spec fn spec_detect(cpu: CpuFeatures) -> SimdFeatureLevel {
        match cpu.arch {
            TargetArch::X86_64 => if cpu.avx2 {
                SimdFeatureLevel::Avx2
            } else {
                SimdFeatureLevel::Scalar
            },
            TargetArch::Aarch64 => SimdFeatureLevel::Neon,
            TargetArch::Other => SimdFeatureLevel::Scalar,
        }
    }

    /// Elements handled by one hardware operation at this level.
    pub open spec fn spec_vector_width(self) -> nat {
        match self {
            SimdFeatureLevel::Scalar => 1,
            SimdFeatureLevel::Avx2 => 32,
            SimdFeatureLevel::Neon => 16,
        }
    }

    /// Whether a lane kernel exists for this level.
    pub open spec fn spec_accelerated(self) -> bool {
        self != SimdFeatureLevel::Scalar
    }

    /// Classifies the host's capability flags into the best level available.
    pub fn detect(cpu: &CpuFeatures) -> (r: SimdFeatureLevel)
        ensures
            r == Self::spec_detect(*cpu),
    {
        match cpu.arch {
            TargetArch::X86_64 => {
                if cpu.avx2 {
                    SimdFeatureLevel::Avx2
                } else {
                    SimdFeatureLevel::Scalar
                }
            },
            TargetArch::Aarch64 => SimdFeatureLevel::Neon,
            TargetArch::Other => SimdFeatureLevel::Scalar,
        }
    }

    /// The fixed element count per hardware operation (1 for `Scalar`).
    pub fn vector_width(&self) -> (r: usize)
        ensures
            r as nat == self.spec_vector_width(),
            r >= 1,
    {
        match self {
            SimdFeatureLevel::Scalar => 1,
            SimdFeatureLevel::Avx2 => 32,
            SimdFeatureLevel::Neon => 16,
        }
    }
}

/// Detection is a function of what the host reports: asked again about the
/// same host it gives the same level, so a level cached once stays valid.
pub proof fn lemma_detect_repeatable(first: CpuFeatures, second: CpuFeatures)
    requires
        first == second,
    ensures
        SimdFeatureLevel::spec_detect(first) == SimdFeatureLevel::spec_detect(second),
{
}

} // verus!
