//! Runtime-dispatched elementwise arithmetic over scalar buffers.
//!
//! The host's vector capability is classified into a [`SimdFeatureLevel`];
//! a [`SimdVector`] caches that level and routes each binary operation through
//! the matching lane kernel, with plain scalar arithmetic for the trailing
//! elements and for hosts without a kernel.
mod arm;
mod config;
mod kernel;
mod traits;
mod wrapper;
mod x86;


pub use crate::arm::NeonVector;
pub use crate::kernel::VectorKernel;
pub use crate::x86::Avx2Vector;
pub use crate::config::{CpuFeatures, SimdFeatureLevel, TargetArch};
pub use crate::traits::{LaneOp, SimdField, SimdSupport};

pub use crate::wrapper::{SimdError, SimdVector};
