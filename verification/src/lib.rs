//! Dimension bookkeeping, parameter validation and input layout for
//! Gaussian-process residual models built from stationary kernels.

pub mod error;
pub mod kernel;
pub mod layout;
pub mod parameters;
