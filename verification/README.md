# grampc_s_rs

Building blocks for Gaussian-process residual models in stochastic MPC.

- `src/` is the verified library:
  - `kernel`: the `StationaryKernel` trait (a kernel's input length), the
    dimension check shared by kernel combinators, and `KernelSum` /
    `KernelProduct`;
  - `parameters`: the verdicts of the kernel and data constructors (which
    parameter is refused, and in which order the checks run);
  - `layout`: `InputLayout`, which records which state and control entries a
    process depends on, builds the kernel input from a state and a control,
    and spreads gradients back over the state and the control;
  - `error`: the library's error type.
- `app/` holds the floating-point side over `nalgebra`: the kernels' values
  and gradients, the covariance matrix and its inverse, and the Gaussian
  process's mean, variance and their gradients.
