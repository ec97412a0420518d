use grampc_s_rs::error::Error;
use grampc_s_rs::kernel::{require_same_kernel_dimension, KernelProduct, KernelSum, StationaryKernel};

#[derive(Debug, Clone, PartialEq)]
struct Fixed(usize);

impl StationaryKernel for Fixed {
    fn dimension(&self) -> usize {
        self.0
    }

    fn input_dimension(&self) -> usize {
        self.0
    }
}

#[test]
fn kernel_sum_rejects_mismatched_dimensions() {
    let res = KernelSum::new(Fixed(1), Fixed(2));
    assert_eq!(
        res.err(),
        Some(Error::DimensionMismatch { context: "kernel sum", expected: 1, actual: 2 })
    );
}

#[test]
fn kernel_product_rejects_mismatched_dimensions() {
    let res = KernelProduct::new(Fixed(3), Fixed(1));
    assert_eq!(
        res.err(),
        Some(Error::DimensionMismatch { context: "kernel product", expected: 3, actual: 1 })
    );
}

#[test]
fn kernel_sum_keeps_operands_and_their_dimension() {
    let sum = KernelSum::new(Fixed(2), Fixed(2)).unwrap();
    assert_eq!(sum.input_dimension(), 2);
    assert_eq!(sum.left(), &Fixed(2));
    assert_eq!(sum.right(), &Fixed(2));
}

#[test]
fn kernel_product_keeps_operands_and_their_dimension() {
    let product = KernelProduct::new(Fixed(4), Fixed(4)).unwrap();
    assert_eq!(product.input_dimension(), 4);
    assert_eq!(product.left(), &Fixed(4));
    assert_eq!(product.right(), &Fixed(4));
}

#[test]
fn composed_kernels_compose_again() {
    let inner = KernelSum::new(Fixed(3), Fixed(3)).unwrap();
    let outer = KernelProduct::new(inner, Fixed(3)).unwrap();
    assert_eq!(outer.input_dimension(), 3);
    let inner = KernelSum::new(Fixed(3), Fixed(3)).unwrap();
    assert!(KernelProduct::new(inner, Fixed(2)).is_err());
}

#[test]
fn same_dimension_check_reports_both_lengths() {
    assert_eq!(require_same_kernel_dimension(&Fixed(5), &Fixed(5), "ctx"), Ok(5));
    assert_eq!(
        require_same_kernel_dimension(&Fixed(5), &Fixed(6), "ctx"),
        Err(Error::DimensionMismatch { context: "ctx", expected: 5, actual: 6 })
    );
}
