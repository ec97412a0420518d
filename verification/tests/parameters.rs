use grampc_s_rs::error::Error;
use grampc_s_rs::parameters::{
    check_data, check_locally_periodic_parameters, check_periodic_parameters,
    check_stationary_parameters, require_positive, require_positive_vector,
};

fn non_positive(name: &'static str, index: Option<usize>) -> Error {
    Error::NonPositiveParameter { name, index }
}

#[test]
fn scalar_parameter_must_be_positive() {
    assert_eq!(require_positive("sigma", false), Ok(()));
    assert_eq!(require_positive("sigma", true), Err(non_positive("sigma", None)));
}

#[test]
fn vector_parameter_reports_empty_and_first_offender() {
    assert_eq!(require_positive_vector("period", &vec![]), Err(Error::Empty("period")));
    assert_eq!(require_positive_vector("period", &vec![false, false]), Ok(()));
    assert_eq!(
        require_positive_vector("period", &vec![false, true, true]),
        Err(non_positive("period", Some(1)))
    );
}

#[test]
fn stationary_kernels_check_sigma_before_length_scales() {
    assert_eq!(check_stationary_parameters(true, &vec![]), Err(non_positive("sigma", None)));
    assert_eq!(check_stationary_parameters(false, &vec![]), Err(Error::Empty("length_scale")));
    assert_eq!(
        check_stationary_parameters(false, &vec![false, false, true]),
        Err(non_positive("length_scale", Some(2)))
    );
    assert_eq!(check_stationary_parameters(false, &vec![false]), Ok(()));
}

#[test]
fn periodic_kernel_checks_lengths_last() {
    assert_eq!(
        check_periodic_parameters(false, &vec![false], &vec![false, false]),
        Err(Error::DimensionMismatch { context: "periodic kernel", expected: 1, actual: 2 })
    );
    assert_eq!(
        check_periodic_parameters(false, &vec![false], &vec![true, false]),
        Err(non_positive("period", Some(0)))
    );
    assert_eq!(check_periodic_parameters(false, &vec![false], &vec![]), Err(Error::Empty("period")));
    assert_eq!(check_periodic_parameters(false, &vec![false, false], &vec![false, false]), Ok(()));
}

#[test]
fn locally_periodic_kernel_checks_lengths_first() {
    assert_eq!(
        check_locally_periodic_parameters(true, &vec![false], &vec![false], &vec![false, false]),
        Err(Error::DimensionMismatch {
            context: "locally periodic kernel",
            expected: 1,
            actual: 2,
        })
    );
    assert_eq!(
        check_locally_periodic_parameters(true, &vec![true], &vec![false], &vec![false]),
        Err(non_positive("length_scale", Some(0)))
    );
    assert_eq!(
        check_locally_periodic_parameters(true, &vec![false], &vec![false], &vec![false]),
        Err(non_positive("sigma", None))
    );
    assert_eq!(
        check_locally_periodic_parameters(false, &vec![false, false], &vec![false, false], &vec![false, true]),
        Err(non_positive("length_scale", Some(1)))
    );
    assert_eq!(
        check_locally_periodic_parameters(false, &vec![false], &vec![false], &vec![false]),
        Ok(())
    );
}

#[test]
fn data_needs_one_output_per_input_and_a_variance_not_negative() {
    assert_eq!(
        check_data(3, 2, true),
        Err(Error::DimensionMismatch { context: "gaussian process data", expected: 3, actual: 2 })
    );
    assert_eq!(check_data(3, 3, true), Err(non_positive("output_noise_variance", None)));
    assert_eq!(check_data(3, 3, false), Ok(()));
}
