use grampc_s_rs::error::Error;
use grampc_s_rs::kernel::StationaryKernel;
use grampc_s_rs::layout::{count_dependencies, scatter_active, InputLayout};

struct Fixed(usize);

impl StationaryKernel for Fixed {
    fn dimension(&self) -> usize {
        self.0
    }

    fn input_dimension(&self) -> usize {
        self.0
    }
}

fn layout() -> InputLayout {
    InputLayout::new(3, &Fixed(3), vec![true, false, true], vec![false, true]).unwrap()
}

#[test]
fn counts_active_positions() {
    assert_eq!(count_dependencies(&[]), 0);
    assert_eq!(count_dependencies(&[true, false, true, true]), 3);
}

#[test]
fn scatter_places_values_at_active_positions() {
    assert_eq!(scatter_active(&[true, false, true], &[1.5, 2.5], 0.0), vec![1.5, 0.0, 2.5]);
    assert_eq!(scatter_active(&[false, false], &[9], 0), vec![0, 0]);
    assert_eq!(scatter_active(&[true], &[7, 8], 0), vec![7]);
}

#[test]
fn layout_rejects_kernel_of_other_dimension() {
    let res = InputLayout::new(2, &Fixed(3), vec![true], vec![true]);
    assert_eq!(
        res.err(),
        Some(Error::DimensionMismatch { context: "gaussian process kernel", expected: 3, actual: 2 })
    );
}

#[test]
fn layout_rejects_dependencies_of_other_count() {
    let res = InputLayout::new(2, &Fixed(2), vec![true, true], vec![true]);
    assert_eq!(
        res.err(),
        Some(Error::DimensionMismatch {
            context: "gaussian process dependencies",
            expected: 2,
            actual: 3,
        })
    );
}

#[test]
fn layout_indices_cover_the_kernel_inputs_in_order() {
    let layout = layout();
    assert_eq!(layout.input_dimension(), 3);
    assert_eq!(layout.state_indices(), &vec![0, 1]);
    assert_eq!(layout.control_indices(), &vec![2]);
    assert_eq!(layout.state_dependency(), &vec![true, false, true]);
    assert_eq!(layout.control_dependency(), &vec![false, true]);
    let copy = layout.clone();
    assert_eq!(copy.control_indices(), &vec![2]);
}

#[test]
fn evaluation_point_takes_active_state_then_active_control() {
    let layout = layout();
    assert_eq!(layout.evaluation_point(&[1.0, 2.0, 3.0], &[4.0, 5.0]), Ok(vec![1.0, 3.0, 5.0]));
}

#[test]
fn evaluation_point_checks_state_then_control_lengths() {
    let layout = layout();
    assert_eq!(
        layout.evaluation_point(&[1, 2], &[4]),
        Err(Error::DimensionMismatch { context: "gaussian process state", expected: 3, actual: 2 })
    );
    assert_eq!(
        layout.evaluation_point(&[1, 2, 3], &[4]),
        Err(Error::DimensionMismatch { context: "gaussian process control", expected: 2, actual: 1 })
    );
}

#[test]
fn gradients_scatter_back_with_zeros_where_independent() {
    let layout = layout();
    assert_eq!(layout.scatter_state(&[0.5, -0.5], 0.0), vec![0.5, 0.0, -0.5]);
    assert_eq!(layout.scatter_control(&[2.0], 0.0), vec![0.0, 2.0]);
}

#[test]
fn scatter_then_gather_round_trips() {
    let layout = layout();
    let state = layout.scatter_state(&[7, 8], 0);
    let control = layout.scatter_control(&[9], 0);
    assert_eq!(layout.evaluation_point(&state, &control), Ok(vec![7, 8, 9]));
}
