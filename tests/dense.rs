use dense_stage::block::Block;
use dense_stage::dense::{activate, check_dims, check_widths, Dense, DenseError, DenseParams};

fn scenario_params() -> DenseParams {
    DenseParams {
        weights: vec![
            vec![vec![1, 2, -1], vec![3, -1, 2]],
            vec![vec![2], vec![1], vec![3]],
        ],
        biases: vec![vec![], vec![1, 0, -2], vec![-1]],
    }
}

fn stage(widths: Vec<usize>, linear: bool) -> Dense {
    match Dense::new(widths, linear) {
        Ok(d) => d,
        Err(e) => panic!("construction failed: {:?}", e),
    }
}

#[test]
fn construction_sizes_parameters_from_widths() {
    let d = stage(vec![4, 3, 2], false);
    let p = d.params();
    assert_eq!(p.weights.len(), 2);
    assert_eq!(p.biases.len(), 3);
    assert_eq!(p.biases[0].len(), 0);
    assert_eq!(p.weights[0].len(), 4);
    assert!(p.weights[0].iter().all(|row| row.len() == 3));
    assert_eq!(p.weights[1].len(), 3);
    assert!(p.weights[1].iter().all(|row| row.len() == 2));
    assert_eq!(p.biases[1].len(), 3);
    assert_eq!(p.biases[2].len(), 2);
    assert_eq!(d.input_size(), 4);
}

#[test]
fn construction_rejects_malformed_widths() {
    assert!(matches!(Dense::new(vec![], true), Err(DenseError::Configuration)));
    assert!(matches!(Dense::new(vec![3], true), Err(DenseError::Configuration)));
    assert!(matches!(Dense::new(vec![3, 0, 2], false), Err(DenseError::Configuration)));
    assert!(matches!(Dense::new(vec![0, 2], false), Err(DenseError::Configuration)));
}

#[test]
fn set_input_rejects_wrong_length() {
    let mut d = stage(vec![3, 2], false);
    assert_eq!(d.set_input(vec![1, 2]), Err(DenseError::ShapeMismatch));
    assert_eq!(d.set_input(vec![1, 2, 3, 4]), Err(DenseError::ShapeMismatch));
    assert_eq!(d.set_input(vec![1, 2, 3]), Ok(()));
}

#[test]
fn set_params_rejects_wrong_shape() {
    let mut d = stage(vec![2, 3, 1], false);
    let mut bad = scenario_params();
    bad.weights[1].pop();
    assert_eq!(d.set_params(bad), Err(DenseError::Configuration));
    let mut bad_bias = scenario_params();
    bad_bias.biases[0] = vec![0];
    assert_eq!(d.set_params(bad_bias), Err(DenseError::Configuration));
    assert_eq!(d.set_params(scenario_params()), Ok(()));
}

#[test]
fn unset_input_is_zero() {
    let mut d = stage(vec![2, 3, 1], true);
    d.set_params(scenario_params()).unwrap();
    // zero input: only the biases propagate, [1, 0, -2] then 2 + 0 - 6 - 1
    assert_eq!(d.compute(), vec![-5]);
}

#[test]
fn scenario_two_transitions_rectified() {
    let mut d = stage(vec![2, 3, 1], false);
    d.set_params(scenario_params()).unwrap();
    d.set_input(vec![1, -1]).unwrap();
    // hidden: [1 - 3 + 1, 2 + 1 + 0, -1 - 2 - 2] = [-1, 3, -5] -> [0, 3, 0]
    // output: 0 * 2 + 3 * 1 + 0 * 3 - 1 = 2
    assert_eq!(d.compute(), vec![2]);
}

#[test]
fn scenario_two_transitions_linear() {
    let mut d = stage(vec![2, 3, 1], true);
    d.set_params(scenario_params()).unwrap();
    d.set_input(vec![1, -1]).unwrap();
    // hidden [-1, 3, -5]; output -2 + 3 - 15 - 1
    assert_eq!(d.compute(), vec![-15]);
}

#[test]
fn rectification_applies_to_output_layer() {
    let mut d = stage(vec![2, 3, 1], false);
    let mut p = scenario_params();
    p.biases[2] = vec![-10];
    d.set_params(p).unwrap();
    d.set_input(vec![1, -1]).unwrap();
    assert_eq!(d.compute(), vec![0]);
}

#[test]
fn compute_is_deterministic() {
    let mut a = stage(vec![2, 3, 1], false);
    let mut b = stage(vec![2, 3, 1], false);
    a.set_params(scenario_params()).unwrap();
    b.set_params(scenario_params()).unwrap();
    a.set_input(vec![4, 7]).unwrap();
    b.set_input(vec![4, 7]).unwrap();
    let first = a.compute();
    assert_eq!(first, b.compute());
    assert_eq!(first, a.compute());
}

#[test]
fn activation_policy() {
    assert_eq!(activate(true, -7), -7);
    assert_eq!(activate(true, 0), 0);
    assert_eq!(activate(true, 5), 5);
    assert_eq!(activate(false, -7), 0);
    assert_eq!(activate(false, i64::MIN), 0);
    assert_eq!(activate(false, 0), 0);
    assert_eq!(activate(false, 5), 5);
}

#[test]
fn output_length_is_last_width() {
    let mut d = stage(vec![2, 5, 7, 3], false);
    d.set_input(vec![9, -9]).unwrap();
    assert_eq!(d.compute().len(), 3);
    let mut wide = stage(vec![1, 1, 6], true);
    assert_eq!(wide.compute().len(), 6);
}

#[test]
fn zero_parameters_give_zero_output() {
    for linear in [false, true] {
        let mut d = stage(vec![3, 4, 2], linear);
        d.set_input(vec![5, -8, i64::MAX]).unwrap();
        assert_eq!(d.compute(), vec![0, 0]);
    }
}

#[test]
fn arithmetic_wraps() {
    let mut d = stage(vec![1, 1], true);
    let p = DenseParams { weights: vec![vec![vec![2]]], biases: vec![vec![], vec![1]] };
    d.set_params(p).unwrap();
    d.set_input(vec![i64::MAX]).unwrap();
    assert_eq!(d.compute(), vec![i64::MAX.wrapping_mul(2).wrapping_add(1)]);
}

#[test]
fn block_interface_chains_stages() {
    let mut first = stage(vec![2, 3, 1], false);
    first.set_params(scenario_params()).unwrap();
    let mut second = stage(vec![1, 2], true);
    let p = DenseParams { weights: vec![vec![vec![3, -1]]], biases: vec![vec![], vec![0, 1]] };
    second.set_params(p).unwrap();
    assert_eq!(first.set_block(vec![1, -1]), Ok(()));
    let mid = first.forward_propagate();
    assert_eq!(second.set_block(mid), Ok(()));
    assert_eq!(second.forward_propagate(), vec![6, -1]);
    assert_eq!(second.set_block(vec![1, 2]), Err(DenseError::ShapeMismatch));
}

#[test]
fn width_check() {
    assert!(check_widths(&vec![2, 3, 1]));
    assert!(check_widths(&vec![1, 1]));
    assert!(!check_widths(&vec![]));
    assert!(!check_widths(&vec![4]));
    assert!(!check_widths(&vec![2, 0, 1]));
}

#[test]
fn dimension_check() {
    let w = vec![2, 3, 1];
    assert!(check_dims(&w, &vec![(2, 3), (3, 1)], &vec![0, 3, 1]));
    assert!(!check_dims(&w, &vec![(3, 2), (3, 1)], &vec![0, 3, 1]));
    assert!(!check_dims(&w, &vec![(2, 3), (3, 1)], &vec![1, 3, 1]));
    assert!(!check_dims(&w, &vec![(2, 3), (3, 1)], &vec![0, 3, 2]));
    assert!(!check_dims(&w, &vec![(2, 3)], &vec![0, 3]));
}

#[test]
fn failed_set_block_leaves_stage_unchanged() {
    let mut d = stage(vec![2, 3, 1], false);
    d.set_params(scenario_params()).unwrap();
    d.set_block(vec![1, -1]).unwrap();
    assert_eq!(d.set_block(vec![5]), Err(DenseError::ShapeMismatch));
    assert_eq!(d.forward_propagate(), vec![2]);
    assert_eq!(d.linear(), false);
    assert_eq!(d.input_size(), 2);
}
