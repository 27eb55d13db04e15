use minitensor::Tensor;
use minitensor::TensorError;

#[test]
fn relu_positive_test() {
    let mut tensor = Tensor::ones(vec![23usize, 24usize]);
    tensor.relu();
    assert_eq!(tensor.data, vec![1f32.to_bits(); 23 * 24]);
}

#[test]
fn relu_negative_test() {
    let mut tensor = Tensor::x(vec![23usize, 24usize], (-1f32).to_bits());
    tensor.relu();
    assert_eq!(tensor.data, vec![0f32.to_bits(); 23 * 24]);
}

#[test]
fn relu6_negative_test() {
    let mut tensor = Tensor::x(vec![23usize, 24usize], (-1f32).to_bits());
    tensor.relu6();
    assert_eq!(tensor.data, vec![0f32.to_bits(); 23 * 24]);
}

#[test]
fn relu6_positive_test() {
    let mut tensor = Tensor::ones(vec![23usize, 24usize]);
    tensor.relu6();
    assert_eq!(tensor.data, vec![1f32.to_bits(); 23 * 24]);
}

#[test]
fn relu6_positive_exceeding_test() {
    let mut tensor = Tensor::x(vec![23usize, 24usize], 98f32.to_bits());
    tensor.relu6();
    assert_eq!(tensor.data, vec![6f32.to_bits(); 23 * 24]);
}

#[test]
fn new_accepts_matching_shape() {
    let data: Vec<u32> = vec![1f32, 2.0, 3.0, 4.0].into_iter().map(f32::to_bits).collect();
    let tensor = Tensor::new(data.clone(), vec![2usize, 2usize]).unwrap();
    assert_eq!(tensor.data, data);
    assert_eq!(tensor.shape, vec![2usize, 2usize]);
    assert_eq!(tensor.size(), 4);
    assert_eq!(tensor.name, "?");
}

#[test]
fn new_rejects_mismatched_shape() {
    let data: Vec<u32> = vec![1f32, 2.0, 3.0].into_iter().map(f32::to_bits).collect();
    let result = Tensor::new(data, vec![2usize, 2usize]);
    assert!(matches!(result, Err(TensorError::ShapeMismatch)));
}

#[test]
fn new_rejects_elements_with_empty_shape() {
    let result = Tensor::new(vec![1f32.to_bits()], vec![]);
    assert!(matches!(result, Err(TensorError::ShapeMismatch)));
}

#[test]
fn filled_has_product_size_and_uniform_elements() {
    let tensor = Tensor::x(vec![3usize, 4usize], 2.5f32.to_bits());
    assert_eq!(tensor.size(), 12);
    assert_eq!(tensor.data, vec![2.5f32.to_bits(); 12]);
}

#[test]
fn filled_with_zero_dimension_is_elementless() {
    let tensor = Tensor::x(vec![2usize, 0usize, 3usize], 1f32.to_bits());
    assert_eq!(tensor.size(), 0);
    assert_eq!(tensor.data, Vec::<u32>::new());
}

#[test]
fn ones_matches_filled_with_one() {
    let ones = Tensor::ones(vec![2usize, 3usize]);
    let filled = Tensor::x(vec![2usize, 3usize], 1f32.to_bits());
    assert_eq!(ones.data, filled.data);
    assert_eq!(ones.shape, filled.shape);
}

#[test]
fn empty_tensor_has_no_shape_and_no_elements() {
    let tensor = Tensor::empty();
    assert_eq!(tensor.shape, Vec::<usize>::new());
    assert_eq!(tensor.data, Vec::<u32>::new());
    assert_eq!(tensor.size(), 0);
}

#[test]
fn fill_like_copies_shape_exactly() {
    let reference = Tensor::x(vec![4usize, 5usize], (-7.25f32).to_bits());
    let filled = Tensor::fill_like(&reference, 2f32.to_bits());
    assert_eq!(filled.shape, vec![4usize, 5usize]);
    assert_eq!(filled.size(), 20);
    assert_eq!(filled.data, vec![2f32.to_bits(); 20]);
}

#[test]
fn relu_on_mixed_values() {
    let values = [-3.5f32, 0.0, -0.0, f32::NAN, 2.5, 7.0];
    let data: Vec<u32> = values.iter().map(|v| v.to_bits()).collect();
    let mut tensor = Tensor::new(data, vec![6usize]).unwrap();
    tensor.relu();
    let expected: Vec<u32> = [0.0f32, 0.0, 0.0, 0.0, 2.5, 7.0].iter().map(|v| v.to_bits()).collect();
    assert_eq!(tensor.data, expected);
}

#[test]
fn relu6_on_mixed_values() {
    let values = [-3.5f32, 0.0, -0.0, f32::NAN, 2.5, 7.0];
    let data: Vec<u32> = values.iter().map(|v| v.to_bits()).collect();
    let mut tensor = Tensor::new(data, vec![6usize]).unwrap();
    tensor.relu6();
    let expected: Vec<u32> = [0.0f32, 0.0, 0.0, 0.0, 2.5, 6.0].iter().map(|v| v.to_bits()).collect();
    assert_eq!(tensor.data, expected);
}

#[test]
fn relu_x_with_negative_threshold_clamps_everything_down() {
    let data: Vec<u32> = vec![5f32, -3.0].into_iter().map(f32::to_bits).collect();
    let mut tensor = Tensor::new(data, vec![2usize]).unwrap();
    tensor.relu_x((-1f32).to_bits());
    assert_eq!(tensor.data, vec![(-1f32).to_bits(); 2]);
}

#[test]
fn relu_x_with_nan_threshold_leaves_relu_result() {
    let data: Vec<u32> = vec![5f32, -3.0].into_iter().map(f32::to_bits).collect();
    let mut tensor = Tensor::new(data, vec![2usize]).unwrap();
    tensor.relu_x(f32::NAN.to_bits());
    assert_eq!(tensor.data, vec![5f32.to_bits(), 0f32.to_bits()]);
}

#[test]
fn add_of_consecutive_and_constant() {
    let data: Vec<u32> = (1..=12).map(|v| (v as f32).to_bits()).collect();
    let x = Tensor::new(data, vec![2usize, 2usize, 3usize]).unwrap();
    let y = Tensor::fill_like(&x, 30f32.to_bits());
    let sum = x.add(&y).unwrap();
    assert_eq!(sum.shape, vec![2usize, 2usize, 3usize]);
    let expected: Vec<u32> = (31..=42).map(|v| (v as f32).to_bits()).collect();
    assert_eq!(sum.data, expected);
}

#[test]
fn add_is_commutative() {
    let a_data: Vec<u32> = vec![1.5f32, -2.25, 0.125, 30.0].into_iter().map(f32::to_bits).collect();
    let b_data: Vec<u32> = vec![0.25f32, 10.0, -0.5, 0.75].into_iter().map(f32::to_bits).collect();
    let a = Tensor::new(a_data, vec![2usize, 2usize]).unwrap();
    let b = Tensor::new(b_data, vec![2usize, 2usize]).unwrap();
    let ab = a.add(&b).unwrap();
    let ba = b.add(&a).unwrap();
    assert_eq!(ab.data, ba.data);
    assert_eq!(ab.shape, ba.shape);
}

#[test]
fn add_rounds_like_native_arithmetic() {
    let a = Tensor::new(vec![0.1f32.to_bits()], vec![1usize]).unwrap();
    let b = Tensor::new(vec![0.2f32.to_bits()], vec![1usize]).unwrap();
    let sum = a.add(&b).unwrap();
    assert_eq!(sum.data, vec![(0.1f32 + 0.2f32).to_bits()]);
}

#[test]
fn add_rejects_different_shapes() {
    let a = Tensor::x(vec![2usize], 1f32.to_bits());
    let b = Tensor::x(vec![3usize], 1f32.to_bits());
    assert!(matches!(a.add(&b), Err(TensorError::ShapeMismatch)));
}

#[test]
fn add_rejects_same_size_but_different_shape() {
    let a = Tensor::x(vec![2usize, 3usize], 1f32.to_bits());
    let b = Tensor::x(vec![3usize, 2usize], 1f32.to_bits());
    assert!(matches!(a.add(&b), Err(TensorError::ShapeMismatch)));
}

#[test]
fn add_of_empty_tensors() {
    let a = Tensor::empty();
    let b = Tensor::empty();
    let sum = a.add(&b).unwrap();
    assert_eq!(sum.shape, Vec::<usize>::new());
    assert_eq!(sum.data, Vec::<u32>::new());
}
