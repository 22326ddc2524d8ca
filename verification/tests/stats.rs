use inferrous_core::bits_is_nan;
use inferrous_core::mean_divisor;
use inferrous_core::median;
use inferrous_core::sort_bits;
use inferrous_core::MedianError;

fn to_bits(data: &[f64]) -> Vec<u64> {
    data.iter().map(|x| x.to_bits()).collect()
}

fn median_value(data: &[f64]) -> Result<f64, MedianError> {
    let selection = median(&to_bits(data))?;
    if data.len() % 2 == 1 {
        Ok(f64::from_bits(selection.lo))
    } else {
        Ok((f64::from_bits(selection.lo) + f64::from_bits(selection.hi)) / 2.0)
    }
}

fn mean_value(data: &[f64]) -> Option<f64> {
    let n = mean_divisor(&to_bits(data))?;
    let sum: f64 = data.iter().sum();
    Some(sum / n as f64)
}

#[test]
fn test_median_with_even_length() {
    let data = [1.0, 2.0, 3.0, 4.0];
    assert_eq!(median_value(&data), Ok(2.5));
}

#[test]
fn test_median_with_odd_length() {
    let data = [1.0, 2.0, 3.0];
    assert_eq!(median_value(&data), Ok(2.0));
}

#[test]
fn test_median_with_empty_slice() {
    let data: [f64; 0] = [];
    assert_eq!(median_value(&data), Err(MedianError::EmptyInput));
}

#[test]
fn test_median_with_nan() {
    let data = [1.0, f64::NAN, 2.0, 3.0];
    assert_eq!(median_value(&data), Err(MedianError::ContainsNaN));
}

#[test]
fn test_median_with_duplicates() {
    let data = [3.0, 1.0, 2.0, 2.0];
    assert_eq!(median_value(&data), Ok(2.0));
}

#[test]
fn test_median_with_large_slice() {
    let data: Vec<f64> = (1..=1_001).map(|x| x as f64).collect();
    assert_eq!(median_value(&data), Ok(501.0));
}

#[test]
fn test_mean_with_non_empty_slice() {
    let data = [1.0, 2.0, 3.0];
    assert_eq!(mean_value(&data), Some(2.0));
}

#[test]
fn test_mean_with_empty_slice() {
    let data: [f64; 0] = [];
    assert_eq!(mean_value(&data), None);
}

#[test]
fn test_median_order_invariance() {
    let orders = [
        [1.0, 3.0, 2.0],
        [3.0, 2.0, 1.0],
        [2.0, 1.0, 3.0],
        [3.0, 1.0, 2.0],
    ];
    for data in &orders {
        assert_eq!(median(&to_bits(data)), median(&to_bits(&orders[0])));
        assert_eq!(median_value(data), Ok(2.0));
    }
}

#[test]
fn test_median_odd_selects_single_middle() {
    let data = [5.0, -1.0, 3.0];
    let selection = median(&to_bits(&data)).unwrap();
    assert_eq!(selection.lo, selection.hi);
    assert_eq!(f64::from_bits(selection.lo), 3.0);
}

#[test]
fn test_median_even_selects_two_middles() {
    let data = [4.0, 1.0, 3.0, 2.0];
    let selection = median(&to_bits(&data)).unwrap();
    assert_eq!(f64::from_bits(selection.lo), 2.0);
    assert_eq!(f64::from_bits(selection.hi), 3.0);
}

#[test]
fn test_median_concrete_cases() {
    assert_eq!(median_value(&[1.0, 3.0, 2.0]), Ok(2.0));
    assert_eq!(median_value(&[1.0, 3.0, 4.0, 2.0]), Ok(2.5));
    assert_eq!(median_value(&[7.0]), Ok(7.0));
    assert_eq!(median_value(&[-3.0, -1.0, -2.0]), Ok(-2.0));
}

#[test]
fn test_median_nan_any_position() {
    assert_eq!(median_value(&[f64::NAN, 1.0, 2.0]), Err(MedianError::ContainsNaN));
    assert_eq!(median_value(&[1.0, 2.0, f64::NAN]), Err(MedianError::ContainsNaN));
    assert_eq!(median_value(&[f64::NAN]), Err(MedianError::ContainsNaN));
}

#[test]
fn test_median_leaves_input_unchanged() {
    let data = to_bits(&[3.0, 1.0, 2.0]);
    let copy = data.clone();
    let first = median(&data);
    assert_eq!(data, copy);
    let second = median(&data);
    assert_eq!(first, second);
    assert_eq!(data, copy);
}

#[test]
fn test_mean_called_twice_same_result() {
    let data = to_bits(&[1.0, 2.0, 4.0]);
    let copy = data.clone();
    assert_eq!(mean_divisor(&data), Some(3));
    assert_eq!(mean_divisor(&data), Some(3));
    assert_eq!(data, copy);
}

#[test]
fn test_mean_single_element() {
    assert_eq!(mean_value(&[42.5]), Some(42.5));
}

#[test]
fn test_sort_bits_orders_signed_values() {
    let data = to_bits(&[-1.0, 2.0, -0.0, 0.0, 1.5]);
    let sorted = sort_bits(&data);
    assert_eq!(sorted, to_bits(&[-1.0, -0.0, 0.0, 1.5, 2.0]));
    assert_eq!(data, to_bits(&[-1.0, 2.0, -0.0, 0.0, 1.5]));
}

#[test]
fn test_bits_is_nan() {
    assert!(bits_is_nan(f64::NAN.to_bits()));
    assert!(!bits_is_nan(1.0f64.to_bits()));
    assert!(!bits_is_nan(f64::INFINITY.to_bits()));
    assert!(!bits_is_nan(f64::NEG_INFINITY.to_bits()));
    assert!(!bits_is_nan(0.0f64.to_bits()));
}
