use descriptive_stats::engine::{compute_statistics, OrderStatistics, StatsError};
use descriptive_stats::float_bits::{compute_sort_key, is_finite};
use descriptive_stats::render::render_result_json;

fn bits(values: &[f64]) -> Vec<u64> {
    values.iter().map(|v| v.to_bits()).collect()
}

fn stats(values: &[f64]) -> OrderStatistics {
    compute_statistics(&bits(values)).expect("valid input")
}

#[test]
fn scenario_five_values() {
    let st = stats(&[1.0, 2.0, 3.0, 4.0, 5.0]);
    assert_eq!(st.min, 1.0f64.to_bits());
    assert_eq!(st.max, 5.0f64.to_bits());
    assert_eq!(st.median, 3.0f64.to_bits());
    assert_eq!(st.q1, 2.0f64.to_bits());
    assert_eq!(st.q3, 4.0f64.to_bits());
}

#[test]
fn scenario_single_value() {
    let st = stats(&[10.0]);
    assert_eq!(st.min, 10.0f64.to_bits());
    assert_eq!(st.max, 10.0f64.to_bits());
    assert_eq!(st.median, 10.0f64.to_bits());
    assert_eq!(st.q1, 10.0f64.to_bits());
    assert_eq!(st.q3, 10.0f64.to_bits());
}

#[test]
fn scenario_empty_rejected() {
    let empty: Vec<u64> = Vec::new();
    assert_eq!(compute_statistics(&empty), Err(StatsError::InvalidInput));
}

#[test]
fn scenario_equal_values() {
    let st = stats(&[1.0, 1.0, 1.0, 1.0]);
    assert_eq!(st.min, 1.0f64.to_bits());
    assert_eq!(st.max, 1.0f64.to_bits());
    assert_eq!(st.median, 1.0f64.to_bits());
    assert_eq!(st.q1, 1.0f64.to_bits());
    assert_eq!(st.q3, 1.0f64.to_bits());
}

#[test]
fn nan_rejected() {
    assert_eq!(
        compute_statistics(&bits(&[1.0, f64::NAN, 2.0])),
        Err(StatsError::InvalidInput)
    );
}

#[test]
fn infinity_rejected() {
    assert_eq!(
        compute_statistics(&bits(&[f64::INFINITY])),
        Err(StatsError::InvalidInput)
    );
    assert_eq!(
        compute_statistics(&bits(&[0.0, f64::NEG_INFINITY])),
        Err(StatsError::InvalidInput)
    );
}

#[test]
fn permutation_gives_identical_result() {
    let sorted = stats(&[1.0, 2.0, 3.0, 4.0, 5.0]);
    let shuffled = stats(&[5.0, 3.0, 1.0, 4.0, 2.0]);
    let reversed = stats(&[5.0, 4.0, 3.0, 2.0, 1.0]);
    assert_eq!(sorted, shuffled);
    assert_eq!(sorted, reversed);
}

#[test]
fn min_max_bound_every_element() {
    let values = [2.5, -1.0, 7.25, 0.0, 3.5];
    let st = stats(&values);
    let min = f64::from_bits(st.min);
    let max = f64::from_bits(st.max);
    assert_eq!(min, -1.0);
    assert_eq!(max, 7.25);
    for v in values {
        assert!(min <= v && v <= max);
    }
}

#[test]
fn quartiles_ordered_ascending_input() {
    let st = stats(&[1.0, 2.0, 3.0, 4.0, 5.0, 6.0, 7.0, 8.0]);
    let q1 = f64::from_bits(st.q1);
    let median = f64::from_bits(st.median);
    let q3 = f64::from_bits(st.q3);
    assert_eq!(q1, 3.0);
    assert_eq!(median, 5.0);
    assert_eq!(q3, 7.0);
    assert!(q1 <= median && median <= q3);
}

#[test]
fn even_length_takes_upper_median() {
    let st = stats(&[1.0, 2.0, 3.0, 4.0]);
    assert_eq!(f64::from_bits(st.median), 3.0);
}

#[test]
fn negative_values_ordered() {
    let st = stats(&[-2.5, -10.0, 3.0]);
    assert_eq!(f64::from_bits(st.min), -10.0);
    assert_eq!(f64::from_bits(st.max), 3.0);
    assert_eq!(f64::from_bits(st.median), -2.5);
}

#[test]
fn sort_key_follows_float_order() {
    let ascending = [
        f64::MIN,
        -3.5,
        -1.0e-308,
        -0.0,
        0.0,
        4.9e-324,
        1.0,
        2.0,
        f64::MAX,
    ];
    for pair in ascending.windows(2) {
        let lo = compute_sort_key(pair[0].to_bits());
        let hi = compute_sort_key(pair[1].to_bits());
        assert!(lo < hi, "{} should key below {}", pair[0], pair[1]);
    }
}

#[test]
fn finiteness_classification() {
    assert!(is_finite(0.0f64.to_bits()));
    assert!(is_finite((-0.0f64).to_bits()));
    assert!(is_finite(f64::MAX.to_bits()));
    assert!(is_finite(f64::MIN.to_bits()));
    assert!(is_finite(4.9e-324f64.to_bits()));
    assert!(!is_finite(f64::NAN.to_bits()));
    assert!(!is_finite(f64::INFINITY.to_bits()));
    assert!(!is_finite(f64::NEG_INFINITY.to_bits()));
}

#[test]
fn render_exact_shape() {
    let out = render_result_json("1.0", "5.0", "3.0", "3.0", "2.0", "4.0", "1.5", "0.5");
    assert_eq!(
        out,
        "{\"min\":1.0,\"max\":5.0,\"mean\":3.0,\"median\":3.0,\"q1\":2.0,\"q3\":4.0,\"std_dev\":1.5,\"coef_var\":0.5}"
    );
}

#[test]
fn render_parses_back_to_same_values() {
    let min = 1.0f64;
    let max = 5.0f64;
    let mean = 3.0f64;
    let median = 3.0f64;
    let q1 = 2.0f64;
    let q3 = 4.0f64;
    let std_dev = 2.0f64.sqrt();
    let coef_var = std_dev / mean;
    let rendered = render_result_json(
        &serde_json::to_string(&min).unwrap(),
        &serde_json::to_string(&max).unwrap(),
        &serde_json::to_string(&mean).unwrap(),
        &serde_json::to_string(&median).unwrap(),
        &serde_json::to_string(&q1).unwrap(),
        &serde_json::to_string(&q3).unwrap(),
        &serde_json::to_string(&std_dev).unwrap(),
        &serde_json::to_string(&coef_var).unwrap(),
    );
    let parsed: serde_json::Value = serde_json::from_str(&rendered).unwrap();
    assert_eq!(parsed.get("min").unwrap().as_f64().unwrap(), min);
    assert_eq!(parsed.get("max").unwrap().as_f64().unwrap(), max);
    assert_eq!(parsed.get("mean").unwrap().as_f64().unwrap(), mean);
    assert_eq!(parsed.get("median").unwrap().as_f64().unwrap(), median);
    assert_eq!(parsed.get("q1").unwrap().as_f64().unwrap(), q1);
    assert_eq!(parsed.get("q3").unwrap().as_f64().unwrap(), q3);
    assert_eq!(parsed.get("std_dev").unwrap().as_f64().unwrap(), std_dev);
    assert_eq!(parsed.get("coef_var").unwrap().as_f64().unwrap(), coef_var);
}

#[test]
fn input_vector_left_unchanged() {
    let original = bits(&[3.0, 1.0, 2.0]);
    let copy = original.clone();
    let _ = compute_statistics(&original);
    assert_eq!(original, copy);
}
