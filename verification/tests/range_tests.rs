use fish_core::error::ValidationError;
use fish_core::range::NormalizedBounds;
use fish_core::range::RangeSpec;

fn values(start: i64, step: i64, end: i64) -> Vec<i64> {
    let spec = RangeSpec::new(start, step, end).unwrap();
    let bounds = spec.normalize().unwrap();
    let mut out = Vec::new();
    let mut r = bounds.low;
    while r <= bounds.high {
        out.push(spec.value_at(&bounds, r));
        r += 1;
    }
    out
}

#[test]
fn step_must_be_positive() {
    assert_eq!(RangeSpec::new(0, 0, 10), Err(ValidationError::StepNotPositive));
    assert_eq!(RangeSpec::new(0, -1, 10), Err(ValidationError::StepNotPositive));
    assert_eq!(RangeSpec::new(0, i64::MIN, 10), Err(ValidationError::StepNotPositive));
}

#[test]
fn step_is_looked_at_before_the_end() {
    assert_eq!(RangeSpec::new(10, 0, 0), Err(ValidationError::StepNotPositive));
}

#[test]
fn end_must_exceed_start() {
    assert_eq!(RangeSpec::new(5, 1, 5), Err(ValidationError::EndNotGreaterThanStart));
    assert_eq!(RangeSpec::new(5, 1, 4), Err(ValidationError::EndNotGreaterThanStart));
    assert_eq!(RangeSpec::new(-1, 3, -2), Err(ValidationError::EndNotGreaterThanStart));
}

#[test]
fn valid_triple_is_kept_as_given() {
    assert_eq!(RangeSpec::new(-5, 2, 9), Ok(RangeSpec { start: -5, step: 2, end: 9 }));
}

#[test]
fn validating_twice_gives_the_same() {
    for (a, s, e) in [(0, 1, 1), (0, 0, 1), (3, 1, 3), (0, 3, 10), (i64::MAX - 1, 5, i64::MAX)] {
        let first = RangeSpec::new(a, s, e).map(|spec| spec.normalize());
        let second = RangeSpec::new(a, s, e).map(|spec| spec.normalize());
        assert_eq!(first, second);
    }
}

#[test]
fn bounds_of_a_stride_of_three() {
    let spec = RangeSpec::new(0, 3, 10).unwrap();
    assert_eq!(spec.normalize(), Ok(NormalizedBounds { low: 0, high: 3 }));
    assert_eq!(values(0, 3, 10), vec![0, 3, 6, 9]);
}

#[test]
fn bounds_of_a_negative_start() {
    let spec = RangeSpec::new(-5, 1, 0).unwrap();
    assert_eq!(spec.normalize(), Ok(NormalizedBounds { low: -5, high: 0 }));
    let all = values(-5, 1, 0);
    assert_eq!(all, vec![-5, -4, -3, -2, -1, 0]);
    for v in &all[..5] {
        assert!([-5, -4, -3, -2, -1].contains(v));
    }
}

#[test]
fn negative_start_with_a_stride() {
    let spec = RangeSpec::new(-7, 3, 8).unwrap();
    assert_eq!(spec.normalize(), Ok(NormalizedBounds { low: -7, high: -2 }));
    assert_eq!(values(-7, 3, 8), vec![-7, -4, -1, 2, 5, 8]);
}

#[test]
fn both_ends_negative() {
    let spec = RangeSpec::new(-20, 4, -9).unwrap();
    assert_eq!(spec.normalize(), Ok(NormalizedBounds { low: -20, high: -18 }));
    assert_eq!(values(-20, 4, -9), vec![-20, -16, -12]);
}

#[test]
fn zero_to_one_has_two_indices() {
    let spec = RangeSpec::new(0, 1, 1).unwrap();
    assert_eq!(spec.normalize(), Ok(NormalizedBounds { low: 0, high: 1 }));
    assert_eq!(values(0, 1, 1), vec![0, 1]);
}

#[test]
fn stride_longer_than_the_distance_leaves_one_value() {
    assert_eq!(
        RangeSpec::new(0, 2, 1).unwrap().normalize(),
        Err(ValidationError::SingleValueRange)
    );
    assert_eq!(
        RangeSpec::new(-3, 10, 6).unwrap().normalize(),
        Err(ValidationError::SingleValueRange)
    );
}

#[test]
fn stride_that_overflows_leaves_one_value() {
    assert_eq!(
        RangeSpec::new(i64::MAX - 3, 4, i64::MAX).unwrap().normalize(),
        Err(ValidationError::SingleValueRange)
    );
    assert_eq!(
        RangeSpec::new(1, i64::MAX, i64::MAX).unwrap().normalize(),
        Err(ValidationError::SingleValueRange)
    );
}

#[test]
fn upper_bound_at_the_maximum_is_too_large() {
    assert_eq!(
        RangeSpec::new(i64::MAX - 2, 1, i64::MAX).unwrap().normalize(),
        Err(ValidationError::EndTooLarge)
    );
    assert_eq!(
        RangeSpec::new(i64::MIN, 1, i64::MAX).unwrap().normalize(),
        Err(ValidationError::EndTooLarge)
    );
}

#[test]
fn larger_stride_at_the_maximum_is_accepted() {
    let spec = RangeSpec::new(i64::MAX - 4, 2, i64::MAX).unwrap();
    let bounds = spec.normalize().unwrap();
    assert_eq!(bounds, NormalizedBounds { low: i64::MAX - 4, high: i64::MAX - 2 });
    assert_eq!(spec.value_at(&bounds, i64::MAX - 2), i64::MAX);
    assert_eq!(spec.value_at(&bounds, i64::MAX - 3), i64::MAX - 2);
}

#[test]
fn whole_domain_with_a_stride() {
    let spec = RangeSpec::new(i64::MIN, 2, i64::MAX).unwrap();
    let bounds = spec.normalize().unwrap();
    assert_eq!(bounds, NormalizedBounds { low: i64::MIN, high: -1 });
    assert_eq!(spec.value_at(&bounds, i64::MIN), i64::MIN);
    assert_eq!(spec.value_at(&bounds, -1), i64::MAX - 1);
    assert_eq!(spec.value_at(&bounds, i64::MIN + 1), i64::MIN + 2);
}

#[test]
fn negative_start_to_the_maximum() {
    let spec = RangeSpec::new(-5, 3, i64::MAX).unwrap();
    let bounds = spec.normalize().unwrap();
    assert_eq!(bounds.low, -5);
    assert_eq!(bounds.high, -5 + ((i64::MAX as i128 + 5) / 3) as i64);
    assert_eq!(spec.value_at(&bounds, -5), -5);
    assert_eq!(spec.value_at(&bounds, 0), 10);
    let top = spec.value_at(&bounds, bounds.high);
    assert!(top <= i64::MAX && top > i64::MAX - 3);
    assert_eq!((top as i128 + 5) % 3, 0);
}

#[test]
fn every_value_is_a_member() {
    for (a, s, e) in [(0, 1, 9), (-12, 5, 31), (3, 7, 100), (-100, 9, -3), (-1, 1, 1)] {
        let all = values(a, s, e);
        assert!(all.len() >= 2);
        for (k, v) in all.iter().enumerate() {
            assert_eq!(*v, a + (k as i64) * s);
            assert!(a <= *v && *v <= e);
            assert_eq!((*v - a) % s, 0);
        }
        assert!(all[all.len() - 1] + s > e);
    }
}

#[test]
fn unit_stride_maps_an_index_to_itself() {
    let spec = RangeSpec::new(-3, 1, 4).unwrap();
    let bounds = spec.normalize().unwrap();
    for r in -3..=4 {
        assert_eq!(spec.value_at(&bounds, r), r);
    }
}

#[test]
fn exit_codes_of_each_kind() {
    assert_eq!(ValidationError::TooManyOperands.exit_code(), 1);
    assert_eq!(ValidationError::SeedingUnimplemented.exit_code(), 255);
    for e in [
        ValidationError::InvalidInteger,
        ValidationError::IntegerOverflow,
        ValidationError::StepNotPositive,
        ValidationError::EndNotGreaterThanStart,
        ValidationError::SingleValueRange,
        ValidationError::EndTooLarge,
        ValidationError::EmptyChoiceList,
    ] {
        assert_eq!(e.exit_code(), 2);
    }
}
