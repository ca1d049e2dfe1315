use fish_core::error::ValidationError;
use fish_core::random::complete;
use fish_core::random::exit_status;
use fish_core::random::is_choice_word;
use fish_core::random::parse_step;
use fish_core::random::pick_token;
use fish_core::random::plan;
use fish_core::random::plan_range;
use fish_core::random::random;
use fish_core::random::Plan;
use fish_core::random::SampleOutcome;
use fish_core::range::NormalizedBounds;
use fish_core::range::RangeSpec;

fn operands(words: &[&str]) -> Vec<Vec<char>> {
    words.iter().map(|w| w.chars().collect()).collect()
}

fn integer_of(words: &[&str]) -> i64 {
    match random(&operands(words)) {
        Ok(SampleOutcome::Integer(v)) => v,
        other => panic!("no integer: {:?}", other),
    }
}

#[test]
fn no_operands_use_the_defaults() {
    assert_eq!(
        plan(&operands(&[])),
        Ok(Plan::Range {
            spec: RangeSpec { start: 0, step: 1, end: 32767 },
            bounds: NormalizedBounds { low: 0, high: 32767 },
        })
    );
    for _ in 0..200 {
        let v = integer_of(&[]);
        assert!((0..=32767).contains(&v));
    }
}

#[test]
fn one_operand_is_a_seed_and_unimplemented() {
    let r = random(&operands(&["17"]));
    assert_eq!(r, Err(ValidationError::SeedingUnimplemented));
    assert_eq!(exit_status(&r), 255);
    assert_eq!(random(&operands(&["abc"])), Err(ValidationError::SeedingUnimplemented));
}

#[test]
fn four_operands_are_too_many() {
    let r = random(&operands(&["1", "2", "3", "4"]));
    assert_eq!(r, Err(ValidationError::TooManyOperands));
    assert_eq!(exit_status(&r), 1);
    assert_eq!(
        random(&operands(&["1", "2", "3", "4", "5", "6"])),
        Err(ValidationError::TooManyOperands)
    );
    assert_eq!(
        random(&operands(&["x", "choice", "b", "c"])),
        Err(ValidationError::TooManyOperands)
    );
}

#[test]
fn choice_without_tokens_is_refused() {
    let r = random(&operands(&["choice"]));
    assert_eq!(r, Err(ValidationError::EmptyChoiceList));
    assert_eq!(exit_status(&r), 2);
}

#[test]
fn choice_gives_one_of_the_tokens() {
    let ops = operands(&["choice", "a", "b", "c"]);
    assert_eq!(plan(&ops), Ok(Plan::Choice));
    let mut seen = Vec::new();
    for _ in 0..2000 {
        match random(&ops) {
            Ok(SampleOutcome::Token(t)) => {
                let t: String = t.into_iter().collect();
                assert!(t == "a" || t == "b" || t == "c");
                if !seen.contains(&t) {
                    seen.push(t);
                }
            }
            other => panic!("no token: {:?}", other),
        }
    }
    assert!(seen.len() > 1);
}

#[test]
fn choice_of_one_token_gives_it() {
    let ops = operands(&["choice", "only"]);
    let r = random(&ops);
    assert_eq!(r, Ok(SampleOutcome::Token("only".chars().collect())));
    assert_eq!(exit_status(&r), 0);
}

#[test]
fn choice_tokens_are_not_read_as_numbers() {
    let ops = operands(&["choice", "1", "x", "3", "4", "5"]);
    assert_eq!(plan(&ops), Ok(Plan::Choice));
    assert!(matches!(random(&ops), Ok(SampleOutcome::Token(_))));
}

#[test]
fn pick_token_counts_from_after_the_keyword() {
    let ops = operands(&["choice", "a", "b", "c"]);
    assert_eq!(pick_token(&ops, 0), vec!['a']);
    assert_eq!(pick_token(&ops, 1), vec!['b']);
    assert_eq!(pick_token(&ops, 2), vec!['c']);
}

#[test]
fn keyword_is_matched_exactly() {
    assert!(is_choice_word(&['c', 'h', 'o', 'i', 'c', 'e']));
    assert!(!is_choice_word(&['c', 'h', 'o', 'i', 'c']));
    assert!(!is_choice_word(&['C', 'h', 'o', 'i', 'c', 'e']));
    assert!(!is_choice_word(&['c', 'h', 'o', 'i', 'c', 'e', 's']));
    assert!(!is_choice_word(&[]));
}

#[test]
fn two_operands_are_start_and_end() {
    assert_eq!(
        plan(&operands(&["-5", "0"])),
        Ok(Plan::Range {
            spec: RangeSpec { start: -5, step: 1, end: 0 },
            bounds: NormalizedBounds { low: -5, high: 0 },
        })
    );
    let mut seen = Vec::new();
    for _ in 0..10000 {
        let v = integer_of(&["-5", "0"]);
        assert!((-5..=0).contains(&v));
        if !seen.contains(&v) {
            seen.push(v);
        }
    }
    assert!(seen.len() > 1);
}

#[test]
fn three_operands_are_start_step_end() {
    assert_eq!(
        plan(&operands(&["0", "3", "10"])),
        Ok(Plan::Range {
            spec: RangeSpec { start: 0, step: 3, end: 10 },
            bounds: NormalizedBounds { low: 0, high: 3 },
        })
    );
    let mut seen = Vec::new();
    for _ in 0..10000 {
        let v = integer_of(&["0", "3", "10"]);
        assert!([0, 3, 6, 9].contains(&v));
        if !seen.contains(&v) {
            seen.push(v);
        }
    }
    assert!(seen.len() > 1);
}

#[test]
fn sampled_values_are_members_of_the_progression() {
    for _ in 0..2000 {
        let v = integer_of(&["-7", "4", "22"]);
        assert!(-7 <= v && v <= 22);
        assert_eq!((v + 7) % 4, 0);
    }
}

#[test]
fn zero_to_one_is_sampled_from_both() {
    let ops = operands(&["0", "1", "1"]);
    assert_eq!(
        plan(&ops),
        Ok(Plan::Range {
            spec: RangeSpec { start: 0, step: 1, end: 1 },
            bounds: NormalizedBounds { low: 0, high: 1 },
        })
    );
    for _ in 0..200 {
        let v = integer_of(&["0", "1", "1"]);
        assert!(v == 0 || v == 1);
    }
}

#[test]
fn single_value_range_is_refused() {
    let r = random(&operands(&["0", "2", "1"]));
    assert_eq!(r, Err(ValidationError::SingleValueRange));
    assert_eq!(exit_status(&r), 2);
}

#[test]
fn end_too_large_is_refused_before_any_draw() {
    let r = random(&operands(&["9223372036854775800", "1", "9223372036854775807"]));
    assert_eq!(r, Err(ValidationError::EndTooLarge));
    assert_eq!(exit_status(&r), 2);
    assert_eq!(
        random(&operands(&["9223372036854775800", "9223372036854775807"])),
        Err(ValidationError::EndTooLarge)
    );
}

#[test]
fn large_stride_near_the_maximum_leaves_one_value() {
    assert_eq!(
        random(&operands(&["9223372036854775800", "100", "9223372036854775807"])),
        Err(ValidationError::SingleValueRange)
    );
}

#[test]
fn end_not_greater_than_start_is_refused() {
    assert_eq!(
        random(&operands(&["5", "5"])),
        Err(ValidationError::EndNotGreaterThanStart)
    );
    assert_eq!(
        random(&operands(&["5", "2", "1"])),
        Err(ValidationError::EndNotGreaterThanStart)
    );
}

#[test]
fn step_not_positive_is_refused() {
    assert_eq!(random(&operands(&["1", "0", "9"])), Err(ValidationError::StepNotPositive));
    assert_eq!(random(&operands(&["1", "-2", "9"])), Err(ValidationError::StepNotPositive));
}

#[test]
fn step_is_refused_before_the_end_is_read() {
    assert_eq!(random(&operands(&["1", "0", "x"])), Err(ValidationError::StepNotPositive));
    assert_eq!(random(&operands(&["x", "0", "9"])), Err(ValidationError::InvalidInteger));
}

#[test]
fn malformed_operands_are_refused() {
    assert_eq!(random(&operands(&["a", "9"])), Err(ValidationError::InvalidInteger));
    assert_eq!(random(&operands(&["1", "b"])), Err(ValidationError::InvalidInteger));
    assert_eq!(random(&operands(&["1", "2", "c"])), Err(ValidationError::InvalidInteger));
    assert_eq!(random(&operands(&["1", "x", "9"])), Err(ValidationError::InvalidInteger));
}

#[test]
fn operands_too_large_for_the_machine_are_refused() {
    assert_eq!(
        random(&operands(&["0", "99999999999999999999"])),
        Err(ValidationError::IntegerOverflow)
    );
    assert_eq!(
        random(&operands(&["-99999999999999999999", "1", "5"])),
        Err(ValidationError::IntegerOverflow)
    );
}

#[test]
fn step_too_large_for_the_machine_leaves_one_value() {
    assert_eq!(
        random(&operands(&["0", "99999999999999999999", "5"])),
        Err(ValidationError::SingleValueRange)
    );
    assert_eq!(
        parse_step(&['9'; 30]),
        Err(ValidationError::SingleValueRange)
    );
    assert_eq!(parse_step(&['7']), Ok(7));
    assert_eq!(parse_step(&['0']), Err(ValidationError::StepNotPositive));
    assert_eq!(parse_step(&['z']), Err(ValidationError::InvalidInteger));
}

#[test]
fn plan_range_validates_then_normalizes() {
    assert_eq!(plan_range(0, 0, 0), Err(ValidationError::StepNotPositive));
    assert_eq!(plan_range(0, 1, 0), Err(ValidationError::EndNotGreaterThanStart));
    assert_eq!(plan_range(0, 5, 3), Err(ValidationError::SingleValueRange));
    assert_eq!(plan_range(0, 1, i64::MAX), Err(ValidationError::EndTooLarge));
    assert_eq!(
        plan_range(2, 5, 30),
        Ok(Plan::Range {
            spec: RangeSpec { start: 2, step: 5, end: 30 },
            bounds: NormalizedBounds { low: 2, high: 7 },
        })
    );
}

#[test]
fn complete_maps_each_index() {
    let ops = operands(&["-5", "0"]);
    let p = plan(&ops).unwrap();
    for r in -5..=0 {
        assert_eq!(complete(&ops, &p, r), SampleOutcome::Integer(r));
    }
    let ops = operands(&["10", "5", "31"]);
    let p = plan(&ops).unwrap();
    assert_eq!(complete(&ops, &p, 10), SampleOutcome::Integer(10));
    assert_eq!(complete(&ops, &p, 12), SampleOutcome::Integer(20));
    assert_eq!(complete(&ops, &p, 14), SampleOutcome::Integer(30));
    let ops = operands(&["choice", "x", "yz"]);
    let p = plan(&ops).unwrap();
    assert_eq!(complete(&ops, &p, 0), SampleOutcome::Token(vec!['x']));
    assert_eq!(complete(&ops, &p, 1), SampleOutcome::Token(vec!['y', 'z']));
}

#[test]
fn refusal_does_not_depend_on_the_draw() {
    for words in [
        vec!["0", "1", "1"],
        vec!["0", "2", "1"],
        vec!["3", "3"],
        vec!["choice"],
        vec!["1"],
        vec!["1", "0", "2"],
    ] {
        let ops = operands(&words);
        let first = plan(&ops);
        for _ in 0..50 {
            assert_eq!(plan(&ops), first);
            assert_eq!(random(&ops).is_err(), first.is_err());
            if let Err(e) = first {
                assert_eq!(random(&ops), Err(e));
            }
        }
    }
}
