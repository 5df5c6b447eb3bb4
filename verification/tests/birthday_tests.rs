use parlor::ValidationError;
use parlor::find_collision;
use parlor::run_trials;
use parlor::sample_days;
use parlor::validate_sample_size;

#[test]
fn sample_has_requested_size_and_valid_days() {
    let days = sample_days(50);
    assert_eq!(days.len(), 50);
    for d in days.iter() {
        assert!(1 <= *d && *d <= 365);
    }
}

#[test]
fn no_collision_in_distinct_sample() {
    let days: Vec<u32> = vec![1, 50, 100, 200, 365];
    assert_eq!(find_collision(&days), None);
}

#[test]
fn no_collision_in_empty_or_single_sample() {
    assert_eq!(find_collision(&Vec::new()), None);
    assert_eq!(find_collision(&vec![17]), None);
}

#[test]
fn collision_found_for_injected_duplicate() {
    let days: Vec<u32> = vec![5, 1, 5];
    assert_eq!(find_collision(&days), Some(5));
    let more: Vec<u32> = vec![10, 20, 30, 20, 40];
    assert_eq!(find_collision(&more), Some(20));
}

#[test]
fn collision_certain_beyond_pigeonhole_bound() {
    // More than 365 draws from 365 possible days must repeat one.
    let days = sample_days(400);
    assert!(find_collision(&days).is_some());
}

#[test]
fn full_distinct_year_has_no_collision() {
    let mut days: Vec<u32> = Vec::new();
    for d in 1..=365u32 {
        days.push(d);
    }
    assert_eq!(find_collision(&days), None);
}

#[test]
fn trials_of_single_day_samples_never_hit() {
    assert_eq!(run_trials(1, 100), 0);
}

#[test]
fn trials_beyond_pigeonhole_bound_always_hit() {
    assert_eq!(run_trials(366, 3), 3);
}

#[test]
fn trial_hits_never_exceed_trial_count() {
    let hits = run_trials(23, 200);
    assert!(hits <= 200);
}

#[test]
fn pair_trials_converge_near_birthday_probability() {
    // For two people the theoretical collision chance is 1/365, about 0.27%.
    // 10_000 trials put the hit count near 27; allow wide sampling tolerance.
    let hits = run_trials(2, 10_000);
    let percent = 100.0 * (hits as f64 / 10_000.0);
    assert!(percent < 1.0, "far above the birthday probability: {percent}");
    assert!(hits >= 2, "far below the birthday probability: {hits}");
}

#[test]
fn sample_size_rejects_non_numeric() {
    assert_eq!(validate_sample_size("abc"), Err(ValidationError::NotNumeric));
    assert_eq!(validate_sample_size(""), Err(ValidationError::NotNumeric));
    assert_eq!(
        validate_sample_size("99999999999999999999999999"),
        Err(ValidationError::NotNumeric)
    );
}

#[test]
fn sample_size_rejects_out_of_range() {
    assert_eq!(validate_sample_size("0"), Err(ValidationError::OutOfRange));
    assert_eq!(validate_sample_size("1"), Err(ValidationError::OutOfRange));
    assert_eq!(validate_sample_size("101"), Err(ValidationError::OutOfRange));
}

#[test]
fn sample_size_accepts_bounds() {
    assert_eq!(validate_sample_size("2"), Ok(2));
    assert_eq!(validate_sample_size("100"), Ok(100));
    assert_eq!(validate_sample_size("23"), Ok(23));
    // A leading plus sign parses the way the standard parser accepts it.
    assert_eq!(validate_sample_size("+50"), Ok(50));
}
