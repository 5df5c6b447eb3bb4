//! The birthday-paradox Monte Carlo sampler: draw day-of-year samples,
//! detect collisions, and count how many trials collide.

use vstd::prelude::*;
use vstd::set_lib::lemma_int_range;
use vstd::set_lib::lemma_len_subset;
use vstd::set_lib::set_int_range;
use crate::errors::ValidationError;
use crate::numbers::digit_part;
use crate::numbers::digits_value;
use crate::numbers::is_numeric;
use crate::numbers::parse_unsigned;
use crate::rng::random_day_of_year;

verus! {

/// The smallest sample size worth simulating.
pub const MIN_SAMPLE_SIZE: usize = 2;

/// The largest sample size the prompt accepts.
pub const MAX_SAMPLE_SIZE: usize = 100;

/// Every value of `s` is a day of a non-leap year.
pub open spec fn all_days(s: Seq<u32>) -> bool {
    forall|i: int| 0 <= i < s.len() ==> 1 <= #[trigger] s[i] <= 365
}

/// Some day occurs at two different positions of `s`.
pub open spec fn has_duplicate(s: Seq<u32>) -> bool {
    exists|i: int, j: int| 0 <= i < j < s.len() && s[i] == s[j]
}

/// Check a requested sample size: it must parse as an unsigned decimal
/// integer and lie between the accepted bounds.
pub fn validate_sample_size(input: &str) -> (r: Result<usize, ValidationError>)
    ensures
        !(is_numeric(input@) && digits_value(digit_part(input@)) <= usize::MAX) ==> r
            == Err::<usize, ValidationError>(ValidationError::NotNumeric),
        is_numeric(input@) && digits_value(digit_part(input@)) <= usize::MAX && !(
        MIN_SAMPLE_SIZE <= digits_value(digit_part(input@)) <= MAX_SAMPLE_SIZE) ==> r
            == Err::<usize, ValidationError>(ValidationError::OutOfRange),
        is_numeric(input@) && MIN_SAMPLE_SIZE <= digits_value(digit_part(input@))
            <= MAX_SAMPLE_SIZE ==> r == Ok::<usize, ValidationError>(
            digits_value(digit_part(input@)) as usize,
        ),
{
    match parse_unsigned(input) {
        Some(n) => if n < MIN_SAMPLE_SIZE || n > MAX_SAMPLE_SIZE {
            Err(ValidationError::OutOfRange)
        } else {
            Ok(n)
        },
        None => Err(ValidationError::NotNumeric),
    }
}

/// Draw `count` independent uniform days of a non-leap year.
pub fn sample_days(count: usize) -> (days: Vec<u32>)
    ensures
        days@.len() == count,
        all_days(days@),
{
    let mut days: Vec<u32> = Vec::new();
    let mut i: usize = 0;
    while i < count
        invariant
            i <= count,
            days@.len() == i,
            all_days(days@),
        decreases count - i,
    {
        let d = random_day_of_year();
        days.push(d);
        i += 1;
    }
    days
}

/// Find one day that occurs more than once in the sample, if any does.
pub fn find_collision(days: &Vec<u32>) -> (r: Option<u32>)
    ensures
        r.is_some() == has_duplicate(days@),
        r matches Some(d) ==> exists|i: int, j: int|
            0 <= i < j < days@.len() && days@[i] == d && days@[j] == d,
{
    let n: usize = days.len();
    let mut i: usize = 0;
    while i < n
        invariant
            i <= n,
            n == days@.len(),
            forall|a: int, b: int| 0 <= a < b < n && a < i ==> days@[a] != days@[b],
        decreases n - i,
    {
        let mut j: usize = i + 1;
        while j < n
            invariant
                i < n,
                i + 1 <= j <= n,
                n == days@.len(),
                forall|b: int| i < b < j ==> days@[i as int] != days@[b],
                forall|a: int, b: int| 0 <= a < b < n && a < i ==> days@[a] != days@[b],
            decreases n - j,
        {
            if days[i] == days[j] {
                return Some(days[i]);
            }
            j += 1;
        }
        i += 1;
    }
    None
}

/// Pigeonhole: a sample of more than 365 days of a non-leap year must
/// contain some day twice.
pub proof fn lemma_pigeonhole_days(days: Seq<u32>)
    requires
        all_days(days),
        days.len() > 365,
    ensures
        has_duplicate(days),
{
    broadcast use vstd::seq_lib::seq_to_set_is_finite;

    if !has_duplicate(days) {
        let di = days.map_values(|x: u32| x as int);
        assert(di.len() == days.len());
        assert forall|a: int, b: int|
            0 <= a < di.len() && 0 <= b < di.len() && a != b implies di[a] != di[b] by {
            if a < b {
                assert(days[a] != days[b]);
            } else {
                assert(days[b] != days[a]);
            }
        }
        di.unique_seq_to_set();
        assert(di.to_set().subset_of(set_int_range(1, 366))) by {
            assert forall|x: int| di.to_set().contains(x) implies set_int_range(1, 366).contains(
                x,
            ) by {
                let k = choose|k: int| 0 <= k < di.len() && di[k] == x;
                assert(1 <= days[k] <= 365);
            }
        }
        lemma_int_range(1, 366);
        lemma_len_subset(di.to_set(), set_int_range(1, 366));
        assert(di.to_set().len() <= 365);
        assert(false);
    }
}

/// Run `num_trials` independent trials of drawing `count` days and checking
/// for a collision; count the trials that collide.  A sample of at most one
/// day can never collide, and one of more than 365 days always does.
pub fn run_trials(count: usize, num_trials: usize) -> (hits: usize)
    ensures
        hits <= num_trials,
        count <= 1 ==> hits == 0,
        count > 365 ==> hits == num_trials,
{
    let mut hits: usize = 0;
    let mut t: usize = 0;
    while t < num_trials
        invariant
            t <= num_trials,
            hits <= t,
            count <= 1 ==> hits == 0,
            count > 365 ==> hits == t,
        decreases num_trials - t,
    {
        let days = sample_days(count);
        let m = find_collision(&days);
        if m.is_some() {
            hits += 1;
        } else {
            proof {
                if count > 365 {
                    lemma_pigeonhole_days(days@);
                }
            }
        }
        t += 1;
    }
    hits
}

} // verus!
