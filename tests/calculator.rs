use calculator::arith::{product, sum};
use calculator::average::{AverageAction, AverageEvent, AverageTally};
use calculator::factor::{prime_factors, FactorState};
use calculator::running_max::{find_max, MaxAction, MaxEvent, MaxTracker};
use calculator::MyCalculator;

fn is_prime(p: u64) -> bool {
    if p < 2 {
        return false;
    }
    let mut d: u64 = 2;
    while d * d <= p {
        if p % d == 0 {
            return false;
        }
        d += 1;
    }
    true
}

#[test]
fn sum_of_empty_is_zero() {
    assert_eq!(sum(&vec![]), 0);
}

#[test]
fn sum_of_mixed_signs() {
    assert_eq!(sum(&vec![2, 4, 6, 8, -1, -3, -5, -7]), 4);
}

#[test]
fn sum_of_one_to_nine() {
    assert_eq!(sum(&vec![1, 2, 3, 4, 5, 6, 7, 8, 9]), 45);
}

#[test]
fn sum_wraps_on_overflow() {
    assert_eq!(sum(&vec![i32::MAX, 1]), i32::MIN);
    assert_eq!(sum(&vec![i32::MIN, -1]), i32::MAX);
    assert_eq!(sum(&vec![i32::MAX, i32::MAX, 2]), 0);
}

#[test]
fn service_sum_matches_free_function() {
    let c = MyCalculator::new();
    assert_eq!(c.sum(&vec![1, 2, 3]), 6);
}

#[test]
fn prime_factors_of_zero_and_one() {
    assert_eq!(prime_factors(0), vec![0]);
    assert_eq!(prime_factors(1), vec![1]);
}

#[test]
fn prime_factors_reconstruct_large_input() {
    let n: u64 = 2 * 3 * 11 * 17 * 1001 * 4711;
    let f = prime_factors(n);
    assert_eq!(f, vec![2, 3, 7, 7, 11, 11, 13, 17, 673]);
    assert_eq!(product(&f), n);
}

#[test]
fn prime_factors_are_prime_sorted_and_multiply_back() {
    for n in 2u64..500 {
        let f = prime_factors(n);
        assert_eq!(product(&f), n);
        for i in 0..f.len() {
            assert!(is_prime(f[i]));
            if i > 0 {
                assert!(f[i - 1] <= f[i]);
            }
        }
    }
}

#[test]
fn prime_factors_of_a_prime_and_a_power() {
    assert_eq!(prime_factors(2), vec![2]);
    assert_eq!(prime_factors(97), vec![97]);
    assert_eq!(prime_factors(1024), vec![2; 10]);
    assert_eq!(prime_factors(65521), vec![65521]);
    assert_eq!(prime_factors(65521 * 65521), vec![65521, 65521]);
}

#[test]
fn factor_state_stops_after_last_factor() {
    let mut s = FactorState::new(12);
    assert_eq!(s.next_factor(), Some(2));
    assert_eq!(s.next_factor(), Some(2));
    assert_eq!(s.next_factor(), Some(3));
    assert_eq!(s.next_factor(), None);
    assert_eq!(s.next_factor(), None);
}

#[test]
fn product_of_empty_is_one() {
    assert_eq!(product(&vec![]), 1);
    assert_eq!(product(&vec![2, 3, 7]), 42);
}

#[test]
fn product_wraps_on_overflow() {
    assert_eq!(product(&vec![1u64 << 32, 1u64 << 32]), 0);
    assert_eq!(product(&vec![u64::MAX, 2]), u64::MAX - 1);
}

#[test]
fn find_max_emits_each_strict_increase() {
    let data = vec![3, 5, 8, 5, 3, 2, 9, 5, 6, 7, 11, 4, 7, 98, 7, 99, 5];
    assert_eq!(find_max(&data), vec![3, 5, 8, 9, 11, 98, 99]);
    assert_eq!(MyCalculator::new().find_max(&data), vec![3, 5, 8, 9, 11, 98, 99]);
}

#[test]
fn find_max_edge_cases() {
    assert_eq!(find_max(&vec![]), Vec::<i32>::new());
    assert_eq!(find_max(&vec![4, 4, 4]), vec![4]);
    assert_eq!(find_max(&vec![i32::MIN, i32::MIN]), vec![i32::MIN]);
    assert_eq!(find_max(&vec![-5, -3, -4]), vec![-5, -3]);
}

#[test]
fn max_tracker_closes_on_end() {
    let mut t = MaxTracker::new();
    assert_eq!(t.on_event(MaxEvent::Item(1)), MaxAction::Emit(1));
    assert_eq!(t.on_event(MaxEvent::Item(1)), MaxAction::Silent);
    assert_eq!(t.on_event(MaxEvent::End), MaxAction::Close);
    assert!(t.finished());
    assert_eq!(t.on_event(MaxEvent::Item(5)), MaxAction::Silent);
}

#[test]
fn max_tracker_fails_mid_stream() {
    let mut t = MaxTracker::new();
    assert_eq!(t.on_event(MaxEvent::Item(3)), MaxAction::Emit(3));
    assert_eq!(t.on_event(MaxEvent::Failed), MaxAction::Fail);
    assert!(t.finished());
    assert_eq!(t.on_event(MaxEvent::Item(10)), MaxAction::Silent);
    assert_eq!(t.on_event(MaxEvent::End), MaxAction::Silent);
}

fn run_average(data: &[f64], end: AverageEvent) -> Option<f64> {
    let mut tally = AverageTally::new();
    let mut total = 0.0;
    for x in data {
        assert_eq!(tally.on_event(AverageEvent::Number), AverageAction::Accumulate);
        total += x;
    }
    match tally.on_event(end) {
        AverageAction::FinishEmpty => Some(0.0),
        AverageAction::FinishMean(n) => Some(total / n as f64),
        _ => None,
    }
}

#[test]
fn average_of_empty_is_zero() {
    let mut tally = AverageTally::new();
    assert_eq!(tally.on_event(AverageEvent::End), AverageAction::FinishEmpty);
    assert_eq!(run_average(&[], AverageEvent::End), Some(0.0));
}

#[test]
fn average_of_squares() {
    let mut tally = AverageTally::new();
    for _ in 0..5 {
        tally.on_event(AverageEvent::Number);
    }
    assert_eq!(tally.count(), 5);
    assert_eq!(tally.on_event(AverageEvent::End), AverageAction::FinishMean(5));
    assert_eq!(run_average(&[1.0, 4.0, 9.0, 16.0, 25.0], AverageEvent::End), Some(11.0));
}

#[test]
fn average_fails_mid_stream_without_result() {
    let mut tally = AverageTally::new();
    assert_eq!(tally.on_event(AverageEvent::Number), AverageAction::Accumulate);
    assert_eq!(tally.on_event(AverageEvent::Failed), AverageAction::Abort);
    assert!(tally.finished());
    assert_eq!(tally.on_event(AverageEvent::End), AverageAction::Ignore);
    assert_eq!(tally.on_event(AverageEvent::Number), AverageAction::Ignore);
    assert_eq!(run_average(&[1.0, 2.0], AverageEvent::Failed), None);
}
