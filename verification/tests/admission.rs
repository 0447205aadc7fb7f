use hcbs_manager::bignat::BigNat;
use hcbs_manager::reservation::{admits, admits_in_place, fits_budget, Reservation};

fn r(runtime_us: u64, period_us: u64) -> Reservation {
    Reservation::new(runtime_us, period_us)
}

#[test]
fn a_reservation_grants_some_time_within_its_period() {
    assert!(r(1, 1).is_valid());
    assert!(r(50000, 100000).is_valid());
    assert!(!r(0, 100000).is_valid());
    assert!(!r(100001, 100000).is_valid());
    assert!(!r(0, 0).is_valid());
    assert!(!r(1, 0).is_valid());
}

#[test]
fn nothing_is_within_the_budget() {
    assert!(fits_budget(&vec![]));
}

#[test]
fn the_budget_is_95_hundredths() {
    assert!(fits_budget(&vec![r(95, 100)]));
    assert!(fits_budget(&vec![r(19, 20)]));
    assert!(!fits_budget(&vec![r(96, 100)]));
    assert!(!fits_budget(&vec![r(950_001, 1_000_000)]));
    assert!(fits_budget(&vec![r(950_000, 1_000_000)]));
    assert!(!fits_budget(&vec![r(1, 1)]));
}

#[test]
fn utilisations_add_up() {
    assert!(fits_budget(&vec![r(50000, 100000), r(45, 100)]));
    assert!(!fits_budget(&vec![r(50000, 100000), r(50000, 100000)]));
    assert!(fits_budget(&vec![r(1, 3), r(1, 3), r(17, 60)]));
    assert!(!fits_budget(&vec![r(1, 3), r(1, 3), r(17, 59)]));
    assert!(fits_budget(&vec![r(0, 5), r(95, 100)]));
}

#[test]
fn the_sum_is_exact_where_floating_point_is_not() {
    // 0.1 + 0.2 + 0.65 is 0.95 exactly.
    assert!(fits_budget(&vec![r(1, 10), r(2, 10), r(65, 100)]));
    // One part in 10^18 over the budget is over the budget.
    let big = 1_000_000_000_000_000_000u64;
    assert!(fits_budget(&vec![r(big / 2, big), r(big / 100 * 45, big)]));
    assert!(!fits_budget(&vec![r(big / 2, big), r(big / 100 * 45 + 1, big)]));
    // Periods whose product is far beyond 64 bits.
    let p = u64::MAX;
    let many: Vec<Reservation> = (0..19).map(|_| r(p / 20, p)).collect();
    assert!(fits_budget(&many));
    let mut more = (0..19).map(|_| r(p / 20, p)).collect::<Vec<_>>();
    more.push(r(14, p));
    assert!(fits_budget(&more));
    more.pop();
    more.push(r(15, p));
    assert!(!fits_budget(&more));
    let twenty: Vec<Reservation> = (0..20).map(|_| r(p / 20, p)).collect();
    assert!(!fits_budget(&twenty));
}

#[test]
fn a_period_of_zero_is_never_within_the_budget() {
    assert!(!fits_budget(&vec![r(0, 0)]));
    assert!(!fits_budget(&vec![r(1, 10), r(5, 0)]));
}

#[test]
fn admission_asks_for_a_reservation_and_the_budget() {
    let current = vec![r(50000, 100000)];
    assert!(admits(&current, &r(45000, 100000)));
    assert!(!admits(&current, &r(50000, 100000)));
    assert!(!admits(&current, &r(0, 100000)));
    assert!(!admits(&current, &r(2, 1)));
    assert!(admits(&vec![], &r(50000, 100000)));
    assert!(!admits(&vec![], &r(96, 100)));
}

#[test]
fn admission_in_place_forgets_what_is_replaced() {
    let current = vec![r(50000, 100000), r(40000, 100000)];
    // 0.5 + 0.45 fits where 0.5 + 0.4 + 0.45 would not.
    assert!(admits_in_place(&current, 1, &r(45000, 100000)));
    assert!(admits_in_place(&current, 0, &r(55000, 100000)));
    assert!(!admits_in_place(&current, 0, &r(56000, 100000)));
    assert!(!admits_in_place(&current, 1, &r(0, 100000)));
    // Shrinking is always possible.
    assert!(admits_in_place(&current, 0, &r(1, 100000)));
}

#[test]
fn big_numbers_multiply_add_and_compare() {
    let a = BigNat::from_u64(u64::MAX);
    let b = a.times(u64::MAX);
    let c = b.times(u64::MAX);
    assert!(a.at_most(&b));
    assert!(b.at_most(&c));
    assert!(!c.at_most(&b));
    assert!(b.at_most(&b));
    // (2^64 - 1)^2 + 2 * (2^64 - 1) + 1 == 2^128 == (2^64) * (2^64)
    let sum = b.plus(&a.times(2)).plus(&BigNat::from_u64(1));
    let two64 = a.plus(&BigNat::from_u64(1));
    let two128 = two64.times(u64::MAX).plus(&two64);
    assert!(sum.at_most(&two128));
    assert!(two128.at_most(&sum));
    assert!(!sum.at_most(&two128.times(0)));
    assert!(BigNat::from_u64(0).at_most(&two128.times(0)));
    assert!(two128.times(0).at_most(&BigNat::from_u64(0)));
}
