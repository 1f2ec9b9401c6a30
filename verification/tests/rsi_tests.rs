use rust_rsi::rsi::{compute_rsi, Rsi};

fn as_f64(r: Rsi) -> f64 {
    r.num as f64 / r.den as f64
}

#[test]
fn fourteen_equal_prices_give_one_hundred() {
    let prices: Vec<i64> = vec![100; 14];
    let r = compute_rsi(&prices);
    assert_eq!(r, Rsi { num: 100, den: 1 });
    assert_eq!(as_f64(r), 100.0);
}

#[test]
fn monotonically_decreasing_prices_give_zero() {
    let prices: Vec<i64> = vec![10, 9, 8, 7, 6, 5, 4, 3, 2, 1, 0, -1, -2, -3];
    let r = compute_rsi(&prices);
    assert_eq!(r.num, 0);
    assert_eq!(r.den, 13);
    assert_eq!(as_f64(r), 0.0);
}

#[test]
fn monotonically_increasing_prices_give_one_hundred() {
    let prices: Vec<i64> = vec![1, 2, 3, 4, 5, 6, 7, 8, 9, 10, 11, 12, 13, 14];
    let r = compute_rsi(&prices);
    assert_eq!(r, Rsi { num: 100, den: 1 });
    assert_eq!(as_f64(r), 100.0);
}

#[test]
fn fewer_than_two_prices_give_the_neutral_sentinel() {
    let r = compute_rsi(&Vec::new());
    assert_eq!(r, Rsi { num: 50, den: 1 });
    let r = compute_rsi(&vec![42]);
    assert_eq!(r, Rsi { num: 50, den: 1 });
    assert_eq!(as_f64(r), 50.0);
}

#[test]
fn mixed_window_gives_the_exact_ratio() {
    // Deltas alternate +2 and -1: seven gains of 2 and six losses of 1,
    // so RSI = 100 * 14 / (14 + 6) = 70 exactly.
    let prices: Vec<i64> = vec![0, 2, 1, 3, 2, 4, 3, 5, 4, 6, 5, 7, 6, 8];
    let r = compute_rsi(&prices);
    assert_eq!(r.num, 1400);
    assert_eq!(r.den, 20);
    assert_eq!(as_f64(r), 70.0);
}

#[test]
fn three_prices_give_the_exact_ratio() {
    // Deltas +1 and -2: RSI = 100 * 1 / 3.
    let prices: Vec<i64> = vec![10, 11, 9];
    let r = compute_rsi(&prices);
    assert_eq!(r.num, 100);
    assert_eq!(r.den, 3);
}

#[test]
fn shifting_all_prices_leaves_the_rsi_unchanged() {
    let prices: Vec<i64> = vec![5, 8, 2, 9, 9, 1, 4, 12, 3, 7, 7, 10, 6, 11];
    let shifted: Vec<i64> = prices.iter().map(|p| p + 100_000).collect();
    assert_eq!(compute_rsi(&prices), compute_rsi(&shifted));
}

#[test]
fn extreme_prices_are_accepted() {
    let prices: Vec<i64> = vec![i64::MIN, i64::MAX, i64::MIN, i64::MAX];
    let r = compute_rsi(&prices);
    // Two maximal gains and one maximal loss.
    let d = u64::MAX as u128;
    assert_eq!(r.num, 100 * 2 * d);
    assert_eq!(r.den, 3 * d);
}
