use amm::curve::{
    deposit_amounts_from_shares, shares_for_bootstrap_deposit, swap_output, CurveError,
    DepositAmounts, SwapQuote,
};

#[test]
fn swap_quote_truncates_small_fee() {
    let q = swap_output(1000, 1000, 100, 30).unwrap();
    assert_eq!(q, SwapQuote { amount_in_net: 100, amount_out: 90, fee: 0 });
}

#[test]
fn swap_quote_takes_fee_before_pricing() {
    // fee = floor(10000 * 30 / 10000) = 30, net = 9970,
    // out = floor(50000 * 9970 / (100000 + 9970)) = 4533
    let q = swap_output(100_000, 50_000, 10_000, 30).unwrap();
    assert_eq!(q, SwapQuote { amount_in_net: 9970, amount_out: 4533, fee: 30 });
}

#[test]
fn swap_quote_keeps_product() {
    let (rin, rout) = (1000u64, 1000u64);
    let q = swap_output(rin, rout, 100, 30).unwrap();
    let before = rin as u128 * rout as u128;
    let after = (rin + q.amount_in_net) as u128 * (rout - q.amount_out) as u128;
    assert!(after >= before);
}

#[test]
fn swap_quote_is_monotone_in_input() {
    let mut last = 0u64;
    for amount in 0..2000u64 {
        let q = swap_output(777, 1234, amount, 25).unwrap();
        assert!(q.amount_out >= last);
        last = q.amount_out;
    }
}

#[test]
fn swap_quote_never_drains() {
    let q = swap_output(1, 1000, u64::MAX, 0).unwrap();
    assert_eq!(q.amount_out, 999);
    assert!(q.amount_out < 1000);
}

#[test]
fn swap_quote_refuses_empty_side() {
    assert_eq!(swap_output(0, 1000, 10, 30), Err(CurveError::InsufficientLiquidity));
    assert_eq!(swap_output(1000, 0, 10, 30), Err(CurveError::InsufficientLiquidity));
}

#[test]
fn deposit_amounts_round_up() {
    let a = deposit_amounts_from_shares(10, 20, 3, 1, 6).unwrap();
    assert_eq!(a, DepositAmounts { x: 4, y: 7 });
}

#[test]
fn deposit_amounts_exact_ratio() {
    let a = deposit_amounts_from_shares(1000, 2000, 500, 50, 6).unwrap();
    assert_eq!(a, DepositAmounts { x: 100, y: 200 });
}

#[test]
fn deposit_amounts_overflow() {
    assert_eq!(
        deposit_amounts_from_shares(u64::MAX, 1, 1, 2, 6),
        Err(CurveError::Overflow)
    );
}

#[test]
fn deposit_amounts_zero_amount() {
    assert_eq!(
        deposit_amounts_from_shares(0, 1000, 10, 1, 6),
        Err(CurveError::ZeroAmount)
    );
}

#[test]
fn deposit_amounts_need_supply() {
    assert_eq!(
        deposit_amounts_from_shares(1000, 1000, 0, 1, 6),
        Err(CurveError::InsufficientLiquidity)
    );
}

#[test]
fn bootstrap_amounts_are_the_callers() {
    assert_eq!(shares_for_bootstrap_deposit(1000, 2000), DepositAmounts { x: 1000, y: 2000 });
}
