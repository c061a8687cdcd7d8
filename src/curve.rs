//! The constant-product curve: proportional deposit amounts and swap quotes.
//!
//! Every function here is pure. Intermediate products are taken in `u128`,
//! where a product of two `u64` values always fits, so the only overflow that
//! can occur is a final amount that does not fit back into `u64`.
use vstd::prelude::*;
use vstd::arithmetic::div_mod::lemma_remainder;

verus! {

/// Basis points in one whole: a fee rate is a number of parts in this many.
pub const BPS_DENOMINATOR: u64 = 10000;

/// Why the curve could not produce amounts.
#[derive(Debug, Clone, Copy, PartialEq, Eq, Structural)]
pub enum CurveError {
    /// A resulting amount does not fit in a `u64`.
    Overflow,
    /// A non-zero share request priced at zero of one asset.
    ZeroAmount,
    /// The pool is empty on a side that the request needs, or the trade
    /// would drain it.
    InsufficientLiquidity,
}

/// What a depositor pays, in each asset, for a number of shares.
#[derive(Debug, Clone, Copy, PartialEq, Eq, Structural)]
pub struct DepositAmounts {
    pub x: u64,
    pub y: u64,
}

/// The settlement of one swap against the curve.
#[derive(Debug, Clone, Copy, PartialEq, Eq, Structural)]
pub struct SwapQuote {
    /// The part of the input that trades against the curve.
    pub amount_in_net: u64,
    /// What leaves the pool.
    pub amount_out: u64,
    /// The part of the input kept by the pool as a fee.
    pub fee: u64,
}

/// `a / b` rounded up, for `a >= 0` and `b > 0`.
pub open spec fn ceil_div(a: int, b: int) -> int {
    (a + b - 1) / b
}

/// What `shares` new shares cost in an asset with the given reserve, when
/// `supply` shares are out: the pro-rata part of the reserve, rounded up.
pub open spec fn deposit_share(reserve: int, supply: int, shares: int) -> int {
    ceil_div(shares * reserve, supply)
}

/// What `shares` shares are worth in an asset with the given reserve, when
/// `supply` shares are out: the pro-rata part of the reserve, rounded down.
pub open spec fn withdrawal_share(reserve: int, supply: int, shares: int) -> int {
    shares * reserve / supply
}

/// The outcome of pricing a deposit of `shares` shares.
pub open spec fn deposit_amounts_result(
    reserve_x: u64,
    reserve_y: u64,
    share_supply: u64,
    shares: u64,
) -> Result<DepositAmounts, CurveError> {
    if share_supply == 0 {
        Err(CurveError::InsufficientLiquidity)
    } else {
        let x = deposit_share(reserve_x as int, share_supply as int, shares as int);
        let y = deposit_share(reserve_y as int, share_supply as int, shares as int);
        if x > u64::MAX || y > u64::MAX {
            Err(CurveError::Overflow)
        } else if shares > 0 && (x == 0 || y == 0) {
            Err(CurveError::ZeroAmount)
        } else {
            Ok(DepositAmounts { x: x as u64, y: y as u64 })
        }
    }
}

/// The fee on `amount_in` at `fee_rate` basis points, rounded down.
pub open spec fn swap_fee(amount_in: int, fee_rate: int) -> int {
    amount_in * fee_rate / 10000
}

/// The part of `amount_in` that trades once the fee is taken.
pub open spec fn swap_net(amount_in: int, fee_rate: int) -> int {
    amount_in - swap_fee(amount_in, fee_rate)
}

/// What leaves the pool when `net` enters it: the output reserve's share of
/// the new input reserve, rounded down.
pub open spec fn swap_out(reserve_in: int, reserve_out: int, net: int) -> int {
    reserve_out * net / (reserve_in + net)
}

/// The outcome of quoting a swap of `amount_in`.
pub open spec fn swap_output_result(
    reserve_in: u64,
    reserve_out: u64,
    amount_in: u64,
    fee_rate: u16,
) -> Result<SwapQuote, CurveError> {
    if reserve_in == 0 || reserve_out == 0 {
        Err(CurveError::InsufficientLiquidity)
    } else {
        let fee = swap_fee(amount_in as int, fee_rate as int);
        let net = swap_net(amount_in as int, fee_rate as int);
        let out = swap_out(reserve_in as int, reserve_out as int, net);
        if out >= reserve_out {
            Err(CurveError::InsufficientLiquidity)
        } else {
            Ok(SwapQuote { amount_in_net: net as u64, amount_out: out as u64, fee: fee as u64 })
        }
    }
}

/// Floor division brackets its dividend.
proof fn lemma_floor_bracket(a: int, d: int)
    requires
        0 <= a,
        0 < d,
    ensures
        (a / d) * d <= a,
        a < (a / d) * d + d,
        0 <= a / d,
{
    lemma_remainder(a, d);
    assert(0 <= a / d) by (nonlinear_arith)
        requires
            0 <= a - (a / d * d) < d,
            0 <= a,
            0 < d,
    ;
}

/// Any `q` with `q * d <= a` is at most `a / d`.
proof fn lemma_below_floor(q: int, a: int, d: int)
    requires
        0 <= a,
        0 < d,
        q * d <= a,
    ensures
        q <= a / d,
{
    lemma_floor_bracket(a, d);
    let f = a / d;
    assert(q <= f) by (nonlinear_arith)
        requires
            q * d <= a,
            a < f * d + d,
            0 < d,
    ;
}

proof fn lemma_mul_fits_u128(a: u64, b: u64)
    ensures
        a * b <= (u64::MAX as int) * (u64::MAX as int),
{
    assert(a * b <= (u64::MAX as int) * (u64::MAX as int)) by (nonlinear_arith)
        requires
            0 <= a <= u64::MAX,
            0 <= b <= u64::MAX,
    ;
}

/// `ceil(a * b / d)`, or `None` where that does not fit in a `u64`.
fn ceil_mul_div(a: u64, b: u64, d: u64) -> (r: Option<u64>)
    requires
        d > 0,
    ensures
        match r {
            Some(v) => v == ceil_div(a * b, d as int),
            None => ceil_div(a * b, d as int) > u64::MAX,
        },
{
    proof {
        lemma_mul_fits_u128(a, b);
    }
    let n: u128 = (a as u128) * (b as u128) + (d as u128 - 1);
    let q: u128 = n / (d as u128);
    if q > u64::MAX as u128 {
        None
    } else {
        Some(q as u64)
    }
}

/// `floor(a * b / d)`, where that is known to fit.
fn floor_mul_div(a: u64, b: u64, d: u128) -> (r: u128)
    requires
        d > 0,
    ensures
        r == a * b / (d as int),
{
    proof {
        lemma_mul_fits_u128(a, b);
    }
    (a as u128) * (b as u128) / d
}

/// The amounts of each asset that mint `requested_shares` new shares in a pool
/// holding `reserve_x` and `reserve_y` against `share_supply` shares.
///
/// Each amount is the depositor's pro-rata part of its reserve, rounded up, so
/// that rounding never dilutes the existing shares. `decimal_scale` is the
/// precision of the share token; the amounts are exact quotients rounded once,
/// so they do not depend on it. An empty supply has no price: the first
/// deposit sets its amounts itself (see `shares_for_bootstrap_deposit`).
pub fn deposit_amounts_from_shares(
    reserve_x: u64,
    reserve_y: u64,
    share_supply: u64,
    requested_shares: u64,
    decimal_scale: u8,
) -> (r: Result<DepositAmounts, CurveError>)
    ensures
        r == deposit_amounts_result(reserve_x, reserve_y, share_supply, requested_shares),
{
    if share_supply == 0 {
        return Err(CurveError::InsufficientLiquidity);
    }
    let ox = ceil_mul_div(requested_shares, reserve_x, share_supply);
    let oy = ceil_mul_div(requested_shares, reserve_y, share_supply);
    match (ox, oy) {
        (Some(x), Some(y)) => {
            if requested_shares > 0 && (x == 0 || y == 0) {
                Err(CurveError::ZeroAmount)
            } else {
                Ok(DepositAmounts { x, y })
            }
        },
        _ => Err(CurveError::Overflow),
    }
}

/// The amounts of the first deposit into an empty pool: exactly what the
/// depositor chose, which sets the pool's initial price.
pub fn shares_for_bootstrap_deposit(amount_x: u64, amount_y: u64) -> (r: DepositAmounts)
    ensures
        r == (DepositAmounts { x: amount_x, y: amount_y }),
{
    DepositAmounts { x: amount_x, y: amount_y }
}

/// Quotes a swap of `amount_in` into the side holding `reserve_in`, paid out
/// of the side holding `reserve_out`, at `fee_rate` basis points.
///
/// The fee is rounded down and stays in the pool; the output is rounded down,
/// so the product of the reserves never decreases. Fails with
/// `InsufficientLiquidity` on an empty side or an output that would drain the
/// pool.
pub fn swap_output(reserve_in: u64, reserve_out: u64, amount_in: u64, fee_rate: u16) -> (r: Result<
    SwapQuote,
    CurveError,
>)
    requires
        fee_rate <= BPS_DENOMINATOR,
    ensures
        r == swap_output_result(reserve_in, reserve_out, amount_in, fee_rate),
        r is Ok ==> r->Ok_0.amount_out < reserve_out,
        r is Ok ==> (reserve_in + r->Ok_0.amount_in_net) * (reserve_out - r->Ok_0.amount_out)
            >= reserve_in * reserve_out,
{
    if reserve_in == 0 || reserve_out == 0 {
        return Err(CurveError::InsufficientLiquidity);
    }
    let fee128 = floor_mul_div(amount_in, fee_rate as u64, BPS_DENOMINATOR as u128);
    proof {
        lemma_fee_at_most_amount(amount_in as int, fee_rate as int);
    }
    let fee = fee128 as u64;
    let net = amount_in - fee;
    let out128 = floor_mul_div(reserve_out, net, reserve_in as u128 + net as u128);
    if out128 >= reserve_out as u128 {
        return Err(CurveError::InsufficientLiquidity);
    }
    let amount_out = out128 as u64;
    proof {
        lemma_swap_keeps_invariant(reserve_in, reserve_out, amount_in, fee_rate);
    }
    Ok(SwapQuote { amount_in_net: net, amount_out, fee })
}

/// The fee never exceeds the amount it is taken from.
proof fn lemma_fee_at_most_amount(amount_in: int, fee_rate: int)
    requires
        0 <= amount_in,
        0 <= fee_rate <= 10000,
    ensures
        0 <= swap_fee(amount_in, fee_rate) <= amount_in,
{
    assert(amount_in * fee_rate <= amount_in * 10000) by (nonlinear_arith)
        requires
            0 <= amount_in,
            fee_rate <= 10000,
    ;
    assert(0 <= amount_in * fee_rate) by (nonlinear_arith)
        requires
            0 <= amount_in,
            0 <= fee_rate,
    ;
    lemma_floor_bracket(amount_in * fee_rate, 10000);
}

/// The output of a swap is always less than the output reserve.
proof fn lemma_swap_out_below_reserve(reserve_in: int, reserve_out: int, net: int)
    requires
        0 < reserve_in,
        0 < reserve_out,
        0 <= net,
    ensures
        0 <= swap_out(reserve_in, reserve_out, net) < reserve_out,
{
    let d = reserve_in + net;
    let a = reserve_out * net;
    assert(0 <= a) by (nonlinear_arith)
        requires
            a == reserve_out * net,
            0 <= reserve_out,
            0 <= net,
    ;
    lemma_floor_bracket(a, d);
    let q = a / d;
    assert(q < reserve_out) by (nonlinear_arith)
        requires
            q * d <= a,
            a == reserve_out * net,
            d == reserve_in + net,
            0 < reserve_in,
            0 < reserve_out,
            0 <= net,
    ;
}

/// A swap never lowers the constant product: with the net input added to the
/// input reserve and the output taken from the output reserve, their product
/// is at least what it was.
pub proof fn lemma_swap_keeps_invariant(reserve_in: u64, reserve_out: u64, amount_in: u64, fee_rate: u16)
    requires
        reserve_in > 0,
        reserve_out > 0,
        fee_rate <= BPS_DENOMINATOR,
    ensures
        ({
            let net = swap_net(amount_in as int, fee_rate as int);
            let out = swap_out(reserve_in as int, reserve_out as int, net);
            &&& 0 <= net <= amount_in
            &&& 0 <= out < reserve_out
            &&& (reserve_in + net) * (reserve_out - out) >= reserve_in * reserve_out
        }),
{
    lemma_fee_at_most_amount(amount_in as int, fee_rate as int);
    let net = swap_net(amount_in as int, fee_rate as int);
    lemma_swap_out_below_reserve(reserve_in as int, reserve_out as int, net);
    let d = reserve_in + net;
    let a = reserve_out * net;
    assert(0 <= a) by (nonlinear_arith)
        requires
            a == reserve_out * net,
            0 <= reserve_out,
            0 <= net,
    ;
    lemma_floor_bracket(a, d);
    let out = a / d;
    assert(d * (reserve_out - out) >= reserve_in * reserve_out) by (nonlinear_arith)
        requires
            out * d <= a,
            a == reserve_out * net,
            d == reserve_in + net,
    ;
}

/// The net input grows with the gross input: of two amounts at one fee rate,
/// the larger never trades less.
proof fn lemma_net_monotone(a1: int, a2: int, fee_rate: int)
    requires
        0 <= a1 <= a2,
        0 <= fee_rate <= 10000,
    ensures
        swap_net(a1, fee_rate) <= swap_net(a2, fee_rate),
{
    let prod_small = a1 * fee_rate;
    let prod_large = a2 * fee_rate;
    assert(0 <= prod_small <= prod_large && prod_large - prod_small <= (a2 - a1) * 10000) by (nonlinear_arith)
        requires
            prod_small == a1 * fee_rate,
            prod_large == a2 * fee_rate,
            0 <= a1 <= a2,
            0 <= fee_rate <= 10000,
    ;
    lemma_floor_bracket(prod_small, 10000);
    lemma_floor_bracket(prod_large, 10000);
}

/// The output grows with the net input, for fixed non-empty reserves.
proof fn lemma_out_monotone(reserve_in: int, reserve_out: int, n1: int, n2: int)
    requires
        0 < reserve_in,
        0 < reserve_out,
        0 <= n1 <= n2,
    ensures
        swap_out(reserve_in, reserve_out, n1) <= swap_out(reserve_in, reserve_out, n2),
{
    lemma_swap_out_below_reserve(reserve_in, reserve_out, n1);
    let d1 = reserve_in + n1;
    let d2 = reserve_in + n2;
    let a1 = reserve_out * n1;
    let a2 = reserve_out * n2;
    assert(0 <= a1) by (nonlinear_arith)
        requires
            a1 == reserve_out * n1,
            0 <= reserve_out,
            0 <= n1,
    ;
    lemma_floor_bracket(a1, d1);
    let o1 = a1 / d1;
    assert(o1 * d2 <= a2) by (nonlinear_arith)
        requires
            o1 * d1 <= a1,
            0 <= o1 < reserve_out,
            a1 == reserve_out * n1,
            a2 == reserve_out * n2,
            d1 == reserve_in + n1,
            d2 == reserve_in + n2,
            n1 <= n2,
    ;
    lemma_below_floor(o1, a2, d2);
}

/// Swap output never decreases as the input grows, for fixed reserves and fee
/// rate: a larger trade is never paid less than a smaller one.
pub proof fn lemma_swap_output_monotone(
    reserve_in: u64,
    reserve_out: u64,
    amount_small: u64,
    amount_large: u64,
    fee_rate: u16,
)
    requires
        amount_small <= amount_large,
        fee_rate <= BPS_DENOMINATOR,
    ensures
        swap_output_result(reserve_in, reserve_out, amount_small, fee_rate) is Ok
            <==> swap_output_result(reserve_in, reserve_out, amount_large, fee_rate) is Ok,
        swap_output_result(reserve_in, reserve_out, amount_small, fee_rate) is Ok ==>
            swap_output_result(reserve_in, reserve_out, amount_small, fee_rate)->Ok_0.amount_out
            <= swap_output_result(reserve_in, reserve_out, amount_large, fee_rate)->Ok_0.amount_out,
{
    if reserve_in > 0 && reserve_out > 0 {
        lemma_swap_keeps_invariant(reserve_in, reserve_out, amount_small, fee_rate);
        lemma_swap_keeps_invariant(reserve_in, reserve_out, amount_large, fee_rate);
        lemma_net_monotone(amount_small as int, amount_large as int, fee_rate as int);
        lemma_out_monotone(
            reserve_in as int,
            reserve_out as int,
            swap_net(amount_small as int, fee_rate as int),
            swap_net(amount_large as int, fee_rate as int),
        );
    }
}

} // verus!
