//! Depositing both assets for newly minted shares.
use vstd::prelude::*;
use vstd::arithmetic::div_mod::lemma_remainder;
use crate::curve::{
    deposit_amounts_from_shares, deposit_amounts_result, shares_for_bootstrap_deposit,
    withdrawal_share, DepositAmounts,
};
use crate::error::{curve_error_to_amm, AmmError};
use crate::ledger::{apply_effects, effect_result, Effect, PoolBalances};
use crate::pool::{Asset, Pool};

verus! {

/// Precision of the pool's share token.
pub const SHARE_DECIMALS: u8 = 6;

/// A deposit against one pool, at the balances observed when it starts.
#[derive(Debug, Clone, Copy, PartialEq, Eq, Structural)]
pub struct Deposit {
    pub pool: Pool,
    pub balances: PoolBalances,
}

impl Deposit {
    /// What a deposit of `lp_amount` shares costs before the caller's bounds
    /// are checked: the caller's own amounts into an empty pool, else the
    /// curve's pro-rata amounts.
    pub open spec fn priced(&self, lp_amount: u64, max_x: u64, max_y: u64) -> Result<
        DepositAmounts,
        AmmError,
    > {
        if self.balances.is_empty() {
            Ok(DepositAmounts { x: max_x, y: max_y })
        } else {
            match deposit_amounts_result(
                self.balances.reserve_x,
                self.balances.reserve_y,
                self.balances.share_supply,
                lp_amount,
            ) {
                Ok(a) => Ok(a),
                Err(e) => Err(curve_error_to_amm(e)),
            }
        }
    }

    /// The amounts a deposit of `lp_amount` shares takes, or why it is
    /// refused. The checks come in this order: the lock, a zero request, the
    /// price, then the bound on X and the bound on Y.
    pub open spec fn outcome(&self, lp_amount: u64, max_x: u64, max_y: u64) -> Result<
        DepositAmounts,
        AmmError,
    > {
        if self.pool.locked {
            Err(AmmError::PoolLocked)
        } else if lp_amount == 0 {
            Err(AmmError::InvalidAmount)
        } else {
            match self.priced(lp_amount, max_x, max_y) {
                Err(e) => Err(e),
                Ok(a) => {
                    if a.x > max_x {
                        Err(AmmError::SlippageExceededX)
                    } else if a.y > max_y {
                        Err(AmmError::SlippageExceededY)
                    } else {
                        Ok(a)
                    }
                },
            }
        }
    }

    /// The effects that settle a deposit of `amounts` for `lp_amount` shares:
    /// X in, then Y in, then the shares minted.
    pub open spec fn effects(&self, amounts: DepositAmounts, lp_amount: u64) -> Seq<Effect> {
        seq![
            Effect::TransferIn { asset: Asset::X, amount: amounts.x },
            Effect::TransferIn { asset: Asset::Y, amount: amounts.y },
            Effect::MintShares { amount: lp_amount, authority: self.pool.spec_authority() },
        ]
    }

    /// Prices a deposit of `lp_amount` shares and checks it against the
    /// caller's upper bounds `max_x` and `max_y`. On success returns the
    /// effects that settle it; on any error, nothing is to be moved.
    pub fn deposit(&self, lp_amount: u64, max_x: u64, max_y: u64) -> (r: Result<Vec<Effect>, AmmError>)
        ensures
            match self.outcome(lp_amount, max_x, max_y) {
                Ok(a) => r is Ok && r->Ok_0@ == self.effects(a, lp_amount),
                Err(e) => r == Err::<Vec<Effect>, AmmError>(e),
            },
    {
        if self.pool.is_locked() {
            return Err(AmmError::PoolLocked);
        }
        if lp_amount == 0 {
            return Err(AmmError::InvalidAmount);
        }
        let b = self.balances;
        let amounts = if b.reserve_x == 0 && b.reserve_y == 0 && b.share_supply == 0 {
            shares_for_bootstrap_deposit(max_x, max_y)
        } else {
            match deposit_amounts_from_shares(
                b.reserve_x,
                b.reserve_y,
                b.share_supply,
                lp_amount,
                SHARE_DECIMALS,
            ) {
                Ok(a) => a,
                Err(e) => {
                    return Err(AmmError::from_curve(e));
                },
            }
        };
        if amounts.x > max_x {
            return Err(AmmError::SlippageExceededX);
        }
        if amounts.y > max_y {
            return Err(AmmError::SlippageExceededY);
        }
        let mut effects: Vec<Effect> = Vec::new();
        effects.push(Effect::TransferIn { asset: Asset::X, amount: amounts.x });
        effects.push(Effect::TransferIn { asset: Asset::Y, amount: amounts.y });
        effects.push(Effect::MintShares { amount: lp_amount, authority: self.pool.authority() });
        proof {
            assert(effects@ =~= self.effects(amounts, lp_amount));
        }
        Ok(effects)
    }
}

/// A pro-rata amount rounded up is at least the exact pro-rata amount.
proof fn lemma_ceil_covers(a: int, d: int)
    requires
        0 <= a,
        0 < d,
    ensures
        ((a + d - 1) / d) * d >= a,
{
    lemma_remainder(a + d - 1, d);
}

/// Withdrawing `shares` right after paying `paid` for them, where `paid`
/// covers their pro-rata part of `reserve`, returns at most `paid`.
proof fn lemma_withdrawal_within_payment(reserve: int, supply: int, shares: int, paid: int)
    requires
        0 <= reserve,
        0 <= supply,
        0 < shares,
        0 <= paid,
        paid * supply >= shares * reserve,
    ensures
        withdrawal_share(reserve + paid, supply + shares, shares) <= paid,
{
    let a = shares * (reserve + paid);
    let d = supply + shares;
    assert(0 <= a <= paid * d) by (nonlinear_arith)
        requires
            a == shares * (reserve + paid),
            d == supply + shares,
            paid * supply >= shares * reserve,
            0 <= reserve,
            0 < shares,
            0 <= paid,
    ;
    lemma_remainder(a, d);
    let q = a / d;
    assert(q <= paid) by (nonlinear_arith)
        requires
            0 <= a - q * d,
            a <= paid * d,
            0 < d,
    ;
}

/// Rounding favours the pool: withdrawing the shares of a deposit right after
/// it, at the balances it left, returns no more of either asset than the
/// deposit paid.
pub proof fn lemma_deposit_then_withdraw(d: Deposit, lp_amount: u64, max_x: u64, max_y: u64)
    requires
        d.outcome(lp_amount, max_x, max_y) is Ok,
    ensures
        ({
            let a = d.outcome(lp_amount, max_x, max_y)->Ok_0;
            let b = d.balances;
            &&& withdrawal_share(
                b.reserve_x + a.x,
                b.share_supply + lp_amount,
                lp_amount as int,
            ) <= a.x
            &&& withdrawal_share(
                b.reserve_y + a.y,
                b.share_supply + lp_amount,
                lp_amount as int,
            ) <= a.y
        }),
{
    let a = d.outcome(lp_amount, max_x, max_y)->Ok_0;
    let b = d.balances;
    let t = b.share_supply as int;
    let s = lp_amount as int;
    if !b.is_empty() {
        lemma_ceil_covers(s * b.reserve_x, t);
        lemma_ceil_covers(s * b.reserve_y, t);
        assert(s * b.reserve_x >= 0 && s * b.reserve_y >= 0) by (nonlinear_arith)
            requires
                s >= 0,
                b.reserve_x >= 0,
                b.reserve_y >= 0,
        ;
    }
    assert(a.x * t >= s * b.reserve_x);
    assert(a.y * t >= s * b.reserve_y);
    lemma_withdrawal_within_payment(b.reserve_x as int, t, s, a.x as int);
    lemma_withdrawal_within_payment(b.reserve_y as int, t, s, a.y as int);
}

/// The first deposit into an empty pool leaves exactly the depositor's
/// amounts as the reserves and the requested shares as the supply.
pub proof fn lemma_bootstrap_deposit(pool: Pool, lp_amount: u64, amount_x: u64, amount_y: u64)
    requires
        !pool.locked,
        lp_amount > 0,
    ensures
        ({
            let d = Deposit {
                pool,
                balances: PoolBalances { reserve_x: 0, reserve_y: 0, share_supply: 0 },
            };
            let a = d.outcome(lp_amount, amount_x, amount_y);
            &&& a == Ok::<DepositAmounts, AmmError>(DepositAmounts { x: amount_x, y: amount_y })
            &&& apply_effects(d.balances, d.effects(a->Ok_0, lp_amount)) == Ok::<
                PoolBalances,
                AmmError,
            >(PoolBalances { reserve_x: amount_x, reserve_y: amount_y, share_supply: lp_amount })
        }),
{
    let d = Deposit {
        pool,
        balances: PoolBalances { reserve_x: 0, reserve_y: 0, share_supply: 0 },
    };
    let a = DepositAmounts { x: amount_x, y: amount_y };
    let effects = d.effects(a, lp_amount);
    let b0 = d.balances;
    let b1 = PoolBalances { reserve_x: amount_x, ..b0 };
    let b2 = PoolBalances { reserve_y: amount_y, ..b1 };
    let e1 = effects.drop_last().drop_last();
    let e2 = effects.drop_last();
    assert(e1.drop_last() =~= Seq::<Effect>::empty());
    assert(e1.last() == effects[0]);
    assert(e2.drop_last() =~= e1);
    assert(e2.last() == effects[1]);
    assert(effects.last() == effects[2]);
    assert(apply_effects(b0, e1.drop_last()) == Ok::<PoolBalances, AmmError>(b0));
    assert(effect_result(b0, effects[0]) == Ok::<PoolBalances, AmmError>(b1));
    assert(apply_effects(b0, effects.drop_last().drop_last()) == Ok::<PoolBalances, AmmError>(b1));
    assert(apply_effects(b0, effects.drop_last()) == Ok::<PoolBalances, AmmError>(b2));
}

/// A deposit whose price in X exceeds the caller's bound on X is refused with
/// `SlippageExceededX`, and so moves nothing.
pub proof fn lemma_deposit_slippage_x(d: Deposit, lp_amount: u64, max_x: u64, max_y: u64)
    requires
        !d.pool.locked,
        lp_amount > 0,
        d.priced(lp_amount, max_x, max_y) is Ok,
        d.priced(lp_amount, max_x, max_y)->Ok_0.x > max_x,
    ensures
        d.outcome(lp_amount, max_x, max_y) == Err::<DepositAmounts, AmmError>(
            AmmError::SlippageExceededX,
        ),
{
}

} // verus!
