//! Exchanging one of the pool's assets for the other.
use vstd::prelude::*;
use crate::curve::{lemma_swap_keeps_invariant, swap_output, swap_output_result, DepositAmounts, SwapQuote};
use crate::deposit::Deposit;
use crate::error::{curve_error_to_amm, AmmError};
use crate::ledger::{apply_effects, Effect, PoolBalances};
use crate::pool::{Asset, Pool};

verus! {

/// A swap request: which asset goes in, how much of it, and the least the
/// caller accepts of the other.
#[derive(Debug, Clone, Copy, PartialEq, Eq, Structural)]
pub struct SwapArgs {
    /// Whether asset X goes in (else asset Y does).
    pub is_x: bool,
    pub amount: u64,
    pub min: u64,
}

/// The asset that goes in.
pub open spec fn input_asset(is_x: bool) -> Asset {
    if is_x {
        Asset::X
    } else {
        Asset::Y
    }
}

/// The asset that comes out.
pub open spec fn output_asset(is_x: bool) -> Asset {
    if is_x {
        Asset::Y
    } else {
        Asset::X
    }
}

/// A swap against one pool, at the balances observed when it starts.
#[derive(Debug, Clone, Copy, PartialEq, Eq, Structural)]
pub struct Swap {
    pub pool: Pool,
    pub balances: PoolBalances,
}

impl Swap {
    /// The curve's quote for `args`, or why a swap is refused. The checks come
    /// in this order: the lock, a zero amount, an empty pool, the curve, a
    /// trade that moves nothing, then the caller's minimum.
    pub open spec fn outcome(&self, args: SwapArgs) -> Result<SwapQuote, AmmError> {
        let b = self.balances;
        if self.pool.locked {
            Err(AmmError::PoolLocked)
        } else if args.amount == 0 {
            Err(AmmError::InvalidAmount)
        } else if b.reserve_x == 0 || b.reserve_y == 0 || b.share_supply == 0 {
            Err(AmmError::InsufficientLiquidity)
        } else {
            match swap_output_result(
                b.spec_reserve(input_asset(args.is_x)),
                b.spec_reserve(output_asset(args.is_x)),
                args.amount,
                self.pool.fee_rate,
            ) {
                Err(e) => Err(curve_error_to_amm(e)),
                Ok(q) => {
                    if q.amount_out == 0 || q.amount_in_net == 0 {
                        Err(AmmError::InvalidAmount)
                    } else if q.amount_out < args.min {
                        Err(AmmError::SlippageExceeded)
                    } else {
                        Ok(q)
                    }
                },
            }
        }
    }

    /// The effects that settle a swap of `args` quoted at `quote`: the whole
    /// input in, then the output out under the pool's authority.
    pub open spec fn effects(&self, args: SwapArgs, quote: SwapQuote) -> Seq<Effect> {
        seq![
            Effect::TransferIn { asset: input_asset(args.is_x), amount: args.amount },
            Effect::TransferOut {
                asset: output_asset(args.is_x),
                amount: quote.amount_out,
                authority: self.pool.spec_authority(),
            },
        ]
    }

    /// Quotes a swap of `args.amount` of one asset for the other and checks it
    /// against the caller's minimum `args.min`. On success returns the effects
    /// that settle it; on any error, nothing is to be moved.
    pub fn swap(&self, args: SwapArgs) -> (r: Result<Vec<Effect>, AmmError>)
        requires
            self.pool.wf(),
        ensures
            match self.outcome(args) {
                Ok(q) => r is Ok && r->Ok_0@ == self.effects(args, q),
                Err(e) => r == Err::<Vec<Effect>, AmmError>(e),
            },
    {
        if self.pool.is_locked() {
            return Err(AmmError::PoolLocked);
        }
        if args.amount == 0 {
            return Err(AmmError::InvalidAmount);
        }
        let b = self.balances;
        if b.reserve_x == 0 || b.reserve_y == 0 || b.share_supply == 0 {
            return Err(AmmError::InsufficientLiquidity);
        }
        let (asset_in, asset_out) = if args.is_x {
            (Asset::X, Asset::Y)
        } else {
            (Asset::Y, Asset::X)
        };
        let quote = match swap_output(
            b.reserve(asset_in),
            b.reserve(asset_out),
            args.amount,
            self.pool.fee_rate(),
        ) {
            Ok(q) => q,
            Err(e) => {
                return Err(AmmError::from_curve(e));
            },
        };
        if quote.amount_out == 0 || quote.amount_in_net == 0 {
            return Err(AmmError::InvalidAmount);
        }
        if quote.amount_out < args.min {
            return Err(AmmError::SlippageExceeded);
        }
        let mut effects: Vec<Effect> = Vec::new();
        effects.push(Effect::TransferIn { asset: asset_in, amount: args.amount });
        effects.push(
            Effect::TransferOut {
                asset: asset_out,
                amount: quote.amount_out,
                authority: self.pool.authority(),
            },
        );
        proof {
            assert(effects@ =~= self.effects(args, quote));
        }
        Ok(effects)
    }
}

/// A swap never pays out the whole output reserve: whenever it is accepted,
/// what leaves the pool is less than what the pool held of that asset.
pub proof fn lemma_swap_never_drains(s: Swap, args: SwapArgs)
    requires
        s.pool.wf(),
        s.outcome(args) is Ok,
    ensures
        s.outcome(args)->Ok_0.amount_out < s.balances.spec_reserve(output_asset(args.is_x)),
{
    let b = s.balances;
    lemma_swap_keeps_invariant(
        b.spec_reserve(input_asset(args.is_x)),
        b.spec_reserve(output_asset(args.is_x)),
        args.amount,
        s.pool.fee_rate,
    );
}

/// A locked pool refuses every deposit and every swap with `PoolLocked`, so
/// none of them moves anything.
pub proof fn lemma_locked_pool_refuses(
    pool: Pool,
    balances: PoolBalances,
    lp_amount: u64,
    max_x: u64,
    max_y: u64,
    args: SwapArgs,
)
    requires
        pool.locked,
    ensures
        (Deposit { pool, balances }).outcome(lp_amount, max_x, max_y) == Err::<DepositAmounts, AmmError>(
            AmmError::PoolLocked,
        ),
        (Swap { pool, balances }).outcome(args) == Err::<SwapQuote, AmmError>(
            AmmError::PoolLocked,
        ),
{
}

/// Settling an accepted swap never lowers the product of the two reserves:
/// the whole input, fee included, stays in the pool.
pub proof fn lemma_swap_settlement_keeps_product(s: Swap, args: SwapArgs)
    requires
        s.pool.wf(),
        s.outcome(args) is Ok,
        apply_effects(s.balances, s.effects(args, s.outcome(args)->Ok_0)) is Ok,
    ensures
        ({
            let before = s.balances;
            let after = apply_effects(before, s.effects(args, s.outcome(args)->Ok_0))->Ok_0;
            after.reserve_x * after.reserve_y >= before.reserve_x * before.reserve_y
        }),
{
    let b0 = s.balances;
    let q = s.outcome(args)->Ok_0;
    let effects = s.effects(args, q);
    let rin = b0.spec_reserve(input_asset(args.is_x));
    let rout = b0.spec_reserve(output_asset(args.is_x));
    lemma_swap_keeps_invariant(rin, rout, args.amount, s.pool.fee_rate);
    let e1 = effects.drop_last();
    assert(e1.drop_last() =~= Seq::<Effect>::empty());
    assert(e1.last() == effects[0]);
    assert(effects.last() == effects[1]);
    assert(apply_effects(b0, e1.drop_last()) == Ok::<PoolBalances, AmmError>(b0));
    let b1 = apply_effects(b0, e1)->Ok_0;
    let b2 = apply_effects(b0, effects)->Ok_0;
    assert(b2.spec_reserve(input_asset(args.is_x)) == rin + args.amount);
    assert(b2.spec_reserve(output_asset(args.is_x)) == rout - q.amount_out);
    let net = q.amount_in_net as int;
    let out = q.amount_out as int;
    assert((rin + args.amount) * (rout - out) >= rin * rout) by (nonlinear_arith)
        requires
            (rin + net) * (rout - out) >= rin * rout,
            net <= args.amount,
            out < rout,
    ;
    assert(b2.reserve_x * b2.reserve_y == (rin + args.amount) * (rout - out)) by (nonlinear_arith)
        requires
            (b2.reserve_x == rin + args.amount && b2.reserve_y == rout - out) || (b2.reserve_y
                == rin + args.amount && b2.reserve_x == rout - out),
    ;
}

} // verus!
