//! The effects an operation asks for, and the pool balances they move.
//!
//! An operation never moves a balance itself: it returns the list of effects
//! that settle it. `PoolBalances::commit` applies such a list as one unit:
//! all of it, or, where one effect cannot be applied, none of it.
use vstd::prelude::*;
use crate::error::AmmError;
use crate::pool::{Asset, PoolAuthority};

verus! {

/// One movement of value that settles an operation.
#[derive(Debug, Clone, Copy, PartialEq, Eq, Structural)]
pub enum Effect {
    /// `amount` of `asset` moves from the caller into the pool's vault,
    /// authorized by the caller.
    TransferIn { asset: Asset, amount: u64 },
    /// `amount` of `asset` moves from the pool's vault to the caller,
    /// authorized by the pool's authority.
    TransferOut { asset: Asset, amount: u64, authority: PoolAuthority },
    /// `amount` new shares are minted to the caller, authorized by the pool's
    /// authority.
    MintShares { amount: u64, authority: PoolAuthority },
}

/// The pool's vault balances and its outstanding share supply, observed
/// together.
#[derive(Debug, Clone, Copy, PartialEq, Eq, Structural)]
pub struct PoolBalances {
    pub reserve_x: u64,
    pub reserve_y: u64,
    pub share_supply: u64,
}

impl PoolBalances {
    /// Nothing deposited and no shares out: the state before the first
    /// deposit.
    pub open spec fn is_empty(&self) -> bool {
        self.reserve_x == 0 && self.reserve_y == 0 && self.share_supply == 0
    }

    /// The reserve of `asset`.
    pub open spec fn spec_reserve(&self, asset: Asset) -> u64 {
        match asset {
            Asset::X => self.reserve_x,
            Asset::Y => self.reserve_y,
        }
    }

    /// The balances with the reserve of `asset` set to `v`.
    pub open spec fn with_reserve(&self, asset: Asset, v: u64) -> PoolBalances {
        match asset {
            Asset::X => PoolBalances { reserve_x: v, ..*self },
            Asset::Y => PoolBalances { reserve_y: v, ..*self },
        }
    }

    /// The reserve of `asset`.
    pub fn reserve(&self, asset: Asset) -> (r: u64)
        ensures
            r == self.spec_reserve(asset),
    {
        match asset {
            Asset::X => self.reserve_x,
            Asset::Y => self.reserve_y,
        }
    }

    /// Applies `effects` in order, as one unit. On success the balances are
    /// those that `effects` lead to; where an effect cannot be applied (a
    /// reserve or the supply would leave the range of `u64`), the error is
    /// returned and the balances are left as they were.
    pub fn commit(&mut self, effects: &Vec<Effect>) -> (r: Result<(), AmmError>)
        ensures
            match apply_effects(*old(self), effects@) {
                Ok(b) => r is Ok && *final(self) == b,
                Err(e) => r == Err::<(), AmmError>(e) && *final(self) == *old(self),
            },
    {
        let mut cur = *self;
        let mut i: usize = 0;
        while i < effects.len()
            invariant
                0 <= i <= effects@.len(),
                apply_effects(*self, effects@.take(i as int)) == Ok::<PoolBalances, AmmError>(cur),
            decreases effects@.len() - i,
        {
            proof {
                lemma_apply_effects_step(*self, effects@, i as int);
            }
            match apply_effect(cur, &effects[i]) {
                Ok(next) => {
                    cur = next;
                },
                Err(e) => {
                    proof {
                        lemma_apply_effects_stuck(*self, effects@, i as int);
                    }
                    return Err(e);
                },
            }
            i = i + 1;
        }
        proof {
            assert(effects@.take(effects@.len() as int) =~= effects@);
        }
        *self = cur;
        Ok(())
    }
}

/// The balances after one effect, or why it cannot be applied.
pub open spec fn effect_result(b: PoolBalances, e: Effect) -> Result<PoolBalances, AmmError> {
    match e {
        Effect::TransferIn { asset, amount } => {
            if b.spec_reserve(asset) + amount > u64::MAX {
                Err(AmmError::TransferFailed)
            } else {
                Ok(b.with_reserve(asset, (b.spec_reserve(asset) + amount) as u64))
            }
        },
        Effect::TransferOut { asset, amount, authority } => {
            if amount > b.spec_reserve(asset) {
                Err(AmmError::TransferFailed)
            } else {
                Ok(b.with_reserve(asset, (b.spec_reserve(asset) - amount) as u64))
            }
        },
        Effect::MintShares { amount, authority } => {
            if b.share_supply + amount > u64::MAX {
                Err(AmmError::MintFailed)
            } else {
                Ok(PoolBalances { share_supply: (b.share_supply + amount) as u64, ..b })
            }
        },
    }
}

/// The balances after `effects` in order, or the error of the first one that
/// cannot be applied.
pub open spec fn apply_effects(b: PoolBalances, effects: Seq<Effect>) -> Result<
    PoolBalances,
    AmmError,
>
    decreases effects.len(),
{
    if effects.len() == 0 {
        Ok(b)
    } else {
        match apply_effects(b, effects.drop_last()) {
            Ok(mid) => effect_result(mid, effects.last()),
            Err(e) => Err(e),
        }
    }
}

proof fn lemma_apply_effects_step(b: PoolBalances, effects: Seq<Effect>, i: int)
    requires
        0 <= i < effects.len(),
    ensures
        apply_effects(b, effects.take(i + 1)) == match apply_effects(b, effects.take(i)) {
            Ok(mid) => effect_result(mid, effects[i]),
            Err(e) => Err(e),
        },
{
    assert(effects.take(i + 1).drop_last() =~= effects.take(i));
}

/// Once an effect fails, the whole list fails with its error.
proof fn lemma_apply_effects_stuck(b: PoolBalances, effects: Seq<Effect>, i: int)
    requires
        0 <= i < effects.len(),
        apply_effects(b, effects.take(i + 1)) is Err,
    ensures
        apply_effects(b, effects) == apply_effects(b, effects.take(i + 1)),
    decreases effects.len(),
{
    if effects.len() == i + 1 {
        assert(effects.take(i + 1) =~= effects);
    } else {
        let shorter = effects.drop_last();
        assert(shorter.take(i + 1) =~= effects.take(i + 1));
        lemma_apply_effects_stuck(b, shorter, i);
    }
}

/// The balances after one effect, or why it cannot be applied.
fn apply_effect(b: PoolBalances, e: &Effect) -> (r: Result<PoolBalances, AmmError>)
    ensures
        r == effect_result(b, *e),
{
    match *e {
        Effect::TransferIn { asset, amount } => {
            let cur = b.reserve(asset);
            match cur.checked_add(amount) {
                Some(v) => Ok(set_reserve(b, asset, v)),
                None => Err(AmmError::TransferFailed),
            }
        },
        Effect::TransferOut { asset, amount, authority: _ } => {
            let cur = b.reserve(asset);
            if amount > cur {
                Err(AmmError::TransferFailed)
            } else {
                Ok(set_reserve(b, asset, cur - amount))
            }
        },
        Effect::MintShares { amount, authority: _ } => {
            match b.share_supply.checked_add(amount) {
                Some(v) => Ok(PoolBalances { share_supply: v, ..b }),
                None => Err(AmmError::MintFailed),
            }
        },
    }
}

fn set_reserve(b: PoolBalances, asset: Asset, v: u64) -> (r: PoolBalances)
    ensures
        r == b.with_reserve(asset, v),
{
    match asset {
        Asset::X => PoolBalances { reserve_x: v, ..b },
        Asset::Y => PoolBalances { reserve_y: v, ..b },
    }
}

} // verus!
