//! The pool's identity and policy: its two assets, its fee rate, its lock,
//! and the material its authority signs with.
use vstd::prelude::*;
use crate::curve::BPS_DENOMINATOR;

verus! {

/// The identity of an asset: a 32-byte key held as two 128-bit halves.
#[derive(Debug, Clone, Copy, PartialEq, Eq, Structural)]
pub struct AssetId {
    pub hi: u128,
    pub lo: u128,
}

/// One of the pool's two assets.
#[derive(Debug, Clone, Copy, PartialEq, Eq, Structural)]
pub enum Asset {
    X,
    Y,
}

/// What the pool's authority signs with: derived from the pool's identity,
/// handed to the transfer and mint collaborators, never to a caller.
#[derive(Debug, Clone, Copy, PartialEq, Eq, Structural)]
pub struct PoolAuthority {
    pub asset_x: AssetId,
    pub asset_y: AssetId,
    pub seed: u64,
    pub bump: u8,
}

/// The record of one pool.
#[derive(Debug, Clone, Copy, PartialEq, Eq, Structural)]
pub struct Pool {
    pub asset_x: AssetId,
    pub asset_y: AssetId,
    /// Fee on each swap, in basis points.
    pub fee_rate: u16,
    /// While set, deposits and swaps are refused.
    pub locked: bool,
    pub seed: u64,
    pub authority_bump: u8,
}

impl Pool {
    /// The pool's invariant: two distinct assets and a fee below one whole.
    pub open spec fn wf(&self) -> bool {
        &&& self.asset_x != self.asset_y
        &&& self.fee_rate < BPS_DENOMINATOR
    }

    /// The authority that signs for this pool.
    pub open spec fn spec_authority(&self) -> PoolAuthority {
        PoolAuthority {
            asset_x: self.asset_x,
            asset_y: self.asset_y,
            seed: self.seed,
            bump: self.authority_bump,
        }
    }

    /// A pool over `asset_x` and `asset_y`, unlocked, or `None` where the two
    /// assets are the same or the fee rate is not below one whole.
    pub fn new(asset_x: AssetId, asset_y: AssetId, fee_rate: u16, seed: u64, authority_bump: u8) -> (r:
        Option<Pool>)
        ensures
            r is Some <==> (asset_x != asset_y && fee_rate < BPS_DENOMINATOR),
            r is Some ==> r->Some_0 == (Pool {
                asset_x,
                asset_y,
                fee_rate,
                locked: false,
                seed,
                authority_bump,
            }),
            r is Some ==> r->Some_0.wf(),
    {
        if asset_x == asset_y || fee_rate as u64 >= BPS_DENOMINATOR {
            None
        } else {
            Some(Pool { asset_x, asset_y, fee_rate, locked: false, seed, authority_bump })
        }
    }

    /// Whether deposits and swaps are refused.
    pub fn is_locked(&self) -> (r: bool)
        ensures
            r == self.locked,
    {
        self.locked
    }

    /// The fee on each swap, in basis points.
    pub fn fee_rate(&self) -> (r: u16)
        ensures
            r == self.fee_rate,
    {
        self.fee_rate
    }

    /// Locks or unlocks the pool; nothing else changes.
    pub fn set_locked(&mut self, locked: bool)
        ensures
            *final(self) == (Pool { locked, ..*old(self) }),
    {
        self.locked = locked;
    }

    /// The authority that signs for this pool.
    pub fn authority(&self) -> (r: PoolAuthority)
        ensures
            r == self.spec_authority(),
    {
        PoolAuthority {
            asset_x: self.asset_x,
            asset_y: self.asset_y,
            seed: self.seed,
            bump: self.authority_bump,
        }
    }
}

} // verus!
