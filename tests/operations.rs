use amm::deposit::Deposit;
use amm::error::AmmError;
use amm::ledger::{Effect, PoolBalances};
use amm::pool::{Asset, AssetId, Pool};
use amm::swap::{Swap, SwapArgs};

fn pool(fee_rate: u16) -> Pool {
    Pool::new(AssetId { hi: 1, lo: 2 }, AssetId { hi: 3, lo: 4 }, fee_rate, 42, 254).unwrap()
}

fn balances(reserve_x: u64, reserve_y: u64, share_supply: u64) -> PoolBalances {
    PoolBalances { reserve_x, reserve_y, share_supply }
}

#[test]
fn pool_rejects_same_asset_and_full_fee() {
    let a = AssetId { hi: 1, lo: 2 };
    assert!(Pool::new(a, a, 30, 0, 0).is_none());
    assert!(Pool::new(a, AssetId { hi: 1, lo: 3 }, 10000, 0, 0).is_none());
    let p = Pool::new(a, AssetId { hi: 1, lo: 3 }, 9999, 0, 0).unwrap();
    assert_eq!(p.fee_rate(), 9999);
    assert!(!p.is_locked());
}

#[test]
fn pool_lock_toggles() {
    let mut p = pool(30);
    p.set_locked(true);
    assert!(p.is_locked());
    p.set_locked(false);
    assert!(!p.is_locked());
    assert_eq!(p.fee_rate(), 30);
}

#[test]
fn bootstrap_deposit_sets_reserves_and_supply() {
    let shares = 1414u64;
    let d = Deposit { pool: pool(30), balances: balances(0, 0, 0) };
    let effects = d.deposit(shares, 1000, 2000).unwrap();
    let auth = d.pool.authority();
    assert_eq!(
        effects,
        vec![
            Effect::TransferIn { asset: Asset::X, amount: 1000 },
            Effect::TransferIn { asset: Asset::Y, amount: 2000 },
            Effect::MintShares { amount: shares, authority: auth },
        ]
    );
    let mut b = d.balances;
    b.commit(&effects).unwrap();
    assert_eq!(b, balances(1000, 2000, shares));
}

#[test]
fn proportional_deposit_rounds_up() {
    let d = Deposit { pool: pool(30), balances: balances(10, 20, 3) };
    let effects = d.deposit(1, 100, 100).unwrap();
    assert_eq!(effects[0], Effect::TransferIn { asset: Asset::X, amount: 4 });
    assert_eq!(effects[1], Effect::TransferIn { asset: Asset::Y, amount: 7 });
}

#[test]
fn deposit_then_withdraw_returns_no_more() {
    let d = Deposit { pool: pool(30), balances: balances(10, 20, 3) };
    let effects = d.deposit(1, 100, 100).unwrap();
    let mut b = d.balances;
    b.commit(&effects).unwrap();
    assert_eq!(b, balances(14, 27, 4));
    // withdrawing that one share now returns its pro-rata part, rounded down
    let back_x = b.reserve_x / b.share_supply;
    let back_y = b.reserve_y / b.share_supply;
    assert_eq!((back_x, back_y), (3, 6));
    assert!(back_x <= 4 && back_y <= 7);
}

#[test]
fn deposit_slippage_x() {
    let d = Deposit { pool: pool(30), balances: balances(1000, 2000, 100) };
    // 10 shares cost 100 of X and 200 of Y
    assert_eq!(d.deposit(10, 99, 200), Err(AmmError::SlippageExceededX));
    assert_eq!(d.deposit(10, 100, 200).unwrap().len(), 3);
}

#[test]
fn deposit_slippage_y() {
    let d = Deposit { pool: pool(30), balances: balances(1000, 2000, 100) };
    assert_eq!(d.deposit(10, 100, 199), Err(AmmError::SlippageExceededY));
}

#[test]
fn deposit_refuses_zero_shares() {
    let d = Deposit { pool: pool(30), balances: balances(1000, 2000, 100) };
    assert_eq!(d.deposit(0, 100, 200), Err(AmmError::InvalidAmount));
}

#[test]
fn deposit_reports_curve_errors() {
    let d = Deposit { pool: pool(30), balances: balances(u64::MAX, 1, 1) };
    assert_eq!(d.deposit(2, u64::MAX, u64::MAX), Err(AmmError::Overflow));
    let d = Deposit { pool: pool(30), balances: balances(0, 1000, 10) };
    assert_eq!(d.deposit(1, 1000, 1000), Err(AmmError::InvalidAmount));
    let d = Deposit { pool: pool(30), balances: balances(1000, 1000, 0) };
    assert_eq!(d.deposit(1, 1000, 1000), Err(AmmError::InsufficientLiquidity));
}

#[test]
fn locked_pool_refuses_everything() {
    let mut p = pool(30);
    p.set_locked(true);
    let b = balances(1000, 1000, 1000);
    let d = Deposit { pool: p, balances: b };
    assert_eq!(d.deposit(10, 1000, 1000), Err(AmmError::PoolLocked));
    assert_eq!(d.deposit(0, 1000, 1000), Err(AmmError::PoolLocked));
    let s = Swap { pool: p, balances: b };
    assert_eq!(s.swap(SwapArgs { is_x: true, amount: 100, min: 0 }), Err(AmmError::PoolLocked));
    assert_eq!(s.swap(SwapArgs { is_x: false, amount: 0, min: 0 }), Err(AmmError::PoolLocked));
    assert_eq!(s.balances, b);
    assert_eq!(d.balances, b);
}

#[test]
fn swap_x_for_y_exact() {
    let s = Swap { pool: pool(30), balances: balances(1000, 1000, 1000) };
    let effects = s.swap(SwapArgs { is_x: true, amount: 100, min: 90 }).unwrap();
    let auth = s.pool.authority();
    assert_eq!(
        effects,
        vec![
            Effect::TransferIn { asset: Asset::X, amount: 100 },
            Effect::TransferOut { asset: Asset::Y, amount: 90, authority: auth },
        ]
    );
    let mut b = s.balances;
    b.commit(&effects).unwrap();
    assert_eq!(b, balances(1100, 910, 1000));
    assert!(b.reserve_x as u128 * b.reserve_y as u128 >= 1000 * 1000);
}

#[test]
fn swap_y_for_x_uses_y_reserve_as_input() {
    let s = Swap { pool: pool(0), balances: balances(500, 2000, 10) };
    // out = floor(500 * 200 / 2200) = 45
    let effects = s.swap(SwapArgs { is_x: false, amount: 200, min: 0 }).unwrap();
    assert_eq!(effects[0], Effect::TransferIn { asset: Asset::Y, amount: 200 });
    assert_eq!(
        effects[1],
        Effect::TransferOut { asset: Asset::X, amount: 45, authority: s.pool.authority() }
    );
}

#[test]
fn swap_slippage() {
    let s = Swap { pool: pool(30), balances: balances(1000, 1000, 1000) };
    assert_eq!(
        s.swap(SwapArgs { is_x: true, amount: 100, min: 91 }),
        Err(AmmError::SlippageExceeded)
    );
}

#[test]
fn swap_refuses_zero_and_dust() {
    let s = Swap { pool: pool(30), balances: balances(1000, 1000, 1000) };
    assert_eq!(s.swap(SwapArgs { is_x: true, amount: 0, min: 0 }), Err(AmmError::InvalidAmount));
    // out = floor(1000 * 1 / 1001) = 0
    assert_eq!(s.swap(SwapArgs { is_x: true, amount: 1, min: 0 }), Err(AmmError::InvalidAmount));
}

#[test]
fn swap_refuses_empty_pool() {
    let s = Swap { pool: pool(30), balances: balances(0, 1000, 1000) };
    assert_eq!(
        s.swap(SwapArgs { is_x: true, amount: 10, min: 0 }),
        Err(AmmError::InsufficientLiquidity)
    );
    let s = Swap { pool: pool(30), balances: balances(1000, 1000, 0) };
    assert_eq!(
        s.swap(SwapArgs { is_x: true, amount: 10, min: 0 }),
        Err(AmmError::InsufficientLiquidity)
    );
}

#[test]
fn swap_never_pays_whole_reserve() {
    let s = Swap { pool: pool(0), balances: balances(1, 1000, 1) };
    let effects = s.swap(SwapArgs { is_x: true, amount: u64::MAX - 1, min: 0 }).unwrap();
    match effects[1] {
        Effect::TransferOut { amount, .. } => assert!(amount < 1000),
        _ => panic!("expected an outbound transfer"),
    }
}

#[test]
fn commit_is_all_or_nothing() {
    let auth = pool(30).authority();
    let mut b = balances(10, 10, 10);
    let effects = vec![
        Effect::TransferIn { asset: Asset::X, amount: 5 },
        Effect::TransferOut { asset: Asset::Y, amount: 11, authority: auth },
    ];
    assert_eq!(b.commit(&effects), Err(AmmError::TransferFailed));
    assert_eq!(b, balances(10, 10, 10));
    let effects = vec![
        Effect::TransferIn { asset: Asset::Y, amount: 5 },
        Effect::MintShares { amount: u64::MAX, authority: auth },
    ];
    assert_eq!(b.commit(&effects), Err(AmmError::MintFailed));
    assert_eq!(b, balances(10, 10, 10));
    let effects = vec![Effect::TransferIn { asset: Asset::X, amount: u64::MAX }];
    assert_eq!(b.commit(&effects), Err(AmmError::TransferFailed));
    assert_eq!(b, balances(10, 10, 10));
    assert_eq!(b.reserve(Asset::Y), 10);
}
