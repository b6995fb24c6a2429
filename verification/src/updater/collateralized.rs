use crate::math::{geometric_mean, lemma_quotient_below, mul_div, root_of, sat};
use crate::transaction::mint_burn_asset::RatioModel;
use crate::types::BlockTx;
use crate::updater::{sat_add, sat_sub};
use crate::updater::AssetList;
use vstd::prelude::*;

verus! {

/// What a collateralized contract holds: the amount of each asset put
/// in, and the shares handed out for them.
#[derive(Debug)]
pub struct CollateralizedAssetData {
    pub amounts: AssetList,
    pub total_supply: u128,
}

/// The holdings of a contract as a value of contracts.
pub struct PoolView {
    pub amounts: Map<BlockTx, u128>,
    pub total_supply: u128,
}

impl View for CollateralizedAssetData {
    type V = PoolView;

    open spec fn view(&self) -> PoolView {
        PoolView { amounts: self.amounts@, total_supply: self.total_supply }
    }
}

impl PoolView {
    pub open spec fn empty() -> PoolView {
        PoolView { amounts: Map::empty(), total_supply: 0 }
    }
}

impl CollateralizedAssetData {
    pub fn new() -> (r: Self)
        ensures
            r@ == PoolView::empty(),
    {
        CollateralizedAssetData { amounts: AssetList::new(), total_supply: 0 }
    }
}

/// The scale in which the share of a burn in a pool is expressed.
pub const SHARE_SCALE: u128 = 1_000_000;

/// What a swap pays out: for a pool that holds `x` of the asset that
/// comes in and `y` of the asset that goes out, and `dx` coming in.
/// A constant-product pool pays `y * dx / (x + dx)`; a constant-sum
/// pool pays one for one, and nothing where it holds too little.
pub open spec fn swap_output(model: RatioModel, x: u128, y: u128, dx: u128) -> u128 {
    match model {
        RatioModel::ConstantProduct => if sat_add(x, dx) == 0 {
            0
        } else {
            ((y as int * dx as int) / (sat_add(x, dx) as int)) as u128
        },
        RatioModel::ConstantSum => if dx <= y {
            dx
        } else {
            0
        },
    }
}

/// A swap never pays more than the pool holds.
pub proof fn lemma_swap_output_bounded(model: RatioModel, x: u128, y: u128, dx: u128)
    ensures
        swap_output(model, x, y, dx) <= y,
        model == RatioModel::ConstantProduct && sat_add(x, dx) > 0 ==> swap_output(model, x, y, dx)
            == (y as int * dx as int) / (sat_add(x, dx) as int),
{
    if model == RatioModel::ConstantProduct && sat_add(x, dx) > 0 {
        let d = sat_add(x, dx) as int;
        let n = y as int * dx as int;
        assert(n <= y as int * d) by (nonlinear_arith)
            requires
                n == y as int * dx as int,
                0 <= dx <= d,
                y >= 0,
        ;
        assert(n >= 0) by (nonlinear_arith)
            requires
                n == y as int * dx as int,
                dx >= 0,
                y >= 0,
        ;
        lemma_quotient_below(n, d);
        assert(n / d <= y) by (nonlinear_arith)
            requires
                (n / d) * d <= n,
                n <= y as int * d,
                d > 0,
        ;
    }
}

/// Computes what a swap pays out.
pub fn compute_swap_output(model: RatioModel, x: u128, y: u128, dx: u128) -> (out: u128)
    ensures
        out == swap_output(model, x, y, dx),
{
    proof {
        lemma_swap_output_bounded(model, x, y, dx);
    }
    match model {
        RatioModel::ConstantProduct => {
            let d = x.saturating_add(dx);
            if d == 0 {
                0
            } else {
                mul_div(y, dx, d)
            }
        },
        RatioModel::ConstantSum => {
            if dx <= y {
                dx
            } else {
                0
            }
        },
    }
}

/// The quantity that swaps on a pool never let shrink: the product of
/// the two amounts, or their sum.
pub open spec fn pool_invariant(model: RatioModel, x: int, y: int) -> int {
    match model {
        RatioModel::ConstantProduct => x * y,
        RatioModel::ConstantSum => x + y,
    }
}

/// One swap on the two amounts of a pool: `dx` comes in on the first
/// side where `forward`, else on the second.
pub open spec fn swapped(model: RatioModel, pool: (u128, u128), forward: bool, dx: u128) -> (
    u128,
    u128,
) {
    if forward {
        (sat_add(pool.0, dx), sat_sub(pool.1, swap_output(model, pool.0, pool.1, dx)))
    } else {
        (sat_sub(pool.0, swap_output(model, pool.1, pool.0, dx)), sat_add(pool.1, dx))
    }
}

/// The first `n` swaps of a list, one after another.
pub open spec fn swapped_all(model: RatioModel, pool: (u128, u128), swaps: Seq<(bool, u128)>, n: int) -> (
    u128,
    u128,
)
    decreases n,
{
    if n <= 0 {
        pool
    } else {
        let before = swapped_all(model, pool, swaps, n - 1);
        swapped(model, before, swaps[n - 1].0, swaps[n - 1].1)
    }
}

/// None of the first `n` swaps brings an amount of the pool to the
/// greatest amount, where sums stop.
pub open spec fn swaps_fit(model: RatioModel, pool: (u128, u128), swaps: Seq<(bool, u128)>, n: int) -> bool
    decreases n,
{
    if n <= 0 {
        true
    } else {
        let before = swapped_all(model, pool, swaps, n - 1);
        &&& swaps_fit(model, pool, swaps, n - 1)
        &&& if swaps[n - 1].0 {
            before.0 + swaps[n - 1].1 <= u128::MAX
        } else {
            before.1 + swaps[n - 1].1 <= u128::MAX
        }
    }
}

proof fn lemma_product_kept(x: int, y: int, dx: int, out: int)
    by (nonlinear_arith)
    requires
        x >= 0,
        y >= 0,
        dx >= 0,
        x + dx > 0,
        out == (y * dx) / (x + dx),
    ensures
        (x + dx) * (y - out) >= x * y,
{
    assert(((y * dx) / (x + dx)) * (x + dx) <= y * dx);
}

/// One swap does not let the invariant of the pool shrink, where the
/// amount that comes in fits beside what the pool holds.
pub proof fn lemma_swap_keeps_invariant(model: RatioModel, pool: (u128, u128), forward: bool, dx: u128)
    requires
        forward ==> pool.0 + dx <= u128::MAX,
        !forward ==> pool.1 + dx <= u128::MAX,
    ensures
        pool_invariant(
            model,
            swapped(model, pool, forward, dx).0 as int,
            swapped(model, pool, forward, dx).1 as int,
        ) >= pool_invariant(model, pool.0 as int, pool.1 as int),
{
    let x: u128 = if forward {
        pool.0
    } else {
        pool.1
    };
    let y: u128 = if forward {
        pool.1
    } else {
        pool.0
    };
    lemma_swap_output_bounded(model, x, y, dx);
    let out = swap_output(model, x, y, dx);
    if model == RatioModel::ConstantProduct {
        if x + dx > 0 {
            lemma_product_kept(x as int, y as int, dx as int, out as int);
        }
        assert((x + dx) * (y - out) >= x * y) by (nonlinear_arith)
            requires
                x + dx > 0 ==> (x + dx) * (y - out) >= x * y,
                x + dx == 0 ==> out == 0,
                x >= 0,
                dx >= 0,
        ;
        assert((y - out) * (x + dx) == (x + dx) * (y - out)) by (nonlinear_arith);
        assert(y * x == x * y) by (nonlinear_arith);
    }
}

/// However many swaps are made on a pool, its invariant is at least
/// what it was at the start.
pub proof fn lemma_swaps_keep_invariant(
    model: RatioModel,
    pool: (u128, u128),
    swaps: Seq<(bool, u128)>,
    n: int,
)
    requires
        0 <= n <= swaps.len(),
        swaps_fit(model, pool, swaps, n),
    ensures
        pool_invariant(
            model,
            swapped_all(model, pool, swaps, n).0 as int,
            swapped_all(model, pool, swaps, n).1 as int,
        ) >= pool_invariant(model, pool.0 as int, pool.1 as int),
    decreases n,
{
    if n > 0 {
        lemma_swaps_keep_invariant(model, pool, swaps, n - 1);
        let before = swapped_all(model, pool, swaps, n - 1);
        lemma_swap_keeps_invariant(model, before, swaps[n - 1].0, swaps[n - 1].1);
    }
}

/// The shares handed out for a deposit of `dx` and `dy` into a pool
/// that holds `x` and `y` and has `total` shares out. The first
/// deposit gets the geometric mean of the two amounts, rounded down; a
/// later one the smaller of `dx / x` and `dy / y` of the shares that
/// are out.
pub open spec fn deposit_shares(x: u128, y: u128, total: u128, dx: u128, dy: u128) -> u128 {
    if total == 0 {
        root_of(dx as int * dy as int) as u128
    } else if x == 0 || y == 0 {
        0
    } else {
        let a = sat((dx as int * total as int) / (x as int));
        let b = sat((dy as int * total as int) / (y as int));
        if a < b {
            a as u128
        } else {
            b as u128
        }
    }
}

/// Computes the shares handed out for a deposit.
pub fn compute_deposit_shares(x: u128, y: u128, total: u128, dx: u128, dy: u128) -> (r: u128)
    ensures
        r == deposit_shares(x, y, total, dx, dy),
{
    if total == 0 {
        geometric_mean(dx, dy)
    } else if x == 0 || y == 0 {
        0
    } else {
        let a = mul_div(dx, total, x);
        let b = mul_div(dy, total, y);
        if a < b {
            a
        } else {
            b
        }
    }
}

/// What a burn of `burned` shares returns of an amount `held` by a
/// pool with `total` shares out: the part of `held` that the share of
/// the burn in the pool, in millionths, stands for.
pub open spec fn burn_return(held: u128, burned: u128, total: u128) -> u128 {
    if total == 0 {
        0
    } else {
        let share = sat((burned as int * SHARE_SCALE as int) / (total as int));
        sat((held as int * share) / (SHARE_SCALE as int)) as u128
    }
}

/// Computes what a burn returns of one amount of a pool.
pub fn compute_burn_return(held: u128, burned: u128, total: u128) -> (r: u128)
    ensures
        r == burn_return(held, burned, total),
{
    if total == 0 {
        0
    } else {
        let share = mul_div(burned, SHARE_SCALE, total);
        mul_div(held, share, SHARE_SCALE)
    }
}

} // verus!
