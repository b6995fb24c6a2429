use crate::flaw::Flaw;
use crate::transaction::message::SwapOption;
use crate::transaction::mint_burn_asset::{MintStructure, RatioModel};
use crate::transaction::Transaction;
use crate::types::BlockTx;
use crate::updater::burn::mba_of;
use crate::updater::collateralized::{compute_swap_output, swap_output, swapped};
use crate::updater::ledger::Effect;
use crate::updater::mint::{check_live_time, glittr_asset, input_glittr_asset, live_time_flaw};
use crate::updater::plan::{plan_is, Plan, PlanView};
use crate::updater::{amount_of, pointer_flaw, Updater, UpdaterView};
use vstd::prelude::*;

verus! {

/// The least that a swap accepts to get out; nothing where it does not
/// say.
pub open spec fn least_swap_out(option: SwapOption) -> u128 {
    match option.assert_values {
        Some(values) => match values.min_out_value {
            Some(least) => least.0,
            None => 0,
        },
        None => 0,
    }
}

/// The steps of a swap: `dx` of `from` goes from the bucket of the
/// inputs into the pool, and `out` of `to` leaves the pool for an
/// output.
pub open spec fn swap_effects(contract: BlockTx, from: BlockTx, to: BlockTx, dx: u128, out: u128, vout: u32) -> Seq<
    Effect,
> {
    seq![
        Effect::Debit { asset: from, amount: dx },
        Effect::Deposit { pool: contract, asset: from, amount: dx },
        Effect::Withdraw { pool: contract, asset: to, amount: out },
        Effect::Credit { vout, asset: to, amount: out },
    ]
}

/// What a swap call does. The contract must be a live pool of two
/// assets without a fee, and the bucket of the inputs must hold exactly
/// one of the two. All of it goes into the pool, and what the pool pays
/// for it goes to the pointer, unless that is nothing or less than the
/// call accepts.
pub open spec fn swap_plan(
    s: UpdaterView,
    tx: &Transaction,
    block: u64,
    contract: BlockTx,
    option: SwapOption,
) -> Result<PlanView, Flaw> {
    match mba_of(s, contract) {
        Err(flaw) => Err(flaw),
        Ok(mba) => if live_time_flaw(mba.live_time, mba.end_time, block) is Some {
            Err(live_time_flaw(mba.live_time, mba.end_time, block)->0)
        } else if mba.swap_mechanism.fee is Some {
            Err(Flaw::NotImplemented)
        } else {
            match mba.mint_mechanism.collateralized {
                Some(c) => match c.mint_structure {
                    MintStructure::Proportional(p) => match (
                        glittr_asset(c.input_assets@, 0),
                        glittr_asset(c.input_assets@, 1),
                    ) {
                        (Some(a), Some(b)) => if !s.db.pools.dom().contains(contract) {
                            Err(Flaw::PoolNotFound)
                        } else {
                            pool_swap_plan(s, tx, contract, p.ratio_model, a, b, option)
                        },
                        _ => Err(Flaw::PoolNotFound),
                    },
                    _ => Err(Flaw::InvalidContractType),
                },
                None => Err(Flaw::InvalidContractType),
            }
        },
    }
}

/// What a swap on the pool of `a` and `b` does.
pub open spec fn pool_swap_plan(
    s: UpdaterView,
    tx: &Transaction,
    contract: BlockTx,
    model: RatioModel,
    a: BlockTx,
    b: BlockTx,
    option: SwapOption,
) -> Result<PlanView, Flaw> {
    let da = amount_of(s.unallocated.assets, a);
    let db = amount_of(s.unallocated.assets, b);
    let pool = s.db.pool(contract);
    if (da > 0) == (db > 0) {
        Err(Flaw::InsufficientInputAmount)
    } else {
        let forward = da > 0;
        let from = if forward {
            a
        } else {
            b
        };
        let to = if forward {
            b
        } else {
            a
        };
        let dx = if forward {
            da
        } else {
            db
        };
        let out = swap_output(model, amount_of(pool.amounts, from), amount_of(pool.amounts, to), dx);
        if out == 0 || least_swap_out(option) > out {
            Err(Flaw::InsufficientOutputAmount)
        } else {
            match pointer_flaw(tx, option.pointer) {
                Some(flaw) => Err(flaw),
                None => Ok(PlanView::of(swap_effects(contract, from, to, dx, out, option.pointer))),
            }
        }
    }
}

impl Updater {
    /// Plans a swap call.
    pub fn plan_swap(&self, tx: &Transaction, block: u64, contract: &BlockTx, option: &SwapOption) -> (r:
        Result<Plan, Flaw>)
        ensures
            plan_is(r, swap_plan(self@, tx, block, *contract, *option)),
    {
        let mba = match self.get_mba(contract) {
            Ok(m) => m,
            Err(flaw) => {
                return Err(flaw);
            },
        };
        if let Some(flaw) = check_live_time(mba.live_time, mba.end_time, block) {
            return Err(flaw);
        }
        if mba.swap_mechanism.fee.is_some() {
            return Err(Flaw::NotImplemented);
        }
        let c = match &mba.mint_mechanism.collateralized {
            Some(c) => c,
            None => {
                return Err(Flaw::InvalidContractType);
            },
        };
        let model = match &c.mint_structure {
            MintStructure::Proportional(p) => p.ratio_model,
            _ => {
                return Err(Flaw::InvalidContractType);
            },
        };
        match (input_glittr_asset(&c.input_assets, 0), input_glittr_asset(&c.input_assets, 1)) {
            (Some(a), Some(b)) => {
                let held = match self.pool_amounts(contract, &a, &b) {
                    Some(h) => h,
                    None => {
                        return Err(Flaw::PoolNotFound);
                    },
                };
                let da = self.unallocated_inputs.asset_list.amount(&a);
                let db = self.unallocated_inputs.asset_list.amount(&b);
                if (da > 0) == (db > 0) {
                    return Err(Flaw::InsufficientInputAmount);
                }
                let forward = da > 0;
                let (from, to, dx, x, y) = if forward {
                    (a, b, da, held.0, held.1)
                } else {
                    (b, a, db, held.1, held.0)
                };
                let out = compute_swap_output(model, x, y, dx);
                let least = match &option.assert_values {
                    Some(values) => match values.min_out_value {
                        Some(least) => least.0,
                        None => 0,
                    },
                    None => 0,
                };
                if out == 0 || least > out {
                    return Err(Flaw::InsufficientOutputAmount);
                }
                if let Some(flaw) = Self::validate_pointer(option.pointer, tx) {
                    return Err(flaw);
                }
                let mut effects: Vec<Effect> = Vec::new();
                effects.push(Effect::Debit { asset: from, amount: dx });
                effects.push(Effect::Deposit { pool: *contract, asset: from, amount: dx });
                effects.push(Effect::Withdraw { pool: *contract, asset: to, amount: out });
                effects.push(Effect::Credit { vout: option.pointer, asset: to, amount: out });
                assert(effects@ =~= swap_effects(*contract, from, to, dx, out, option.pointer));
                Ok(Plan::of(effects))
            },
            _ => Err(Flaw::PoolNotFound),
        }
    }

    /// Carries out a swap call.
    pub fn swap(&mut self, tx: &Transaction, block_tx: &BlockTx, contract_id: &BlockTx, option: &SwapOption) -> (r:
        Option<Flaw>)
        ensures
            match swap_plan(old(self)@, tx, block_tx.block, *contract_id, *option) {
                Ok(plan) => r is None && final(self)@ == old(self)@.after_plan(plan),
                Err(flaw) => r matches Some(f) && f == flaw && final(self)@ == old(self)@,
            },
    {
        let planned = self.plan_swap(tx, block_tx.block, contract_id, option);
        self.settle(planned)
    }
}

/// The steps of a swap bring the two amounts of the pool to what one
/// swap on them gives, where the store is written.
pub proof fn lemma_swap_effects_on_pool(
    s: UpdaterView,
    contract: BlockTx,
    model: RatioModel,
    from: BlockTx,
    to: BlockTx,
    dx: u128,
    vout: u32,
)
    requires
        !s.read_only,
        from != to,
    ensures
        ({
            let pool = s.db.pool(contract);
            let x = amount_of(pool.amounts, from);
            let y = amount_of(pool.amounts, to);
            let effects = swap_effects(contract, from, to, dx, swap_output(model, x, y, dx), vout);
            let after = s.after_all(effects, 4).db.pool(contract);
            (amount_of(after.amounts, from), amount_of(after.amounts, to)) == swapped(
                model,
                (x, y),
                true,
                dx,
            )
        }),
{
    let pool = s.db.pool(contract);
    let x = amount_of(pool.amounts, from);
    let y = amount_of(pool.amounts, to);
    let effects = swap_effects(contract, from, to, dx, swap_output(model, x, y, dx), vout);
    reveal_with_fuel(UpdaterView::after_all, 5);
    let s1 = s.after(effects[0]);
    let s2 = s1.after(effects[1]);
    let s3 = s2.after(effects[2]);
    let s4 = s3.after(effects[3]);
    assert(s.after_all(effects, 4) == s4);
}

} // verus!
