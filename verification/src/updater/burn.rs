use crate::flaw::Flaw;
use crate::transaction::message::{ContractType, MintBurnOption};
use crate::transaction::mint_burn_asset::{
    Collateralized, MintBurnAssetContract, MintStructure, ReturnCollateral,
};
use crate::transaction::shared::RatioType;
use crate::transaction::Transaction;
use crate::types::{BlockTx, Fraction};
use crate::updater::collateralized::{burn_return, compute_burn_return};
use crate::updater::account::revalued;
use crate::updater::ledger::Effect;
use crate::updater::mint::{
    check_live_time, compute_out_value, glittr_asset, input_glittr_asset, live_time_flaw,
    out_value_of, required_pointer_flaw,
};
use crate::updater::oracle::{oracle_flaw, validate_oracle_message};
use crate::updater::plan::{plan_is, AccountMove, AccountMoveView, Plan, PlanView};
use crate::updater::{amount_of, contract_of, pointer_flaw, Updater, UpdaterView};
use vstd::prelude::*;

verus! {

/// The mint-burn asset that a transaction created.
pub open spec fn mba_of(s: UpdaterView, contract: BlockTx) -> Result<MintBurnAssetContract, Flaw> {
    match contract_of(s.db, contract) {
        Err(flaw) => Err(flaw),
        Ok(message) => match message.contract_creation {
            None => Err(Flaw::ContractNotMatch),
            Some(creation) => match creation.contract_type {
                ContractType::Mba(mba) => Ok(mba),
                _ => Err(Flaw::ContractNotMatch),
            },
        },
    }
}

/// A ratio turned round: what is handed back for what is burned.
pub open spec fn inverse(ratio: Fraction) -> Fraction {
    Fraction { numerator: ratio.denominator, denominator: ratio.numerator }
}

/// What a burn against collateral at a ratio does: everything that the
/// bucket of the inputs holds of the asset is burned, and what the
/// ratio gives back for it leaves the holdings of the contract for the
/// pointer. The contract must hold that much.
pub open spec fn ratio_burn_plan(
    s: UpdaterView,
    tx: &Transaction,
    block: u64,
    contract: BlockTx,
    c: Collateralized,
    ratio: RatioType,
    option: MintBurnOption,
) -> Result<PlanView, Flaw> {
    let burned = amount_of(s.unallocated.assets, contract);
    match glittr_asset(c.input_assets@, 0) {
        None => Err(Flaw::NotImplemented),
        Some(asset) => {
            let back = match ratio {
                RatioType::Fixed { ratio } => out_value_of(
                    tx,
                    block,
                    RatioType::Fixed { ratio: inverse(ratio) },
                    option.oracle_message,
                    burned,
                ),
                RatioType::Oracle { .. } => out_value_of(
                    tx,
                    block,
                    ratio,
                    option.oracle_message,
                    burned,
                ),
            };
            match back {
                Err(flaw) => Err(flaw),
                Ok(out) => if out == 0 || out > amount_of(s.db.pool(contract).amounts, asset) {
                    Err(Flaw::InsufficientOutputAmount)
                } else {
                    match required_pointer_flaw(tx, option.pointer) {
                        Some(flaw) => Err(flaw),
                        None => Ok(
                            PlanView::of(
                                seq![
                                    Effect::Debit { asset: contract, amount: burned },
                                    Effect::Burned { contract, amount: burned },
                                    Effect::Withdraw { pool: contract, asset, amount: out },
                                    Effect::Credit { vout: option.pointer->0, asset, amount: out },
                                ],
                            ),
                        ),
                    }
                },
            }
        },
    }
}

/// What a burn of shares of a pool does: everything that the bucket of
/// the inputs holds of the shares is burned, and the part of each of
/// the two amounts of the pool that the shares stand for goes to the
/// pointer. A burn that would return nothing of one of them fails.
pub open spec fn pool_burn_plan(
    s: UpdaterView,
    tx: &Transaction,
    contract: BlockTx,
    c: Collateralized,
    option: MintBurnOption,
) -> Result<PlanView, Flaw> {
    let burned = amount_of(s.unallocated.assets, contract);
    match (glittr_asset(c.input_assets@, 0), glittr_asset(c.input_assets@, 1)) {
        (Some(a), Some(b)) => if !s.db.pools.dom().contains(contract) || s.db.pool(
            contract,
        ).total_supply == 0 {
            Err(Flaw::PoolNotFound)
        } else {
            let pool = s.db.pool(contract);
            let back_a = burn_return(amount_of(pool.amounts, a), burned, pool.total_supply);
            let back_b = burn_return(amount_of(pool.amounts, b), burned, pool.total_supply);
            if back_a == 0 || back_b == 0 {
                Err(Flaw::InsufficientOutputAmount)
            } else {
                match required_pointer_flaw(tx, option.pointer) {
                    Some(flaw) => Err(flaw),
                    None => Ok(
                        PlanView::of(
                            seq![
                                Effect::Debit { asset: contract, amount: burned },
                                Effect::Burned { contract, amount: burned },
                                Effect::Withdraw { pool: contract, asset: a, amount: back_a },
                                Effect::Withdraw { pool: contract, asset: b, amount: back_b },
                                Effect::RetireShares { pool: contract, amount: burned },
                                Effect::Credit {
                                    vout: option.pointer->0,
                                    asset: a,
                                    amount: back_a,
                                },
                                Effect::Credit {
                                    vout: option.pointer->0,
                                    asset: b,
                                    amount: back_b,
                                },
                            ],
                        ),
                    ),
                }
            }
        },
        _ => Err(Flaw::PoolNotFound),
    }
}

/// What a burn against a collateral account does. The account of the
/// contract must be in the bucket of the inputs, and the oracle message
/// must value the output that the account came from. The message sets
/// the loan-to-value ratio and the debt of the account and states what
/// is burned; what the bucket holds beyond that goes to the pointer, or
/// stays in the bucket where there is none. The account goes to the
/// output that `pointer_to_key` names.
pub open spec fn account_burn_plan(
    s: UpdaterView,
    tx: &Transaction,
    block: u64,
    contract: BlockTx,
    rc: ReturnCollateral,
    option: MintBurnOption,
) -> Result<PlanView, Flaw> {
    let burned = amount_of(s.unallocated.assets, contract);
    if !s.unallocated.accounts.dom().contains(contract) {
        Err(Flaw::CollateralAccountNotFound)
    } else {
        match option.oracle_message {
            None => Err(Flaw::OracleMintFailed),
            Some(signed) => if !(signed.message.input_outpoint matches Some(valued)
                && s.unallocated.origins.dom().contains(contract) && s.unallocated.origins[contract]
                == valued) {
                Err(Flaw::OracleMintFailed)
            } else if rc.oracle_setting matches Some(setting) && oracle_flaw(
                &signed,
                &setting,
                block,
            ) is Some {
                Err(oracle_flaw(&signed, &rc.oracle_setting->0, block)->0)
            } else {
                match (signed.message.ltv, signed.message.outstanding, signed.message.out_value) {
                    (None, _, _) => Err(Flaw::LtvMustBeUpdated),
                    (_, None, _) => Err(Flaw::OutstandingMustBeUpdated),
                    (_, _, None) => Err(Flaw::OutValueNotFound),
                    (Some(ltv), Some(outstanding), Some(out)) => if burned < out.0 {
                        Err(Flaw::BurnValueIncorrect)
                    } else if burned > out.0 && option.pointer is Some && pointer_flaw(
                        tx,
                        option.pointer->0,
                    ) is Some {
                        Err(pointer_flaw(tx, option.pointer->0)->0)
                    } else {
                        match option.pointer_to_key {
                            None => Err(Flaw::PointerKeyNotFound),
                            Some(key) => if pointer_flaw(tx, key) is Some {
                                Err(pointer_flaw(tx, key)->0)
                            } else {
                                Ok(
                                    PlanView {
                                        effects: if burned > out.0 && option.pointer is Some {
                                            seq![
                                                Effect::Debit { asset: contract, amount: burned },
                                                Effect::Burned { contract, amount: out.0 },
                                                Effect::Credit {
                                                    vout: option.pointer->0,
                                                    asset: contract,
                                                    amount: (burned - out.0) as u128,
                                                },
                                            ]
                                        } else {
                                            seq![
                                                Effect::Debit { asset: contract, amount: out.0 },
                                                Effect::Burned { contract, amount: out.0 },
                                            ]
                                        },
                                        claim: None,
                                        account: Some(
                                            AccountMoveView {
                                                contract,
                                                target: Some(key),
                                                account: revalued(
                                                    s.unallocated.accounts[contract],
                                                    ltv,
                                                    outstanding.0,
                                                ),
                                            },
                                        ),
                                    },
                                )
                            },
                        }
                    },
                }
            },
        }
    }
}

/// What a burn that returns collateral does, by the structure of the
/// contract. The bucket of the inputs must hold some of the asset.
pub open spec fn return_collateral_plan(
    s: UpdaterView,
    tx: &Transaction,
    block: u64,
    contract: BlockTx,
    mba: MintBurnAssetContract,
    rc: ReturnCollateral,
    option: MintBurnOption,
) -> Result<PlanView, Flaw> {
    if amount_of(s.unallocated.assets, contract) == 0 {
        Err(Flaw::InsufficientInputAmount)
    } else {
        match mba.mint_mechanism.collateralized {
            None => Err(Flaw::InvalidContractType),
            Some(c) => match c.mint_structure {
                MintStructure::Ratio(ratio) => ratio_burn_plan(
                    s,
                    tx,
                    block,
                    contract,
                    c,
                    ratio,
                    option,
                ),
                MintStructure::Proportional(_) => pool_burn_plan(s, tx, contract, c, option),
                MintStructure::Account(_) => account_burn_plan(s, tx, block, contract, rc, option),
            },
        }
    }
}

/// What a burn call does. The contract must be a mint-burn asset that
/// is live at the block and returns collateral.
pub open spec fn burn_plan(
    s: UpdaterView,
    tx: &Transaction,
    block: u64,
    contract: BlockTx,
    option: MintBurnOption,
) -> Result<PlanView, Flaw> {
    match mba_of(s, contract) {
        Err(flaw) => Err(flaw),
        Ok(mba) => if live_time_flaw(mba.live_time, mba.end_time, block) is Some {
            Err(live_time_flaw(mba.live_time, mba.end_time, block)->0)
        } else {
            match mba.burn_mechanism.return_collateral {
                None => Err(Flaw::NotImplemented),
                Some(rc) => return_collateral_plan(s, tx, block, contract, mba, rc, option),
            }
        },
    }
}

impl Updater {
    /// The mint-burn asset that a transaction created.
    pub fn get_mba(&self, contract: &BlockTx) -> (r: Result<&MintBurnAssetContract, Flaw>)
        ensures
            match (r, mba_of(self@, *contract)) {
                (Ok(m), Ok(w)) => *m == w,
                (Err(f), Err(g)) => f == g,
                _ => false,
            },
    {
        let message = match self.get_message(contract) {
            Ok(m) => m,
            Err(flaw) => {
                return Err(flaw);
            },
        };
        match &message.contract_creation {
            None => Err(Flaw::ContractNotMatch),
            Some(creation) => match &creation.contract_type {
                ContractType::Mba(mba) => Ok(mba),
                _ => Err(Flaw::ContractNotMatch),
            },
        }
    }

    /// Plans a burn against collateral at a ratio.
    pub fn burn_ratio(
        &self,
        c: &Collateralized,
        ratio: &RatioType,
        tx: &Transaction,
        block: u64,
        contract: &BlockTx,
        option: &MintBurnOption,
    ) -> (r: Result<Plan, Flaw>)
        ensures
            plan_is(r, ratio_burn_plan(self@, tx, block, *contract, *c, *ratio, *option)),
    {
        let burned = self.unallocated_inputs.asset_list.amount(contract);
        let asset = match input_glittr_asset(&c.input_assets, 0) {
            Some(a) => a,
            None => {
                return Err(Flaw::NotImplemented);
            },
        };
        let back = match ratio {
            RatioType::Fixed { ratio } => {
                let turned = RatioType::Fixed {
                    ratio: Fraction { numerator: ratio.denominator, denominator: ratio.numerator },
                };
                compute_out_value(tx, block, &turned, &option.oracle_message, burned)
            },
            RatioType::Oracle { .. } => compute_out_value(
                tx,
                block,
                ratio,
                &option.oracle_message,
                burned,
            ),
        };
        let out = match back {
            Ok(v) => v,
            Err(flaw) => {
                return Err(flaw);
            },
        };
        let held = match self.database.pool_data.get(contract) {
            Some(p) => p.amounts.amount(&asset),
            None => 0,
        };
        if out == 0 || out > held {
            return Err(Flaw::InsufficientOutputAmount);
        }
        match option.pointer {
            None => Err(Flaw::InvalidPointer),
            Some(vout) => {
                if let Some(flaw) = Self::validate_pointer(vout, tx) {
                    return Err(flaw);
                }
                let mut effects: Vec<Effect> = Vec::new();
                effects.push(Effect::Debit { asset: *contract, amount: burned });
                effects.push(Effect::Burned { contract: *contract, amount: burned });
                effects.push(Effect::Withdraw { pool: *contract, asset, amount: out });
                effects.push(Effect::Credit { vout, asset, amount: out });
                assert(effects@ =~= seq![
                    Effect::Debit { asset: *contract, amount: burned },
                    Effect::Burned { contract: *contract, amount: burned },
                    Effect::Withdraw { pool: *contract, asset, amount: out },
                    Effect::Credit { vout, asset, amount: out },
                ]);
                Ok(Plan::of(effects))
            },
        }
    }

    /// Plans a burn of shares of a pool.
    pub fn burn_pool(
        &self,
        c: &Collateralized,
        tx: &Transaction,
        contract: &BlockTx,
        option: &MintBurnOption,
    ) -> (r: Result<Plan, Flaw>)
        ensures
            plan_is(r, pool_burn_plan(self@, tx, *contract, *c, *option)),
    {
        let burned = self.unallocated_inputs.asset_list.amount(contract);
        match (input_glittr_asset(&c.input_assets, 0), input_glittr_asset(&c.input_assets, 1)) {
            (Some(a), Some(b)) => {
                let held = match self.pool_amounts(contract, &a, &b) {
                    Some(h) => h,
                    None => {
                        return Err(Flaw::PoolNotFound);
                    },
                };
                if held.2 == 0 {
                    return Err(Flaw::PoolNotFound);
                }
                let back_a = compute_burn_return(held.0, burned, held.2);
                let back_b = compute_burn_return(held.1, burned, held.2);
                if back_a == 0 || back_b == 0 {
                    return Err(Flaw::InsufficientOutputAmount);
                }
                match option.pointer {
                    None => Err(Flaw::InvalidPointer),
                    Some(vout) => {
                        if let Some(flaw) = Self::validate_pointer(vout, tx) {
                            return Err(flaw);
                        }
                        let mut effects: Vec<Effect> = Vec::new();
                        effects.push(Effect::Debit { asset: *contract, amount: burned });
                        effects.push(Effect::Burned { contract: *contract, amount: burned });
                        effects.push(Effect::Withdraw { pool: *contract, asset: a, amount: back_a });
                        effects.push(Effect::Withdraw { pool: *contract, asset: b, amount: back_b });
                        effects.push(Effect::RetireShares { pool: *contract, amount: burned });
                        effects.push(Effect::Credit { vout, asset: a, amount: back_a });
                        effects.push(Effect::Credit { vout, asset: b, amount: back_b });
                        assert(effects@ =~= seq![
                            Effect::Debit { asset: *contract, amount: burned },
                            Effect::Burned { contract: *contract, amount: burned },
                            Effect::Withdraw { pool: *contract, asset: a, amount: back_a },
                            Effect::Withdraw { pool: *contract, asset: b, amount: back_b },
                            Effect::RetireShares { pool: *contract, amount: burned },
                            Effect::Credit { vout, asset: a, amount: back_a },
                            Effect::Credit { vout, asset: b, amount: back_b },
                        ]);
                        Ok(Plan::of(effects))
                    },
                }
            },
            _ => Err(Flaw::PoolNotFound),
        }
    }

    /// Plans a burn against a collateral account.
    pub fn burn_account(
        &self,
        rc: &ReturnCollateral,
        tx: &Transaction,
        block: u64,
        contract: &BlockTx,
        option: &MintBurnOption,
    ) -> (r: Result<Plan, Flaw>)
        ensures
            plan_is(r, account_burn_plan(self@, tx, block, *contract, *rc, *option)),
    {
        let burned = self.unallocated_inputs.asset_list.amount(contract);
        let account = match self.unallocated_inputs.collateral_accounts.get(contract) {
            Some(a) => a,
            None => {
                return Err(Flaw::CollateralAccountNotFound);
            },
        };
        let signed = match &option.oracle_message {
            None => {
                return Err(Flaw::OracleMintFailed);
            },
            Some(signed) => signed,
        };
        let from = match (
            signed.message.input_outpoint,
            self.unallocated_inputs.helper_outpoint_collateral_accounts.get(contract),
        ) {
            (Some(valued), Some(origin)) => valued.txid.hi == origin.txid.hi && valued.txid.lo
                == origin.txid.lo && valued.vout == origin.vout,
            _ => false,
        };
        if !from {
            return Err(Flaw::OracleMintFailed);
        }
        if let Some(setting) = &rc.oracle_setting {
            if let Some(flaw) = validate_oracle_message(signed, setting, block) {
                return Err(flaw);
            }
        }
        let ltv = match signed.message.ltv {
            Some(v) => v,
            None => {
                return Err(Flaw::LtvMustBeUpdated);
            },
        };
        let outstanding = match signed.message.outstanding {
            Some(v) => v,
            None => {
                return Err(Flaw::OutstandingMustBeUpdated);
            },
        };
        let out = match signed.message.out_value {
            Some(v) => v,
            None => {
                return Err(Flaw::OutValueNotFound);
            },
        };
        if burned < out.0 {
            return Err(Flaw::BurnValueIncorrect);
        }
        let mut effects: Vec<Effect> = Vec::new();
        let mut spill: Option<u32> = None;
        if burned > out.0 {
            if let Some(vout) = option.pointer {
                if let Some(flaw) = Self::validate_pointer(vout, tx) {
                    return Err(flaw);
                }
                spill = Some(vout);
            }
        }
        let key = match option.pointer_to_key {
            Some(k) => k,
            None => {
                return Err(Flaw::PointerKeyNotFound);
            },
        };
        if let Some(flaw) = Self::validate_pointer(key, tx) {
            return Err(flaw);
        }
        match spill {
            Some(vout) => {
                effects.push(Effect::Debit { asset: *contract, amount: burned });
                effects.push(Effect::Burned { contract: *contract, amount: out.0 });
                effects.push(
                    Effect::Credit { vout, asset: *contract, amount: burned - out.0 },
                );
                assert(effects@ =~= seq![
                    Effect::Debit { asset: *contract, amount: burned },
                    Effect::Burned { contract: *contract, amount: out.0 },
                    Effect::Credit { vout, asset: *contract, amount: (burned - out.0) as u128 },
                ]);
            },
            None => {
                effects.push(Effect::Debit { asset: *contract, amount: out.0 });
                effects.push(Effect::Burned { contract: *contract, amount: out.0 });
                assert(effects@ =~= seq![
                    Effect::Debit { asset: *contract, amount: out.0 },
                    Effect::Burned { contract: *contract, amount: out.0 },
                ]);
            },
        }
        let mut moved = account.duplicate();
        moved.ltv = ltv;
        moved.amount_outstanding = outstanding.0;
        Ok(
            Plan {
                effects,
                claim: None,
                account: Some(AccountMove { contract: *contract, target: Some(key), account: moved }),
            },
        )
    }

    /// Plans a burn that returns collateral.
    pub fn burn_return_collateral(
        &self,
        mba: &MintBurnAssetContract,
        return_collateral: &ReturnCollateral,
        tx: &Transaction,
        block: u64,
        contract_id: &BlockTx,
        burn_option: &MintBurnOption,
    ) -> (r: Result<Plan, Flaw>)
        ensures
            plan_is(
                r,
                return_collateral_plan(
                    self@,
                    tx,
                    block,
                    *contract_id,
                    *mba,
                    *return_collateral,
                    *burn_option,
                ),
            ),
    {
        if self.unallocated_inputs.asset_list.amount(contract_id) == 0 {
            return Err(Flaw::InsufficientInputAmount);
        }
        match &mba.mint_mechanism.collateralized {
            None => Err(Flaw::InvalidContractType),
            Some(c) => match &c.mint_structure {
                MintStructure::Ratio(ratio) => self.burn_ratio(
                    c,
                    ratio,
                    tx,
                    block,
                    contract_id,
                    burn_option,
                ),
                MintStructure::Proportional(_) => self.burn_pool(c, tx, contract_id, burn_option),
                MintStructure::Account(_) => self.burn_account(
                    return_collateral,
                    tx,
                    block,
                    contract_id,
                    burn_option,
                ),
            },
        }
    }

    /// Plans a burn call.
    pub fn plan_burn(
        &self,
        tx: &Transaction,
        block: u64,
        contract_id: &BlockTx,
        burn_option: &MintBurnOption,
    ) -> (r: Result<Plan, Flaw>)
        ensures
            plan_is(r, burn_plan(self@, tx, block, *contract_id, *burn_option)),
    {
        let mba = match self.get_mba(contract_id) {
            Ok(m) => m,
            Err(flaw) => {
                return Err(flaw);
            },
        };
        if let Some(flaw) = check_live_time(mba.live_time, mba.end_time, block) {
            return Err(flaw);
        }
        match &mba.burn_mechanism.return_collateral {
            None => Err(Flaw::NotImplemented),
            Some(rc) => self.burn_return_collateral(mba, rc, tx, block, contract_id, burn_option),
        }
    }

    /// Carries out a burn call.
    pub fn burn(
        &mut self,
        tx: &Transaction,
        block_tx: &BlockTx,
        contract_id: &BlockTx,
        burn_option: &MintBurnOption,
    ) -> (r: Option<Flaw>)
        ensures
            match burn_plan(old(self)@, tx, block_tx.block, *contract_id, *burn_option) {
                Ok(plan) => r is None && final(self)@ == old(self)@.after_plan(plan),
                Err(flaw) => r matches Some(f) && f == flaw && final(self)@ == old(self)@,
            },
    {
        let planned = self.plan_burn(tx, block_tx.block, contract_id, burn_option);
        self.settle(planned)
    }
}

} // verus!
