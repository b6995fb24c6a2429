use crate::flaw::Flaw;
use crate::transaction::message::{CloseAccountOption, OpenAccountOption};
use crate::transaction::mint_burn_asset::MintStructure;
use crate::transaction::shared::InputAsset;
use crate::transaction::Transaction;
use crate::types::{BlockTx, Fraction};
use crate::updater::burn::mba_of;
use crate::updater::ledger::Effect;
use crate::updater::mint::{check_live_time, live_time_flaw};
use crate::updater::plan::{plan_is, AccountMove, AccountMoveView, Plan, PlanView};
use crate::updater::{
    amount_of, pointer_flaw, sat_add, AccountView, CollateralAccount, Updater, UpdaterView,
};
use vstd::prelude::*;

verus! {

/// The asset that the input at a position names, where the input is an
/// asset and no earlier input names the same.
pub open spec fn counted(assets: Seq<InputAsset>, i: int) -> Option<BlockTx> {
    if 0 <= i < assets.len() && assets[i] is GlittrAsset && !(exists|j: int|
        0 <= j < i && assets[j] == assets[i]) {
        Some(assets[i]->0)
    } else {
        None
    }
}

/// What the bucket of the inputs holds of the first `n` input assets
/// of a contract: each asset once, with its balance where it has one.
pub open spec fn collateral_of(s: UpdaterView, assets: Seq<InputAsset>, n: int) -> Seq<(BlockTx, u128)>
    decreases n,
{
    if n <= 0 {
        Seq::empty()
    } else {
        let before = collateral_of(s, assets, n - 1);
        match counted(assets, n - 1) {
            Some(id) => if amount_of(s.unallocated.assets, id) > 0 {
                before.push((id, amount_of(s.unallocated.assets, id)))
            } else {
                before
            },
            None => before,
        }
    }
}

/// The sum of the first `n` amounts of a list.
pub open spec fn collateral_total(c: Seq<(BlockTx, u128)>, n: int) -> u128
    decreases n,
{
    if n <= 0 {
        0
    } else {
        sat_add(collateral_total(c, n - 1), c[n - 1].1)
    }
}

/// The steps that put the first `n` amounts of a list into the
/// holdings of a contract.
pub open spec fn deposit_effects(contract: BlockTx, c: Seq<(BlockTx, u128)>, n: int) -> Seq<Effect>
    decreases n,
{
    if n <= 0 {
        Seq::empty()
    } else {
        deposit_effects(contract, c, n - 1).push(
            Effect::Debit { asset: c[n - 1].0, amount: c[n - 1].1 },
        ).push(Effect::Deposit { pool: contract, asset: c[n - 1].0, amount: c[n - 1].1 })
    }
}

/// The steps that hand the first `n` amounts of a list back from the
/// holdings of a contract to an output.
pub open spec fn release_effects(contract: BlockTx, c: Seq<(BlockTx, u128)>, vout: u32, n: int) -> Seq<
    Effect,
>
    decreases n,
{
    if n <= 0 {
        Seq::empty()
    } else {
        release_effects(contract, c, vout, n - 1).push(
            Effect::Withdraw { pool: contract, asset: c[n - 1].0, amount: c[n - 1].1 },
        ).push(Effect::Credit { vout, asset: c[n - 1].0, amount: c[n - 1].1 })
    }
}

/// The account that opening gives: a new one without debt, or the one
/// that the bucket of the inputs holds, grown by what is put in.
pub open spec fn opened_account(s: UpdaterView, contract: BlockTx, put_in: Seq<(BlockTx, u128)>, share: u128) -> AccountView {
    let total = collateral_total(put_in, put_in.len() as int);
    if s.unallocated.accounts.dom().contains(contract) {
        let had = s.unallocated.accounts[contract];
        AccountView {
            collateral: had.collateral + put_in,
            total_collateral_amount: sat_add(had.total_collateral_amount, total),
            share_amount: sat_add(had.share_amount, share),
            ..had
        }
    } else {
        AccountView {
            collateral: put_in,
            total_collateral_amount: total,
            share_amount: share,
            ltv: Fraction { numerator: 0, denominator: 1 },
            amount_outstanding: 0,
        }
    }
}

/// The input assets of the contract whose structure is an account.
pub open spec fn account_inputs(s: UpdaterView, contract: BlockTx, block: u64) -> Result<Seq<InputAsset>, Flaw> {
    match mba_of(s, contract) {
        Err(flaw) => Err(flaw),
        Ok(mba) => if live_time_flaw(mba.live_time, mba.end_time, block) is Some {
            Err(live_time_flaw(mba.live_time, mba.end_time, block)->0)
        } else {
            match mba.mint_mechanism.collateralized {
                Some(c) => match c.mint_structure {
                    MintStructure::Account(_) => Ok(c.input_assets@),
                    _ => Err(Flaw::InvalidContractType),
                },
                None => Err(Flaw::InvalidContractType),
            }
        },
    }
}

/// What opening an account does: everything that the bucket of the
/// inputs holds of the input assets of the contract goes into the
/// holdings of the contract, and the account that records it goes to
/// the output that `pointer_to_key` names.
pub open spec fn open_account_plan(
    s: UpdaterView,
    tx: &Transaction,
    block: u64,
    contract: BlockTx,
    option: OpenAccountOption,
) -> Result<PlanView, Flaw> {
    match account_inputs(s, contract, block) {
        Err(flaw) => Err(flaw),
        Ok(assets) => {
            let put_in = collateral_of(s, assets, assets.len() as int);
            if put_in.len() == 0 {
                Err(Flaw::InsufficientInputAmount)
            } else {
                match pointer_flaw(tx, option.pointer_to_key) {
                    Some(flaw) => Err(flaw),
                    None => Ok(
                        PlanView {
                            effects: deposit_effects(contract, put_in, put_in.len() as int),
                            claim: None,
                            account: Some(
                                AccountMoveView {
                                    contract,
                                    target: Some(option.pointer_to_key),
                                    account: opened_account(
                                        s,
                                        contract,
                                        put_in,
                                        option.share_amount.0,
                                    ),
                                },
                            ),
                        },
                    ),
                }
            }
        },
    }
}

/// What closing an account does: the account of the contract in the
/// bucket of the inputs, which must be free of debt, ends, and what was
/// put in leaves the holdings of the contract for the pointer.
pub open spec fn close_account_plan(
    s: UpdaterView,
    tx: &Transaction,
    block: u64,
    contract: BlockTx,
    option: CloseAccountOption,
) -> Result<PlanView, Flaw> {
    match account_inputs(s, contract, block) {
        Err(flaw) => Err(flaw),
        Ok(_) => if !s.unallocated.accounts.dom().contains(contract) {
            Err(Flaw::CollateralAccountNotFound)
        } else {
            let account = s.unallocated.accounts[contract];
            if account.amount_outstanding != 0 {
                Err(Flaw::OutstandingNotCleared)
            } else {
                match pointer_flaw(tx, option.pointer) {
                    Some(flaw) => Err(flaw),
                    None => Ok(
                        PlanView {
                            effects: release_effects(
                                contract,
                                account.collateral,
                                option.pointer,
                                account.collateral.len() as int,
                            ),
                            claim: None,
                            account: Some(
                                AccountMoveView { contract, target: None, account },
                            ),
                        },
                    ),
                }
            }
        },
    }
}

impl Updater {
    /// The input assets of the contract whose structure is an account.
    pub fn get_account_inputs(&self, contract: &BlockTx, block: u64) -> (r: Result<
        &Vec<InputAsset>,
        Flaw,
    >)
        ensures
            match (r, account_inputs(self@, *contract, block)) {
                (Ok(v), Ok(w)) => v@ == w,
                (Err(f), Err(g)) => f == g,
                _ => false,
            },
    {
        let mba = match self.get_mba(contract) {
            Ok(m) => m,
            Err(flaw) => {
                return Err(flaw);
            },
        };
        if let Some(flaw) = check_live_time(mba.live_time, mba.end_time, block) {
            return Err(flaw);
        }
        match &mba.mint_mechanism.collateralized {
            Some(c) => match &c.mint_structure {
                MintStructure::Account(_) => Ok(&c.input_assets),
                _ => Err(Flaw::InvalidContractType),
            },
            None => Err(Flaw::InvalidContractType),
        }
    }

    /// Collects what the bucket of the inputs holds of the input assets
    /// of a contract.
    pub fn collect_collateral(&self, assets: &Vec<InputAsset>) -> (r: Vec<(BlockTx, u128)>)
        ensures
            r@ == collateral_of(self@, assets@, assets@.len() as int),
    {
        let mut out: Vec<(BlockTx, u128)> = Vec::new();
        let mut i: usize = 0;
        while i < assets.len()
            invariant
                i <= assets@.len(),
                out@ == collateral_of(self@, assets@, i as int),
            decreases assets@.len() - i,
        {
            let mut seen = false;
            let mut j: usize = 0;
            while j < i
                invariant
                    j <= i,
                    i < assets@.len(),
                    seen == (exists|k: int| 0 <= k < j && assets@[k] == assets@[i as int]),
                decreases i - j,
            {
                if assets[j].same(&assets[i]) {
                    seen = true;
                }
                j += 1;
            }
            if !seen {
                if let InputAsset::GlittrAsset(id) = assets[i] {
                    let have = self.unallocated_inputs.asset_list.amount(&id);
                    if have > 0 {
                        out.push((id, have));
                    }
                }
            }
            i += 1;
        }
        out
    }

    /// Plans the opening of an account.
    pub fn plan_open_account(
        &self,
        tx: &Transaction,
        block: u64,
        contract: &BlockTx,
        option: &OpenAccountOption,
    ) -> (r: Result<Plan, Flaw>)
        ensures
            plan_is(r, open_account_plan(self@, tx, block, *contract, *option)),
    {
        let assets = match self.get_account_inputs(contract, block) {
            Ok(a) => a,
            Err(flaw) => {
                return Err(flaw);
            },
        };
        let put_in = self.collect_collateral(assets);
        if put_in.len() == 0 {
            return Err(Flaw::InsufficientInputAmount);
        }
        if let Some(flaw) = Self::validate_pointer(option.pointer_to_key, tx) {
            return Err(flaw);
        }
        let mut effects: Vec<Effect> = Vec::new();
        let mut total: u128 = 0;
        let mut i: usize = 0;
        while i < put_in.len()
            invariant
                i <= put_in@.len(),
                effects@ == deposit_effects(*contract, put_in@, i as int),
                total == collateral_total(put_in@, i as int),
            decreases put_in@.len() - i,
        {
            let e = put_in[i];
            effects.push(Effect::Debit { asset: e.0, amount: e.1 });
            effects.push(Effect::Deposit { pool: *contract, asset: e.0, amount: e.1 });
            total = total.saturating_add(e.1);
            i += 1;
        }
        let account = match self.unallocated_inputs.collateral_accounts.get(contract) {
            Some(had) => {
                let mut grown = had.duplicate();
                let ghost start = grown.collateral_amounts@;
                let mut k: usize = 0;
                while k < put_in.len()
                    invariant
                        k <= put_in@.len(),
                        grown.collateral_amounts@ == start + put_in@.subrange(0, k as int),
                        grown.total_collateral_amount == had.total_collateral_amount,
                        grown.share_amount == had.share_amount,
                        grown.ltv == had.ltv,
                        grown.amount_outstanding == had.amount_outstanding,
                    decreases put_in@.len() - k,
                {
                    grown.collateral_amounts.push(put_in[k]);
                    k += 1;
                    assert(grown.collateral_amounts@ == start + put_in@.subrange(0, k as int));
                }
                assert(put_in@.subrange(0, put_in@.len() as int) == put_in@);
                grown.total_collateral_amount = grown.total_collateral_amount.saturating_add(total);
                grown.share_amount = grown.share_amount.saturating_add(option.share_amount.0);
                grown
            },
            None => CollateralAccount {
                collateral_amounts: put_in,
                total_collateral_amount: total,
                share_amount: option.share_amount.0,
                ltv: Fraction { numerator: 0, denominator: 1 },
                amount_outstanding: 0,
            },
        };
        Ok(
            Plan {
                effects,
                claim: None,
                account: Some(
                    AccountMove {
                        contract: *contract,
                        target: Some(option.pointer_to_key),
                        account,
                    },
                ),
            },
        )
    }

    /// Plans the closing of an account.
    pub fn plan_close_account(
        &self,
        tx: &Transaction,
        block: u64,
        contract: &BlockTx,
        option: &CloseAccountOption,
    ) -> (r: Result<Plan, Flaw>)
        ensures
            plan_is(r, close_account_plan(self@, tx, block, *contract, *option)),
    {
        if let Err(flaw) = self.get_account_inputs(contract, block) {
            return Err(flaw);
        }
        let account = match self.unallocated_inputs.collateral_accounts.get(contract) {
            Some(a) => a,
            None => {
                return Err(Flaw::CollateralAccountNotFound);
            },
        };
        if account.amount_outstanding != 0 {
            return Err(Flaw::OutstandingNotCleared);
        }
        if let Some(flaw) = Self::validate_pointer(option.pointer, tx) {
            return Err(flaw);
        }
        let mut effects: Vec<Effect> = Vec::new();
        let mut i: usize = 0;
        while i < account.collateral_amounts.len()
            invariant
                i <= account.collateral_amounts@.len(),
                effects@ == release_effects(
                    *contract,
                    account.collateral_amounts@,
                    option.pointer,
                    i as int,
                ),
            decreases account.collateral_amounts@.len() - i,
        {
            let e = account.collateral_amounts[i];
            effects.push(Effect::Withdraw { pool: *contract, asset: e.0, amount: e.1 });
            effects.push(Effect::Credit { vout: option.pointer, asset: e.0, amount: e.1 });
            i += 1;
        }
        Ok(
            Plan {
                effects,
                claim: None,
                account: Some(
                    AccountMove { contract: *contract, target: None, account: account.duplicate() },
                ),
            },
        )
    }

    /// Carries out the opening of an account.
    pub fn open_account(
        &mut self,
        tx: &Transaction,
        block_tx: &BlockTx,
        contract_id: &BlockTx,
        option: &OpenAccountOption,
    ) -> (r: Option<Flaw>)
        ensures
            match open_account_plan(old(self)@, tx, block_tx.block, *contract_id, *option) {
                Ok(plan) => r is None && final(self)@ == old(self)@.after_plan(plan),
                Err(flaw) => r matches Some(f) && f == flaw && final(self)@ == old(self)@,
            },
    {
        let planned = self.plan_open_account(tx, block_tx.block, contract_id, option);
        self.settle(planned)
    }

    /// Carries out the closing of an account.
    pub fn close_account(
        &mut self,
        tx: &Transaction,
        block_tx: &BlockTx,
        contract_id: &BlockTx,
        option: &CloseAccountOption,
    ) -> (r: Option<Flaw>)
        ensures
            match close_account_plan(old(self)@, tx, block_tx.block, *contract_id, *option) {
                Ok(plan) => r is None && final(self)@ == old(self)@.after_plan(plan),
                Err(flaw) => r matches Some(f) && f == flaw && final(self)@ == old(self)@,
            },
    {
        let planned = self.plan_close_account(tx, block_tx.block, contract_id, option);
        self.settle(planned)
    }
}

/// What an account looks like after an oracle set its loan-to-value
/// ratio and its debt.
pub open spec fn revalued(account: AccountView, ltv: Fraction, outstanding: u128) -> AccountView {
    AccountView { ltv, amount_outstanding: outstanding, ..account }
}

/// Opening keeps the debt of an account covered: a new account owes
/// nothing, and one that grows owes what it owed against no less
/// collateral.
pub proof fn lemma_opened_account_within_ltv(
    s: UpdaterView,
    contract: BlockTx,
    put_in: Seq<(BlockTx, u128)>,
    share: u128,
)
    requires
        s.unallocated.accounts.dom().contains(contract) ==> s.unallocated.accounts[contract].within_ltv(),
    ensures
        opened_account(s, contract, put_in, share).within_ltv(),
{
    let a = opened_account(s, contract, put_in, share);
    if s.unallocated.accounts.dom().contains(contract) {
        let had = s.unallocated.accounts[contract];
        assert(had.total_collateral_amount * had.ltv.numerator <= a.total_collateral_amount
            * had.ltv.numerator) by (nonlinear_arith)
            requires
                had.total_collateral_amount <= a.total_collateral_amount,
                had.ltv.numerator >= 0,
        ;
    } else {
        assert(a.amount_outstanding * a.ltv.denominator == 0) by (nonlinear_arith)
            requires
                a.amount_outstanding == 0,
        ;
        assert(a.total_collateral_amount * a.ltv.numerator == 0) by (nonlinear_arith)
            requires
                a.ltv.numerator == 0,
        ;
    }
}

/// The debt of an account that an oracle revalued is covered exactly
/// where the numbers of the oracle cover it: the library takes the
/// loan-to-value ratio and the debt as the oracle states them.
pub proof fn lemma_revalued_within_ltv(account: AccountView, ltv: Fraction, outstanding: u128)
    ensures
        revalued(account, ltv, outstanding).within_ltv() <==> outstanding * ltv.denominator
            <= account.total_collateral_amount * ltv.numerator,
{
}

/// An account can only be closed free of debt, so its debt is covered
/// to the end.
pub proof fn lemma_closed_account_within_ltv(
    s: UpdaterView,
    tx: &Transaction,
    block: u64,
    contract: BlockTx,
    option: CloseAccountOption,
)
    ensures
        close_account_plan(s, tx, block, contract, option) matches Ok(p)
            ==> s.unallocated.accounts[contract].within_ltv(),
{
    if let Ok(p) = close_account_plan(s, tx, block, contract, option) {
        let a = s.unallocated.accounts[contract];
        assert(a.amount_outstanding * a.ltv.denominator == 0) by (nonlinear_arith)
            requires
                a.amount_outstanding == 0,
        ;
        assert(a.total_collateral_amount * a.ltv.numerator >= 0) by (nonlinear_arith)
            requires
                a.total_collateral_amount >= 0,
                a.ltv.numerator >= 0,
        ;
    }
}

} // verus!
