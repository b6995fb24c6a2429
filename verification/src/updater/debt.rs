use crate::transaction::message::{
    CallType, ContractCall, ContractCreation, OpReturnMessage, TxTypeTransfer,
};
use crate::transaction::Transaction;
use crate::types::{BlockTx, Outpoint, Txid};
use crate::updater::account::{
    account_inputs, collateral_of, lemma_opened_account_within_ltv, open_account_plan,
};
use crate::updater::conservation::call_plan;
use crate::updater::creation::creation_flaw;
use crate::updater::index::{
    call_step, carries_payload, message_step, processed, settled_state, transfer_step, Step,
};
use crate::updater::ledger::Effect;
use crate::updater::plan::PlanView;
use crate::updater::{AllocationView, UpdaterView};
use vstd::prelude::*;

verus! {

/// The debt of every account of an allocation is covered.
pub open spec fn all_covered(a: AllocationView) -> bool {
    forall|k: BlockTx| #[trigger] a.accounts.dom().contains(k) ==> a.accounts[k].within_ltv()
}

impl UpdaterView {
    /// The debt of every collateral account is covered: of those that
    /// the outputs of the store hold, and of those in the two buckets.
    pub open spec fn debts_covered(self) -> bool {
        &&& forall|o: Outpoint| #[trigger]
            self.db.outpoints.dom().contains(o) ==> all_covered(self.db.outpoints[o])
        &&& all_covered(self.unallocated)
        &&& forall|v: u32| #[trigger]
            self.allocated.dom().contains(v) ==> all_covered(self.allocated[v])
    }
}

/// Taking in the inputs of a transaction keeps every debt covered.
pub proof fn lemma_inputs_keep_debts(s: UpdaterView, inputs: Seq<Outpoint>, n: int)
    requires
        s.debts_covered(),
    ensures
        s.after_inputs(inputs, n).debts_covered(),
    decreases n,
{
    if n > 0 {
        lemma_inputs_keep_debts(s, inputs, n - 1);
        let before = s.after_inputs(inputs, n - 1);
        if before.db.outpoints.dom().contains(inputs[n - 1]) {
            assert(all_covered(before.db.outpoints[inputs[n - 1]]));
        }
    }
}

/// Transfers keep every debt covered.
pub proof fn lemma_transfers_keep_debts(s: UpdaterView, transfers: Seq<TxTypeTransfer>, outputs: nat, n: int)
    requires
        s.debts_covered(),
    ensures
        s.with_transfers(transfers, outputs, n).debts_covered(),
    decreases n,
{
    if n > 0 {
        lemma_transfers_keep_debts(s, transfers, outputs, n - 1);
    }
}

/// Steps on balances, holdings and counters keep every debt covered.
pub proof fn lemma_effects_keep_debts(s: UpdaterView, effects: Seq<Effect>, n: int)
    requires
        s.debts_covered(),
    ensures
        s.after_all(effects, n).debts_covered(),
    decreases n,
{
    if n > 0 {
        lemma_effects_keep_debts(s, effects, n - 1);
    }
}

/// Whether the account that a plan puts at an output has its debt
/// covered.
pub open spec fn plan_covers(plan: PlanView) -> bool {
    plan.account matches Some(m) ==> m.target is Some ==> m.account.within_ltv()
}

/// A plan keeps every debt covered, where the account that it puts at
/// an output has its debt covered.
pub proof fn lemma_plan_keeps_debts(s: UpdaterView, plan: PlanView)
    requires
        s.debts_covered(),
        plan_covers(plan),
    ensures
        s.after_plan(plan).debts_covered(),
{
    lemma_effects_keep_debts(s, plan.effects, plan.effects.len() as int);
}

/// A creation keeps every debt covered.
pub proof fn lemma_creation_keeps_debts(s: UpdaterView, current: BlockTx, creation: ContractCreation)
    requires
        s.debts_covered(),
    ensures
        s.after_creation(current, creation).debts_covered(),
{
}

/// Committing keeps every debt covered.
pub proof fn lemma_commit_keeps_debts(s: UpdaterView, txid: Txid, fallback: Option<u32>)
    requires
        s.debts_covered(),
    ensures
        s.committed(txid, fallback).debts_covered(),
{
}

/// The oracle of a mint or a burn against a collateral account states
/// a debt that the collateral of the account covers at the
/// loan-to-value ratio it states.
pub open spec fn oracle_covers(s: UpdaterView, tx: &Transaction, current: BlockTx, call: ContractCall) -> bool {
    match call.call_type {
        CallType::Mint(_) => call_plan(s, tx, current, call) matches Some(p) ==> plan_covers(p),
        CallType::Burn(_) => call_plan(s, tx, current, call) matches Some(p) ==> plan_covers(p),
        _ => true,
    }
}

/// A call keeps every debt covered, where the oracle of a mint or a
/// burn against an account states a covered debt. Opening and closing
/// an account need no such condition.
pub proof fn lemma_call_keeps_debts(s: UpdaterView, tx: &Transaction, current: BlockTx, call: ContractCall)
    requires
        s.debts_covered(),
        oracle_covers(s, tx, current, call),
    ensures
        call_step(s, tx, current, call).state.debts_covered(),
{
    reveal(call_step);
    if let Some(id) = call.contract {
        match call.call_type {
            CallType::OpenAccount(option) => {
                if let Ok(p) = open_account_plan(s, tx, current.block, id, option) {
                    let assets = account_inputs(s, id, current.block)->Ok_0;
                    let put_in = collateral_of(s, assets, assets.len() as int);
                    if s.unallocated.accounts.dom().contains(id) {
                        assert(s.unallocated.accounts[id].within_ltv());
                    }
                    lemma_opened_account_within_ltv(s, id, put_in, option.share_amount.0);
                }
            },
            _ => {},
        }
        if let Some(plan) = call_plan(s, tx, current, call) {
            lemma_plan_keeps_debts(s, plan);
        }
    }
}

/// The oracle of the call of a message states a covered debt, in the
/// state that the transfers of the message leave.
pub open spec fn message_oracle_covers(s: UpdaterView, tx: &Transaction, current: BlockTx, message: OpReturnMessage) -> bool {
    match message.contract_call {
        Some(call) => oracle_covers(
            transfer_step(s, tx, message, message.spec_validate()).state,
            tx,
            current,
            call,
        ),
        None => true,
    }
}

/// A message keeps every debt covered.
pub proof fn lemma_message_keeps_debts(s: UpdaterView, tx: &Transaction, current: BlockTx, message: OpReturnMessage)
    requires
        s.debts_covered(),
        message_oracle_covers(s, tx, current, message),
    ensures
        message_step(s, tx, current, message).state.debts_covered(),
{
    reveal(message_step);
    let moved = transfer_step(s, tx, message, message.spec_validate());
    assert(moved.state.debts_covered()) by {
        if let Some(t) = message.transfer {
            lemma_transfers_keep_debts(s, t.transfers@, tx.output@.len(), t.transfers@.len() as int);
        }
    }
    let checked = if moved.flaw is Some {
        moved.flaw
    } else {
        match message.contract_creation {
            Some(creation) => creation_flaw(moved.state, tx, creation),
            None => None,
        }
    };
    let called = if checked is Some {
        Step { state: moved.state, flaw: checked }
    } else {
        match message.contract_call {
            Some(call) => call_step(moved.state, tx, current, call),
            None => Step { state: moved.state, flaw: None },
        }
    };
    assert(called.state.debts_covered()) by {
        if checked is None {
            if let Some(call) = message.contract_call {
                lemma_call_keeps_debts(moved.state, tx, current, call);
            }
        }
    }
    if called.flaw is None {
        if let Some(creation) = message.contract_creation {
            lemma_creation_keeps_debts(called.state, current, creation);
        }
    }
}

/// The oracle of the call of the message of a transaction states a
/// covered debt.
pub open spec fn transaction_oracle_covers(
    s: UpdaterView,
    tx: &Transaction,
    current: BlockTx,
    decoded: Option<OpReturnMessage>,
) -> bool {
    match OpReturnMessage::parsed(tx, decoded) {
        Ok(message) => message_oracle_covers(
            s.after_inputs(tx.input@, tx.input@.len() as int),
            tx,
            current,
            message,
        ),
        Err(_) => true,
    }
}

/// Covered debt. Indexing a transaction keeps the debt of every
/// collateral account covered: `amount_outstanding` stays at most
/// `total_collateral_amount` times `ltv`. The library takes the ratio
/// and the debt of an account as the oracle states them, so this holds
/// where the oracle states a covered debt.
pub proof fn lemma_transaction_keeps_debts(
    s: UpdaterView,
    tx: &Transaction,
    current: BlockTx,
    decoded: Option<OpReturnMessage>,
)
    requires
        s.debts_covered(),
        transaction_oracle_covers(s, tx, current, decoded),
    ensures
        processed(s, tx, current, decoded).debts_covered(),
{
    let taken = s.after_inputs(tx.input@, tx.input@.len() as int);
    lemma_inputs_keep_debts(s, tx.input@, tx.input@.len() as int);
    let settled = settled_state(s, tx, current, decoded);
    assert(settled.debts_covered()) by {
        if carries_payload(tx, decoded) {
            if let Ok(message) = OpReturnMessage::parsed(tx, decoded) {
                lemma_message_keeps_debts(taken, tx, current, message);
            }
        }
    }
    lemma_commit_keeps_debts(settled, tx.txid, tx.fallback());
}

} // verus!
