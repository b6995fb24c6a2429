use crate::store::database::DatabaseView;
use crate::flaw::Flaw;
use crate::sums::{
    lemma_total_bounds, lemma_total_empty, lemma_total_put, lemma_total_take, total,
};
use crate::transaction::message::{
    CallType, ContractCall, ContractCreation, OpReturnMessage, TxTypeTransfer,
};
use crate::types::Txid;
use crate::updater::creation::{creation_flaw, update_nft_flaw};
use crate::updater::index::{
    call_step, carries_payload, message_step, processed, replayed, settled_state,
    transaction_step, transfer_step, Step,
};
use crate::updater::{movable, persisted};
use crate::types::{BlockTx, Outpoint};
use crate::updater::collateralized::PoolView;
use crate::transaction::message::{CloseAccountOption, MintBurnOption, OpenAccountOption, SwapOption};
use crate::transaction::mint_burn_asset::Collateralized;
use crate::transaction::shared::{
    FreeMint, InputAsset, Preallocated, PurchaseBurnSwap, TransferScheme,
};
use crate::transaction::Transaction;
use crate::types::U128;
use crate::transaction::message::ContractType;
use crate::transaction::mint_burn_asset::MintStructure;
use crate::updater::account::{
    account_inputs, close_account_plan, collateral_of, deposit_effects, open_account_plan,
    release_effects,
};
use crate::updater::collateralized::deposit_shares;
use crate::updater::{contract_of, sat_sub};
use crate::updater::burn::burn_plan;
use crate::updater::ledger::Effect;
use crate::updater::mint::{
    allocated_to, claimed_by, collateralized_plan, glittr_asset, mechanism_plan, mint_after,
    mint_effects, mint_plan, out_value_of, payment_of, preallocated_plan, purchase_plan, vested,
};
use crate::updater::swap::swap_plan;
use crate::updater::plan::PlanView;
use crate::updater::{amount_of, AllocationView, UpdaterView};
use vstd::prelude::*;

verus! {

/// The balance of a contract in each allocation of a map.
pub open spec fn balances<K>(m: Map<K, AllocationView>, contract: BlockTx) -> Map<K, nat> {
    m.map_values(|a: AllocationView| amount_of(a.assets, contract) as nat)
}

/// What each contract of a map holds of an asset.
pub open spec fn holdings(m: Map<BlockTx, PoolView>, asset: BlockTx) -> Map<BlockTx, nat> {
    m.map_values(|p: PoolView| amount_of(p.amounts, asset) as nat)
}

impl UpdaterView {
    /// The tables that sums run over are finite.
    pub open spec fn finite(self) -> bool {
        &&& self.db.outpoints.dom().finite()
        &&& self.db.pools.dom().finite()
        &&& self.allocated.dom().finite()
    }

    /// What the outputs of the store and the two buckets hold of a
    /// contract, together.
    pub open spec fn circulating(self, contract: BlockTx) -> int {
        total(balances(self.db.outpoints, contract)) + amount_of(self.unallocated.assets, contract)
            + total(balances(self.allocated, contract))
    }

    /// What the contracts hold of an asset, together.
    pub open spec fn pooled(self, asset: BlockTx) -> int {
        total(holdings(self.db.pools, asset)) as int
    }

    /// What was minted of a contract and not burned.
    pub open spec fn issued(self, contract: BlockTx) -> int {
        self.db.contract_data(contract).minted_supply - self.db.contract_data(
            contract,
        ).burned_supply
    }

    /// By how much what is held of a contract exceeds what was issued.
    pub open spec fn surplus(self, contract: BlockTx) -> int {
        self.circulating(contract) + self.pooled(contract) - self.issued(contract)
    }

    /// Conservation: what the outputs and the contracts hold of a
    /// contract is what was minted of it and not burned.
    pub open spec fn conserved(self, contract: BlockTx) -> bool {
        self.surplus(contract) == 0
    }
}

/// By how much a step is meant to change the surplus of a contract.
pub open spec fn nominal(effect: Effect, contract: BlockTx) -> int {
    match effect {
        Effect::Debit { asset, amount } => if asset == contract {
            -(amount as int)
        } else {
            0
        },
        Effect::Credit { asset, amount, .. } => if asset == contract {
            amount as int
        } else {
            0
        },
        Effect::Deposit { asset, amount, .. } => if asset == contract {
            amount as int
        } else {
            0
        },
        Effect::Withdraw { asset, amount, .. } => if asset == contract {
            -(amount as int)
        } else {
            0
        },
        Effect::IssueShares { .. } => 0,
        Effect::RetireShares { .. } => 0,
        Effect::Minted { contract: of, amount } => if of == contract {
            -(amount as int)
        } else {
            0
        },
        Effect::Burned { contract: of, amount } => if of == contract {
            amount as int
        } else {
            0
        },
    }
}

/// Whether a step is cut short in a state: it takes more than there
/// is, or it brings an amount beyond the greatest amount.
pub open spec fn cut(s: UpdaterView, effect: Effect) -> bool {
    match effect {
        Effect::Debit { asset, amount } => amount > amount_of(s.unallocated.assets, asset),
        Effect::Credit { vout, asset, amount } => amount_of(s.allocation_at(vout).assets, asset)
            + amount > u128::MAX,
        Effect::Deposit { pool, asset, amount } => amount_of(s.db.pool(pool).amounts, asset)
            + amount > u128::MAX,
        Effect::Withdraw { pool, asset, amount } => amount > amount_of(
            s.db.pool(pool).amounts,
            asset,
        ),
        Effect::IssueShares { .. } => false,
        Effect::RetireShares { .. } => false,
        Effect::Minted { contract, amount } => s.db.contract_data(contract).minted_supply + amount
            > u128::MAX,
        Effect::Burned { contract, amount } => s.db.contract_data(contract).burned_supply + amount
            > u128::MAX,
    }
}

/// Giving an allocation to a key of a map changes the sum of the
/// balances by the change at that key.
pub proof fn lemma_balances_put<K>(m: Map<K, AllocationView>, k: K, a: AllocationView, contract: BlockTx)
    requires
        m.dom().finite(),
    ensures
        total(balances(m.insert(k, a), contract)) + (if m.dom().contains(k) {
            amount_of(m[k].assets, contract) as nat
        } else {
            0
        }) == total(balances(m, contract)) + amount_of(a.assets, contract),
{
    assert(balances(m.insert(k, a), contract) =~= balances(m, contract).insert(
        k,
        amount_of(a.assets, contract) as nat,
    ));
    assert(balances(m, contract).dom() =~= m.dom());
    lemma_total_put(balances(m, contract), k, amount_of(a.assets, contract) as nat);
}

/// Writing what a contract holds changes the sum of the holdings by
/// the change at that contract.
pub proof fn lemma_holdings_put(m: Map<BlockTx, PoolView>, k: BlockTx, p: PoolView, asset: BlockTx)
    requires
        m.dom().finite(),
    ensures
        total(holdings(m.insert(k, p), asset)) + (if m.dom().contains(k) {
            amount_of(m[k].amounts, asset) as nat
        } else {
            0
        }) == total(holdings(m, asset)) + amount_of(p.amounts, asset),
{
    assert(holdings(m.insert(k, p), asset) =~= holdings(m, asset).insert(
        k,
        amount_of(p.amounts, asset) as nat,
    ));
    assert(holdings(m, asset).dom() =~= m.dom());
    lemma_total_put(holdings(m, asset), k, amount_of(p.amounts, asset) as nat);
}

/// A step that is not cut short changes the surplus of every contract
/// by what it is meant to.
pub proof fn lemma_effect_surplus(s: UpdaterView, effect: Effect, contract: BlockTx)
    requires
        s.finite(),
        !s.read_only,
        !cut(s, effect),
    ensures
        s.after(effect).finite(),
        !s.after(effect).read_only,
        s.after(effect).surplus(contract) == s.surplus(contract) + nominal(effect, contract),
{
    let t = s.after(effect);
    match effect {
        Effect::Debit { asset, amount } => {},
        Effect::Credit { vout, asset, amount } => {
            lemma_balances_put(s.allocated, vout, t.allocated[vout], contract);
        },
        Effect::Deposit { pool, asset, amount } => {
            lemma_holdings_put(s.db.pools, pool, t.db.pools[pool], contract);
        },
        Effect::Withdraw { pool, asset, amount } => {
            lemma_holdings_put(s.db.pools, pool, t.db.pools[pool], contract);
        },
        Effect::IssueShares { pool, amount } => {
            lemma_holdings_put(s.db.pools, pool, t.db.pools[pool], contract);
        },
        Effect::RetireShares { pool, amount } => {
            lemma_holdings_put(s.db.pools, pool, t.db.pools[pool], contract);
        },
        Effect::Minted { contract: of, amount } => {},
        Effect::Burned { contract: of, amount } => {},
    }
}

/// None of the first `n` steps of a list is cut short, each in the
/// state that the steps before it leave.
pub open spec fn uncut(s: UpdaterView, effects: Seq<Effect>, n: int) -> bool
    decreases n,
{
    if n <= 0 {
        true
    } else {
        uncut(s, effects, n - 1) && !cut(s.after_all(effects, n - 1), effects[n - 1])
    }
}

/// By how much the first `n` steps of a list are meant to change the
/// surplus of a contract.
pub open spec fn nominal_sum(effects: Seq<Effect>, n: int, contract: BlockTx) -> int
    decreases n,
{
    if n <= 0 {
        0
    } else {
        nominal_sum(effects, n - 1, contract) + nominal(effects[n - 1], contract)
    }
}

/// A list of steps is balanced: for every contract, what its steps
/// give is what they take.
pub open spec fn balanced(effects: Seq<Effect>) -> bool {
    forall|c: BlockTx| nominal_sum(effects, effects.len() as int, c) == 0
}

/// What a step gives of an asset, where it gives: to an output, to
/// the holdings of a contract, or to the count of what was burned.
pub open spec fn given(effect: Effect) -> Option<(BlockTx, u128)> {
    match effect {
        Effect::Credit { asset, amount, .. } => Some((asset, amount)),
        Effect::Deposit { asset, amount, .. } => Some((asset, amount)),
        Effect::Burned { contract, amount } => Some((contract, amount)),
        _ => None,
    }
}

/// Each of the first `n` steps that gives of an asset is covered: the
/// steps before it have taken at least as much of the asset as it
/// gives.
pub open spec fn covered(effects: Seq<Effect>, n: int) -> bool
    decreases n,
{
    if n <= 0 {
        true
    } else {
        &&& covered(effects, n - 1)
        &&& given(effects[n - 1]) matches Some(g) ==> nominal_sum(effects, n - 1, g.0) + g.1 <= 0
    }
}

/// A list of steps is sound: it is balanced, and each step that gives
/// is covered by the steps before it.
pub open spec fn sound(effects: Seq<Effect>) -> bool {
    balanced(effects) && covered(effects, effects.len() as int)
}

/// Whether a step that takes is cut short in a state: it takes more
/// than there is, or it counts what was minted beyond the greatest
/// amount.
pub open spec fn taken_short(s: UpdaterView, effect: Effect) -> bool {
    match effect {
        Effect::Debit { .. } => cut(s, effect),
        Effect::Withdraw { .. } => cut(s, effect),
        Effect::Minted { .. } => cut(s, effect),
        _ => false,
    }
}

/// None of the first `n` steps of a list that takes is cut short, each
/// in the state that the steps before it leave.
pub open spec fn exact(s: UpdaterView, effects: Seq<Effect>, n: int) -> bool
    decreases n,
{
    if n <= 0 {
        true
    } else {
        exact(s, effects, n - 1) && !taken_short(s.after_all(effects, n - 1), effects[n - 1])
    }
}

/// In a state where every contract is conserved, a step that gives
/// and is covered is never cut short: what is held of a contract and
/// what was burned of it leave room for what was taken before.
pub proof fn lemma_covered_uncut(s: UpdaterView, effects: Seq<Effect>, n: int)
    requires
        s.finite(),
        !s.read_only,
        forall|c: BlockTx| s.conserved(c),
        0 <= n <= effects.len(),
        covered(effects, n),
        exact(s, effects, n),
    ensures
        uncut(s, effects, n),
    decreases n,
{
    if n > 0 {
        lemma_covered_uncut(s, effects, n - 1);
        let t = s.after_all(effects, n - 1);
        let e = effects[n - 1];
        if let Some(g) = given(e) {
            assert(s.conserved(g.0));
            lemma_effects_surplus(s, effects, n - 1, g.0);
            match e {
                Effect::Credit { vout, asset, amount } => {
                    assert(balances(t.allocated, asset).dom() =~= t.allocated.dom());
                    lemma_total_bounds(balances(t.allocated, asset), vout);
                },
                Effect::Deposit { pool, asset, amount } => {
                    assert(holdings(t.db.pools, asset).dom() =~= t.db.pools.dom());
                    lemma_total_bounds(holdings(t.db.pools, asset), pool);
                },
                _ => {},
            }
        }
    }
}

/// Steps of which none is cut short change the surplus of every
/// contract by what they are meant to.
pub proof fn lemma_effects_surplus(s: UpdaterView, effects: Seq<Effect>, n: int, contract: BlockTx)
    requires
        s.finite(),
        !s.read_only,
        0 <= n <= effects.len(),
        uncut(s, effects, n),
    ensures
        s.after_all(effects, n).finite(),
        !s.after_all(effects, n).read_only,
        s.after_all(effects, n).surplus(contract) == s.surplus(contract) + nominal_sum(
            effects,
            n,
            contract,
        ),
    decreases n,
{
    if n > 0 {
        lemma_effects_surplus(s, effects, n - 1, contract);
        lemma_effect_surplus(s.after_all(effects, n - 1), effects[n - 1], contract);
    }
}

/// A claim and the move of a collateral account change no balance.
pub proof fn lemma_plan_tail_surplus(s: UpdaterView, plan: PlanView, contract: BlockTx)
    requires
        s.finite(),
    ensures
        s.with_claim(plan.claim).with_account_move(plan.account).finite(),
        s.with_claim(plan.claim).with_account_move(plan.account).read_only == s.read_only,
        s.with_claim(plan.claim).with_account_move(plan.account).surplus(contract) == s.surplus(
            contract,
        ),
{
    let a = s.with_claim(plan.claim);
    let b = a.with_account_move(plan.account);
    if let Some(m) = plan.account {
        if let Some(vout) = m.target {
            lemma_balances_put(a.allocated, vout, b.allocated[vout], contract);
        }
    }
}

/// A balanced plan of which no step is cut short keeps conservation.
pub proof fn lemma_plan_conserves(s: UpdaterView, plan: PlanView, contract: BlockTx)
    requires
        s.finite(),
        !s.read_only,
        balanced(plan.effects),
        uncut(s, plan.effects, plan.effects.len() as int),
    ensures
        s.after_plan(plan).finite(),
        !s.after_plan(plan).read_only,
        s.after_plan(plan).surplus(contract) == s.surplus(contract),
{
    lemma_effects_surplus(s, plan.effects, plan.effects.len() as int, contract);
    lemma_plan_tail_surplus(
        s.after_all(plan.effects, plan.effects.len() as int),
        plan,
        contract,
    );
}

/// The sum over a list depends on the steps that are summed alone.
pub proof fn lemma_nominal_prefix(a: Seq<Effect>, b: Seq<Effect>, n: int, contract: BlockTx)
    requires
        0 <= n <= a.len(),
        n <= b.len(),
        forall|i: int| 0 <= i < n ==> a[i] == b[i],
    ensures
        nominal_sum(a, n, contract) == nominal_sum(b, n, contract),
    decreases n,
{
    if n > 0 {
        lemma_nominal_prefix(a, b, n - 1, contract);
    }
}

/// The sum over two lists, one after the other, is the sum of the sums.
pub proof fn lemma_nominal_concat(a: Seq<Effect>, b: Seq<Effect>, n: int, contract: BlockTx)
    requires
        0 <= n <= b.len(),
    ensures
        nominal_sum(a + b, a.len() + n, contract) == nominal_sum(a, a.len() as int, contract)
            + nominal_sum(b, n, contract),
    decreases n,
{
    if n == 0 {
        lemma_nominal_prefix(a + b, a, a.len() as int, contract);
    } else {
        lemma_nominal_concat(a, b, n - 1, contract);
        assert((a + b)[a.len() + n - 1] == b[n - 1]);
    }
}

/// Covering carries over to a list that follows a balanced one.
pub proof fn lemma_covered_concat(a: Seq<Effect>, b: Seq<Effect>, n: int)
    requires
        sound(a),
        0 <= n <= b.len(),
        covered(b, n),
    ensures
        covered(a + b, a.len() + n),
    decreases n,
{
    if n == 0 {
        lemma_covered_prefix(a + b, a, a.len() as int);
    } else {
        lemma_covered_concat(a, b, n - 1);
        assert((a + b)[a.len() + n - 1] == b[n - 1]);
        if let Some(g) = given(b[n - 1]) {
            lemma_nominal_concat(a, b, n - 1, g.0);
        }
    }
}

/// Covering depends on the steps that are looked at alone.
pub proof fn lemma_covered_prefix(a: Seq<Effect>, b: Seq<Effect>, n: int)
    requires
        0 <= n <= a.len(),
        n <= b.len(),
        forall|i: int| 0 <= i < n ==> a[i] == b[i],
    ensures
        covered(a, n) == covered(b, n),
    decreases n,
{
    if n > 0 {
        lemma_covered_prefix(a, b, n - 1);
        if let Some(g) = given(a[n - 1]) {
            lemma_nominal_prefix(a, b, n - 1, g.0);
        }
    }
}

/// Two sound lists, one after the other, are sound.
pub proof fn lemma_concat_sound(a: Seq<Effect>, b: Seq<Effect>)
    requires
        sound(a),
        sound(b),
    ensures
        sound(a + b),
{
    assert forall|c: BlockTx| nominal_sum(a + b, (a + b).len() as int, c) == 0 by {
        lemma_nominal_concat(a, b, b.len() as int, c);
    }
    lemma_covered_concat(a, b, b.len() as int);
}

/// A list without steps is sound.
pub proof fn lemma_empty_sound()
    ensures
        sound(Seq::<Effect>::empty()),
{
}

/// The steps of minting are sound: what is counted is given.
pub proof fn lemma_mint_effects_sound(contract: BlockTx, vout: u32, amount: u128)
    ensures
        sound(mint_effects(contract, vout, amount)),
{
    reveal_with_fuel(nominal_sum, 3);
    reveal_with_fuel(covered, 3);
}

pub proof fn lemma_mint_after_sound(
    s: UpdaterView,
    tx: &Transaction,
    contract: BlockTx,
    cap: Option<U128>,
    pointer: Option<u32>,
    before: Seq<Effect>,
    amount: u128,
)
    requires
        sound(before),
    ensures
        mint_after(s, tx, contract, cap, pointer, before, amount) matches Ok(p) ==> sound(p.effects),
{
    if let Some(vout) = pointer {
        lemma_mint_effects_sound(contract, vout, amount);
        lemma_concat_sound(before, mint_effects(contract, vout, amount));
    }
}

pub proof fn lemma_payment_sound(
    s: UpdaterView,
    tx: &Transaction,
    input_asset: InputAsset,
    scheme: TransferScheme,
)
    ensures
        payment_of(s, tx, input_asset, scheme) matches Ok(p) ==> sound(p.effects),
{
    reveal_with_fuel(nominal_sum, 3);
    reveal_with_fuel(covered, 3);
}

pub proof fn lemma_preallocated_sound(
    s: UpdaterView,
    tx: &Transaction,
    block: u64,
    contract: BlockTx,
    cap: Option<U128>,
    pre: Preallocated,
    option: MintBurnOption,
)
    ensures
        preallocated_plan(s, tx, block, contract, cap, pre, option) matches Ok(p) ==> sound(p.effects),
{
    lemma_empty_sound();
    if let Some(commitment) = option.commitment_message {
        let recipient = commitment.public_key@;
        let total = allocated_to(pre.allocations@, recipient, pre.allocations@.len() as int);
        let claimed = claimed_by(s, contract, recipient);
        let claimable = sat_sub(vested(pre.vesting_plan, total, block), claimed);
        lemma_mint_after_sound(s, tx, contract, cap, option.pointer, Seq::empty(), claimable);
    }
}

pub proof fn lemma_purchase_sound(
    s: UpdaterView,
    tx: &Transaction,
    block: u64,
    contract: BlockTx,
    cap: Option<U128>,
    pbs: PurchaseBurnSwap,
    option: MintBurnOption,
)
    ensures
        purchase_plan(s, tx, block, contract, cap, pbs, option) matches Ok(p) ==> sound(p.effects),
{
    lemma_payment_sound(s, tx, pbs.input_asset, pbs.transfer_scheme);
    if let Ok(payment) = payment_of(s, tx, pbs.input_asset, pbs.transfer_scheme) {
        if let Ok(out) = out_value_of(tx, block, pbs.ratio, option.oracle_message, payment.received) {
            lemma_mint_after_sound(s, tx, contract, cap, option.pointer, payment.effects, out);
        }
    }
}

pub proof fn lemma_collateralized_sound(
    s: UpdaterView,
    tx: &Transaction,
    block: u64,
    contract: BlockTx,
    cap: Option<U128>,
    c: Collateralized,
    option: MintBurnOption,
)
    ensures
        collateralized_plan(s, tx, block, contract, cap, c, option) matches Ok(p) ==> sound(p.effects),
{
    reveal_with_fuel(nominal_sum, 6);
    reveal_with_fuel(covered, 6);
    lemma_empty_sound();
    match c.mint_structure {
        MintStructure::Ratio(ratio) => {
            if let Some(asset) = glittr_asset(c.input_assets@, 0) {
                let received = amount_of(s.unallocated.assets, asset);
                if let Ok(out) = out_value_of(tx, block, ratio, option.oracle_message, received) {
                    let before = seq![
                        Effect::Debit { asset, amount: received },
                        Effect::Deposit { pool: contract, asset, amount: received },
                    ];
                    assert(sound(before));
                    lemma_mint_after_sound(s, tx, contract, cap, option.pointer, before, out);
                }
            }
        },
        MintStructure::Proportional(_) => {
            if let (Some(a), Some(b)) = (
                glittr_asset(c.input_assets@, 0),
                glittr_asset(c.input_assets@, 1),
            ) {
                let dx = amount_of(s.unallocated.assets, a);
                let dy = amount_of(s.unallocated.assets, b);
                let pool = s.db.pool(contract);
                let shares = deposit_shares(
                    amount_of(pool.amounts, a),
                    amount_of(pool.amounts, b),
                    pool.total_supply,
                    dx,
                    dy,
                );
                let before = seq![
                    Effect::Debit { asset: a, amount: dx },
                    Effect::Debit { asset: b, amount: dy },
                    Effect::Deposit { pool: contract, asset: a, amount: dx },
                    Effect::Deposit { pool: contract, asset: b, amount: dy },
                    Effect::IssueShares { pool: contract, amount: shares },
                ];
                assert(sound(before));
                lemma_mint_after_sound(s, tx, contract, cap, option.pointer, before, shares);
            }
        },
        MintStructure::Account(account) => {
            if let Some(signed) = option.oracle_message {
                if let Some(out) = signed.message.out_value {
                    lemma_mint_after_sound(
                        s,
                        tx,
                        contract,
                        cap,
                        option.pointer,
                        Seq::empty(),
                        out.0,
                    );
                }
            }
        },
    }
}

/// Every plan of a mint is sound.
pub proof fn lemma_mint_plan_sound(
    s: UpdaterView,
    tx: &Transaction,
    block: u64,
    contract: BlockTx,
    option: MintBurnOption,
)
    ensures
        mint_plan(s, tx, block, contract, option) matches Ok(p) ==> sound(p.effects),
{
    lemma_empty_sound();
    if let Ok(message) = contract_of(s.db, contract) {
        if let Some(creation) = message.contract_creation {
            match creation.contract_type {
                ContractType::Moa(moa) => {
                    lemma_mechanism_sound(
                        s,
                        tx,
                        block,
                        contract,
                        moa.supply_cap,
                        moa.mint_mechanism.free_mint,
                        moa.mint_mechanism.preallocated,
                        moa.mint_mechanism.purchase,
                        None,
                        option,
                    );
                },
                ContractType::Mba(mba) => {
                    lemma_mechanism_sound(
                        s,
                        tx,
                        block,
                        contract,
                        mba.supply_cap,
                        mba.mint_mechanism.free_mint,
                        mba.mint_mechanism.preallocated,
                        mba.mint_mechanism.purchase,
                        mba.mint_mechanism.collateralized,
                        option,
                    );
                },
                _ => {},
            }
        }
    }
}

pub proof fn lemma_mechanism_sound(
    s: UpdaterView,
    tx: &Transaction,
    block: u64,
    contract: BlockTx,
    cap: Option<U128>,
    free_mint: Option<FreeMint>,
    preallocated: Option<Preallocated>,
    purchase: Option<PurchaseBurnSwap>,
    collateralized: Option<Collateralized>,
    option: MintBurnOption,
)
    ensures
        mechanism_plan(
            s,
            tx,
            block,
            contract,
            cap,
            free_mint,
            preallocated,
            purchase,
            collateralized,
            option,
        ) matches Ok(p) ==> sound(p.effects),
{
    lemma_empty_sound();
    if let Some(m) = free_mint {
        lemma_mint_after_sound(
            s,
            tx,
            contract,
            cap,
            option.pointer,
            Seq::empty(),
            m.amount_per_mint.0,
        );
    } else if let Some(p) = preallocated {
        lemma_preallocated_sound(s, tx, block, contract, cap, p, option);
    } else if let Some(p) = purchase {
        lemma_purchase_sound(s, tx, block, contract, cap, p, option);
    } else if let Some(c) = collateralized {
        lemma_collateralized_sound(s, tx, block, contract, cap, c, option);
    }
}

/// Every plan of a burn is sound.
pub proof fn lemma_burn_plan_sound(
    s: UpdaterView,
    tx: &Transaction,
    block: u64,
    contract: BlockTx,
    option: MintBurnOption,
)
    ensures
        burn_plan(s, tx, block, contract, option) matches Ok(p) ==> sound(p.effects),
{
    reveal_with_fuel(nominal_sum, 8);
    reveal_with_fuel(covered, 8);
}

/// Every plan of a swap is sound.
pub proof fn lemma_swap_plan_sound(
    s: UpdaterView,
    tx: &Transaction,
    block: u64,
    contract: BlockTx,
    option: SwapOption,
)
    ensures
        swap_plan(s, tx, block, contract, option) matches Ok(p) ==> sound(p.effects),
{
    reveal_with_fuel(nominal_sum, 5);
    reveal_with_fuel(covered, 5);
}

pub proof fn lemma_deposit_effects_sound(contract: BlockTx, c: Seq<(BlockTx, u128)>, n: int, of: BlockTx)
    requires
        0 <= n <= c.len(),
    ensures
        deposit_effects(contract, c, n).len() == 2 * n,
        nominal_sum(deposit_effects(contract, c, n), 2 * n, of) == 0,
        covered(deposit_effects(contract, c, n), 2 * n),
    decreases n,
{
    if n > 0 {
        lemma_deposit_effects_sound(contract, c, n - 1, of);
        lemma_deposit_effects_sound(contract, c, n - 1, c[n - 1].0);
        let before = deposit_effects(contract, c, n - 1);
        let now = deposit_effects(contract, c, n);
        lemma_nominal_prefix(now, before, 2 * (n - 1), of);
        lemma_nominal_prefix(now, before, 2 * (n - 1), c[n - 1].0);
        lemma_covered_prefix(now, before, 2 * (n - 1));
        reveal_with_fuel(nominal_sum, 3);
        reveal_with_fuel(covered, 3);
    }
}

pub proof fn lemma_release_effects_sound(
    contract: BlockTx,
    c: Seq<(BlockTx, u128)>,
    vout: u32,
    n: int,
    of: BlockTx,
)
    requires
        0 <= n <= c.len(),
    ensures
        release_effects(contract, c, vout, n).len() == 2 * n,
        nominal_sum(release_effects(contract, c, vout, n), 2 * n, of) == 0,
        covered(release_effects(contract, c, vout, n), 2 * n),
    decreases n,
{
    if n > 0 {
        lemma_release_effects_sound(contract, c, vout, n - 1, of);
        lemma_release_effects_sound(contract, c, vout, n - 1, c[n - 1].0);
        let before = release_effects(contract, c, vout, n - 1);
        let now = release_effects(contract, c, vout, n);
        lemma_nominal_prefix(now, before, 2 * (n - 1), of);
        lemma_nominal_prefix(now, before, 2 * (n - 1), c[n - 1].0);
        lemma_covered_prefix(now, before, 2 * (n - 1));
        reveal_with_fuel(nominal_sum, 3);
        reveal_with_fuel(covered, 3);
    }
}

/// Every plan of the opening of an account is sound.
pub proof fn lemma_open_account_plan_sound(
    s: UpdaterView,
    tx: &Transaction,
    block: u64,
    contract: BlockTx,
    option: OpenAccountOption,
)
    ensures
        open_account_plan(s, tx, block, contract, option) matches Ok(p) ==> sound(p.effects),
{
    if let Ok(p) = open_account_plan(s, tx, block, contract, option) {
        let assets = account_inputs(s, contract, block)->Ok_0;
        let put_in = collateral_of(s, assets, assets.len() as int);
        lemma_deposit_effects_sound(contract, put_in, put_in.len() as int, contract);
        assert forall|c: BlockTx| nominal_sum(p.effects, p.effects.len() as int, c) == 0 by {
            lemma_deposit_effects_sound(contract, put_in, put_in.len() as int, c);
        }
    }
}

/// Every plan of the closing of an account is sound.
pub proof fn lemma_close_account_plan_sound(
    s: UpdaterView,
    tx: &Transaction,
    block: u64,
    contract: BlockTx,
    option: CloseAccountOption,
)
    ensures
        close_account_plan(s, tx, block, contract, option) matches Ok(p) ==> sound(p.effects),
{
    if let Ok(p) = close_account_plan(s, tx, block, contract, option) {
        let account = s.unallocated.accounts[contract];
        lemma_release_effects_sound(
            contract,
            account.collateral,
            option.pointer,
            account.collateral.len() as int,
            contract,
        );
        assert forall|c: BlockTx| nominal_sum(p.effects, p.effects.len() as int, c) == 0 by {
            lemma_release_effects_sound(
                contract,
                account.collateral,
                option.pointer,
                account.collateral.len() as int,
                c,
            );
        }
    }
}

/// Where a contract is conserved, the bucket of the inputs and any one
/// output together hold at most the greatest amount of it.
pub proof fn lemma_conserved_fits(s: UpdaterView, vout: u32, contract: BlockTx)
    requires
        s.finite(),
        s.conserved(contract),
    ensures
        amount_of(s.allocation_at(vout).assets, contract) + amount_of(
            s.unallocated.assets,
            contract,
        ) <= u128::MAX,
{
    assert(balances(s.allocated, contract).dom() =~= s.allocated.dom());
    lemma_total_bounds(balances(s.allocated, contract), vout);
}

/// A move keeps the surplus of every contract, where the contract that
/// moves is conserved: the output gets exactly what the bucket loses.
pub proof fn lemma_move_surplus(s: UpdaterView, vout: u32, moving: BlockTx, max: u128, contract: BlockTx)
    requires
        s.finite(),
        s.conserved(moving),
    ensures
        s.with_move(vout, moving, max).finite(),
        s.with_move(vout, moving, max).db == s.db,
        s.with_move(vout, moving, max).read_only == s.read_only,
        s.with_move(vout, moving, max).surplus(contract) == s.surplus(contract),
{
    let t = s.with_move(vout, moving, max);
    lemma_conserved_fits(s, vout, moving);
    if movable(s.unallocated.assets, moving, max) != 0 {
        lemma_balances_put(s.allocated, vout, t.allocated[vout], contract);
    }
}

/// Transfers keep every contract conserved.
pub proof fn lemma_transfers_conserve(
    s: UpdaterView,
    transfers: Seq<TxTypeTransfer>,
    outputs: nat,
    n: int,
)
    requires
        s.finite(),
        forall|c: BlockTx| s.conserved(c),
        0 <= n <= transfers.len(),
    ensures
        s.with_transfers(transfers, outputs, n).finite(),
        s.with_transfers(transfers, outputs, n).db == s.db,
        s.with_transfers(transfers, outputs, n).read_only == s.read_only,
        forall|c: BlockTx| s.with_transfers(transfers, outputs, n).conserved(c),
    decreases n,
{
    if n > 0 {
        lemma_transfers_conserve(s, transfers, outputs, n - 1);
        let before = s.with_transfers(transfers, outputs, n - 1);
        let t = transfers[n - 1];
        if t.output < outputs {
            assert forall|c: BlockTx| before.with_move(t.output, t.asset, t.amount.0).conserved(
                c,
            ) by {
                assert(before.conserved(c));
                assert(before.conserved(t.asset));
                lemma_move_surplus(before, t.output, t.asset, t.amount.0, c);
            }
            assert(before.conserved(t.asset));
            lemma_move_surplus(before, t.output, t.asset, t.amount.0, t.asset);
        }
    }
}

/// Taking in a spent output keeps a conserved contract conserved: the
/// bucket of the inputs gets exactly what the output held.
pub proof fn lemma_input_conserves(s: UpdaterView, input: Outpoint, contract: BlockTx)
    requires
        s.finite(),
        !s.read_only,
        s.conserved(contract),
    ensures
        s.after_input(input).finite(),
        !s.after_input(input).read_only,
        s.after_input(input).conserved(contract),
        s.after_input(input).db.outpoints.dom().subset_of(s.db.outpoints.dom()),
{
    let t = s.after_input(input);
    if s.db.outpoints.dom().contains(input) {
        assert(balances(s.db.outpoints, contract).dom() =~= s.db.outpoints.dom());
        lemma_total_bounds(balances(s.db.outpoints, contract), input);
        lemma_total_take(balances(s.db.outpoints, contract), input);
        assert(balances(s.db.outpoints.remove(input), contract) =~= balances(
            s.db.outpoints,
            contract,
        ).remove(input));
    }
}

/// Taking in the inputs of a transaction keeps a conserved contract
/// conserved.
pub proof fn lemma_inputs_conserve(s: UpdaterView, inputs: Seq<Outpoint>, n: int, contract: BlockTx)
    requires
        s.finite(),
        !s.read_only,
        s.conserved(contract),
        0 <= n <= inputs.len(),
    ensures
        s.after_inputs(inputs, n).finite(),
        !s.after_inputs(inputs, n).read_only,
        s.after_inputs(inputs, n).conserved(contract),
        s.after_inputs(inputs, n).db.outpoints.dom().subset_of(s.db.outpoints.dom()),
    decreases n,
{
    if n > 0 {
        lemma_inputs_conserve(s, inputs, n - 1, contract);
        lemma_input_conserves(s.after_inputs(inputs, n - 1), inputs[n - 1], contract);
    }
}

/// No output of the store belongs to the transaction.
pub open spec fn fresh(db: DatabaseView, txid: Txid) -> bool {
    forall|o: Outpoint| db.outpoints.dom().contains(o) ==> o.txid != txid
}

/// Writing the staged allocations under the outputs of a transaction
/// that the store does not know adds their balances to those of the
/// store.
pub proof fn lemma_persisted_total(
    outpoints: Map<Outpoint, AllocationView>,
    txid: Txid,
    staged: Map<u32, AllocationView>,
    contract: BlockTx,
)
    requires
        outpoints.dom().finite(),
        staged.dom().finite(),
        forall|o: Outpoint| outpoints.dom().contains(o) ==> o.txid != txid,
    ensures
        persisted(outpoints, txid, staged).dom().finite(),
        total(balances(persisted(outpoints, txid, staged), contract)) == total(
            balances(outpoints, contract),
        ) + total(balances(staged, contract)),
    decreases staged.dom().len(),
{
    if staged.dom().len() == 0 {
        assert(staged.dom() =~= Set::<u32>::empty());
        assert(persisted(outpoints, txid, staged) =~= outpoints);
        assert(balances(staged, contract) =~= Map::<u32, nat>::empty());
        lemma_total_empty::<u32>();
    } else {
        let v = staged.dom().choose();
        let rest = staged.remove(v);
        let o = Outpoint { txid, vout: v };
        lemma_persisted_total(outpoints, txid, rest, contract);
        let before = persisted(outpoints, txid, rest);
        assert(persisted(outpoints, txid, staged) =~= before.insert(o, staged[v]));
        assert(!before.dom().contains(o));
        lemma_balances_put(before, o, staged[v], contract);
        assert(balances(staged, contract).dom() =~= staged.dom());
        lemma_total_take(balances(staged, contract), v);
        assert(balances(rest, contract) =~= balances(staged, contract).remove(v));
    }
}

/// Committing a transaction that the store does not know keeps a
/// conserved contract conserved, where the transaction has an output
/// that can be spent or the bucket of the inputs holds none of the
/// contract.
pub proof fn lemma_commit_conserves(s: UpdaterView, txid: Txid, fallback: Option<u32>, contract: BlockTx)
    requires
        s.finite(),
        !s.read_only,
        s.conserved(contract),
        fresh(s.db, txid),
        fallback is Some || amount_of(s.unallocated.assets, contract) == 0,
    ensures
        s.committed(txid, fallback).finite(),
        s.committed(txid, fallback).conserved(contract),
{
    let staged = s.staged(fallback);
    let t = s.committed(txid, fallback);
    assert(staged.dom().finite() && total(balances(staged, contract)) == total(
        balances(s.allocated, contract),
    ) + amount_of(s.unallocated.assets, contract)) by {
        if let Some(vout) = fallback {
            if !(s.unallocated.assets == Map::<BlockTx, u128>::empty() && s.unallocated.specs.len()
                == 0) {
                lemma_conserved_fits(s, vout, contract);
                lemma_balances_put(s.allocated, vout, staged[vout], contract);
            }
        }
    }
    lemma_persisted_total(s.db.outpoints, txid, staged, contract);
    assert(balances(t.allocated, contract) =~= Map::<u32, nat>::empty());
    lemma_total_empty::<u32>();
}

/// A creation changes no balance.
pub proof fn lemma_creation_surplus(s: UpdaterView, current: BlockTx, creation: ContractCreation, contract: BlockTx)
    requires
        s.finite(),
    ensures
        s.after_creation(current, creation).finite(),
        s.after_creation(current, creation).read_only == s.read_only,
        s.after_creation(current, creation).db.outpoints == s.db.outpoints,
        s.after_creation(current, creation).surplus(contract) == s.surplus(contract),
{
    let t = s.after_creation(current, creation);
    match creation.contract_type {
        ContractType::Spec(spec) => {
            if spec.block_tx is None {
                if let Some(p) = spec.pointer {
                    lemma_balances_put(s.allocated, p, s.with_spec_at(p, current).allocated[p], contract);
                }
            }
        },
        ContractType::Nft(nft) => {
            if let Some(p) = nft.access_key_pointer {
                if p <= u32::MAX {
                    lemma_balances_put(
                        s.allocated,
                        p as u32,
                        s.with_state_key(p as u32, current).allocated[p as u32],
                        contract,
                    );
                }
            }
        },
        _ => {},
    }
}

/// The plan of a call, where the call is carried out by a plan and
/// planning it succeeds.
pub open spec fn call_plan(s: UpdaterView, tx: &Transaction, current: BlockTx, call: ContractCall) -> Option<
    PlanView,
> {
    match call.contract {
        None => None,
        Some(id) => {
            let planned = match call.call_type {
                CallType::Mint(option) => mint_plan(s, tx, current.block, id, option),
                CallType::Burn(option) => burn_plan(s, tx, current.block, id, option),
                CallType::Swap(option) => swap_plan(s, tx, current.block, id, option),
                CallType::OpenAccount(option) => open_account_plan(
                    s,
                    tx,
                    current.block,
                    id,
                    option,
                ),
                CallType::CloseAccount(option) => close_account_plan(
                    s,
                    tx,
                    current.block,
                    id,
                    option,
                ),
                CallType::UpdateNft(_) => Err(Flaw::NotImplemented),
            };
            match planned {
                Ok(plan) => Some(plan),
                Err(_) => None,
            }
        },
    }
}

/// A call of whose plan no step that takes is cut short keeps the
/// surplus of every contract, in a state where every contract is
/// conserved.
pub proof fn lemma_call_surplus(s: UpdaterView, tx: &Transaction, current: BlockTx, call: ContractCall, contract: BlockTx)
    requires
        s.finite(),
        !s.read_only,
        forall|c: BlockTx| s.conserved(c),
        call_plan(s, tx, current, call) matches Some(p) ==> exact(
            s,
            p.effects,
            p.effects.len() as int,
        ),
    ensures
        call_step(s, tx, current, call).state.finite(),
        !call_step(s, tx, current, call).state.read_only,
        call_step(s, tx, current, call).state.db.outpoints == s.db.outpoints,
        call_step(s, tx, current, call).state.surplus(contract) == s.surplus(contract),
{
    reveal(call_step);
    if let Some(id) = call.contract {
        match call.call_type {
            CallType::Mint(option) => {
                lemma_mint_plan_sound(s, tx, current.block, id, option);
            },
            CallType::Burn(option) => {
                lemma_burn_plan_sound(s, tx, current.block, id, option);
            },
            CallType::Swap(option) => {
                lemma_swap_plan_sound(s, tx, current.block, id, option);
            },
            CallType::OpenAccount(option) => {
                lemma_open_account_plan_sound(s, tx, current.block, id, option);
            },
            CallType::CloseAccount(option) => {
                lemma_close_account_plan_sound(s, tx, current.block, id, option);
            },
            CallType::UpdateNft(option) => {
                if update_nft_flaw(s, tx, id, option) is None {
                    if let Some(p) = option.access_key_pointer {
                        if p <= u32::MAX {
                            let u = s.with_update(id, current);
                            lemma_balances_put(
                                u.allocated,
                                p as u32,
                                u.with_state_key(p as u32, id).allocated[p as u32],
                                contract,
                            );
                        }
                    }
                }
            },
        }
        if let Some(plan) = call_plan(s, tx, current, call) {
            lemma_covered_uncut(s, plan.effects, plan.effects.len() as int);
            lemma_plan_conserves(s, plan, contract);
            lemma_plan_keeps_outputs(s, plan);
        }
    }
}

/// Steps leave what the outputs of the store hold as it is.
pub proof fn lemma_effects_keep_outputs(s: UpdaterView, effects: Seq<Effect>, n: int)
    ensures
        s.after_all(effects, n).db.outpoints == s.db.outpoints,
    decreases n,
{
    if n > 0 {
        lemma_effects_keep_outputs(s, effects, n - 1);
    }
}

/// A plan leaves what the outputs of the store hold as it is.
pub proof fn lemma_plan_keeps_outputs(s: UpdaterView, plan: PlanView)
    ensures
        s.after_plan(plan).db.outpoints == s.db.outpoints,
{
    lemma_effects_keep_outputs(s, plan.effects, plan.effects.len() as int);
}

/// No step that takes of the plan of the call of a message is cut
/// short, in the state that the transfers of the message leave.
pub open spec fn message_exact(s: UpdaterView, tx: &Transaction, current: BlockTx, message: OpReturnMessage) -> bool {
    let moved = transfer_step(s, tx, message, message.spec_validate()).state;
    match message.contract_call {
        Some(call) => call_plan(moved, tx, current, call) matches Some(p) ==> exact(
            moved,
            p.effects,
            p.effects.len() as int,
        ),
        None => true,
    }
}

/// A message keeps every contract conserved, where no step that takes
/// of its call is cut short.
pub proof fn lemma_message_conserves(s: UpdaterView, tx: &Transaction, current: BlockTx, message: OpReturnMessage)
    requires
        s.finite(),
        !s.read_only,
        forall|c: BlockTx| s.conserved(c),
        message_exact(s, tx, current, message),
    ensures
        message_step(s, tx, current, message).state.finite(),
        !message_step(s, tx, current, message).state.read_only,
        message_step(s, tx, current, message).state.db.outpoints == s.db.outpoints,
        forall|c: BlockTx| message_step(s, tx, current, message).state.conserved(c),
{
    reveal(message_step);
    let moved = transfer_step(s, tx, message, message.spec_validate());
    assert(moved.state.finite() && !moved.state.read_only && moved.state.db == s.db && (forall|
        c: BlockTx,
    |
        moved.state.conserved(c))) by {
        if let Some(t) = message.transfer {
            lemma_transfers_conserve(s, t.transfers@, tx.output@.len(), t.transfers@.len() as int);
        }
    }
    let checked = if moved.flaw is Some {
        moved.flaw
    } else {
        match message.contract_creation {
            Some(creation) => creation_flaw(moved.state, tx, creation),
            None => None,
        }
    };
    let called = if checked is Some {
        Step { state: moved.state, flaw: checked }
    } else {
        match message.contract_call {
            Some(call) => call_step(moved.state, tx, current, call),
            None => Step { state: moved.state, flaw: None },
        }
    };
    assert(called.state.finite() && !called.state.read_only && called.state.db.outpoints
        == s.db.outpoints && (forall|c: BlockTx| called.state.conserved(c))) by {
        if checked is None {
            if let Some(call) = message.contract_call {
                assert forall|c: BlockTx| called.state.conserved(c) by {
                    assert(moved.state.conserved(c));
                    lemma_call_surplus(moved.state, tx, current, call, c);
                }
                lemma_call_surplus(moved.state, tx, current, call, current);
            }
        }
    }
    if called.flaw is None {
        if let Some(creation) = message.contract_creation {
            assert forall|c: BlockTx| called.state.after_creation(current, creation).conserved(
                c,
            ) by {
                assert(called.state.conserved(c));
                lemma_creation_surplus(called.state, current, creation, c);
            }
            lemma_creation_surplus(called.state, current, creation, current);
        }
    }
}

/// No step that takes of the call of the message of a transaction is
/// cut short: the call takes from the bucket of the inputs and from the
/// holdings of contracts no more than they hold, and what it mints
/// does not bring the minted supply beyond the greatest amount.
pub open spec fn transaction_exact(
    s: UpdaterView,
    tx: &Transaction,
    current: BlockTx,
    decoded: Option<OpReturnMessage>,
) -> bool {
    match OpReturnMessage::parsed(tx, decoded) {
        Ok(message) => message_exact(
            s.after_inputs(tx.input@, tx.input@.len() as int),
            tx,
            current,
            message,
        ),
        Err(_) => true,
    }
}

/// Committing keeps the tables finite.
pub proof fn lemma_commit_finite(s: UpdaterView, txid: Txid, fallback: Option<u32>)
    requires
        s.finite(),
        fresh(s.db, txid) || s.read_only,
    ensures
        s.committed(txid, fallback).finite(),
{
    if !s.read_only {
        lemma_persisted_total(s.db.outpoints, txid, s.staged(fallback), BlockTx { block: 0, tx: 0 });
    }
}

/// A store without records and empty buckets conserve every contract:
/// nothing is held and nothing was issued.
pub proof fn lemma_genesis_conserved(s: UpdaterView, contract: BlockTx)
    requires
        s.db == DatabaseView::empty(),
        s.unallocated == AllocationView::empty(),
        s.allocated == Map::<u32, AllocationView>::empty(),
    ensures
        s.finite(),
        s.conserved(contract),
        forall|txid: Txid| fresh(s.db, txid),
{
    assert(balances(s.db.outpoints, contract) =~= Map::<Outpoint, nat>::empty());
    assert(balances(s.allocated, contract) =~= Map::<u32, nat>::empty());
    assert(holdings(s.db.pools, contract) =~= Map::<BlockTx, nat>::empty());
    lemma_total_empty::<Outpoint>();
    lemma_total_empty::<u32>();
    lemma_total_empty::<BlockTx>();
}

/// Each of the first `n` transactions of a block is new to the store
/// that the transactions before it leave, has an output that can be
/// spent, and makes a call of which no step takes more than there is
/// or mints beyond the greatest amount.
pub open spec fn block_exact(
    s: UpdaterView,
    block_height: u64,
    entries: Seq<(Transaction, Option<OpReturnMessage>)>,
    n: int,
) -> bool
    decreases n,
{
    if n <= 0 {
        true
    } else {
        let before = replayed(s, block_height, entries, n - 1);
        &&& block_exact(s, block_height, entries, n - 1)
        &&& fresh(before.db, entries[n - 1].0.txid)
        &&& entries[n - 1].0.fallback() is Some
        &&& transaction_exact(
            before,
            &entries[n - 1].0,
            BlockTx { block: block_height, tx: (n - 1) as u32 },
            entries[n - 1].1,
        )
    }
}

/// Conservation over a block: what holds of one transaction holds of
/// any number of them, one after another.
pub proof fn lemma_block_conserves(
    s: UpdaterView,
    block_height: u64,
    entries: Seq<(Transaction, Option<OpReturnMessage>)>,
    n: int,
)
    requires
        s.finite(),
        !s.read_only,
        forall|c: BlockTx| s.conserved(c),
        0 <= n <= entries.len(),
        block_exact(s, block_height, entries, n),
    ensures
        replayed(s, block_height, entries, n).finite(),
        !replayed(s, block_height, entries, n).read_only,
        forall|c: BlockTx| replayed(s, block_height, entries, n).conserved(c),
    decreases n,
{
    if n > 0 {
        lemma_block_conserves(s, block_height, entries, n - 1);
        let before = replayed(s, block_height, entries, n - 1);
        lemma_transaction_conserves(
            before,
            &entries[n - 1].0,
            BlockTx { block: block_height, tx: (n - 1) as u32 },
            entries[n - 1].1,
        );
    }
}

/// Conservation. Indexing a transaction keeps every contract
/// conserved: what the outputs and the contracts hold of it stays what
/// was minted of it and not burned. This holds where the store is
/// written and does not know the transaction yet, and where no step of
/// its call takes more than there is or mints beyond the greatest
/// amount. It holds of each contract of which nothing is lost: the
/// transaction has an output that can be spent, or the bucket of the
/// inputs holds none of the contract when the outputs are committed.
pub proof fn lemma_transaction_conserves(
    s: UpdaterView,
    tx: &Transaction,
    current: BlockTx,
    decoded: Option<OpReturnMessage>,
)
    requires
        s.finite(),
        !s.read_only,
        forall|c: BlockTx| s.conserved(c),
        fresh(s.db, tx.txid),
        transaction_exact(s, tx, current, decoded),
    ensures
        processed(s, tx, current, decoded).finite(),
        !processed(s, tx, current, decoded).read_only,
        forall|c: BlockTx|
            tx.fallback() is Some || amount_of(
                settled_state(s, tx, current, decoded).unallocated.assets,
                c,
            ) == 0 ==> #[trigger] processed(s, tx, current, decoded).conserved(c),
{
    let taken = s.after_inputs(tx.input@, tx.input@.len() as int);
    assert forall|c: BlockTx| taken.conserved(c) by {
        lemma_inputs_conserve(s, tx.input@, tx.input@.len() as int, c);
    }
    lemma_inputs_conserve(s, tx.input@, tx.input@.len() as int, current);
    let step = transaction_step(s, tx, current, decoded);
    assert(step.state.finite() && !step.state.read_only && step.state.db.outpoints
        == taken.db.outpoints && (forall|c: BlockTx| step.state.conserved(c))) by {
        if carries_payload(tx, decoded) {
            if let Ok(message) = OpReturnMessage::parsed(tx, decoded) {
                lemma_message_conserves(taken, tx, current, message);
            }
        }
    }
    let settled = settled_state(s, tx, current, decoded);
    assert(settled.surplus(current) == step.state.surplus(current));
    assert(step.state.conserved(current));
    lemma_commit_finite(settled, tx.txid, tx.fallback());
    assert forall|c: BlockTx|
        tx.fallback() is Some || amount_of(settled.unallocated.assets, c) == 0 implies #[trigger]
        processed(s, tx, current, decoded).conserved(c) by {
        assert(step.state.conserved(c));
        assert(settled.surplus(c) == step.state.surplus(c));
        lemma_commit_conserves(settled, tx.txid, tx.fallback(), c);
    }
}

} // verus!
