pub mod account;
pub mod burn;
pub mod collateralized;
pub mod conservation;
pub mod creation;
pub mod debt;
pub mod index;
pub mod ledger;
pub mod mint;
pub mod oracle;
pub mod plan;
pub mod swap;

use crate::flaw::{positions_of, Flaw, Positions};
use crate::store::database::{Database, DatabaseView};
use crate::store::database::outpoints_view;
use crate::transaction::message::{OpReturnMessage, TxTypeTransfer};
use crate::transaction::{first_spendable, Transaction, TxOut};
use crate::types::Txid;
use crate::types::{BlockTx, Fraction, Outpoint};
use crate::vec_map::{distinct_keys, lemma_map_of_dom, map_of, VecMap};
use vstd::prelude::*;

verus! {

/// The balance that a list holds of a contract: nothing where the list
/// does not name it.
pub open spec fn amount_of(list: Map<BlockTx, u128>, contract: BlockTx) -> u128 {
    if list.dom().contains(contract) {
        list[contract]
    } else {
        0
    }
}

/// Addition of amounts, which stops at the greatest amount.
pub open spec fn sat_add(a: u128, b: u128) -> u128 {
    if a + b > u128::MAX {
        u128::MAX
    } else {
        (a + b) as u128
    }
}

/// Subtraction of amounts, which stops at zero.
pub open spec fn sat_sub(a: u128, b: u128) -> u128 {
    if a < b {
        0
    } else {
        (a - b) as u128
    }
}

/// The list after `amount` of `contract` was added to it.
pub open spec fn credited(list: Map<BlockTx, u128>, contract: BlockTx, amount: u128) -> Map<
    BlockTx,
    u128,
> {
    list.insert(contract, sat_add(amount_of(list, contract), amount))
}

/// How much of `contract` leaves a list when up to `max` is asked for.
pub open spec fn movable(list: Map<BlockTx, u128>, contract: BlockTx, max: u128) -> u128 {
    if max < amount_of(list, contract) {
        max
    } else {
        amount_of(list, contract)
    }
}

/// The list after up to `max` of `contract` was taken from it. An entry
/// that is emptied leaves the list.
pub open spec fn debited(list: Map<BlockTx, u128>, contract: BlockTx, max: u128) -> Map<
    BlockTx,
    u128,
> {
    let have = amount_of(list, contract);
    let moved = movable(list, contract, max);
    if moved == 0 {
        list
    } else if moved == have {
        list.remove(contract)
    } else {
        list.insert(contract, (have - moved) as u128)
    }
}

/// The list after everything that `source` holds was added to it.
/// Empty balances of `source` add no entry.
pub open spec fn poured(target: Map<BlockTx, u128>, source: Map<BlockTx, u128>) -> Map<
    BlockTx,
    u128,
> {
    Map::new(
        |c: BlockTx| target.dom().contains(c) || amount_of(source, c) > 0,
        |c: BlockTx| sat_add(amount_of(target, c), amount_of(source, c)),
    )
}

/// The counters of an asset contract.
#[derive(Clone, Copy, Debug, PartialEq, Eq, Structural)]
pub struct AssetContractData {
    pub minted_supply: u128,
    pub burned_supply: u128,
}

impl Default for AssetContractData {
    fn default() -> (r: Self)
        ensures
            r == (AssetContractData { minted_supply: 0, burned_supply: 0 }),
    {
        AssetContractData { minted_supply: 0, burned_supply: 0 }
    }
}

/// The balances that one output, or one bucket, holds.
#[derive(Debug)]
pub struct AssetList {
    pub list: VecMap<BlockTx, u128>,
}

impl View for AssetList {
    type V = Map<BlockTx, u128>;

    open spec fn view(&self) -> Map<BlockTx, u128> {
        self.list@
    }
}

impl AssetList {
    pub fn new() -> (r: Self)
        ensures
            r@ == Map::<BlockTx, u128>::empty(),
    {
        AssetList { list: VecMap::new() }
    }

    /// The balance held of a contract.
    pub fn amount(&self, contract: &BlockTx) -> (r: u128)
        ensures
            r == amount_of(self@, *contract),
    {
        match self.list.get(contract) {
            Some(a) => *a,
            None => 0,
        }
    }

    /// Adds to the balance of a contract.
    pub fn credit(&mut self, contract: &BlockTx, amount: u128)
        ensures
            final(self)@ == credited(old(self)@, *contract, amount),
    {
        let have = self.amount(contract);
        self.list.insert(*contract, have.saturating_add(amount));
    }

    /// Adds everything that `source` holds.
    pub fn pour_from(&mut self, source: &AssetList)
        ensures
            final(self)@ == poured(old(self)@, source@),
    {
        let n = source.list.len();
        let ghost items = source.list.items();
        let mut i: usize = 0;
        assert(self@ =~= poured(old(self)@, map_of(items.take(0))));
        while i < n
            invariant
                i <= n,
                n == items.len(),
                items == source.list.items(),
                distinct_keys(items),
                self@ == poured(old(self)@, map_of(items.take(i as int))),
            decreases n - i,
        {
            let e = source.list.entry(i);
            proof {
                let before = items.take(i as int);
                assert(items.take(i + 1).drop_last() == before);
                lemma_map_of_dom(before, *e.0);
                if map_of(before).dom().contains(*e.0) {
                    let j = choose|j: int| 0 <= j < before.len() && before[j].0@ == *e.0;
                    assert(items[j].0@ == items[i as int].0@);
                }
            }
            if *e.1 > 0 {
                self.credit(e.0, *e.1);
            }
            i += 1;
            assert(self@ =~= poured(old(self)@, map_of(items.take(i as int))));
        }
        assert(items.take(n as int) == items);
    }

    /// Takes up to `max` from the balance of a contract and says how
    /// much was taken.
    pub fn debit(&mut self, contract: &BlockTx, max: u128) -> (moved: u128)
        ensures
            moved == movable(old(self)@, *contract, max),
            final(self)@ == debited(old(self)@, *contract, max),
    {
        let have = self.amount(contract);
        let moved = if max < have {
            max
        } else {
            have
        };
        if moved == 0 {
            return 0;
        }
        if moved == have {
            self.list.remove(contract);
        } else {
            self.list.insert(*contract, have - moved);
        }
        moved
    }
}

/// What indexing a transaction came to: the message it carried, if one
/// was parsed, and the flaw, if it failed.
#[derive(Debug)]
pub struct MessageDataOutcome {
    pub message: Option<OpReturnMessage>,
    pub flaw: Option<Flaw>,
}

/// What minting by purchase gives: the amount and the output it goes to.
#[derive(Clone, Copy, Debug, PartialEq, Eq, Structural)]
pub struct PBSMintResult {
    pub out_value: u128,
    pub txout: u32,
}

/// How much each recipient of a preallocated asset has claimed.
#[derive(Debug)]
pub struct VestingContractData {
    pub claimed_allocations: VecMap<Vec<u8>, u128>,
}

/// The specification contracts that one output owns.
#[derive(Debug)]
pub struct SpecContractOwned {
    pub specs: Vec<BlockTx>,
}

/// A borrower's account with a collateralized contract.
#[derive(Debug)]
pub struct CollateralAccount {
    /// What was put in, by asset.
    pub collateral_amounts: Vec<(BlockTx, u128)>,
    pub total_collateral_amount: u128,
    pub share_amount: u128,
    pub ltv: Fraction,
    pub amount_outstanding: u128,
}

/// A collateral account as a value of contracts.
pub struct AccountView {
    pub collateral: Seq<(BlockTx, u128)>,
    pub total_collateral_amount: u128,
    pub share_amount: u128,
    pub ltv: Fraction,
    pub amount_outstanding: u128,
}

impl AccountView {
    /// The debt of the account is covered: `amount_outstanding` is at
    /// most `total_collateral_amount` times `ltv`.
    pub open spec fn within_ltv(self) -> bool {
        self.amount_outstanding * self.ltv.denominator <= self.total_collateral_amount
            * self.ltv.numerator
    }
}

impl View for CollateralAccount {
    type V = AccountView;

    open spec fn view(&self) -> AccountView {
        AccountView {
            collateral: self.collateral_amounts@,
            total_collateral_amount: self.total_collateral_amount,
            share_amount: self.share_amount,
            ltv: self.ltv,
            amount_outstanding: self.amount_outstanding,
        }
    }
}

impl CollateralAccount {
    /// A copy of the account.
    pub fn duplicate(&self) -> (r: Self)
        ensures
            r@ == self@,
    {
        let mut amounts: Vec<(BlockTx, u128)> = Vec::new();
        let mut i: usize = 0;
        while i < self.collateral_amounts.len()
            invariant
                i <= self.collateral_amounts@.len(),
                amounts@ == self.collateral_amounts@.subrange(0, i as int),
            decreases self.collateral_amounts@.len() - i,
        {
            amounts.push(self.collateral_amounts[i]);
            i += 1;
            assert(amounts@ == self.collateral_amounts@.subrange(0, i as int));
        }
        assert(self.collateral_amounts@.subrange(0, self.collateral_amounts@.len() as int)
            == self.collateral_amounts@);
        CollateralAccount {
            collateral_amounts: amounts,
            total_collateral_amount: self.total_collateral_amount,
            share_amount: self.share_amount,
            ltv: self.ltv,
            amount_outstanding: self.amount_outstanding,
        }
    }
}

/// The accounts of a map, each as a value of contracts.
pub open spec fn accounts_view(m: Map<BlockTx, CollateralAccount>) -> Map<BlockTx, AccountView> {
    m.map_values(|a: CollateralAccount| a@)
}

/// Everything that one output, or one bucket, holds.
#[derive(Debug)]
pub struct Allocation {
    pub asset_list: AssetList,
    pub spec_owned: SpecContractOwned,
    pub state_keys: VecMap<BlockTx, ()>,
    pub collateral_accounts: VecMap<BlockTx, CollateralAccount>,
    /// For each account of the bucket, the output that it came from.
    pub helper_outpoint_collateral_accounts: VecMap<BlockTx, Outpoint>,
}

/// An allocation as a value of contracts.
pub struct AllocationView {
    pub assets: Map<BlockTx, u128>,
    pub specs: Seq<BlockTx>,
    pub state_keys: Set<BlockTx>,
    pub accounts: Map<BlockTx, AccountView>,
    pub origins: Map<BlockTx, Outpoint>,
}

impl AllocationView {
    pub open spec fn empty() -> AllocationView {
        AllocationView {
            assets: Map::empty(),
            specs: Seq::empty(),
            state_keys: Set::empty(),
            accounts: Map::empty(),
            origins: Map::empty(),
        }
    }

    /// The bucket after it took in what the output `origin` held.
    pub open spec fn merged(self, other: AllocationView, origin: Outpoint) -> AllocationView {
        AllocationView {
            assets: poured(self.assets, other.assets),
            specs: self.specs + other.specs,
            state_keys: self.state_keys.union(other.state_keys),
            accounts: self.accounts.union_prefer_right(other.accounts),
            origins: self.origins.union_prefer_right(
                Map::new(|c: BlockTx| other.accounts.dom().contains(c), |c: BlockTx| origin),
            ),
        }
    }
}

impl View for Allocation {
    type V = AllocationView;

    open spec fn view(&self) -> AllocationView {
        AllocationView {
            assets: self.asset_list@,
            specs: self.spec_owned.specs@,
            state_keys: self.state_keys@.dom(),
            accounts: accounts_view(self.collateral_accounts@),
            origins: self.helper_outpoint_collateral_accounts@,
        }
    }
}

impl Default for Allocation {
    fn default() -> (r: Self)
        ensures
            r@ == AllocationView::empty(),
    {
        let r = Allocation {
            asset_list: AssetList::new(),
            spec_owned: SpecContractOwned { specs: Vec::new() },
            state_keys: VecMap::new(),
            collateral_accounts: VecMap::new(),
            helper_outpoint_collateral_accounts: VecMap::new(),
        };
        assert(r@.state_keys =~= Set::<BlockTx>::empty());
        assert(r@.accounts =~= Map::<BlockTx, AccountView>::empty());
        r
    }
}

impl Allocation {
    /// Takes in a copy of what the output `origin` held.
    pub fn absorb(&mut self, other: &Allocation, origin: Outpoint)
        ensures
            final(self)@ == old(self)@.merged(other@, origin),
    {
        self.asset_list.pour_from(&other.asset_list);
        let ghost after_pour = self.asset_list;
        let mut i: usize = 0;
        while i < other.spec_owned.specs.len()
            invariant
                i <= other.spec_owned.specs@.len(),
                self.spec_owned.specs@ == old(self).spec_owned.specs@
                    + other.spec_owned.specs@.subrange(0, i as int),
                self.asset_list == after_pour,
                self.state_keys == old(self).state_keys,
                self.collateral_accounts == old(self).collateral_accounts,
                self.helper_outpoint_collateral_accounts == old(
                    self,
                ).helper_outpoint_collateral_accounts,
            decreases other.spec_owned.specs@.len() - i,
        {
            self.spec_owned.specs.push(other.spec_owned.specs[i]);
            i += 1;
            assert(self.spec_owned.specs@ == old(self).spec_owned.specs@
                + other.spec_owned.specs@.subrange(0, i as int));
        }
        assert(other.spec_owned.specs@.subrange(0, other.spec_owned.specs@.len() as int)
            == other.spec_owned.specs@);
        self.state_keys.extend_from(&other.state_keys);
        let n = other.collateral_accounts.len();
        let ghost items = other.collateral_accounts.items();
        let ghost mine = accounts_view(old(self).collateral_accounts@);
        let ghost origins = old(self).helper_outpoint_collateral_accounts@;
        let mut k: usize = 0;
        assert(accounts_view(self.collateral_accounts@) =~= mine.union_prefer_right(
            accounts_view(map_of(items.take(0))),
        ));
        assert(self.helper_outpoint_collateral_accounts@ =~= origins.union_prefer_right(
            Map::new(
                |c: BlockTx| map_of(items.take(0)).dom().contains(c),
                |c: BlockTx| origin,
            ),
        ));
        while k < n
            invariant
                k <= n,
                n == items.len(),
                items == other.collateral_accounts.items(),
                accounts_view(self.collateral_accounts@) == mine.union_prefer_right(
                    accounts_view(map_of(items.take(k as int))),
                ),
                self.helper_outpoint_collateral_accounts@ == origins.union_prefer_right(
                    Map::new(
                        |c: BlockTx| map_of(items.take(k as int)).dom().contains(c),
                        |c: BlockTx| origin,
                    ),
                ),
                self.asset_list == after_pour,
                self.spec_owned.specs@ == old(self).spec_owned.specs@ + other.spec_owned.specs@,
                self.state_keys@ == old(self).state_keys@.union_prefer_right(other.state_keys@),
            decreases n - k,
        {
            let e = other.collateral_accounts.entry(k);
            let ghost held = self.collateral_accounts@;
            let ghost seen = map_of(items.take(k as int));
            let copy = e.1.duplicate();
            proof {
                assert(items.take(k + 1).drop_last() == items.take(k as int));
                assert(map_of(items.take(k + 1)) == seen.insert(*e.0, *e.1));
                assert(accounts_view(seen.insert(*e.0, *e.1)) =~= accounts_view(seen).insert(
                    *e.0,
                    e.1@,
                ));
                assert(accounts_view(held.insert(*e.0, copy)) =~= accounts_view(held).insert(
                    *e.0,
                    copy@,
                ));
            }
            self.collateral_accounts.insert(*e.0, copy);
            self.helper_outpoint_collateral_accounts.insert(*e.0, origin);
            k += 1;
            assert(accounts_view(self.collateral_accounts@) =~= mine.union_prefer_right(
                accounts_view(map_of(items.take(k as int))),
            ));
            assert(self.helper_outpoint_collateral_accounts@ =~= origins.union_prefer_right(
                Map::new(
                    |c: BlockTx| map_of(items.take(k as int)).dom().contains(c),
                    |c: BlockTx| origin,
                ),
            ));
        }
        proof {
            assert(items.take(n as int) == items);
            assert(self@.state_keys =~= old(self)@.state_keys.union(other@.state_keys));
            assert(self@.origins =~= old(self)@.merged(other@, origin).origins);
        }
    }
}

/// The allocations of a map, each as a value of contracts.
pub open spec fn allocations_view(m: Map<u32, Allocation>) -> Map<u32, AllocationView> {
    m.map_values(|a: Allocation| a@)
}

/// The state of indexing: the store, and the two buckets of the
/// transaction at hand.
#[derive(Debug)]
pub struct Updater {
    pub database: Database,
    /// Where set, nothing is written to the store.
    pub is_read_only: bool,
    /// What the inputs held and no output has taken yet.
    pub unallocated_inputs: Allocation,
    /// What each output has been given.
    pub allocated_outputs: VecMap<u32, Allocation>,
}

/// The state of indexing as a value of contracts.
pub struct UpdaterView {
    pub db: DatabaseView,
    pub read_only: bool,
    pub unallocated: AllocationView,
    pub allocated: Map<u32, AllocationView>,
}

impl View for Updater {
    type V = UpdaterView;

    open spec fn view(&self) -> UpdaterView {
        UpdaterView {
            db: self.database@,
            read_only: self.is_read_only,
            unallocated: self.unallocated_inputs@,
            allocated: allocations_view(self.allocated_outputs@),
        }
    }
}

/// The flaw of a pointer into the outputs of a transaction: it must
/// name an output that exists and that is not unspendable.
pub open spec fn pointer_flaw(tx: &Transaction, pointer: u32) -> Option<Flaw> {
    if pointer >= tx.output@.len() {
        Some(Flaw::PointerOverflow)
    } else if tx.output@[pointer as int].op_return() {
        Some(Flaw::InvalidPointer)
    } else {
        None
    }
}

/// The positions, among the first `n` transfers, of those whose output
/// does not exist in a transaction of `outputs` outputs.
pub open spec fn overflow_positions(transfers: Seq<TxTypeTransfer>, outputs: nat, n: int) -> Seq<u32>
    decreases n,
{
    if n <= 0 {
        Seq::empty()
    } else if transfers[n - 1].output >= outputs {
        overflow_positions(transfers, outputs, n - 1).push((n - 1) as u32)
    } else {
        overflow_positions(transfers, outputs, n - 1)
    }
}

/// The flaw of the transfers of a message: the positions of those
/// whose output does not exist, if there are any.
pub open spec fn transfer_flaw(transfers: Seq<TxTypeTransfer>, outputs: nat) -> Option<Flaw> {
    let positions = overflow_positions(transfers, outputs, transfers.len() as int);
    if positions.len() > 0 {
        Some(Flaw::OutputOverflow(positions_of(positions, positions.len() as int)))
    } else {
        None
    }
}

/// The store's outputs after the staged allocations were written under
/// the outputs of the transaction `txid`.
pub open spec fn persisted(
    outpoints: Map<Outpoint, AllocationView>,
    txid: Txid,
    staged: Map<u32, AllocationView>,
) -> Map<Outpoint, AllocationView> {
    Map::new(
        |o: Outpoint| outpoints.dom().contains(o) || (o.txid == txid && staged.dom().contains(o.vout)),
        |o: Outpoint|
            if o.txid == txid && staged.dom().contains(o.vout) {
                staged[o.vout]
            } else {
                outpoints[o]
            },
    )
}

impl UpdaterView {
    /// What an output has been given so far.
    pub open spec fn allocation_at(self, vout: u32) -> AllocationView {
        if self.allocated.dom().contains(vout) {
            self.allocated[vout]
        } else {
            AllocationView::empty()
        }
    }

    /// The state after `amount` of `contract` was given to an output.
    pub open spec fn with_credit(self, vout: u32, contract: BlockTx, amount: u128) -> UpdaterView {
        UpdaterView {
            allocated: self.allocated.insert(
                vout,
                AllocationView {
                    assets: credited(self.allocation_at(vout).assets, contract, amount),
                    ..self.allocation_at(vout)
                },
            ),
            ..self
        }
    }

    /// The state after up to `max` of `contract` went from the bucket
    /// of the inputs to an output. The output gets exactly what the
    /// bucket loses.
    pub open spec fn with_move(self, vout: u32, contract: BlockTx, max: u128) -> UpdaterView {
        let moved = movable(self.unallocated.assets, contract, max);
        if moved == 0 {
            self
        } else {
            UpdaterView {
                unallocated: AllocationView {
                    assets: debited(self.unallocated.assets, contract, max),
                    ..self.unallocated
                },
                ..self
            }.with_credit(vout, contract, moved)
        }
    }

    /// The state after the first `n` transfers were carried out in
    /// order, on a transaction of `outputs` outputs. A transfer to an
    /// output that does not exist moves nothing.
    pub open spec fn with_transfers(self, transfers: Seq<TxTypeTransfer>, outputs: nat, n: int) -> UpdaterView
        decreases n,
    {
        if n <= 0 {
            self
        } else {
            let before = self.with_transfers(transfers, outputs, n - 1);
            let t = transfers[n - 1];
            if t.output >= outputs {
                before
            } else {
                before.with_move(t.output, t.asset, t.amount.0)
            }
        }
    }

    /// The state after the bucket of the inputs took in what one spent
    /// output held. The record of the output leaves the store.
    pub open spec fn after_input(self, input: Outpoint) -> UpdaterView {
        if self.db.outpoints.dom().contains(input) {
            UpdaterView {
                unallocated: self.unallocated.merged(self.db.outpoints[input], input),
                db: if self.read_only {
                    self.db
                } else {
                    DatabaseView { outpoints: self.db.outpoints.remove(input), ..self.db }
                },
                ..self
            }
        } else {
            self
        }
    }

    /// The state after the first `n` inputs were taken in, in order.
    pub open spec fn after_inputs(self, inputs: Seq<Outpoint>, n: int) -> UpdaterView
        decreases n,
    {
        if n <= 0 {
            self
        } else {
            self.after_inputs(inputs, n - 1).after_input(inputs[n - 1])
        }
    }

    /// What is staged for the outputs once the bucket of the inputs has
    /// gone to the fallback output: its assets and its specification
    /// contracts. State keys and collateral accounts do not follow.
    /// Without a fallback output the bucket is lost.
    pub open spec fn staged(self, fallback: Option<u32>) -> Map<u32, AllocationView> {
        match fallback {
            Some(vout) => if self.unallocated.assets == Map::<BlockTx, u128>::empty()
                && self.unallocated.specs.len() == 0 {
                self.allocated
            } else {
                self.allocated.insert(
                    vout,
                    AllocationView {
                        assets: poured(self.allocation_at(vout).assets, self.unallocated.assets),
                        specs: self.allocation_at(vout).specs + self.unallocated.specs,
                        ..self.allocation_at(vout)
                    },
                )
            },
            None => self.allocated,
        }
    }

    /// The state after the transaction `txid` was committed: what was
    /// staged is written under its outputs, and both buckets are empty.
    pub open spec fn committed(self, txid: Txid, fallback: Option<u32>) -> UpdaterView {
        UpdaterView {
            db: if self.read_only {
                self.db
            } else {
                DatabaseView {
                    outpoints: persisted(self.db.outpoints, txid, self.staged(fallback)),
                    ..self.db
                }
            },
            read_only: self.read_only,
            unallocated: AllocationView::empty(),
            allocated: Map::empty(),
        }
    }
}

/// The contract that a transaction created: the message that the
/// store holds for it, where it holds one without a flaw.
pub open spec fn contract_of(db: DatabaseView, contract: BlockTx) -> Result<OpReturnMessage, Flaw> {
    if !db.messages.dom().contains(contract) {
        Err(Flaw::ContractNotFound)
    } else {
        match db.messages[contract].flaw {
            Some(flaw) => Err(flaw),
            None => match db.messages[contract].message {
                Some(message) => Ok(message),
                None => Err(Flaw::MessageInvalid),
            },
        }
    }
}

impl Updater {
    /// The tables of a state are finite.
    pub proof fn lemma_finite(self)
        ensures
            self@.finite(),
    {
        self.database.outpoints.lemma_finite();
        self.database.pool_data.lemma_finite();
        self.allocated_outputs.lemma_finite();
        assert(self@.db.outpoints.dom() =~= self.database.outpoints@.dom());
        assert(self@.db.pools.dom() =~= self.database.pool_data@.dom());
        assert(self@.allocated.dom() =~= self.allocated_outputs@.dom());
    }

    /// The message that created a contract.
    pub fn get_message(&self, contract_id: &BlockTx) -> (r: Result<&OpReturnMessage, Flaw>)
        ensures
            match (r, contract_of(self@.db, *contract_id)) {
                (Ok(m), Ok(w)) => *m == w,
                (Err(f), Err(g)) => f == g,
                _ => false,
            },
    {
        match self.database.messages.get(contract_id) {
            None => Err(Flaw::ContractNotFound),
            Some(outcome) => match &outcome.flaw {
                Some(flaw) => Err(flaw.duplicate()),
                None => match &outcome.message {
                    Some(message) => Ok(message),
                    None => Err(Flaw::MessageInvalid),
                },
            },
        }
    }

    pub fn new(database: Database, is_read_only: bool) -> (r: Self)
        ensures
            r@.db == database@,
            r@.read_only == is_read_only,
            r@.unallocated == AllocationView::empty(),
            r@.allocated == Map::<u32, AllocationView>::empty(),
    {
        let r = Updater {
            database,
            is_read_only,
            unallocated_inputs: Allocation::default(),
            allocated_outputs: VecMap::new(),
        };
        assert(r@.allocated =~= Map::<u32, AllocationView>::empty());
        r
    }

    /// Takes what an output has been given out of the staged outputs.
    pub(crate) fn take_allocation(&mut self, vout: u32) -> (a: Allocation)
        ensures
            a@ == old(self)@.allocation_at(vout),
            final(self).allocated_outputs@ == old(self).allocated_outputs@.remove(vout),
            final(self).database == old(self).database,
            final(self).is_read_only == old(self).is_read_only,
            final(self).unallocated_inputs == old(self).unallocated_inputs,
    {
        match self.allocated_outputs.remove(&vout) {
            Some(a) => a,
            None => Allocation::default(),
        }
    }

    /// Stages an allocation for an output.
    pub(crate) fn put_allocation(&mut self, vout: u32, a: Allocation)
        ensures
            final(self)@ == (UpdaterView {
                allocated: old(self)@.allocated.insert(vout, a@),
                ..old(self)@
            }),
    {
        self.allocated_outputs.insert(vout, a);
        assert(allocations_view(old(self).allocated_outputs@.insert(vout, a))
            =~= old(self)@.allocated.insert(vout, a@));
    }

    /// Gives a newly made amount of an asset to an output.
    pub fn allocate_new_asset(&mut self, vout: u32, contract_id: &BlockTx, amount: u128)
        ensures
            final(self)@ == old(self)@.with_credit(vout, *contract_id, amount),
    {
        let mut a = self.take_allocation(vout);
        a.asset_list.credit(contract_id, amount);
        self.allocated_outputs.insert(vout, a);
        assert(allocations_view(old(self).allocated_outputs@.remove(vout).insert(vout, a))
            =~= old(self)@.allocated.insert(vout, a@));
    }

    /// Moves up to `max_amount` of an asset from the bucket of the
    /// inputs to an output.
    pub fn move_asset_allocation(&mut self, vout: u32, contract_id: &BlockTx, max_amount: u128)
        ensures
            final(self)@ == old(self)@.with_move(vout, *contract_id, max_amount),
    {
        let moved = self.unallocated_inputs.asset_list.debit(contract_id, max_amount);
        if moved == 0 {
            return ;
        }
        self.allocate_new_asset(vout, contract_id, moved);
    }

    /// Whether an output is unspendable.
    pub fn is_op_return_index(output: &TxOut) -> (r: bool)
        ensures
            r == output.op_return(),
    {
        output.is_op_return()
    }

    /// The first output that is not unspendable.
    pub fn first_non_op_return_index(tx: &Transaction) -> (r: Option<u32>)
        ensures
            r == tx.fallback(),
    {
        let mut i: usize = 0;
        while i < tx.output.len()
            invariant
                i <= tx.output@.len(),
                first_spendable(tx.output@, 0) == first_spendable(tx.output@, i as int),
            decreases tx.output@.len() - i,
        {
            if i > u32::MAX as usize {
                return None;
            }
            if !tx.output[i].is_op_return() {
                return Some(i as u32);
            }
            i += 1;
        }
        None
    }

    /// Checks a pointer into the outputs of a transaction.
    pub fn validate_pointer(pointer: u32, tx: &Transaction) -> (r: Option<Flaw>)
        ensures
            r == pointer_flaw(tx, pointer),
    {
        if pointer as usize >= tx.output.len() {
            return Some(Flaw::PointerOverflow);
        }
        if tx.output[pointer as usize].is_op_return() {
            return Some(Flaw::InvalidPointer);
        }
        None
    }

    /// Carries out the transfers of a message in order. Transfers to
    /// outputs that do not exist move nothing and are reported together.
    pub fn transfers(&mut self, tx: &Transaction, transfers: &Vec<TxTypeTransfer>) -> (r: Option<
        Flaw,
    >)
        requires
            transfers@.len() <= u32::MAX,
        ensures
            final(self)@ == old(self)@.with_transfers(
                transfers@,
                tx.output@.len(),
                transfers@.len() as int,
            ),
            r == transfer_flaw(transfers@, tx.output@.len()),
    {
        let mut overflow: Vec<u32> = Vec::new();
        let mut i: usize = 0;
        while i < transfers.len()
            invariant
                i <= transfers@.len(),
                transfers@.len() <= u32::MAX,
                self@ == old(self)@.with_transfers(transfers@, tx.output@.len(), i as int),
                overflow@ == overflow_positions(transfers@, tx.output@.len(), i as int),
            decreases transfers@.len() - i,
        {
            let t = transfers[i];
            if t.output as usize >= tx.output.len() {
                overflow.push(i as u32);
            } else {
                self.move_asset_allocation(t.output, &t.asset, t.amount.0);
            }
            i += 1;
        }
        if overflow.len() > 0 {
            Some(Flaw::OutputOverflow(Positions::of(&overflow)))
        } else {
            None
        }
    }

    /// Takes what the inputs of a transaction held into the bucket of
    /// the inputs, and removes their records from the store. An input
    /// without a record holds nothing.
    pub fn unallocate_inputs(&mut self, tx: &Transaction)
        ensures
            final(self)@ == old(self)@.after_inputs(tx.input@, tx.input@.len() as int),
    {
        let mut i: usize = 0;
        while i < tx.input.len()
            invariant
                i <= tx.input@.len(),
                self@ == old(self)@.after_inputs(tx.input@, i as int),
            decreases tx.input@.len() - i,
        {
            let input = tx.input[i];
            let ghost before = self@;
            let found = match self.database.outpoints.get(&input) {
                Some(held) => {
                    self.unallocated_inputs.absorb(held, input);
                    true
                },
                None => false,
            };
            if found && !self.is_read_only {
                self.database.outpoints.remove(&input);
                assert(outpoints_view(self.database.outpoints@) =~= before.db.outpoints.remove(
                    input,
                ));
            }
            i += 1;
        }
    }

    /// Ends a transaction: what is left in the bucket of the inputs
    /// goes to the first output that can be spent, what was given to
    /// each output is written to the store, and both buckets are
    /// emptied.
    pub fn commit_outputs(&mut self, tx: &Transaction)
        ensures
            final(self)@ == old(self)@.committed(tx.txid, tx.fallback()),
    {
        let fallback = Self::first_non_op_return_index(tx);
        if let Some(vout) = fallback {
            if !(self.unallocated_inputs.asset_list.list.is_empty()
                && self.unallocated_inputs.spec_owned.specs.len() == 0) {
                let mut a = self.take_allocation(vout);
                a.asset_list.pour_from(&self.unallocated_inputs.asset_list);
                let ghost given = a.spec_owned.specs@;
                let mut i: usize = 0;
                while i < self.unallocated_inputs.spec_owned.specs.len()
                    invariant
                        i <= self.unallocated_inputs.spec_owned.specs@.len(),
                        a.spec_owned.specs@ == given
                            + self.unallocated_inputs.spec_owned.specs@.subrange(0, i as int),
                        a.asset_list@ == poured(
                            old(self)@.allocation_at(vout).assets,
                            old(self)@.unallocated.assets,
                        ),
                        a@.state_keys == old(self)@.allocation_at(vout).state_keys,
                        a@.accounts == old(self)@.allocation_at(vout).accounts,
                        a@.origins == old(self)@.allocation_at(vout).origins,
                        given == old(self)@.allocation_at(vout).specs,
                        self.unallocated_inputs == old(self).unallocated_inputs,
                        self.database == old(self).database,
                        self.is_read_only == old(self).is_read_only,
                        self.allocated_outputs@ == old(self).allocated_outputs@.remove(vout),
                    decreases self.unallocated_inputs.spec_owned.specs@.len() - i,
                {
                    a.spec_owned.specs.push(self.unallocated_inputs.spec_owned.specs[i]);
                    i += 1;
                    assert(a.spec_owned.specs@ == given
                        + self.unallocated_inputs.spec_owned.specs@.subrange(0, i as int));
                }
                assert(self.unallocated_inputs.spec_owned.specs@.subrange(
                    0,
                    self.unallocated_inputs.spec_owned.specs@.len() as int,
                ) == self.unallocated_inputs.spec_owned.specs@);
                self.allocated_outputs.insert(vout, a);
                assert(allocations_view(self.allocated_outputs@) =~= old(self)@.staged(fallback));
            }
        }
        assert(allocations_view(self.allocated_outputs@) == old(self)@.staged(fallback));
        let ghost target = persisted(old(self)@.db.outpoints, tx.txid, old(self)@.staged(fallback));
        assert(persisted(
            outpoints_view(self.database.outpoints@),
            tx.txid,
            allocations_view(self.allocated_outputs@),
        ) =~= target);
        loop
            invariant
                self.is_read_only == old(self).is_read_only,
                !self.is_read_only ==> persisted(
                    outpoints_view(self.database.outpoints@),
                    tx.txid,
                    allocations_view(self.allocated_outputs@),
                ) == target,
                self.is_read_only ==> self.database == old(self).database,
                self.database.messages == old(self).database.messages,
                self.database.tx_to_block_tx == old(self).database.tx_to_block_tx,
                self.database.tickers == old(self).database.tickers,
                self.database.asset_contract_data == old(self).database.asset_contract_data,
                self.database.vesting_contract_data == old(self).database.vesting_contract_data,
                self.database.pool_data == old(self).database.pool_data,
                self.database.updates == old(self).database.updates,
                self.database.last_block == old(self).database.last_block,
            ensures
                self.allocated_outputs@ == Map::<u32, Allocation>::empty(),
            decreases self.allocated_outputs@.dom().len(),
        {
            proof {
                self.allocated_outputs.lemma_finite();
            }
            let ghost remaining = self.allocated_outputs@;
            let ghost stored = self.database.outpoints@;
            match self.allocated_outputs.pop() {
                Some(e) => {
                    if !self.is_read_only {
                        let outpoint = Outpoint { txid: tx.txid, vout: e.0 };
                        self.database.outpoints.insert(outpoint, e.1);
                        assert(persisted(
                            outpoints_view(stored.insert(outpoint, e.1)),
                            tx.txid,
                            allocations_view(remaining.remove(e.0)),
                        ) =~= persisted(
                            outpoints_view(stored),
                            tx.txid,
                            allocations_view(remaining),
                        ));
                    }
                },
                None => {
                    break ;
                },
            }
        }
        self.unallocated_inputs = Allocation::default();
        proof {
            assert(allocations_view(self.allocated_outputs@) =~= Map::<u32, AllocationView>::empty());
            if !self.is_read_only {
                assert(outpoints_view(self.database.outpoints@) =~= target);
            }
        }
    }
}

} // verus!
