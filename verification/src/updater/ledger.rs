use crate::store::database::{pools_view, DatabaseView};
use crate::types::BlockTx;
use crate::updater::collateralized::{CollateralizedAssetData, PoolView};
use crate::updater::{
    amount_of, credited, debited, sat_add, sat_sub, AllocationView, AssetContractData, Updater,
    UpdaterView,
};
use vstd::prelude::*;

verus! {

/// One step of what a message does to balances, holdings and counters.
/// A message that succeeds is carried out as a list of such steps; a
/// message that fails takes none.
#[derive(Clone, Copy, Debug, PartialEq, Eq, Structural)]
pub enum Effect {
    /// Takes up to `amount` of `asset` from the bucket of the inputs.
    Debit { asset: BlockTx, amount: u128 },
    /// Gives `amount` of `asset` to the output `vout`.
    Credit { vout: u32, asset: BlockTx, amount: u128 },
    /// Adds `amount` to what the contract `pool` holds of `asset`.
    Deposit { pool: BlockTx, asset: BlockTx, amount: u128 },
    /// Takes `amount` from what the contract `pool` holds of `asset`.
    Withdraw { pool: BlockTx, asset: BlockTx, amount: u128 },
    /// Adds `amount` to the shares that the contract `pool` has out.
    IssueShares { pool: BlockTx, amount: u128 },
    /// Takes `amount` from the shares that the contract `pool` has out.
    RetireShares { pool: BlockTx, amount: u128 },
    /// Counts `amount` as minted by `contract`.
    Minted { contract: BlockTx, amount: u128 },
    /// Counts `amount` as burned by `contract`.
    Burned { contract: BlockTx, amount: u128 },
}

impl DatabaseView {
    /// What a contract holds: nothing where no record names it.
    pub open spec fn pool(self, contract: BlockTx) -> PoolView {
        if self.pools.dom().contains(contract) {
            self.pools[contract]
        } else {
            PoolView::empty()
        }
    }

    pub open spec fn with_pool(self, contract: BlockTx, pool: PoolView) -> DatabaseView {
        DatabaseView { pools: self.pools.insert(contract, pool), ..self }
    }

    pub open spec fn with_contract_data(self, contract: BlockTx, data: AssetContractData) -> DatabaseView {
        DatabaseView {
            asset_contract_data: self.asset_contract_data.insert(contract, data),
            ..self
        }
    }

    /// The store after one step. Steps on the buckets leave it as it is.
    pub open spec fn after(self, effect: Effect) -> DatabaseView {
        match effect {
            Effect::Debit { .. } => self,
            Effect::Credit { .. } => self,
            Effect::Deposit { pool, asset, amount } => self.with_pool(
                pool,
                PoolView { amounts: credited(self.pool(pool).amounts, asset, amount), ..self.pool(pool) },
            ),
            Effect::Withdraw { pool, asset, amount } => self.with_pool(
                pool,
                PoolView {
                    amounts: self.pool(pool).amounts.insert(
                        asset,
                        sat_sub(amount_of(self.pool(pool).amounts, asset), amount),
                    ),
                    ..self.pool(pool)
                },
            ),
            Effect::IssueShares { pool, amount } => self.with_pool(
                pool,
                PoolView {
                    total_supply: sat_add(self.pool(pool).total_supply, amount),
                    ..self.pool(pool)
                },
            ),
            Effect::RetireShares { pool, amount } => self.with_pool(
                pool,
                PoolView {
                    total_supply: sat_sub(self.pool(pool).total_supply, amount),
                    ..self.pool(pool)
                },
            ),
            Effect::Minted { contract, amount } => self.with_contract_data(
                contract,
                AssetContractData {
                    minted_supply: sat_add(self.contract_data(contract).minted_supply, amount),
                    ..self.contract_data(contract)
                },
            ),
            Effect::Burned { contract, amount } => self.with_contract_data(
                contract,
                AssetContractData {
                    burned_supply: sat_add(self.contract_data(contract).burned_supply, amount),
                    ..self.contract_data(contract)
                },
            ),
        }
    }
}

impl UpdaterView {
    /// The state after one step. Where nothing is written to the
    /// store, steps on the store do nothing.
    pub open spec fn after(self, effect: Effect) -> UpdaterView {
        match effect {
            Effect::Debit { asset, amount } => UpdaterView {
                unallocated: AllocationView {
                    assets: debited(self.unallocated.assets, asset, amount),
                    ..self.unallocated
                },
                ..self
            },
            Effect::Credit { vout, asset, amount } => self.with_credit(vout, asset, amount),
            _ => if self.read_only {
                self
            } else {
                UpdaterView { db: self.db.after(effect), ..self }
            },
        }
    }

    /// The state after the first `n` steps of a list, in order.
    pub open spec fn after_all(self, effects: Seq<Effect>, n: int) -> UpdaterView
        decreases n,
    {
        if n <= 0 {
            self
        } else {
            self.after_all(effects, n - 1).after(effects[n - 1])
        }
    }
}

impl Updater {
    /// Takes what a contract holds out of the store.
    fn take_pool(&mut self, contract: &BlockTx) -> (r: CollateralizedAssetData)
        ensures
            r@ == old(self)@.db.pool(*contract),
            final(self).database.pool_data@ == old(self).database.pool_data@.remove(*contract),
            final(self).database.messages == old(self).database.messages,
            final(self).database.tx_to_block_tx == old(self).database.tx_to_block_tx,
            final(self).database.tickers == old(self).database.tickers,
            final(self).database.outpoints == old(self).database.outpoints,
            final(self).database.asset_contract_data == old(self).database.asset_contract_data,
            final(self).database.vesting_contract_data == old(
                self,
            ).database.vesting_contract_data,
            final(self).database.updates == old(self).database.updates,
            final(self).database.last_block == old(self).database.last_block,
            final(self).is_read_only == old(self).is_read_only,
            final(self).unallocated_inputs == old(self).unallocated_inputs,
            final(self).allocated_outputs == old(self).allocated_outputs,
    {
        match self.database.pool_data.remove(contract) {
            Some(p) => p,
            None => CollateralizedAssetData::new(),
        }
    }

    /// The counters of a contract: zero where none were recorded.
    pub fn get_asset_contract_data(&self, contract: &BlockTx) -> (r: AssetContractData)
        ensures
            r == self@.db.contract_data(*contract),
    {
        match self.database.asset_contract_data.get(contract) {
            Some(d) => *d,
            None => AssetContractData::default(),
        }
    }

    /// Carries out one step.
    pub fn apply(&mut self, effect: Effect)
        ensures
            final(self)@ == old(self)@.after(effect),
    {
        match effect {
            Effect::Debit { asset, amount } => {
                self.unallocated_inputs.asset_list.debit(&asset, amount);
            },
            Effect::Credit { vout, asset, amount } => {
                self.allocate_new_asset(vout, &asset, amount);
            },
            Effect::Deposit { pool, asset, amount } => {
                if !self.is_read_only {
                    let mut p = self.take_pool(&pool);
                    p.amounts.credit(&asset, amount);
                    self.database.pool_data.insert(pool, p);
                    assert(pools_view(self.database.pool_data@) =~= old(self)@.db.after(
                        effect,
                    ).pools);
                }
            },
            Effect::Withdraw { pool, asset, amount } => {
                if !self.is_read_only {
                    let mut p = self.take_pool(&pool);
                    let have = p.amounts.amount(&asset);
                    p.amounts.list.insert(asset, have.saturating_sub(amount));
                    self.database.pool_data.insert(pool, p);
                    assert(pools_view(self.database.pool_data@) =~= old(self)@.db.after(
                        effect,
                    ).pools);
                }
            },
            Effect::IssueShares { pool, amount } => {
                if !self.is_read_only {
                    let mut p = self.take_pool(&pool);
                    p.total_supply = p.total_supply.saturating_add(amount);
                    self.database.pool_data.insert(pool, p);
                    assert(pools_view(self.database.pool_data@) =~= old(self)@.db.after(
                        effect,
                    ).pools);
                }
            },
            Effect::RetireShares { pool, amount } => {
                if !self.is_read_only {
                    let mut p = self.take_pool(&pool);
                    p.total_supply = p.total_supply.saturating_sub(amount);
                    self.database.pool_data.insert(pool, p);
                    assert(pools_view(self.database.pool_data@) =~= old(self)@.db.after(
                        effect,
                    ).pools);
                }
            },
            Effect::Minted { contract, amount } => {
                if !self.is_read_only {
                    let d = self.get_asset_contract_data(&contract);
                    self.database.asset_contract_data.insert(
                        contract,
                        AssetContractData {
                            minted_supply: d.minted_supply.saturating_add(amount),
                            burned_supply: d.burned_supply,
                        },
                    );
                }
            },
            Effect::Burned { contract, amount } => {
                if !self.is_read_only {
                    let d = self.get_asset_contract_data(&contract);
                    self.database.asset_contract_data.insert(
                        contract,
                        AssetContractData {
                            minted_supply: d.minted_supply,
                            burned_supply: d.burned_supply.saturating_add(amount),
                        },
                    );
                }
            },
        }
    }

    /// Carries out a list of steps in order.
    pub fn apply_all(&mut self, effects: &Vec<Effect>)
        ensures
            final(self)@ == old(self)@.after_all(effects@, effects@.len() as int),
    {
        let mut i: usize = 0;
        while i < effects.len()
            invariant
                i <= effects@.len(),
                self@ == old(self)@.after_all(effects@, i as int),
            decreases effects@.len() - i,
        {
            self.apply(effects[i]);
            i += 1;
        }
    }
}

} // verus!
