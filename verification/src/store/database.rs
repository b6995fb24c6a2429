use crate::types::{BlockTx, Outpoint, Txid};
use crate::updater::collateralized::{CollateralizedAssetData, PoolView};
use crate::updater::{
    Allocation, AllocationView, AssetContractData, MessageDataOutcome, VestingContractData,
};
use crate::vec_map::VecMap;
use vstd::prelude::*;

verus! {

/// Why a record could not be had from the store.
#[derive(Clone, Copy, Debug, PartialEq, Eq, Structural)]
pub enum DatabaseError {
    NotFound,
    DeserializeFailed,
}

/// The state that indexing keeps: one table for each kind of record.
#[derive(Debug)]
pub struct Database {
    /// The outcome of each indexed message, by its transaction.
    pub messages: VecMap<BlockTx, MessageDataOutcome>,
    pub tx_to_block_tx: VecMap<Txid, BlockTx>,
    pub tickers: VecMap<String, BlockTx>,
    /// What each unspent output holds.
    pub outpoints: VecMap<Outpoint, Allocation>,
    pub asset_contract_data: VecMap<BlockTx, AssetContractData>,
    pub vesting_contract_data: VecMap<BlockTx, VestingContractData>,
    pub pool_data: VecMap<BlockTx, CollateralizedAssetData>,
    /// For a contract that was updated, the transaction whose message
    /// holds its present form.
    pub updates: VecMap<BlockTx, BlockTx>,
    /// The last block that was indexed in full.
    pub last_block: Option<u64>,
}

/// The store as a value of contracts.
pub struct DatabaseView {
    pub messages: Map<BlockTx, MessageDataOutcome>,
    pub tx_to_block_tx: Map<Txid, BlockTx>,
    pub tickers: Map<Seq<char>, BlockTx>,
    pub outpoints: Map<Outpoint, AllocationView>,
    pub asset_contract_data: Map<BlockTx, AssetContractData>,
    pub vesting: Map<BlockTx, Map<Seq<u8>, u128>>,
    pub pools: Map<BlockTx, PoolView>,
    pub updates: Map<BlockTx, BlockTx>,
    pub last_block: Option<u64>,
}

pub open spec fn outpoints_view(m: Map<Outpoint, Allocation>) -> Map<Outpoint, AllocationView> {
    m.map_values(|a: Allocation| a@)
}

pub open spec fn vesting_view(m: Map<BlockTx, VestingContractData>) -> Map<
    BlockTx,
    Map<Seq<u8>, u128>,
> {
    m.map_values(|v: VestingContractData| v.claimed_allocations@)
}

pub open spec fn pools_view(m: Map<BlockTx, CollateralizedAssetData>) -> Map<BlockTx, PoolView> {
    m.map_values(|p: CollateralizedAssetData| p@)
}

impl View for Database {
    type V = DatabaseView;

    open spec fn view(&self) -> DatabaseView {
        DatabaseView {
            messages: self.messages@,
            tx_to_block_tx: self.tx_to_block_tx@,
            tickers: self.tickers@,
            outpoints: outpoints_view(self.outpoints@),
            asset_contract_data: self.asset_contract_data@,
            vesting: vesting_view(self.vesting_contract_data@),
            pools: pools_view(self.pool_data@),
            updates: self.updates@,
            last_block: self.last_block,
        }
    }
}

impl DatabaseView {
    pub open spec fn empty() -> DatabaseView {
        DatabaseView {
            messages: Map::empty(),
            tx_to_block_tx: Map::empty(),
            tickers: Map::empty(),
            outpoints: Map::empty(),
            asset_contract_data: Map::empty(),
            vesting: Map::empty(),
            pools: Map::empty(),
            updates: Map::empty(),
            last_block: None,
        }
    }

    /// The counters of a contract: zero where none were recorded.
    pub open spec fn contract_data(self, contract: BlockTx) -> AssetContractData {
        if self.asset_contract_data.dom().contains(contract) {
            self.asset_contract_data[contract]
        } else {
            AssetContractData { minted_supply: 0, burned_supply: 0 }
        }
    }

    /// What an output holds: nothing where no record names it.
    pub open spec fn held_at(self, outpoint: Outpoint) -> AllocationView {
        if self.outpoints.dom().contains(outpoint) {
            self.outpoints[outpoint]
        } else {
            AllocationView::empty()
        }
    }
}

impl Database {
    /// A store without records.
    pub fn new() -> (r: Self)
        ensures
            r@ == DatabaseView::empty(),
    {
        let r = Database {
            messages: VecMap::new(),
            tx_to_block_tx: VecMap::new(),
            tickers: VecMap::new(),
            outpoints: VecMap::new(),
            asset_contract_data: VecMap::new(),
            vesting_contract_data: VecMap::new(),
            pool_data: VecMap::new(),
            updates: VecMap::new(),
            last_block: None,
        };
        assert(r@.outpoints =~= Map::<Outpoint, AllocationView>::empty());
        assert(r@.vesting =~= Map::<BlockTx, Map<Seq<u8>, u128>>::empty());
        assert(r@.pools =~= Map::<BlockTx, PoolView>::empty());
        r
    }

    /// A record of a table, or why there is none.
    pub fn get<'a, K: crate::types::Key, V>(table: &'a VecMap<K, V>, key: &K) -> (r: Result<
        &'a V,
        DatabaseError,
    >)
        ensures
            match r {
                Ok(v) => table@.dom().contains(key@) && *v == table@[key@],
                Err(e) => e == DatabaseError::NotFound && !table@.dom().contains(key@),
            },
    {
        match table.get(key) {
            Some(v) => Ok(v),
            None => Err(DatabaseError::NotFound),
        }
    }

    /// Writes a record of a table.
    pub fn put<K: crate::types::Key, V>(table: &mut VecMap<K, V>, key: K, value: V)
        ensures
            final(table)@ == old(table)@.insert(key@, value),
    {
        table.insert(key, value);
    }

    /// Removes a record of a table.
    pub fn delete<K: crate::types::Key, V>(table: &mut VecMap<K, V>, key: &K)
        ensures
            final(table)@ == old(table)@.remove(key@),
    {
        table.remove(key);
    }
}

} // verus!
