use crate::flaw::Flaw;
use crate::store::database::DatabaseView;
use crate::transaction::message::{ContractType, OpReturnMessage};
use crate::transaction::shared::InputAsset;
use crate::transaction::Transaction;
use crate::types::{copy_bytes, BlockTx, Outpoint, Txid, U128};
use crate::updater::collateralized::CollateralizedAssetData;
use crate::updater::index::{
    processed, transaction_step,
};
use crate::updater::{
    contract_of, sat_sub, Allocation, AllocationView, AssetList, MessageDataOutcome, Updater,
    UpdaterView, VestingContractData,
};
use crate::vec_map::{lemma_map_of_dom, VecMap};
use vstd::prelude::*;

verus! {

/// An input asset of a collateralized contract, in short.
#[derive(Debug, PartialEq, Eq)]
pub struct InputAssetSimple {
    pub contract_id: BlockTx,
    pub ticker: Option<String>,
    pub divisibility: u8,
}

#[derive(Debug, PartialEq, Eq)]
pub struct CollateralizedSimple {
    pub assets: Vec<InputAssetSimple>,
}

/// The mechanisms by which an asset is minted. A mechanism that the
/// contract has is marked, one that it lacks is absent.
#[derive(Debug, PartialEq, Eq)]
pub struct MintType {
    pub preallocated: Option<bool>,
    pub free_mint: Option<bool>,
    pub purchase_or_burn: Option<bool>,
    pub collateralized: Option<CollateralizedSimple>,
}

/// What a query tells of a contract.
#[derive(Debug, PartialEq, Eq)]
pub struct ContractInfo {
    pub ticker: Option<String>,
    pub supply_cap: Option<U128>,
    pub divisibility: Option<u8>,
    /// What was minted and not burned.
    pub total_supply: U128,
    pub mint_type: Option<MintType>,
    pub asset: Option<Vec<u8>>,
}

/// The outcome of a transaction, as a query reports it.
#[derive(Debug)]
pub struct TxResult<'a> {
    pub block_tx: BlockTx,
    pub outcome: &'a MessageDataOutcome,
    pub is_valid: bool,
}

/// What an output holds, as a query reports it.
#[derive(Debug)]
pub struct AssetsReport {
    pub assets: AssetList,
    /// The contracts whose state key or collateral account the output
    /// holds.
    pub state_keys: Vec<BlockTx>,
    /// What the store tells of the contracts that the report names,
    /// where it was asked for.
    pub contract_info: VecMap<BlockTx, ContractInfo>,
}

/// Whether the store can tell of a contract: a message without a flaw
/// created it.
pub open spec fn describable(db: DatabaseView, id: BlockTx) -> bool {
    contract_of(db, id) matches Ok(message) && message.contract_creation is Some
}

/// Every entry of a map tells of its contract what the store holds of
/// it.
pub open spec fn all_tell(s: UpdaterView, infos: Map<BlockTx, ContractInfo>) -> bool {
    forall|id: BlockTx| #[trigger]
        infos.dom().contains(id) ==> describable(s.db, id) && tells(
            s,
            id,
            contract_of(s.db, id)->Ok_0.contract_creation->0.contract_type,
            infos[id],
        )
}

/// Whether one of the first `n` entries of a list is the contract.
pub open spec fn named_among(list: Seq<BlockTx>, n: int, id: BlockTx) -> bool {
    exists|j: int| 0 <= j < n && list[j] == id
}

pub proof fn lemma_named_among_step(list: Seq<BlockTx>, n: int, id: BlockTx)
    requires
        0 <= n < list.len(),
    ensures
        named_among(list, n + 1, id) <==> named_among(list, n, id) || list[n] == id,
{
    if named_among(list, n + 1, id) {
        let j = choose|j: int| 0 <= j < n + 1 && list[j] == id;
        if j < n {
            assert(0 <= j < n && list[j] == id);
        }
    }
    if named_among(list, n, id) {
        let j = choose|j: int| 0 <= j < n && list[j] == id;
        assert(0 <= j < n + 1 && list[j] == id);
    }
    if list[n] == id {
        assert(0 <= n < n + 1 && list[n] == id);
    }
}

/// The mark of a mechanism.
pub open spec fn mark(present: bool) -> Option<bool> {
    if present {
        Some(true)
    } else {
        None
    }
}

/// The short form of an input asset, where it is a fungible asset that
/// the store knows.
pub open spec fn simple_of(db: DatabaseView, asset: InputAsset) -> Option<InputAssetSimple> {
    match asset {
        InputAsset::GlittrAsset(id) => match contract_of(db, id) {
            Ok(message) => match message.contract_creation {
                Some(creation) => match creation.contract_type {
                    ContractType::Moa(c) => Some(
                        InputAssetSimple {
                            contract_id: id,
                            ticker: c.ticker,
                            divisibility: c.divisibility,
                        },
                    ),
                    ContractType::Mba(c) => Some(
                        InputAssetSimple {
                            contract_id: id,
                            ticker: c.ticker,
                            divisibility: c.divisibility,
                        },
                    ),
                    _ => None,
                },
                None => None,
            },
            Err(_) => None,
        },
        _ => None,
    }
}

/// The short forms of the first `n` input assets that have one.
pub open spec fn simples_of(db: DatabaseView, assets: Seq<InputAsset>, n: int) -> Seq<InputAssetSimple>
    decreases n,
{
    if n <= 0 {
        Seq::empty()
    } else {
        match simple_of(db, assets[n - 1]) {
            Some(simple) => simples_of(db, assets, n - 1).push(simple),
            None => simples_of(db, assets, n - 1),
        }
    }
}

/// Whether a report tells of a contract what the store holds of it.
pub open spec fn tells(s: UpdaterView, id: BlockTx, contract: ContractType, info: ContractInfo) -> bool {
    let data = s.db.contract_data(id);
    &&& info.total_supply.0 == sat_sub(data.minted_supply, data.burned_supply)
    &&& match contract {
        ContractType::Moa(c) => {
            &&& info.ticker == c.ticker
            &&& info.supply_cap == c.supply_cap
            &&& info.divisibility == Some(c.divisibility)
            &&& info.asset is None
            &&& info.mint_type matches Some(t)
            &&& t.preallocated == mark(c.mint_mechanism.preallocated is Some)
            &&& t.free_mint == mark(c.mint_mechanism.free_mint is Some)
            &&& t.purchase_or_burn == mark(c.mint_mechanism.purchase is Some)
            &&& t.collateralized is None
        },
        ContractType::Mba(c) => {
            &&& info.ticker == c.ticker
            &&& info.supply_cap == c.supply_cap
            &&& info.divisibility == Some(c.divisibility)
            &&& info.asset is None
            &&& info.mint_type matches Some(t)
            &&& t.preallocated == mark(c.mint_mechanism.preallocated is Some)
            &&& t.free_mint == mark(c.mint_mechanism.free_mint is Some)
            &&& t.purchase_or_burn == mark(c.mint_mechanism.purchase is Some)
            &&& match c.mint_mechanism.collateralized {
                Some(col) => t.collateralized matches Some(short) && short.assets@ == simples_of(
                    s.db,
                    col.input_assets@,
                    col.input_assets@.len() as int,
                ),
                None => t.collateralized is None,
            }
        },
        ContractType::Nft(c) => {
            &&& info.ticker is None
            &&& info.supply_cap == c.supply_cap
            &&& info.divisibility is None
            &&& info.mint_type is None
            &&& info.asset matches Some(bytes)
            &&& bytes@ == c.asset@
        },
        ContractType::Spec(_) => {
            &&& info.ticker is None
            &&& info.supply_cap is None
            &&& info.divisibility is None
            &&& info.mint_type is None
            &&& info.asset is None
        },
    }
}

/// The keys of a set of contracts, each once.
fn keys_of(set: &VecMap<BlockTx, ()>) -> (r: Vec<BlockTx>)
    ensures
        r@.to_set() == set@.dom(),
        r@.no_duplicates(),
{
    let n = set.len();
    let ghost items = set.items();
    let mut out: Vec<BlockTx> = Vec::new();
    let mut i: usize = 0;
    while i < n
        invariant
            i <= n,
            n == items.len(),
            items == set.items(),
            out@.len() == i,
            forall|j: int| 0 <= j < i ==> out@[j] == items[j].0,
        decreases n - i,
    {
        let e = set.entry(i);
        out.push(*e.0);
        i += 1;
    }
    proof {
        assert forall|k: BlockTx| out@.to_set().contains(k) <==> set@.dom().contains(k) by {
            lemma_map_of_dom(items, k);
            if out@.to_set().contains(k) {
                let j = choose|j: int| 0 <= j < out@.len() && out@[j] == k;
                assert(items[j].0@ == k);
            }
            if set@.dom().contains(k) {
                let j = choose|j: int| 0 <= j < items.len() && items[j].0@ == k;
                assert(out@[j] == k);
            }
        }
        assert(out@.to_set() =~= set@.dom());
        assert forall|a: int, b: int|
            0 <= a < out@.len() && 0 <= b < out@.len() && a != b implies out@[a] != out@[b] by {
            if a < b {
                assert(items[a].0@ != items[b].0@);
            } else {
                assert(items[b].0@ != items[a].0@);
            }
        }
    }
    out
}

fn copy_ticker(ticker: &Option<String>) -> (r: Option<String>)
    ensures
        r == *ticker,
{
    match ticker {
        Some(t) => Some(t.clone()),
        None => None,
    }
}

fn mark_of(present: bool) -> (r: Option<bool>)
    ensures
        r == mark(present),
{
    if present {
        Some(true)
    } else {
        None
    }
}

impl Updater {
    /// The short forms of the input assets of a contract.
    pub fn simple_assets(&self, assets: &Vec<InputAsset>) -> (r: Vec<InputAssetSimple>)
        ensures
            r@ == simples_of(self@.db, assets@, assets@.len() as int),
    {
        let mut out: Vec<InputAssetSimple> = Vec::new();
        let mut i: usize = 0;
        while i < assets.len()
            invariant
                i <= assets@.len(),
                out@ == simples_of(self@.db, assets@, i as int),
            decreases assets@.len() - i,
        {
            if let InputAsset::GlittrAsset(id) = assets[i] {
                if let Ok(message) = self.get_message(&id) {
                    if let Some(creation) = &message.contract_creation {
                        match &creation.contract_type {
                            ContractType::Moa(c) => {
                                out.push(
                                    InputAssetSimple {
                                        contract_id: id,
                                        ticker: copy_ticker(&c.ticker),
                                        divisibility: c.divisibility,
                                    },
                                );
                            },
                            ContractType::Mba(c) => {
                                out.push(
                                    InputAssetSimple {
                                        contract_id: id,
                                        ticker: copy_ticker(&c.ticker),
                                        divisibility: c.divisibility,
                                    },
                                );
                            },
                            _ => {},
                        }
                    }
                }
            }
            i += 1;
        }
        out
    }

    /// What the store tells of a contract.
    pub fn get_contract_info_by_block_tx(&self, contract_id: &BlockTx) -> (r: Result<
        ContractInfo,
        Flaw,
    >)
        ensures
            match contract_of(self@.db, *contract_id) {
                Err(flaw) => r matches Err(f) && f == flaw,
                Ok(message) => match message.contract_creation {
                    None => r == Err::<ContractInfo, Flaw>(Flaw::ContractNotMatch),
                    Some(creation) => r matches Ok(info) && tells(
                        self@,
                        *contract_id,
                        creation.contract_type,
                        info,
                    ),
                },
            },
    {
        let message = match self.get_message(contract_id) {
            Ok(m) => m,
            Err(flaw) => {
                return Err(flaw);
            },
        };
        let creation = match &message.contract_creation {
            Some(c) => c,
            None => {
                return Err(Flaw::ContractNotMatch);
            },
        };
        let data = self.get_asset_contract_data(contract_id);
        let total_supply = U128(data.minted_supply.saturating_sub(data.burned_supply));
        let info = match &creation.contract_type {
            ContractType::Moa(c) => ContractInfo {
                ticker: copy_ticker(&c.ticker),
                supply_cap: c.supply_cap,
                divisibility: Some(c.divisibility),
                total_supply,
                mint_type: Some(
                    MintType {
                        preallocated: mark_of(c.mint_mechanism.preallocated.is_some()),
                        free_mint: mark_of(c.mint_mechanism.free_mint.is_some()),
                        purchase_or_burn: mark_of(c.mint_mechanism.purchase.is_some()),
                        collateralized: None,
                    },
                ),
                asset: None,
            },
            ContractType::Mba(c) => ContractInfo {
                ticker: copy_ticker(&c.ticker),
                supply_cap: c.supply_cap,
                divisibility: Some(c.divisibility),
                total_supply,
                mint_type: Some(
                    MintType {
                        preallocated: mark_of(c.mint_mechanism.preallocated.is_some()),
                        free_mint: mark_of(c.mint_mechanism.free_mint.is_some()),
                        purchase_or_burn: mark_of(c.mint_mechanism.purchase.is_some()),
                        collateralized: match &c.mint_mechanism.collateralized {
                            Some(col) => Some(
                                CollateralizedSimple {
                                    assets: self.simple_assets(&col.input_assets),
                                },
                            ),
                            None => None,
                        },
                    },
                ),
                asset: None,
            },
            ContractType::Nft(c) => ContractInfo {
                ticker: None,
                supply_cap: c.supply_cap,
                divisibility: None,
                total_supply,
                mint_type: None,
                asset: Some(copy_bytes(&c.asset)),
            },
            ContractType::Spec(_) => ContractInfo {
                ticker: None,
                supply_cap: None,
                divisibility: None,
                total_supply,
                mint_type: None,
                asset: None,
            },
        };
        Ok(info)
    }

    /// The outcome of the transaction with an identifier, where the
    /// store has recorded one. An outcome is valid when it has no flaw.
    pub fn tx_result(&self, txid: &Txid) -> (r: Option<TxResult<'_>>)
        ensures
            match r {
                Some(found) => {
                    &&& self@.db.tx_to_block_tx.dom().contains(*txid)
                    &&& found.block_tx == self@.db.tx_to_block_tx[*txid]
                    &&& self@.db.messages.dom().contains(found.block_tx)
                    &&& *found.outcome == self@.db.messages[found.block_tx]
                    &&& found.is_valid == (found.outcome.flaw is None)
                },
                None => !self@.db.tx_to_block_tx.dom().contains(*txid)
                    || !self@.db.messages.dom().contains(self@.db.tx_to_block_tx[*txid]),
            },
    {
        let block_tx = match self.database.tx_to_block_tx.get(txid) {
            Some(b) => *b,
            None => {
                return None;
            },
        };
        match self.database.messages.get(&block_tx) {
            Some(outcome) => Some(
                TxResult { block_tx, outcome, is_valid: outcome.flaw.is_none() },
            ),
            None => None,
        }
    }

    /// The outcome recorded under a transaction.
    pub fn get_block_tx(&self, block_tx: &BlockTx) -> (r: Option<&MessageDataOutcome>)
        ensures
            match r {
                Some(outcome) => self@.db.messages.dom().contains(*block_tx) && *outcome
                    == self@.db.messages[*block_tx],
                None => !self@.db.messages.dom().contains(*block_tx),
            },
    {
        self.database.messages.get(block_tx)
    }

    /// The contract that holds a ticker.
    pub fn get_contract_block_tx_by_ticker(&self, ticker: &String) -> (r: Option<BlockTx>)
        ensures
            r == (if self@.db.tickers.dom().contains(ticker@) {
                Some(self@.db.tickers[ticker@])
            } else {
                None
            }),
    {
        match self.database.tickers.get(ticker) {
            Some(b) => Some(*b),
            None => None,
        }
    }

    /// The outcome of the transaction that created the contract with a
    /// ticker.
    pub fn get_block_tx_by_ticker(&self, ticker: &String) -> (r: Option<&MessageDataOutcome>)
        ensures
            match r {
                Some(outcome) => self@.db.tickers.dom().contains(ticker@)
                    && self@.db.messages.dom().contains(self@.db.tickers[ticker@]) && *outcome
                    == self@.db.messages[self@.db.tickers[ticker@]],
                None => !self@.db.tickers.dom().contains(ticker@)
                    || !self@.db.messages.dom().contains(self@.db.tickers[ticker@]),
            },
    {
        match self.get_contract_block_tx_by_ticker(ticker) {
            Some(b) => self.database.messages.get(&b),
            None => None,
        }
    }

    /// The balances that an output holds: none where the store has no
    /// record of it.
    pub fn get_asset_list(&self, outpoint: &Outpoint) -> (r: AssetList)
        ensures
            r@ == self@.db.held_at(*outpoint).assets,
    {
        match self.database.outpoints.get(outpoint) {
            Some(held) => AssetList { list: held.asset_list.list.duplicate() },
            None => AssetList::new(),
        }
    }

    /// What the recipients of a preallocated contract have claimed.
    pub fn get_vesting_contract_data(&self, contract_id: &BlockTx) -> (r: Option<
        &VestingContractData,
    >)
        ensures
            match r {
                Some(data) => self@.db.vesting.dom().contains(*contract_id)
                    && data.claimed_allocations@ == self@.db.vesting[*contract_id],
                None => !self@.db.vesting.dom().contains(*contract_id),
            },
    {
        self.database.vesting_contract_data.get(contract_id)
    }

    /// What a collateralized contract holds.
    pub fn get_collateralized_contract_data(&self, contract_id: &BlockTx) -> (r: Result<
        &CollateralizedAssetData,
        Flaw,
    >)
        ensures
            match r {
                Ok(data) => self@.db.pools.dom().contains(*contract_id) && data@
                    == self@.db.pools[*contract_id],
                Err(flaw) => flaw == Flaw::PoolNotFound && !self@.db.pools.dom().contains(
                    *contract_id,
                ),
            },
    {
        match self.database.pool_data.get(contract_id) {
            Some(data) => Ok(data),
            None => Err(Flaw::PoolNotFound),
        }
    }

    /// The contracts whose state key or collateral account an output
    /// holds, each once.
    pub fn get_state_keys(&self, outpoint: &Outpoint) -> (r: Vec<BlockTx>)
        ensures
            r@.to_set() == self@.db.held_at(*outpoint).state_keys.union(
                self@.db.held_at(*outpoint).accounts.dom(),
            ),
            r@.no_duplicates(),
    {
        let mut keys: VecMap<BlockTx, ()> = VecMap::new();
        if let Some(held) = self.database.outpoints.get(outpoint) {
            keys.extend_from(&held.state_keys);
            let n = held.collateral_accounts.len();
            let ghost items = held.collateral_accounts.items();
            let ghost start = keys@.dom();
            let mut i: usize = 0;
            assert(keys@.dom() =~= start.union(crate::vec_map::map_of(items.take(0)).dom()));
            while i < n
                invariant
                    i <= n,
                    n == items.len(),
                    items == held.collateral_accounts.items(),
                    keys@.dom() == start.union(crate::vec_map::map_of(items.take(i as int)).dom()),
                decreases n - i,
            {
                let e = held.collateral_accounts.entry(i);
                proof {
                    assert(items.take(i + 1).drop_last() == items.take(i as int));
                }
                keys.insert(*e.0, ());
                i += 1;
                assert(keys@.dom() =~= start.union(
                    crate::vec_map::map_of(items.take(i as int)).dom(),
                ));
            }
            assert(items.take(n as int) == items);
            assert(keys@.dom() =~= self@.db.held_at(*outpoint).state_keys.union(
                self@.db.held_at(*outpoint).accounts.dom(),
            ));
        } else {
            assert(keys@.dom() =~= self@.db.held_at(*outpoint).state_keys.union(
                self@.db.held_at(*outpoint).accounts.dom(),
            ));
        }
        keys_of(&keys)
    }

    /// Adds what the store tells of a contract to a map, where it can
    /// tell of it.
    fn describe_into(&self, infos: &mut VecMap<BlockTx, ContractInfo>, id: &BlockTx)
        requires
            all_tell(self@, old(infos)@),
        ensures
            all_tell(self@, final(infos)@),
            final(infos)@.dom() == (if describable(self@.db, *id) {
                old(infos)@.dom().insert(*id)
            } else {
                old(infos)@.dom()
            }),
    {
        if let Ok(info) = self.get_contract_info_by_block_tx(id) {
            infos.insert(*id, info);
        }
    }

    /// What an output holds: its balances, the contracts whose state
    /// key or collateral account it holds, and, where
    /// `show_contract_info` is set, what the store tells of each
    /// contract among them that it can tell of.
    pub fn get_assets(&self, outpoint: &Outpoint, show_contract_info: bool) -> (r: AssetsReport)
        ensures
            r.assets@ == self@.db.held_at(*outpoint).assets,
            r.state_keys@.to_set() == self@.db.held_at(*outpoint).state_keys.union(
                self@.db.held_at(*outpoint).accounts.dom(),
            ),
            r.state_keys@.no_duplicates(),
            all_tell(self@, r.contract_info@),
            forall|id: BlockTx|
                r.contract_info@.dom().contains(id) <==> show_contract_info && describable(
                    self@.db,
                    id,
                ) && (r.assets@.dom().contains(id) || r.state_keys@.contains(id)),
    {
        let assets = self.get_asset_list(outpoint);
        let state_keys = self.get_state_keys(outpoint);
        let mut infos: VecMap<BlockTx, ContractInfo> = VecMap::new();
        if show_contract_info {
            let n = assets.list.len();
            let ghost items = assets.list.items();
            let mut i: usize = 0;
            while i < n
                invariant
                    i <= n,
                    n == items.len(),
                    items == assets.list.items(),
                    all_tell(self@, infos@),
                    forall|id: BlockTx|
                        infos@.dom().contains(id) <==> describable(self@.db, id) && (exists|
                            j: int,
                        |
                            0 <= j < i && items[j].0 == id),
                decreases n - i,
            {
                let e = assets.list.entry(i);
                self.describe_into(&mut infos, e.0);
                i += 1;
            }
            let ghost from_assets = infos@.dom();
            proof {
                assert forall|id: BlockTx|
                    from_assets.contains(id) <==> describable(self@.db, id)
                        && assets@.dom().contains(id) by {
                    lemma_map_of_dom(items, id);
                }
            }
            let mut k: usize = 0;
            while k < state_keys.len()
                invariant
                    k <= state_keys@.len(),
                    all_tell(self@, infos@),
                    forall|id: BlockTx|
                        infos@.dom().contains(id) <==> from_assets.contains(id) || (describable(
                            self@.db,
                            id,
                        ) && named_among(state_keys@, k as int, id)),
                decreases state_keys@.len() - k,
            {
                let id = state_keys[k];
                proof {
                    assert forall|other: BlockTx|
                        named_among(state_keys@, k + 1, other) <==> named_among(
                            state_keys@,
                            k as int,
                            other,
                        ) || state_keys@[k as int] == other by {
                        lemma_named_among_step(state_keys@, k as int, other);
                    }
                }
                let ghost before = infos@.dom();
                let ghost at = k as int;
                self.describe_into(&mut infos, &id);
                k += 1;
                proof {
                    assert forall|other: BlockTx|
                        infos@.dom().contains(other) <==> from_assets.contains(other) || (
                        describable(self@.db, other) && named_among(
                            state_keys@,
                            k as int,
                            other,
                        )) by {
                        assert(before.contains(other) <==> from_assets.contains(other) || (
                        describable(self@.db, other) && named_among(state_keys@, at, other)));
                        assert(named_among(state_keys@, at + 1, other) <==> named_among(
                            state_keys@,
                            at,
                            other,
                        ) || state_keys@[at] == other);
                    }
                }
            }
            proof {
                assert forall|id: BlockTx|
                    named_among(state_keys@, state_keys@.len() as int, id)
                        <==> state_keys@.contains(id) by {
                    if state_keys@.contains(id) {
                        let j = choose|j: int| 0 <= j < state_keys@.len() && state_keys@[j] == id;
                        assert(0 <= j < state_keys@.len() && state_keys@[j] == id);
                    }
                }
            }
        }
        AssetsReport { assets, state_keys, contract_info: infos }
    }

    /// Says what indexing a transaction at the block `tip` would come
    /// to, without writing to the store. Both buckets are emptied.
    pub fn validate_tx(&mut self, tip: u64, tx: &Transaction, decoded: Option<OpReturnMessage>) -> (r:
        Option<Flaw>)
        ensures
            final(self)@.db == old(self)@.db,
            final(self)@.read_only == old(self)@.read_only,
            final(self)@.unallocated == AllocationView::empty(),
            final(self)@.allocated == Map::<u32, AllocationView>::empty(),
            r == transaction_step(
                    UpdaterView {
                        db: old(self)@.db,
                        read_only: true,
                        unallocated: AllocationView::empty(),
                        allocated: Map::empty(),
                    },
                    tx,
                    BlockTx { block: tip, tx: 1 },
                    decoded,
                ).flaw,
    {
        let was = self.is_read_only;
        self.is_read_only = true;
        self.unallocated_inputs = Allocation::default();
        self.allocated_outputs = VecMap::new();
        let ghost start = self@;
        assert(start.allocated =~= Map::<u32, AllocationView>::empty());
        proof {
            lemma_read_only_keeps_store(start, tx, BlockTx { block: tip, tx: 1 }, decoded);
        }
        let flaw = self.index_transaction(tip, 1, tx, decoded);
        self.is_read_only = was;
        flaw
    }
}

/// Steps leave the store as it is where nothing is written.
pub proof fn lemma_read_only_effects(s: UpdaterView, effects: Seq<crate::updater::ledger::Effect>, n: int)
    requires
        s.read_only,
    ensures
        s.after_all(effects, n).db == s.db,
        s.after_all(effects, n).read_only,
    decreases n,
{
    if n > 0 {
        lemma_read_only_effects(s, effects, n - 1);
    }
}

/// Taking in inputs leaves the store as it is where nothing is
/// written.
pub proof fn lemma_read_only_inputs(s: UpdaterView, inputs: Seq<Outpoint>, n: int)
    requires
        s.read_only,
    ensures
        s.after_inputs(inputs, n).db == s.db,
        s.after_inputs(inputs, n).read_only,
    decreases n,
{
    if n > 0 {
        lemma_read_only_inputs(s, inputs, n - 1);
    }
}

/// Indexing a transaction leaves the store as it is where nothing is
/// written.
pub proof fn lemma_read_only_keeps_store(
    s: UpdaterView,
    tx: &Transaction,
    current: BlockTx,
    decoded: Option<OpReturnMessage>,
)
    requires
        s.read_only,
    ensures
        processed(s, tx, current, decoded).db == s.db,
{
    reveal(crate::updater::index::message_step);
    reveal(crate::updater::index::call_step);
    let taken = s.after_inputs(tx.input@, tx.input@.len() as int);
    lemma_read_only_inputs(s, tx.input@, tx.input@.len() as int);
    if let Ok(message) = OpReturnMessage::parsed(tx, decoded) {
        let moved = crate::updater::index::transfer_step(
            taken,
            tx,
            message,
            message.spec_validate(),
        );
        assert(moved.state.db == s.db && moved.state.read_only) by {
            if let Some(t) = message.transfer {
                crate::updater::index::lemma_transfers_keep_store(
                    taken,
                    t.transfers@,
                    tx.output@.len(),
                    t.transfers@.len() as int,
                );
            }
        }
        assert forall|plan: crate::updater::plan::PlanView| #[trigger]
            moved.state.after_plan(plan).db == s.db && moved.state.after_plan(plan).read_only by {
            lemma_read_only_effects(moved.state, plan.effects, plan.effects.len() as int);
        }
    }
}

} // verus!
