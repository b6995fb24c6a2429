use crate::flaw::{first_flaw, Flaw};
use crate::store::database::DatabaseView;
use crate::transaction::message::{ContractCreation, ContractType, UpdateNftOption};
use crate::transaction::shared::{InputAsset, PurchaseBurnSwap};
use crate::transaction::spec_contract::{SpecContract, SpecContractType};
use crate::transaction::Transaction;
use crate::types::BlockTx;
use crate::updater::{
    allocations_view, contract_of, pointer_flaw, AllocationView, Updater, UpdaterView,
};
use vstd::prelude::*;

verus! {

/// The transaction whose message holds the present form of a contract:
/// the last one that updated it, else the one that created it.
pub open spec fn latest(db: DatabaseView, contract: BlockTx) -> BlockTx {
    if db.updates.dom().contains(contract) {
        db.updates[contract]
    } else {
        contract
    }
}

/// The present form of a specification contract.
pub open spec fn template_of(db: DatabaseView, contract: BlockTx) -> Result<SpecContract, Flaw> {
    match contract_of(db, latest(db, contract)) {
        Err(flaw) => Err(flaw),
        Ok(message) => match message.contract_creation {
            Some(creation) => match creation.contract_type {
                ContractType::Spec(spec) => Ok(spec),
                _ => Err(Flaw::ContractNotMatch),
            },
            None => Err(Flaw::ContractNotMatch),
        },
    }
}

/// Whether a contract is of the kind that a template describes and
/// meets each of its constraints.
pub open spec fn conforms(template: SpecContractType, contract: ContractType) -> bool {
    match (template, contract) {
        (SpecContractType::MintOnlyAsset(t), ContractType::Moa(c)) => t.admits(&c),
        (SpecContractType::MintBurnAsset(t), ContractType::Mba(c)) => t.admits(&c),
        _ => false,
    }
}

/// The flaw of a creation under the specification contract it names:
/// the bucket of the inputs must own that contract, and the new
/// contract must conform to it.
pub open spec fn spec_flaw(s: UpdaterView, creation: ContractCreation) -> Option<Flaw> {
    match creation.spec {
        None => None,
        Some(id) => match template_of(s.db, id) {
            Err(flaw) => Some(flaw),
            Ok(template) => if !s.unallocated.specs.contains(id) {
                Some(Flaw::SpecNotOwned)
            } else if !conforms(template.spec, creation.contract_type) {
                Some(Flaw::SpecContractViolation)
            } else {
                None
            },
        },
    }
}

/// The purchase mechanism of a contract, where it has one.
pub open spec fn purchase_of(contract: ContractType) -> Option<PurchaseBurnSwap> {
    match contract {
        ContractType::Moa(c) => c.mint_mechanism.purchase,
        ContractType::Mba(c) => c.mint_mechanism.purchase,
        _ => None,
    }
}

/// The flaw of a creation whose purchase mechanism takes an asset: the
/// asset must have been created by a message without a flaw.
pub open spec fn reference_flaw(s: UpdaterView, creation: ContractCreation) -> Option<Flaw> {
    match purchase_of(creation.contract_type) {
        Some(p) => match p.input_asset {
            InputAsset::GlittrAsset(id) => match contract_of(s.db, id) {
                Ok(message) => if message.contract_creation is None {
                    Some(Flaw::ReferencingFlawedBlockTx)
                } else {
                    None
                },
                Err(_) => Some(Flaw::ReferencingFlawedBlockTx),
            },
            _ => None,
        },
        None => None,
    }
}

/// The flaw of a pointer that is given in 64 bits.
pub open spec fn wide_pointer_flaw(tx: &Transaction, pointer: u64) -> Option<Flaw> {
    if pointer > u32::MAX {
        Some(Flaw::PointerOverflow)
    } else {
        pointer_flaw(tx, pointer as u32)
    }
}

/// The flaw of a creation by its kind. A message that updates a
/// specification contract must own it; pointers must be valid.
pub open spec fn variant_flaw(s: UpdaterView, tx: &Transaction, creation: ContractCreation) -> Option<
    Flaw,
> {
    match creation.contract_type {
        ContractType::Spec(spec) => match spec.block_tx {
            Some(id) => if !s.unallocated.specs.contains(id) {
                Some(Flaw::SpecNotOwned)
            } else {
                match template_of(s.db, id) {
                    Err(flaw) => Some(flaw),
                    Ok(_) => None,
                }
            },
            None => match spec.pointer {
                Some(p) => pointer_flaw(tx, p),
                None => None,
            },
        },
        ContractType::Nft(nft) => match nft.access_key_pointer {
            Some(p) => wide_pointer_flaw(tx, p),
            None => None,
        },
        _ => None,
    }
}

/// The ticker of a contract, where it has one.
pub open spec fn ticker_of(contract: ContractType) -> Option<String> {
    match contract {
        ContractType::Moa(c) => c.ticker,
        ContractType::Mba(c) => c.ticker,
        _ => None,
    }
}

/// The flaw of a creation whose ticker is taken.
pub open spec fn ticker_flaw(s: UpdaterView, creation: ContractCreation) -> Option<Flaw> {
    match ticker_of(creation.contract_type) {
        Some(t) => if s.db.tickers.dom().contains(t@) {
            Some(Flaw::TickerAlreadyExists)
        } else {
            None
        },
        None => None,
    }
}

/// The flaw of a creation: the first of those of its specification
/// contract, of the asset it refers to, of its kind and of its ticker.
pub open spec fn creation_flaw(s: UpdaterView, tx: &Transaction, creation: ContractCreation) -> Option<
    Flaw,
> {
    first_flaw(
        spec_flaw(s, creation),
        first_flaw(
            reference_flaw(s, creation),
            first_flaw(variant_flaw(s, tx, creation), ticker_flaw(s, creation)),
        ),
    )
}

impl UpdaterView {
    /// The state after `by` became the present form of `contract`.
    pub open spec fn with_update(self, contract: BlockTx, by: BlockTx) -> UpdaterView {
        if self.read_only {
            self
        } else {
            UpdaterView {
                db: DatabaseView { updates: self.db.updates.insert(contract, by), ..self.db },
                ..self
            }
        }
    }

    /// The state after a ticker was taken by a contract.
    pub open spec fn with_ticker(self, ticker: Seq<char>, contract: BlockTx) -> UpdaterView {
        if self.read_only {
            self
        } else {
            UpdaterView {
                db: DatabaseView { tickers: self.db.tickers.insert(ticker, contract), ..self.db },
                ..self
            }
        }
    }

    /// The state after an output was given a specification contract.
    pub open spec fn with_spec_at(self, vout: u32, contract: BlockTx) -> UpdaterView {
        UpdaterView {
            allocated: self.allocated.insert(
                vout,
                AllocationView {
                    specs: self.allocation_at(vout).specs.push(contract),
                    ..self.allocation_at(vout)
                },
            ),
            ..self
        }
    }

    /// The state after the bucket of the inputs was given a
    /// specification contract, which will go to the fallback output.
    pub open spec fn with_loose_spec(self, contract: BlockTx) -> UpdaterView {
        UpdaterView {
            unallocated: AllocationView {
                specs: self.unallocated.specs.push(contract),
                ..self.unallocated
            },
            ..self
        }
    }

    /// The state after the state key of a contract went to an output.
    /// The bucket of the inputs no longer holds it.
    pub open spec fn with_state_key(self, vout: u32, contract: BlockTx) -> UpdaterView {
        UpdaterView {
            unallocated: AllocationView {
                state_keys: self.unallocated.state_keys.remove(contract),
                ..self.unallocated
            },
            allocated: self.allocated.insert(
                vout,
                AllocationView {
                    state_keys: self.allocation_at(vout).state_keys.insert(contract),
                    ..self.allocation_at(vout)
                },
            ),
            ..self
        }
    }

    /// The state after the contract `current` was created.
    pub open spec fn after_creation(self, current: BlockTx, creation: ContractCreation) -> UpdaterView {
        let made = match creation.contract_type {
            ContractType::Spec(spec) => match spec.block_tx {
                Some(id) => self.with_update(id, current),
                None => match spec.pointer {
                    Some(p) => self.with_spec_at(p, current),
                    None => self.with_loose_spec(current),
                },
            },
            ContractType::Nft(nft) => match nft.access_key_pointer {
                Some(p) => if p <= u32::MAX {
                    self.with_state_key(p as u32, current)
                } else {
                    self
                },
                None => self,
            },
            _ => self,
        };
        match ticker_of(creation.contract_type) {
            Some(t) => made.with_ticker(t@, current),
            None => made,
        }
    }
}

/// The flaw of an update of a non-fungible contract: the contract must
/// be one, the bucket of the inputs must hold its state key, and the
/// pointer for the key must be valid.
pub open spec fn update_nft_flaw(s: UpdaterView, tx: &Transaction, contract: BlockTx, option: UpdateNftOption) -> Option<
    Flaw,
> {
    match contract_of(s.db, contract) {
        Err(flaw) => Some(flaw),
        Ok(message) => match message.contract_creation {
            Some(creation) => match creation.contract_type {
                ContractType::Nft(_) => if !s.unallocated.state_keys.contains(contract) {
                    Some(Flaw::StateKeyNotFound)
                } else {
                    match option.access_key_pointer {
                        Some(p) => wide_pointer_flaw(tx, p),
                        None => None,
                    }
                },
                _ => Some(Flaw::ContractNotMatch),
            },
            None => Some(Flaw::ContractNotMatch),
        },
    }
}

impl UpdaterView {
    /// The state after the message of `current` updated a non-fungible
    /// contract: that message holds its present form, and the state key
    /// goes to the output that the update names.
    pub open spec fn after_update_nft(self, current: BlockTx, contract: BlockTx, option: UpdateNftOption) -> UpdaterView {
        let updated = self.with_update(contract, current);
        match option.access_key_pointer {
            Some(p) => if p <= u32::MAX {
                updated.with_state_key(p as u32, contract)
            } else {
                updated
            },
            None => updated,
        }
    }
}

impl Updater {
    /// Whether the bucket of the inputs owns a specification contract.
    pub fn owns_spec(&self, contract: &BlockTx) -> (r: bool)
        ensures
            r == self@.unallocated.specs.contains(*contract),
    {
        let specs = &self.unallocated_inputs.spec_owned.specs;
        let mut i: usize = 0;
        while i < specs.len()
            invariant
                i <= specs@.len(),
                specs@ == self@.unallocated.specs,
                forall|j: int| 0 <= j < i ==> specs@[j] != *contract,
            decreases specs@.len() - i,
        {
            if specs[i].block == contract.block && specs[i].tx == contract.tx {
                assert(specs@[i as int] == *contract);
                return true;
            }
            i += 1;
        }
        false
    }

    /// The transaction whose message holds the present form of a
    /// contract.
    pub fn latest_of(&self, contract: &BlockTx) -> (r: BlockTx)
        ensures
            r == latest(self@.db, *contract),
    {
        match self.database.updates.get(contract) {
            Some(by) => *by,
            None => *contract,
        }
    }

    /// The present form of a specification contract.
    pub fn get_spec(&self, contract: &BlockTx) -> (r: Result<&SpecContract, Flaw>)
        ensures
            match (r, template_of(self@.db, *contract)) {
                (Ok(m), Ok(w)) => *m == w,
                (Err(f), Err(g)) => f == g,
                _ => false,
            },
    {
        let at = self.latest_of(contract);
        let message = match self.get_message(&at) {
            Ok(m) => m,
            Err(flaw) => {
                return Err(flaw);
            },
        };
        match &message.contract_creation {
            Some(creation) => match &creation.contract_type {
                ContractType::Spec(spec) => Ok(spec),
                _ => Err(Flaw::ContractNotMatch),
            },
            None => Err(Flaw::ContractNotMatch),
        }
    }

    /// Checks a creation against the specification contract it names.
    pub fn validate_contract_by_spec(&self, creation: &ContractCreation) -> (r: Option<Flaw>)
        ensures
            match (r, spec_flaw(self@, *creation)) {
                (Some(f), Some(g)) => f == g,
                (None, None) => true,
                _ => false,
            },
    {
        let id = match creation.spec {
            Some(id) => id,
            None => {
                return None;
            },
        };
        let template = match self.get_spec(&id) {
            Ok(t) => t,
            Err(flaw) => {
                return Some(flaw);
            },
        };
        if !self.owns_spec(&id) {
            return Some(Flaw::SpecNotOwned);
        }
        let fits = match (&template.spec, &creation.contract_type) {
            (SpecContractType::MintOnlyAsset(t), ContractType::Moa(c)) => t.check(c),
            (SpecContractType::MintBurnAsset(t), ContractType::Mba(c)) => t.check(c),
            _ => false,
        };
        if !fits {
            return Some(Flaw::SpecContractViolation);
        }
        None
    }

    /// Checks a pointer that is given in 64 bits.
    pub fn validate_wide_pointer(pointer: u64, tx: &Transaction) -> (r: Option<Flaw>)
        ensures
            r == wide_pointer_flaw(tx, pointer),
    {
        if pointer > u32::MAX as u64 {
            Some(Flaw::PointerOverflow)
        } else {
            Self::validate_pointer(pointer as u32, tx)
        }
    }

    /// Checks a creation against the state.
    pub fn check_creation(&self, tx: &Transaction, creation: &ContractCreation) -> (r: Option<Flaw>)
        ensures
            match (r, creation_flaw(self@, tx, *creation)) {
                (Some(f), Some(g)) => f == g,
                (None, None) => true,
                _ => false,
            },
    {
        let f = self.validate_contract_by_spec(creation);
        if f.is_some() {
            return f;
        }
        let purchase = match &creation.contract_type {
            ContractType::Moa(c) => &c.mint_mechanism.purchase,
            ContractType::Mba(c) => &c.mint_mechanism.purchase,
            _ => &None,
        };
        if let Some(p) = purchase {
            if let InputAsset::GlittrAsset(id) = p.input_asset {
                match self.get_message(&id) {
                    Ok(message) => {
                        if message.contract_creation.is_none() {
                            return Some(Flaw::ReferencingFlawedBlockTx);
                        }
                    },
                    Err(_) => {
                        return Some(Flaw::ReferencingFlawedBlockTx);
                    },
                }
            }
        }
        match &creation.contract_type {
            ContractType::Spec(spec) => match spec.block_tx {
                Some(id) => {
                    if !self.owns_spec(&id) {
                        return Some(Flaw::SpecNotOwned);
                    }
                    if let Err(flaw) = self.get_spec(&id) {
                        return Some(flaw);
                    }
                },
                None => {
                    if let Some(p) = spec.pointer {
                        let f = Self::validate_pointer(p, tx);
                        if f.is_some() {
                            return f;
                        }
                    }
                },
            },
            ContractType::Nft(nft) => {
                if let Some(p) = nft.access_key_pointer {
                    let f = Self::validate_wide_pointer(p, tx);
                    if f.is_some() {
                        return f;
                    }
                }
            },
            _ => {},
        }
        let ticker = match &creation.contract_type {
            ContractType::Moa(c) => &c.ticker,
            ContractType::Mba(c) => &c.ticker,
            _ => &None,
        };
        if let Some(t) = ticker {
            if self.database.tickers.contains_key(t) {
                return Some(Flaw::TickerAlreadyExists);
            }
        }
        None
    }

    /// Gives the state key of a contract to an output.
    pub fn allocate_state_key(&mut self, vout: u32, contract: &BlockTx)
        ensures
            final(self)@ == old(self)@.with_state_key(vout, *contract),
    {
        self.unallocated_inputs.state_keys.remove(contract);
        let ghost left = self@;
        assert(left.unallocated.state_keys =~= old(self)@.unallocated.state_keys.remove(*contract));
        let mut a = self.take_allocation(vout);
        a.state_keys.insert(*contract, ());
        assert(a@.state_keys =~= left.allocation_at(vout).state_keys.insert(*contract));
        self.allocated_outputs.insert(vout, a);
        assert(allocations_view(self.allocated_outputs@) =~= left.allocated.insert(vout, a@));
    }

    /// Gives a specification contract to an output.
    pub fn allocate_new_spec(&mut self, vout: u32, contract: &BlockTx)
        ensures
            final(self)@ == old(self)@.with_spec_at(vout, *contract),
    {
        let mut a = self.take_allocation(vout);
        a.spec_owned.specs.push(*contract);
        self.allocated_outputs.insert(vout, a);
        assert(allocations_view(self.allocated_outputs@) =~= old(self)@.allocated.insert(vout, a@));
    }

    /// Records the transaction whose message holds the present form of
    /// a contract.
    pub fn record_update(&mut self, contract: &BlockTx, by: &BlockTx)
        ensures
            final(self)@ == old(self)@.with_update(*contract, *by),
    {
        if !self.is_read_only {
            self.database.updates.insert(*contract, *by);
        }
    }

    /// Carries out a creation that was checked.
    pub fn apply_creation(&mut self, current: &BlockTx, creation: &ContractCreation)
        ensures
            final(self)@ == old(self)@.after_creation(*current, *creation),
    {
        match &creation.contract_type {
            ContractType::Spec(spec) => match spec.block_tx {
                Some(id) => {
                    self.record_update(&id, current);
                },
                None => match spec.pointer {
                    Some(p) => {
                        self.allocate_new_spec(p, current);
                    },
                    None => {
                        self.unallocated_inputs.spec_owned.specs.push(*current);
                    },
                },
            },
            ContractType::Nft(nft) => {
                if let Some(p) = nft.access_key_pointer {
                    if p <= u32::MAX as u64 {
                        self.allocate_state_key(p as u32, current);
                    }
                }
            },
            _ => {},
        }
        let ticker = match &creation.contract_type {
            ContractType::Moa(c) => &c.ticker,
            ContractType::Mba(c) => &c.ticker,
            _ => &None,
        };
        if let Some(t) = ticker {
            if !self.is_read_only {
                self.database.tickers.insert(t.clone(), *current);
            }
        }
    }

    /// Carries out an update of a non-fungible contract.
    pub fn update_nft(
        &mut self,
        tx: &Transaction,
        block_tx: &BlockTx,
        contract_id: &BlockTx,
        option: &UpdateNftOption,
    ) -> (r: Option<Flaw>)
        ensures
            match update_nft_flaw(old(self)@, tx, *contract_id, *option) {
                None => r is None && final(self)@ == old(self)@.after_update_nft(
                    *block_tx,
                    *contract_id,
                    *option,
                ),
                Some(flaw) => r matches Some(f) && f == flaw && final(self)@ == old(self)@,
            },
    {
        let is_nft = match self.get_message(contract_id) {
            Err(flaw) => {
                return Some(flaw);
            },
            Ok(message) => match &message.contract_creation {
                Some(creation) => match &creation.contract_type {
                    ContractType::Nft(_) => true,
                    _ => false,
                },
                None => false,
            },
        };
        if !is_nft {
            return Some(Flaw::ContractNotMatch);
        }
        if !self.unallocated_inputs.state_keys.contains_key(contract_id) {
            return Some(Flaw::StateKeyNotFound);
        }
        if let Some(p) = option.access_key_pointer {
            let f = Self::validate_wide_pointer(p, tx);
            if f.is_some() {
                return f;
            }
        }
        self.record_update(contract_id, block_tx);
        if let Some(p) = option.access_key_pointer {
            if p <= u32::MAX as u64 {
                self.allocate_state_key(p as u32, contract_id);
            }
        }
        None
    }
}

} // verus!
