use crate::flaw::Flaw;
use crate::types::{BlockTx, Fraction, U128};
use vstd::prelude::*;

verus! {

/// What a contract takes in payment or as collateral.
#[derive(Clone, Copy, Debug, PartialEq, Eq, Structural)]
pub enum InputAsset {
    RawBtc,
    GlittrAsset(BlockTx),
    Metaprotocol,
}

impl InputAsset {
    /// A referenced asset must name a transaction that can carry a
    /// message: never the first transaction of a block.
    pub open spec fn well_formed(self) -> bool {
        match self {
            InputAsset::GlittrAsset(id) => id.tx != 0,
            _ => true,
        }
    }

    pub fn is_well_formed(&self) -> (r: bool)
        ensures
            r == self.well_formed(),
    {
        match self {
            InputAsset::GlittrAsset(id) => id.tx != 0,
            _ => true,
        }
    }

    pub fn same(&self, other: &InputAsset) -> (r: bool)
        ensures
            r == (*self == *other),
    {
        match (self, other) {
            (InputAsset::RawBtc, InputAsset::RawBtc) => true,
            (InputAsset::Metaprotocol, InputAsset::Metaprotocol) => true,
            (InputAsset::GlittrAsset(a), InputAsset::GlittrAsset(b)) => a.block == b.block && a.tx
                == b.tx,
            _ => false,
        }
    }
}

/// The oracle a contract trusts: its x-only public key, the asset it
/// speaks of, and how old its messages may be, in blocks.
#[derive(Debug, PartialEq, Eq)]
pub struct OracleSetting {
    pub pubkey: Vec<u8>,
    pub asset_id: Option<String>,
    pub max_staleness: u64,
}

impl OracleSetting {
    pub open spec fn spec_validate(&self) -> Option<Flaw> {
        if self.pubkey@.len() == 0 {
            Some(Flaw::PubkeyInvalid)
        } else {
            None
        }
    }

    pub fn validate(&self) -> (r: Option<Flaw>)
        ensures
            r == self.spec_validate(),
    {
        if self.pubkey.len() == 0 {
            Some(Flaw::PubkeyInvalid)
        } else {
            None
        }
    }
}

/// How much is handed out for what came in.
#[derive(Debug, PartialEq, Eq)]
pub enum RatioType {
    Fixed { ratio: Fraction },
    Oracle { setting: OracleSetting },
}

impl RatioType {
    pub open spec fn spec_validate(&self) -> Option<Flaw> {
        match self {
            RatioType::Fixed { ratio } => if ratio.valid() {
                None
            } else {
                Some(Flaw::FractionInvalid)
            },
            RatioType::Oracle { setting } => setting.spec_validate(),
        }
    }

    pub fn validate(&self) -> (r: Option<Flaw>)
        ensures
            r == self.spec_validate(),
    {
        match self {
            RatioType::Fixed { ratio } => if ratio.is_valid() {
                None
            } else {
                Some(Flaw::FractionInvalid)
            },
            RatioType::Oracle { setting } => setting.validate(),
        }
    }
}

/// Where a payment must go to count: to an unspendable output, or to
/// the contract's address.
#[derive(Debug, PartialEq, Eq)]
pub enum TransferScheme {
    Burn,
    Purchase(String),
}

#[derive(Debug, PartialEq, Eq)]
pub struct PurchaseBurnSwap {
    pub input_asset: InputAsset,
    pub transfer_scheme: TransferScheme,
    pub ratio: RatioType,
}

impl PurchaseBurnSwap {
    pub open spec fn spec_validate(&self) -> Option<Flaw> {
        if !self.input_asset.well_formed() {
            Some(Flaw::InvalidBlockTxPointer)
        } else {
            self.ratio.spec_validate()
        }
    }

    pub fn validate(&self) -> (r: Option<Flaw>)
        ensures
            r == self.spec_validate(),
    {
        if !self.input_asset.is_well_formed() {
            Some(Flaw::InvalidBlockTxPointer)
        } else {
            self.ratio.validate()
        }
    }
}

#[derive(Clone, Copy, Debug, PartialEq, Eq, Structural)]
pub struct FreeMint {
    pub supply_cap: Option<U128>,
    pub amount_per_mint: U128,
}

impl FreeMint {
    /// `cap` is the supply cap of the whole contract.
    pub open spec fn spec_validate(&self, cap: Option<U128>) -> Option<Flaw> {
        if self.amount_per_mint.0 == 0 {
            Some(Flaw::AmountPerMintInvalid)
        } else if self.supply_cap matches Some(own) && own.0 < self.amount_per_mint.0 {
            Some(Flaw::SupplyCapInvalid)
        } else if cap matches Some(all) && all.0 < self.amount_per_mint.0 {
            Some(Flaw::SupplyCapInvalid)
        } else if self.supply_cap matches Some(own) && cap matches Some(all) && own.0 > all.0 {
            Some(Flaw::SupplyCapInvalid)
        } else {
            None
        }
    }

    pub fn validate(&self, cap: Option<U128>) -> (r: Option<Flaw>)
        ensures
            r == self.spec_validate(cap),
    {
        if self.amount_per_mint.0 == 0 {
            return Some(Flaw::AmountPerMintInvalid);
        }
        if let Some(own) = self.supply_cap {
            if own.0 < self.amount_per_mint.0 {
                return Some(Flaw::SupplyCapInvalid);
            }
        }
        if let Some(all) = cap {
            if all.0 < self.amount_per_mint.0 {
                return Some(Flaw::SupplyCapInvalid);
            }
            if let Some(own) = self.supply_cap {
                if own.0 > all.0 {
                    return Some(Flaw::SupplyCapInvalid);
                }
            }
        }
        None
    }
}

/// One tranche of a vesting schedule: the share of the allocation that
/// is released from the given block height on.
#[derive(Clone, Copy, Debug, PartialEq, Eq, Structural)]
pub struct Tranche {
    pub share: Fraction,
    pub height: u64,
}

#[derive(Debug, PartialEq, Eq)]
pub enum VestingPlan {
    /// Everything is released at the given block height.
    Timelock(u64),
    Scheduled(Vec<Tranche>),
}

/// The amount set aside for one recipient, known by its public key.
#[derive(Debug, PartialEq, Eq)]
pub struct PreallocatedShare {
    pub recipient: Vec<u8>,
    pub amount: U128,
}

#[derive(Debug, PartialEq, Eq)]
pub struct Preallocated {
    pub allocations: Vec<PreallocatedShare>,
    pub vesting_plan: Option<VestingPlan>,
    pub oracle_setting: OracleSetting,
}

/// Sum of the amounts set aside, as a mathematical integer.
pub open spec fn allocations_total(s: Seq<PreallocatedShare>) -> int
    decreases s.len(),
{
    if s.len() == 0 {
        0
    } else {
        allocations_total(s.drop_last()) + s.last().amount.0
    }
}

pub open spec fn tranches_valid(s: Seq<Tranche>) -> bool {
    forall|i: int| 0 <= i < s.len() ==> (#[trigger] s[i]).share.valid()
}

impl Preallocated {
    pub open spec fn plan_valid(&self) -> bool {
        match self.vesting_plan {
            Some(VestingPlan::Scheduled(tranches)) => tranches_valid(tranches@),
            _ => true,
        }
    }

    pub open spec fn spec_validate(&self, cap: Option<U128>) -> Option<Flaw> {
        if cap matches Some(all) && allocations_total(self.allocations@) > all.0 {
            Some(Flaw::SupplyCapInvalid)
        } else if !self.plan_valid() {
            Some(Flaw::FractionInvalid)
        } else {
            self.oracle_setting.spec_validate()
        }
    }

    /// Whether the allocations add up to at most `cap`.
    fn within_cap(&self, cap: u128) -> (r: bool)
        ensures
            r == (allocations_total(self.allocations@) <= cap),
    {
        let mut sum: u128 = 0;
        let mut i: usize = 0;
        while i < self.allocations.len()
            invariant
                i <= self.allocations@.len(),
                sum == allocations_total(self.allocations@.subrange(0, i as int)),
                sum <= cap,
            decreases self.allocations@.len() - i,
        {
            let a: u128 = self.allocations[i].amount.0;
            proof {
                let next = self.allocations@.subrange(0, i + 1);
                assert(next.drop_last() == self.allocations@.subrange(0, i as int));
                lemma_total_monotone(self.allocations@, i + 1);
            }
            if a > cap - sum {
                return false;
            }
            sum = sum + a;
            i += 1;
        }
        assert(self.allocations@.subrange(0, i as int) == self.allocations@);
        true
    }

    fn check_plan(&self) -> (r: bool)
        ensures
            r == self.plan_valid(),
    {
        match &self.vesting_plan {
            Some(VestingPlan::Scheduled(tranches)) => {
                let mut i: usize = 0;
                while i < tranches.len()
                    invariant
                        i <= tranches@.len(),
                        self.vesting_plan == Some(VestingPlan::Scheduled(*tranches)),
                        forall|j: int| 0 <= j < i ==> (#[trigger] tranches@[j]).share.valid(),
                    decreases tranches@.len() - i,
                {
                    if !tranches[i].share.is_valid() {
                        assert(!tranches@[i as int].share.valid());
                        return false;
                    }
                    i += 1;
                }
                true
            },
            _ => true,
        }
    }

    pub fn validate(&self, cap: Option<U128>) -> (r: Option<Flaw>)
        ensures
            r == self.spec_validate(cap),
    {
        if let Some(all) = cap {
            if !self.within_cap(all.0) {
                return Some(Flaw::SupplyCapInvalid);
            }
        }
        if !self.check_plan() {
            return Some(Flaw::FractionInvalid);
        }
        self.oracle_setting.validate()
    }
}

/// The total of a prefix never exceeds the total of the whole.
pub proof fn lemma_total_monotone(s: Seq<PreallocatedShare>, n: int)
    requires
        0 <= n <= s.len(),
    ensures
        0 <= allocations_total(s.subrange(0, n)) <= allocations_total(s),
    decreases s.len() - n,
{
    if n == s.len() {
        assert(s.subrange(0, n) == s);
        lemma_total_nonnegative(s);
    } else {
        lemma_total_monotone(s, n + 1);
        assert(s.subrange(0, n + 1).drop_last() == s.subrange(0, n));
        lemma_total_nonnegative(s.subrange(0, n));
    }
}

pub proof fn lemma_total_nonnegative(s: Seq<PreallocatedShare>)
    ensures
        allocations_total(s) >= 0,
    decreases s.len(),
{
    if s.len() > 0 {
        lemma_total_nonnegative(s.drop_last());
    }
}

} // verus!
