use crate::flaw::{first_flaw, Flaw};
use crate::transaction::message::Commitment;
use crate::transaction::mint_only_asset::MAX_DIVISIBILITY;
use crate::transaction::shared::{
    FreeMint, InputAsset, OracleSetting, Preallocated, PurchaseBurnSwap, RatioType,
};
use crate::types::{Fraction, U128};
use vstd::prelude::*;

verus! {

/// The rule a pool of two assets keeps when they are swapped.
#[derive(Clone, Copy, Debug, PartialEq, Eq, Structural)]
pub enum RatioModel {
    ConstantProduct,
    ConstantSum,
}

#[derive(Clone, Copy, Debug, PartialEq, Eq, Structural)]
pub struct ProportionalType {
    pub ratio_model: RatioModel,
}

#[derive(Debug, PartialEq, Eq)]
pub struct AccountType {
    pub max_ltv: Fraction,
    pub ratio: RatioType,
}

/// How a collateralized asset is minted against what is put in.
#[derive(Debug, PartialEq, Eq)]
pub enum MintStructure {
    Ratio(RatioType),
    Proportional(ProportionalType),
    Account(AccountType),
}

#[derive(Debug, PartialEq, Eq)]
pub struct Collateralized {
    pub input_assets: Vec<InputAsset>,
    pub mutable_assets: bool,
    pub mint_structure: MintStructure,
}

#[derive(Debug, PartialEq, Eq)]
pub struct MBAMintMechanisms {
    pub preallocated: Option<Preallocated>,
    pub free_mint: Option<FreeMint>,
    pub purchase: Option<PurchaseBurnSwap>,
    pub collateralized: Option<Collateralized>,
}

#[derive(Debug, PartialEq, Eq)]
pub struct ReturnCollateral {
    pub fee: Option<Fraction>,
    pub oracle_setting: Option<OracleSetting>,
}

#[derive(Debug, PartialEq, Eq)]
pub struct BurnMechanisms {
    pub return_collateral: Option<ReturnCollateral>,
}

#[derive(Clone, Copy, Debug, PartialEq, Eq, Structural)]
pub struct SwapMechanisms {
    pub fee: Option<U128>,
}

/// A fungible asset that can be minted and burned, possibly against
/// collateral.
#[derive(Debug, PartialEq, Eq)]
pub struct MintBurnAssetContract {
    pub ticker: Option<String>,
    pub supply_cap: Option<U128>,
    pub divisibility: u8,
    pub live_time: u64,
    pub end_time: Option<u64>,
    pub mint_mechanism: MBAMintMechanisms,
    pub burn_mechanism: BurnMechanisms,
    pub swap_mechanism: SwapMechanisms,
    pub commitment: Option<Commitment>,
}

/// Exactly two assets, different from each other.
pub open spec fn is_pair(assets: Seq<InputAsset>) -> bool {
    assets.len() == 2 && assets[0] != assets[1]
}

impl Collateralized {
    pub open spec fn spec_validate(&self) -> Option<Flaw> {
        if self.input_assets@.len() == 0 {
            Some(Flaw::InputAssetsInvalid)
        } else {
            match self.mint_structure {
                MintStructure::Ratio(ratio) => ratio.spec_validate(),
                MintStructure::Proportional(_) => if is_pair(self.input_assets@) {
                    None
                } else {
                    Some(Flaw::InputAssetsInvalid)
                },
                MintStructure::Account(account) => if !account.max_ltv.valid() {
                    Some(Flaw::FractionInvalid)
                } else {
                    account.ratio.spec_validate()
                },
            }
        }
    }

    pub fn validate(&self) -> (r: Option<Flaw>)
        ensures
            r == self.spec_validate(),
    {
        if self.input_assets.len() == 0 {
            return Some(Flaw::InputAssetsInvalid);
        }
        match &self.mint_structure {
            MintStructure::Ratio(ratio) => ratio.validate(),
            MintStructure::Proportional(_) => {
                if self.input_assets.len() == 2 && !self.input_assets[0].same(
                    &self.input_assets[1],
                ) {
                    None
                } else {
                    Some(Flaw::InputAssetsInvalid)
                }
            },
            MintStructure::Account(account) => {
                if !account.max_ltv.is_valid() {
                    Some(Flaw::FractionInvalid)
                } else {
                    account.ratio.validate()
                }
            },
        }
    }
}

impl ReturnCollateral {
    pub open spec fn spec_validate(&self) -> Option<Flaw> {
        if self.fee matches Some(fee) && !fee.valid() {
            Some(Flaw::FractionInvalid)
        } else if let Some(setting) = self.oracle_setting {
            setting.spec_validate()
        } else {
            None
        }
    }

    pub fn validate(&self) -> (r: Option<Flaw>)
        ensures
            r == self.spec_validate(),
    {
        if let Some(fee) = &self.fee {
            if !fee.is_valid() {
                return Some(Flaw::FractionInvalid);
            }
        }
        match &self.oracle_setting {
            Some(setting) => setting.validate(),
            None => None,
        }
    }
}

impl MBAMintMechanisms {
    pub open spec fn spec_validate(&self, cap: Option<U128>) -> Option<Flaw> {
        first_flaw(
            match self.preallocated {
                Some(p) => p.spec_validate(cap),
                None => None,
            },
            first_flaw(
                match self.free_mint {
                    Some(f) => f.spec_validate(cap),
                    None => None,
                },
                first_flaw(
                    match self.purchase {
                        Some(p) => p.spec_validate(),
                        None => None,
                    },
                    match self.collateralized {
                        Some(c) => c.spec_validate(),
                        None => None,
                    },
                ),
            ),
        )
    }

    pub fn validate(&self, cap: Option<U128>) -> (r: Option<Flaw>)
        ensures
            r == self.spec_validate(cap),
    {
        if let Some(p) = &self.preallocated {
            let f = p.validate(cap);
            if f.is_some() {
                return f;
            }
        }
        if let Some(m) = &self.free_mint {
            let f = m.validate(cap);
            if f.is_some() {
                return f;
            }
        }
        if let Some(p) = &self.purchase {
            let f = p.validate();
            if f.is_some() {
                return f;
            }
        }
        if let Some(c) = &self.collateralized {
            let f = c.validate();
            if f.is_some() {
                return f;
            }
        }
        None
    }
}

impl MintBurnAssetContract {
    pub open spec fn spec_validate(&self) -> Option<Flaw> {
        if self.divisibility > MAX_DIVISIBILITY {
            Some(Flaw::DivisibilityTooHigh)
        } else if self.mint_mechanism.spec_validate(self.supply_cap) is Some {
            self.mint_mechanism.spec_validate(self.supply_cap)
        } else if let Some(rc) = self.burn_mechanism.return_collateral {
            rc.spec_validate()
        } else {
            None
        }
    }

    /// Checks the shape of the contract, without any state.
    pub fn validate(&self) -> (r: Option<Flaw>)
        ensures
            r == self.spec_validate(),
    {
        if self.divisibility > MAX_DIVISIBILITY {
            return Some(Flaw::DivisibilityTooHigh);
        }
        let f = self.mint_mechanism.validate(self.supply_cap);
        if f.is_some() {
            return f;
        }
        match &self.burn_mechanism.return_collateral {
            Some(rc) => rc.validate(),
            None => None,
        }
    }
}

} // verus!
