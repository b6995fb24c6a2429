use crate::flaw::{first_flaw, Flaw};
use crate::transaction::message::Commitment;
use crate::transaction::shared::{FreeMint, Preallocated, PurchaseBurnSwap};
use crate::types::U128;
use vstd::prelude::*;

verus! {

/// The greatest number of decimal places an asset may have.
pub const MAX_DIVISIBILITY: u8 = 18;

#[derive(Debug, PartialEq, Eq)]
pub struct MOAMintMechanisms {
    pub preallocated: Option<Preallocated>,
    pub free_mint: Option<FreeMint>,
    pub purchase: Option<PurchaseBurnSwap>,
}

/// A fungible asset that can be minted and never burned.
#[derive(Debug, PartialEq, Eq)]
pub struct MintOnlyAssetContract {
    pub ticker: Option<String>,
    pub supply_cap: Option<U128>,
    pub divisibility: u8,
    pub live_time: u64,
    pub end_time: Option<u64>,
    pub mint_mechanism: MOAMintMechanisms,
    pub commitment: Option<Commitment>,
}

impl MOAMintMechanisms {
    pub open spec fn spec_validate(&self, cap: Option<U128>) -> Option<Flaw> {
        first_flaw(
            match self.preallocated {
                Some(p) => p.spec_validate(cap),
                None => None,
            },
            first_flaw(
                match self.free_mint {
                    Some(f) => f.spec_validate(cap),
                    None => None,
                },
                match self.purchase {
                    Some(p) => p.spec_validate(),
                    None => None,
                },
            ),
        )
    }

    pub fn validate(&self, cap: Option<U128>) -> (r: Option<Flaw>)
        ensures
            r == self.spec_validate(cap),
    {
        if let Some(p) = &self.preallocated {
            let f = p.validate(cap);
            if f.is_some() {
                return f;
            }
        }
        if let Some(m) = &self.free_mint {
            let f = m.validate(cap);
            if f.is_some() {
                return f;
            }
        }
        if let Some(p) = &self.purchase {
            let f = p.validate();
            if f.is_some() {
                return f;
            }
        }
        None
    }
}

impl MintOnlyAssetContract {
    pub open spec fn spec_validate(&self) -> Option<Flaw> {
        if self.divisibility > MAX_DIVISIBILITY {
            Some(Flaw::DivisibilityTooHigh)
        } else {
            self.mint_mechanism.spec_validate(self.supply_cap)
        }
    }

    /// Checks the shape of the contract, without any state.
    pub fn validate(&self) -> (r: Option<Flaw>)
        ensures
            r == self.spec_validate(),
    {
        if self.divisibility > MAX_DIVISIBILITY {
            return Some(Flaw::DivisibilityTooHigh);
        }
        self.mint_mechanism.validate(self.supply_cap)
    }
}

} // verus!
