use crate::flaw::Flaw;
use crate::transaction::mint_burn_asset::{
    MintBurnAssetContract, MintStructure, RatioModel,
};
use crate::transaction::mint_only_asset::MintOnlyAssetContract;
use crate::transaction::shared::{InputAsset, TransferScheme};
use crate::types::BlockTx;
use vstd::prelude::*;

verus! {

/// Where a mint-only asset made from a template must send payments.
#[derive(Clone, Copy, Debug, PartialEq, Eq, Structural)]
pub enum PegInType {
    Address,
    Burn,
}

/// The constraints a template puts on a mint-only asset. A field that
/// is absent constrains nothing.
#[derive(Clone, Copy, Debug, PartialEq, Eq, Structural)]
pub struct MintOnlyAssetSpec {
    pub input_asset: Option<InputAsset>,
    pub peg_in_type: Option<PegInType>,
}

/// The kind of a mint structure, without its parameters.
#[derive(Clone, Copy, Debug, PartialEq, Eq, Structural)]
pub enum MintStructureKind {
    Ratio,
    ConstantProduct,
    ConstantSum,
    Account,
}

/// The constraints a template puts on a mint-burn asset.
#[derive(Debug, PartialEq, Eq)]
pub struct MintBurnAssetSpec {
    pub input_assets: Option<Vec<InputAsset>>,
    pub mint_structure: Option<MintStructureKind>,
}

#[derive(Debug, PartialEq, Eq)]
pub enum SpecContractType {
    MintOnlyAsset(MintOnlyAssetSpec),
    MintBurnAsset(MintBurnAssetSpec),
}

/// A template that later contracts can be held to. With `block_tx`
/// absent the message creates the template; with it present the message
/// replaces the template of that contract.
#[derive(Debug, PartialEq, Eq)]
pub struct SpecContract {
    pub spec: SpecContractType,
    pub block_tx: Option<BlockTx>,
    pub pointer: Option<u32>,
}

pub open spec fn kind_of(structure: MintStructure) -> MintStructureKind {
    match structure {
        MintStructure::Ratio(_) => MintStructureKind::Ratio,
        MintStructure::Proportional(p) => match p.ratio_model {
            RatioModel::ConstantProduct => MintStructureKind::ConstantProduct,
            RatioModel::ConstantSum => MintStructureKind::ConstantSum,
        },
        MintStructure::Account(_) => MintStructureKind::Account,
    }
}

pub fn structure_kind(structure: &MintStructure) -> (r: MintStructureKind)
    ensures
        r == kind_of(*structure),
{
    match structure {
        MintStructure::Ratio(_) => MintStructureKind::Ratio,
        MintStructure::Proportional(p) => match p.ratio_model {
            RatioModel::ConstantProduct => MintStructureKind::ConstantProduct,
            RatioModel::ConstantSum => MintStructureKind::ConstantSum,
        },
        MintStructure::Account(_) => MintStructureKind::Account,
    }
}

pub fn same_kind(a: MintStructureKind, b: MintStructureKind) -> (r: bool)
    ensures
        r == (a == b),
{
    match (a, b) {
        (MintStructureKind::Ratio, MintStructureKind::Ratio) => true,
        (MintStructureKind::ConstantProduct, MintStructureKind::ConstantProduct) => true,
        (MintStructureKind::ConstantSum, MintStructureKind::ConstantSum) => true,
        (MintStructureKind::Account, MintStructureKind::Account) => true,
        _ => false,
    }
}

/// Whether two lists name the same assets in the same order.
pub fn same_assets(a: &Vec<InputAsset>, b: &Vec<InputAsset>) -> (r: bool)
    ensures
        r == (a@ == b@),
{
    if a.len() != b.len() {
        return false;
    }
    let mut i: usize = 0;
    while i < a.len()
        invariant
            i <= a@.len(),
            a@.len() == b@.len(),
            forall|j: int| 0 <= j < i ==> a@[j] == b@[j],
        decreases a@.len() - i,
    {
        if !a[i].same(&b[i]) {
            return false;
        }
        i += 1;
    }
    assert(a@ =~= b@);
    true
}

impl MintOnlyAssetSpec {
    /// A mint-only asset conforms when its purchase mechanism takes the
    /// asset the template names and is paid the way the template says.
    pub open spec fn admits(&self, contract: &MintOnlyAssetContract) -> bool {
        &&& self.input_asset matches Some(asset) ==> contract.mint_mechanism.purchase matches Some(p)
            && p.input_asset == asset
        &&& self.peg_in_type matches Some(peg) ==> contract.mint_mechanism.purchase matches Some(p)
            && (peg == PegInType::Burn <==> p.transfer_scheme is Burn)
    }

    pub fn check(&self, contract: &MintOnlyAssetContract) -> (r: bool)
        ensures
            r == self.admits(contract),
    {
        if let Some(asset) = self.input_asset {
            match &contract.mint_mechanism.purchase {
                Some(p) => {
                    if !p.input_asset.same(&asset) {
                        return false;
                    }
                },
                None => {
                    return false;
                },
            }
        }
        if let Some(peg) = self.peg_in_type {
            match &contract.mint_mechanism.purchase {
                Some(p) => {
                    let burns = match p.transfer_scheme {
                        TransferScheme::Burn => true,
                        TransferScheme::Purchase(_) => false,
                    };
                    let wants_burn = match peg {
                        PegInType::Burn => true,
                        PegInType::Address => false,
                    };
                    if burns != wants_burn {
                        return false;
                    }
                },
                None => {
                    return false;
                },
            }
        }
        true
    }
}

impl MintBurnAssetSpec {
    /// A mint-burn asset conforms when it is collateralized by the
    /// assets the template names, under the structure the template names.
    pub open spec fn admits(&self, contract: &MintBurnAssetContract) -> bool {
        &&& self.input_assets matches Some(assets) ==> contract.mint_mechanism.collateralized matches Some(
            c,
        ) && c.input_assets@ == assets@
        &&& self.mint_structure matches Some(kind) ==> contract.mint_mechanism.collateralized matches Some(
            c,
        ) && kind_of(c.mint_structure) == kind
    }

    pub fn check(&self, contract: &MintBurnAssetContract) -> (r: bool)
        ensures
            r == self.admits(contract),
    {
        if let Some(assets) = &self.input_assets {
            match &contract.mint_mechanism.collateralized {
                Some(c) => {
                    if !same_assets(&c.input_assets, assets) {
                        return false;
                    }
                },
                None => {
                    return false;
                },
            }
        }
        if let Some(kind) = self.mint_structure {
            match &contract.mint_mechanism.collateralized {
                Some(c) => {
                    if !same_kind(structure_kind(&c.mint_structure), kind) {
                        return false;
                    }
                },
                None => {
                    return false;
                },
            }
        }
        true
    }
}

impl SpecContract {
    pub open spec fn spec_validate(&self) -> Option<Flaw> {
        match self.spec {
            SpecContractType::MintBurnAsset(s) => if s.input_assets matches Some(assets)
                && assets@.len() == 0 {
                Some(Flaw::InputAssetsInvalid)
            } else {
                None
            },
            SpecContractType::MintOnlyAsset(s) => if s.input_asset matches Some(asset)
                && !asset.well_formed() {
                Some(Flaw::InvalidBlockTxPointer)
            } else {
                None
            },
        }
    }

    /// Checks the shape of the template, without any state.
    pub fn validate(&self) -> (r: Option<Flaw>)
        ensures
            r == self.spec_validate(),
    {
        match &self.spec {
            SpecContractType::MintBurnAsset(s) => {
                if let Some(assets) = &s.input_assets {
                    if assets.len() == 0 {
                        return Some(Flaw::InputAssetsInvalid);
                    }
                }
                None
            },
            SpecContractType::MintOnlyAsset(s) => {
                if let Some(asset) = s.input_asset {
                    if !asset.is_well_formed() {
                        return Some(Flaw::InvalidBlockTxPointer);
                    }
                }
                None
            },
        }
    }
}

} // verus!
