use crate::flaw::Flaw;
use crate::types::U128;
use vstd::prelude::*;

verus! {

/// The most bytes the asset of a non-fungible contract may hold.
pub const NFT_ASSET_MAX_BYTES: usize = 1024;

#[derive(Debug, PartialEq, Eq)]
pub struct NftAssetContract {
    pub supply_cap: Option<U128>,
    pub live_time: u64,
    pub end_time: Option<u64>,
    pub asset: Vec<u8>,
    pub metadata: Vec<u8>,
    pub whitelist_address_bloom_filter: Option<Vec<u8>>,
    pub access_key_pointer: Option<u64>,
}

impl NftAssetContract {
    pub open spec fn spec_validate(&self) -> Option<Flaw> {
        if self.asset@.len() > NFT_ASSET_MAX_BYTES {
            Some(Flaw::AssetTooLarge)
        } else {
            None
        }
    }

    /// Checks the shape of the contract, without any state.
    pub fn validate(&self) -> (r: Option<Flaw>)
        ensures
            r == self.spec_validate(),
    {
        if self.asset.len() > NFT_ASSET_MAX_BYTES {
            Some(Flaw::AssetTooLarge)
        } else {
            None
        }
    }
}

} // verus!
