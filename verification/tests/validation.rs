use glittr_core::flaw::Flaw;
use glittr_core::transaction::message::{
    CallType, ContractCall, ContractCreation, ContractType, ContractValidator, MintBurnOption,
    OpReturnMessage,
};
use glittr_core::transaction::mint_burn_asset::{
    AccountType, BurnMechanisms, Collateralized, MBAMintMechanisms, MintBurnAssetContract,
    MintStructure, ProportionalType, RatioModel, ReturnCollateral, SwapMechanisms,
};
use glittr_core::transaction::mint_only_asset::{MOAMintMechanisms, MintOnlyAssetContract};
use glittr_core::transaction::nft::NftAssetContract;
use glittr_core::transaction::shared::{
    FreeMint, InputAsset, OracleSetting, Preallocated, PreallocatedShare, PurchaseBurnSwap,
    RatioType, Tranche, TransferScheme, VestingPlan,
};
use glittr_core::transaction::spec_contract::{
    MintBurnAssetSpec, MintOnlyAssetSpec, SpecContract, SpecContractType,
};
use glittr_core::types::{BlockTx, Fraction, U128};

fn moa(mechanism: MOAMintMechanisms, cap: Option<u128>, divisibility: u8) -> OpReturnMessage {
    OpReturnMessage {
        transfer: None,
        contract_creation: Some(ContractCreation {
            contract_type: ContractType::Moa(MintOnlyAssetContract {
                ticker: None,
                supply_cap: cap.map(U128),
                divisibility,
                live_time: 0,
                end_time: None,
                mint_mechanism: mechanism,
                commitment: None,
            }),
            spec: None,
        }),
        contract_call: None,
    }
}

fn free(cap: Option<u128>, per_mint: u128) -> MOAMintMechanisms {
    MOAMintMechanisms {
        preallocated: None,
        free_mint: Some(FreeMint { supply_cap: cap.map(U128), amount_per_mint: U128(per_mint) }),
        purchase: None,
    }
}

fn purchase(input_asset: InputAsset, ratio: RatioType) -> MOAMintMechanisms {
    MOAMintMechanisms {
        preallocated: None,
        free_mint: None,
        purchase: Some(PurchaseBurnSwap {
            input_asset,
            transfer_scheme: TransferScheme::Burn,
            ratio,
        }),
    }
}

fn oracle(pubkey: Vec<u8>) -> OracleSetting {
    OracleSetting { pubkey, asset_id: None, max_staleness: 5 }
}

fn mba(collateralized: Collateralized, rc: Option<ReturnCollateral>) -> OpReturnMessage {
    OpReturnMessage {
        transfer: None,
        contract_creation: Some(ContractCreation {
            contract_type: ContractType::Mba(MintBurnAssetContract {
                ticker: None,
                supply_cap: None,
                divisibility: 0,
                live_time: 0,
                end_time: None,
                mint_mechanism: MBAMintMechanisms {
                    preallocated: None,
                    free_mint: None,
                    purchase: None,
                    collateralized: Some(collateralized),
                },
                burn_mechanism: BurnMechanisms { return_collateral: rc },
                swap_mechanism: SwapMechanisms { fee: None },
                commitment: None,
            }),
            spec: None,
        }),
        contract_call: None,
    }
}

fn asset(tx: u32) -> InputAsset {
    InputAsset::GlittrAsset(BlockTx { block: 5, tx })
}

fn pool(assets: Vec<InputAsset>) -> Collateralized {
    Collateralized {
        input_assets: assets,
        mutable_assets: false,
        mint_structure: MintStructure::Proportional(ProportionalType {
            ratio_model: RatioModel::ConstantSum,
        }),
    }
}

#[test]
fn well_formed_messages_pass() {
    assert_eq!(moa(free(Some(1000), 10), Some(1000), 18).validate(), None);
    assert_eq!(moa(free(None, 10), None, 0).validate(), None);
    assert_eq!(moa(free(Some(10), 10), Some(10), 0).validate(), None);
    let fixed = RatioType::Fixed { ratio: Fraction { numerator: 1, denominator: 3 } };
    assert_eq!(moa(purchase(InputAsset::RawBtc, fixed), None, 8).validate(), None);
    assert_eq!(mba(pool(vec![asset(1), asset(2)]), None).validate(), None);
    let empty = OpReturnMessage { transfer: None, contract_creation: None, contract_call: None };
    assert_eq!(empty.validate(), None);
}

#[test]
fn divisibility_is_at_most_eighteen() {
    assert_eq!(
        moa(free(None, 10), None, 19).validate(),
        Some(Flaw::DivisibilityTooHigh)
    );
    assert_eq!(
        moa(free(None, 0), None, 19).validate(),
        Some(Flaw::DivisibilityTooHigh)
    );
}

#[test]
fn free_mints_need_an_amount_and_a_cap_that_admits_it() {
    assert_eq!(moa(free(None, 0), None, 0).validate(), Some(Flaw::AmountPerMintInvalid));
    assert_eq!(moa(free(Some(9), 10), None, 0).validate(), Some(Flaw::SupplyCapInvalid));
    assert_eq!(moa(free(None, 10), Some(9), 0).validate(), Some(Flaw::SupplyCapInvalid));
    assert_eq!(moa(free(Some(100), 10), Some(50), 0).validate(), Some(Flaw::SupplyCapInvalid));
}

#[test]
fn preallocations_fit_under_the_cap() {
    let pre = |amounts: &[u128], plan: Option<VestingPlan>| MOAMintMechanisms {
        preallocated: Some(Preallocated {
            allocations: amounts
                .iter()
                .map(|a| PreallocatedShare { recipient: vec![1], amount: U128(*a) })
                .collect(),
            vesting_plan: plan,
            oracle_setting: oracle(vec![2; 32]),
        }),
        free_mint: None,
        purchase: None,
    };
    assert_eq!(moa(pre(&[400, 600], None), Some(1000), 0).validate(), None);
    assert_eq!(
        moa(pre(&[400, 601], None), Some(1000), 0).validate(),
        Some(Flaw::SupplyCapInvalid)
    );
    assert_eq!(
        moa(pre(&[u128::MAX, u128::MAX], None), Some(u128::MAX), 0).validate(),
        Some(Flaw::SupplyCapInvalid)
    );
    assert_eq!(moa(pre(&[u128::MAX, u128::MAX], None), None, 0).validate(), None);
    let broken = VestingPlan::Scheduled(vec![
        Tranche { share: Fraction { numerator: 1, denominator: 2 }, height: 1 },
        Tranche { share: Fraction { numerator: 1, denominator: 0 }, height: 2 },
    ]);
    assert_eq!(
        moa(pre(&[1], Some(broken)), None, 0).validate(),
        Some(Flaw::FractionInvalid)
    );
    assert_eq!(moa(pre(&[1], Some(VestingPlan::Timelock(9))), None, 0).validate(), None);
}

#[test]
fn purchases_need_a_well_formed_asset_and_ratio() {
    let fixed = |d| RatioType::Fixed { ratio: Fraction { numerator: 1, denominator: d } };
    assert_eq!(
        moa(purchase(asset(0), fixed(1)), None, 0).validate(),
        Some(Flaw::InvalidBlockTxPointer)
    );
    assert_eq!(moa(purchase(asset(1), fixed(1)), None, 0).validate(), None);
    assert_eq!(
        moa(purchase(InputAsset::RawBtc, fixed(0)), None, 0).validate(),
        Some(Flaw::FractionInvalid)
    );
    assert_eq!(
        moa(purchase(InputAsset::RawBtc, RatioType::Oracle { setting: oracle(vec![]) }), None, 0)
            .validate(),
        Some(Flaw::PubkeyInvalid)
    );
    assert_eq!(
        moa(purchase(InputAsset::RawBtc, RatioType::Oracle { setting: oracle(vec![1; 32]) }), None, 0)
            .validate(),
        None
    );
}

#[test]
fn pools_need_exactly_two_different_assets() {
    for assets in [
        vec![],
        vec![asset(1)],
        vec![asset(1), asset(1)],
        vec![asset(1), asset(2), asset(3)],
    ] {
        assert_eq!(mba(pool(assets), None).validate(), Some(Flaw::InputAssetsInvalid));
    }
    assert_eq!(mba(pool(vec![InputAsset::RawBtc, asset(1)]), None).validate(), None);
}

#[test]
fn accounts_and_returns_need_valid_fractions_and_keys() {
    let account = |den, pubkey: Vec<u8>| Collateralized {
        input_assets: vec![asset(1)],
        mutable_assets: false,
        mint_structure: MintStructure::Account(AccountType {
            max_ltv: Fraction { numerator: 7, denominator: den },
            ratio: RatioType::Oracle { setting: oracle(pubkey) },
        }),
    };
    assert_eq!(mba(account(10, vec![1; 32]), None).validate(), None);
    assert_eq!(mba(account(0, vec![1; 32]), None).validate(), Some(Flaw::FractionInvalid));
    assert_eq!(mba(account(10, vec![]), None).validate(), Some(Flaw::PubkeyInvalid));
    let rc = |fee: Option<Fraction>, key: Option<Vec<u8>>| {
        Some(ReturnCollateral { fee, oracle_setting: key.map(oracle) })
    };
    assert_eq!(
        mba(account(10, vec![1; 32]), rc(Some(Fraction { numerator: 1, denominator: 0 }), None))
            .validate(),
        Some(Flaw::FractionInvalid)
    );
    assert_eq!(
        mba(account(10, vec![1; 32]), rc(None, Some(vec![]))).validate(),
        Some(Flaw::PubkeyInvalid)
    );
    assert_eq!(mba(account(10, vec![1; 32]), rc(None, Some(vec![9; 32]))).validate(), None);
}

#[test]
fn the_asset_of_a_non_fungible_contract_has_a_greatest_size() {
    let nft = |len: usize| OpReturnMessage {
        transfer: None,
        contract_creation: Some(ContractCreation {
            contract_type: ContractType::Nft(NftAssetContract {
                supply_cap: None,
                live_time: 0,
                end_time: None,
                asset: vec![0; len],
                metadata: vec![],
                whitelist_address_bloom_filter: None,
                access_key_pointer: None,
            }),
            spec: None,
        }),
        contract_call: None,
    };
    assert_eq!(nft(1024).validate(), None);
    assert_eq!(nft(1025).validate(), Some(Flaw::AssetTooLarge));
}

#[test]
fn templates_are_checked_for_their_shape() {
    let spec = |template| OpReturnMessage {
        transfer: None,
        contract_creation: Some(ContractCreation {
            contract_type: ContractType::Spec(SpecContract {
                spec: template,
                block_tx: None,
                pointer: None,
            }),
            spec: None,
        }),
        contract_call: None,
    };
    let burn_asset = |assets| {
        SpecContractType::MintBurnAsset(MintBurnAssetSpec {
            input_assets: assets,
            mint_structure: None,
        })
    };
    assert_eq!(spec(burn_asset(None)).validate(), None);
    assert_eq!(spec(burn_asset(Some(vec![asset(1)]))).validate(), None);
    assert_eq!(spec(burn_asset(Some(vec![]))).validate(), Some(Flaw::InputAssetsInvalid));
    let only_asset = |a| {
        SpecContractType::MintOnlyAsset(MintOnlyAssetSpec { input_asset: a, peg_in_type: None })
    };
    assert_eq!(spec(only_asset(Some(asset(0)))).validate(), Some(Flaw::InvalidBlockTxPointer));
    assert_eq!(spec(only_asset(Some(asset(3)))).validate(), None);
}

#[test]
fn calls_have_no_shape_to_check() {
    let call = CallType::Mint(MintBurnOption {
        pointer: None,
        oracle_message: None,
        pointer_to_key: None,
        assert_values: None,
        commitment_message: None,
    });
    assert_eq!(call.validate(), None);
    let message = OpReturnMessage {
        transfer: None,
        contract_creation: None,
        contract_call: Some(ContractCall { contract: None, call_type: call }),
    };
    assert_eq!(message.validate(), None);
}
