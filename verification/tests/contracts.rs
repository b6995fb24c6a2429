use glittr_core::api::{ContractInfo, MintType};
use glittr_core::flaw::Flaw;
use glittr_core::store::database::Database;
use glittr_core::transaction::message::{
    CallType, CloseAccountOption, CommitmentMessage, ContractCall, ContractCreation,
    ContractType, MintBurnOption, OpReturnMessage, OpenAccountOption, OracleMessage,
    OracleMessageSigned, UpdateNftOption,
};
use glittr_core::transaction::mint_burn_asset::{
    AccountType, BurnMechanisms, Collateralized, MBAMintMechanisms, MintBurnAssetContract,
    MintStructure, ReturnCollateral, SwapMechanisms,
};
use glittr_core::transaction::mint_only_asset::{MOAMintMechanisms, MintOnlyAssetContract};
use glittr_core::transaction::nft::NftAssetContract;
use glittr_core::transaction::shared::{
    FreeMint, InputAsset, OracleSetting, Preallocated, PreallocatedShare, PurchaseBurnSwap,
    RatioType, Tranche, TransferScheme, VestingPlan,
};
use glittr_core::transaction::spec_contract::{
    MintOnlyAssetSpec, PegInType, SpecContract, SpecContractType,
};
use glittr_core::transaction::{Transaction, TxOut};
use glittr_core::types::{BlockTx, Fraction, Outpoint, Txid, U128};
use glittr_core::updater::Updater;

fn txid(n: u128) -> Txid {
    Txid { hi: 1, lo: n }
}

fn out(id: u128, vout: u32) -> Outpoint {
    Outpoint { txid: txid(id), vout }
}

fn spendable() -> TxOut {
    let mut script = vec![0x76, 0xa9, 0x14];
    script.extend_from_slice(&[0x33; 20]);
    script.extend_from_slice(&[0x88, 0xac]);
    TxOut { value: 546, script_pubkey: script }
}

fn carrier() -> TxOut {
    TxOut { value: 0, script_pubkey: OpReturnMessage::into_script(&b"{}".to_vec()) }
}

/// A transaction with two outputs that can be spent and a carrier.
fn tx(id: u128, inputs: Vec<Outpoint>) -> Transaction {
    Transaction {
        txid: txid(id),
        input: inputs,
        output: vec![spendable(), spendable(), carrier()],
    }
}

fn creation(contract_type: ContractType, spec: Option<BlockTx>) -> OpReturnMessage {
    OpReturnMessage {
        transfer: None,
        contract_creation: Some(ContractCreation { contract_type, spec }),
        contract_call: None,
    }
}

fn call(contract: BlockTx, call_type: CallType) -> OpReturnMessage {
    OpReturnMessage {
        transfer: None,
        contract_creation: None,
        contract_call: Some(ContractCall { contract: Some(contract), call_type }),
    }
}

fn moa(mechanism: MOAMintMechanisms, ticker: Option<&str>) -> ContractType {
    ContractType::Moa(MintOnlyAssetContract {
        ticker: ticker.map(|t| t.to_string()),
        supply_cap: Some(U128(1_000_000)),
        divisibility: 2,
        live_time: 0,
        end_time: None,
        mint_mechanism: mechanism,
        commitment: None,
    })
}

fn free_mint(per_mint: u128) -> MOAMintMechanisms {
    MOAMintMechanisms {
        preallocated: None,
        free_mint: Some(FreeMint { supply_cap: None, amount_per_mint: U128(per_mint) }),
        purchase: None,
    }
}

fn mba(structure: MintStructure, assets: Vec<InputAsset>, setting: Option<OracleSetting>) -> ContractType {
    ContractType::Mba(MintBurnAssetContract {
        ticker: Some("LOAN".to_string()),
        supply_cap: None,
        divisibility: 0,
        live_time: 0,
        end_time: None,
        mint_mechanism: MBAMintMechanisms {
            preallocated: None,
            free_mint: None,
            purchase: None,
            collateralized: Some(Collateralized {
                input_assets: assets,
                mutable_assets: false,
                mint_structure: structure,
            }),
        },
        burn_mechanism: BurnMechanisms {
            return_collateral: Some(ReturnCollateral { fee: None, oracle_setting: setting }),
        },
        swap_mechanism: SwapMechanisms { fee: None },
        commitment: None,
    })
}

fn option(pointer: Option<u32>, key: Option<u32>, signed: Option<OracleMessageSigned>) -> MintBurnOption {
    MintBurnOption {
        pointer,
        oracle_message: signed,
        pointer_to_key: key,
        assert_values: None,
        commitment_message: None,
    }
}

fn mint(contract: BlockTx, pointer: u32) -> OpReturnMessage {
    call(contract, CallType::Mint(option(Some(pointer), None, None)))
}

const SECRET: [u8; 32] = [9; 32];

fn oracle_key() -> Vec<u8> {
    let secp = bitcoin::secp256k1::Secp256k1::new();
    let keypair = bitcoin::secp256k1::Keypair::from_seckey_slice(&secp, &SECRET).unwrap();
    keypair.x_only_public_key().0.serialize().to_vec()
}

fn signed(message: OracleMessage) -> OracleMessageSigned {
    let payload = message.canonical_bytes();
    let secp = bitcoin::secp256k1::Secp256k1::new();
    let keypair = bitcoin::secp256k1::Keypair::from_seckey_slice(&secp, &SECRET).unwrap();
    let hash = <bitcoin::hashes::sha256::Hash as bitcoin::hashes::Hash>::hash(&payload);
    let digest = bitcoin::hashes::Hash::to_byte_array(hash);
    let to_sign = bitcoin::secp256k1::Message::from_digest_slice(&digest).unwrap();
    let signature = secp.sign_schnorr_no_aux_rand(&to_sign, &keypair).serialize().to_vec();
    OracleMessageSigned { signature, message }
}

fn setting() -> OracleSetting {
    OracleSetting { pubkey: oracle_key(), asset_id: None, max_staleness: 1000 }
}

fn valuation(
    from: Option<Outpoint>,
    ltv: Option<(u128, u128)>,
    outstanding: Option<u128>,
    out_value: Option<u128>,
) -> OracleMessage {
    OracleMessage {
        input_outpoint: from,
        min_in_value: None,
        out_value: out_value.map(U128),
        asset_id: None,
        ratio: None,
        ltv: ltv.map(|(n, d)| Fraction { numerator: n, denominator: d }),
        outstanding: outstanding.map(U128),
        block_height: 10,
    }
}

fn balance(u: &Updater, outpoint: Outpoint, contract: BlockTx) -> u128 {
    u.get_asset_list(&outpoint).amount(&contract)
}

fn held_by(u: &Updater, pool: BlockTx, asset: BlockTx) -> u128 {
    match u.get_collateralized_contract_data(&pool) {
        Ok(data) => data.amounts.amount(&asset),
        Err(_) => 0,
    }
}

const A: BlockTx = BlockTx { block: 1, tx: 1 };
const LOAN: BlockTx = BlockTx { block: 1, tx: 2 };

fn with_asset() -> Updater {
    let mut u = Updater::new(Database::new(), false);
    assert_eq!(u.index_transaction(1, 1, &tx(1, vec![]), Some(creation(moa(free_mint(1000), Some("AAA")), None))), None);
    u
}

fn with_account_contract() -> Updater {
    let mut u = with_asset();
    let structure = MintStructure::Account(AccountType {
        max_ltv: Fraction { numerator: 7, denominator: 10 },
        ratio: RatioType::Oracle { setting: setting() },
    });
    let contract = mba(structure, vec![InputAsset::GlittrAsset(A)], Some(setting()));
    assert_eq!(u.index_transaction(1, 2, &tx(2, vec![]), Some(creation(contract, None))), None);
    assert_eq!(u.index_transaction(2, 1, &tx(10, vec![]), Some(mint(A, 0))), None);
    u
}

#[test]
fn the_life_of_a_collateral_account() {
    let mut u = with_account_contract();
    let open = call(LOAN, CallType::OpenAccount(OpenAccountOption {
        pointer_to_key: 1,
        share_amount: U128(1000),
    }));
    assert_eq!(u.index_transaction(3, 1, &tx(11, vec![out(10, 0)]), Some(open)), None);
    assert_eq!(held_by(&u, LOAN, A), 1000);
    assert_eq!(balance(&u, out(11, 0), A), 0);
    assert_eq!(balance(&u, out(11, 1), A), 0);
    {
        let account = u.database.outpoints.get(&out(11, 1)).unwrap().collateral_accounts.get(&LOAN).unwrap();
        assert_eq!(account.collateral_amounts, vec![(A, 1000)]);
        assert_eq!(account.total_collateral_amount, 1000);
        assert_eq!(account.share_amount, 1000);
        assert_eq!(account.amount_outstanding, 0);
        assert_eq!(account.ltv, Fraction { numerator: 0, denominator: 1 });
    }
    assert_eq!(u.get_state_keys(&out(11, 1)), vec![LOAN]);

    let borrow = call(LOAN, CallType::Mint(option(
        Some(0),
        Some(1),
        Some(signed(valuation(Some(out(11, 1)), Some((1, 2)), Some(500), Some(500)))),
    )));
    assert_eq!(u.index_transaction(10, 1, &tx(12, vec![out(11, 1)]), Some(borrow)), None);
    assert_eq!(balance(&u, out(12, 0), LOAN), 500);
    assert_eq!(u.get_asset_contract_data(&LOAN).minted_supply, 500);
    {
        let account = u.database.outpoints.get(&out(12, 1)).unwrap().collateral_accounts.get(&LOAN).unwrap();
        assert_eq!(account.ltv, Fraction { numerator: 1, denominator: 2 });
        assert_eq!(account.amount_outstanding, 500);
        assert!(account.amount_outstanding * account.ltv.denominator <= account.total_collateral_amount * account.ltv.numerator);
    }
    assert!(u.database.outpoints.get(&out(11, 1)).is_none());

    let close_early = call(LOAN, CallType::CloseAccount(CloseAccountOption { pointer: 0 }));
    assert_eq!(
        u.validate_tx(10, &tx(99, vec![out(12, 1)]), Some(close_early)),
        Some(Flaw::OutstandingNotCleared)
    );

    let repay = call(LOAN, CallType::Burn(option(
        None,
        Some(0),
        Some(signed(valuation(Some(out(12, 1)), Some((1, 2)), Some(100), Some(400)))),
    )));
    assert_eq!(
        u.index_transaction(10, 2, &tx(13, vec![out(12, 0), out(12, 1)]), Some(repay)),
        None
    );
    assert_eq!(u.get_asset_contract_data(&LOAN).burned_supply, 400);
    assert_eq!(balance(&u, out(13, 0), LOAN), 100);
    {
        let account = u.database.outpoints.get(&out(13, 0)).unwrap().collateral_accounts.get(&LOAN).unwrap();
        assert_eq!(account.amount_outstanding, 100);
    }

    let settle = call(LOAN, CallType::Burn(option(
        Some(1),
        Some(0),
        Some(signed(valuation(Some(out(13, 0)), Some((1, 2)), Some(0), Some(60)))),
    )));
    assert_eq!(u.index_transaction(10, 3, &tx(14, vec![out(13, 0)]), Some(settle)), None);
    assert_eq!(u.get_asset_contract_data(&LOAN).burned_supply, 460);
    assert_eq!(balance(&u, out(14, 1), LOAN), 40);

    let close = call(LOAN, CallType::CloseAccount(CloseAccountOption { pointer: 1 }));
    assert_eq!(u.index_transaction(11, 1, &tx(15, vec![out(14, 0)]), Some(close)), None);
    assert_eq!(balance(&u, out(15, 1), A), 1000);
    assert_eq!(held_by(&u, LOAN, A), 0);
    assert!(u.database.outpoints.get(&out(15, 0)).is_none());
    assert_eq!(u.get_state_keys(&out(15, 1)), vec![]);
}

#[test]
fn account_calls_that_fail() {
    let mut u = with_account_contract();
    let open = |key| {
        call(LOAN, CallType::OpenAccount(OpenAccountOption {
            pointer_to_key: key,
            share_amount: U128(1),
        }))
    };
    assert_eq!(
        u.validate_tx(3, &tx(11, vec![]), Some(open(0))),
        Some(Flaw::InsufficientInputAmount)
    );
    assert_eq!(
        u.validate_tx(3, &tx(11, vec![out(10, 0)]), Some(open(2))),
        Some(Flaw::InvalidPointer)
    );
    assert_eq!(
        u.validate_tx(3, &tx(11, vec![out(10, 0)]), Some(open(3))),
        Some(Flaw::PointerOverflow)
    );
    assert_eq!(
        u.validate_tx(3, &tx(11, vec![out(10, 0)]), Some(call(A, CallType::OpenAccount(OpenAccountOption { pointer_to_key: 0, share_amount: U128(1) })))),
        Some(Flaw::ContractNotMatch)
    );
    assert_eq!(u.index_transaction(3, 1, &tx(11, vec![out(10, 0)]), Some(open(0))), None);
    let burn = |key, message: Option<OracleMessage>| {
        call(LOAN, CallType::Burn(option(Some(1), key, message.map(signed))))
    };
    assert_eq!(u.index_transaction(3, 2, &tx(20, vec![]), Some(mint(A, 0))), None);
    let from = Some(out(11, 0));
    let cases = [
        (burn(Some(0), None), Flaw::InsufficientInputAmount, vec![out(11, 0)]),
    ];
    for (message, flaw, inputs) in cases {
        assert_eq!(u.validate_tx(10, &tx(30, inputs), Some(message)), Some(flaw));
    }
    let borrow = call(LOAN, CallType::Mint(option(
        Some(0),
        Some(1),
        Some(signed(valuation(from, Some((1, 2)), Some(500), Some(500)))),
    )));
    assert_eq!(u.index_transaction(10, 1, &tx(12, vec![out(11, 0)]), Some(borrow)), None);
    let both = vec![out(12, 0), out(12, 1)];
    let from = Some(out(12, 1));
    let cases = [
        (burn(Some(0), None), Flaw::OracleMintFailed, both.clone()),
        (burn(Some(0), Some(valuation(Some(out(12, 0)), Some((1, 2)), Some(0), Some(1)))), Flaw::OracleMintFailed, both.clone()),
        (burn(Some(0), Some(valuation(from, None, Some(0), Some(1)))), Flaw::LtvMustBeUpdated, both.clone()),
        (burn(Some(0), Some(valuation(from, Some((1, 2)), None, Some(1)))), Flaw::OutstandingMustBeUpdated, both.clone()),
        (burn(Some(0), Some(valuation(from, Some((1, 2)), Some(0), None))), Flaw::OutValueNotFound, both.clone()),
        (burn(Some(0), Some(valuation(from, Some((1, 2)), Some(0), Some(501)))), Flaw::BurnValueIncorrect, both.clone()),
        (burn(None, Some(valuation(from, Some((1, 2)), Some(0), Some(500)))), Flaw::PointerKeyNotFound, both.clone()),
        (burn(Some(0), Some(valuation(from, Some((1, 2)), Some(0), Some(500)))), Flaw::CollateralAccountNotFound, vec![out(12, 0)]),
    ];
    for (message, flaw, inputs) in cases {
        assert_eq!(u.validate_tx(10, &tx(30, inputs), Some(message)), Some(flaw));
    }
    assert_eq!(u.get_asset_contract_data(&LOAN).burned_supply, 0);
    assert_eq!(balance(&u, out(12, 0), LOAN), 500);
}

#[test]
fn vesting_releases_what_was_set_aside_step_by_step() {
    let recipient = vec![5u8; 33];
    let plan = VestingPlan::Scheduled(vec![
        Tranche { share: Fraction { numerator: 1, denominator: 4 }, height: 10 },
        Tranche { share: Fraction { numerator: 3, denominator: 4 }, height: 20 },
    ]);
    let mechanism = MOAMintMechanisms {
        preallocated: Some(Preallocated {
            allocations: vec![
                PreallocatedShare { recipient: recipient.clone(), amount: U128(600) },
                PreallocatedShare { recipient: vec![6u8; 33], amount: U128(50) },
                PreallocatedShare { recipient: recipient.clone(), amount: U128(400) },
            ],
            vesting_plan: Some(plan),
            oracle_setting: setting(),
        }),
        free_mint: None,
        purchase: None,
    };
    let mut u = Updater::new(Database::new(), false);
    let contract = BlockTx { block: 1, tx: 1 };
    assert_eq!(u.index_transaction(1, 1, &tx(1, vec![]), Some(creation(moa(mechanism, None), None))), None);
    let claim = |who: &Vec<u8>, with_oracle: bool| {
        call(contract, CallType::Mint(MintBurnOption {
            pointer: Some(0),
            oracle_message: if with_oracle { Some(signed(valuation(None, None, None, None))) } else { None },
            pointer_to_key: None,
            assert_values: None,
            commitment_message: Some(CommitmentMessage { public_key: who.clone(), args: vec![] }),
        }))
    };
    assert_eq!(
        u.index_transaction(5, 1, &tx(2, vec![]), Some(claim(&recipient, true))),
        Some(Flaw::InsufficientOutputAmount)
    );
    assert_eq!(
        u.index_transaction(5, 2, &tx(3, vec![]), Some(claim(&recipient, false))),
        Some(Flaw::OracleMintFailed)
    );
    assert_eq!(u.index_transaction(10, 1, &tx(4, vec![]), Some(claim(&recipient, true))), None);
    assert_eq!(balance(&u, out(4, 0), contract), 250);
    assert_eq!(u.claimed(&contract, &recipient), 250);
    assert_eq!(
        u.index_transaction(15, 1, &tx(5, vec![]), Some(claim(&recipient, true))),
        Some(Flaw::InsufficientOutputAmount)
    );
    assert_eq!(u.index_transaction(20, 1, &tx(6, vec![]), Some(claim(&recipient, true))), None);
    assert_eq!(balance(&u, out(6, 0), contract), 750);
    assert_eq!(u.claimed(&contract, &recipient), 1000);
    assert_eq!(u.get_asset_contract_data(&contract).minted_supply, 1000);
    assert_eq!(
        u.index_transaction(30, 1, &tx(7, vec![]), Some(claim(&recipient, true))),
        Some(Flaw::InsufficientOutputAmount)
    );
    assert_eq!(
        u.index_transaction(30, 2, &tx(8, vec![]), Some(claim(&vec![7u8; 33], true))),
        Some(Flaw::InsufficientOutputAmount)
    );
    assert_eq!(u.index_transaction(30, 3, &tx(9, vec![]), Some(claim(&vec![6u8; 33], true))), None);
    assert_eq!(balance(&u, out(9, 0), contract), 12 + 37);
    let data = u.get_vesting_contract_data(&contract).unwrap();
    assert_eq!(data.claimed_allocations.get(&recipient), Some(&1000));
}

#[test]
fn minting_and_burning_against_collateral_at_a_fixed_ratio() {
    let mut u = with_asset();
    let structure = MintStructure::Ratio(RatioType::Fixed {
        ratio: Fraction { numerator: 2, denominator: 1 },
    });
    let contract = mba(structure, vec![InputAsset::GlittrAsset(A)], None);
    assert_eq!(u.index_transaction(1, 2, &tx(2, vec![]), Some(creation(contract, None))), None);
    assert_eq!(
        u.index_transaction(2, 1, &tx(9, vec![]), Some(mint(LOAN, 0))),
        Some(Flaw::InsufficientInputAmount)
    );
    assert_eq!(u.index_transaction(2, 2, &tx(10, vec![]), Some(mint(A, 0))), None);
    assert_eq!(u.index_transaction(3, 1, &tx(11, vec![out(10, 0)]), Some(mint(LOAN, 1))), None);
    assert_eq!(balance(&u, out(11, 1), LOAN), 2000);
    assert_eq!(balance(&u, out(11, 0), A), 0);
    assert_eq!(held_by(&u, LOAN, A), 1000);
    let burn = call(LOAN, CallType::Burn(option(Some(0), None, None)));
    assert_eq!(u.index_transaction(4, 1, &tx(12, vec![out(11, 1)]), Some(burn)), None);
    assert_eq!(balance(&u, out(12, 0), A), 1000);
    assert_eq!(balance(&u, out(12, 0), LOAN), 0);
    assert_eq!(held_by(&u, LOAN, A), 0);
    let data = u.get_asset_contract_data(&LOAN);
    assert_eq!((data.minted_supply, data.burned_supply), (2000, 2000));
}

#[test]
fn a_purchase_paid_in_an_asset_burns_the_payment() {
    let mut u = with_asset();
    let mechanism = MOAMintMechanisms {
        preallocated: None,
        free_mint: None,
        purchase: Some(PurchaseBurnSwap {
            input_asset: InputAsset::GlittrAsset(A),
            transfer_scheme: TransferScheme::Burn,
            ratio: RatioType::Fixed { ratio: Fraction { numerator: 1, denominator: 3 } },
        }),
    };
    let bought = BlockTx { block: 1, tx: 2 };
    assert_eq!(u.index_transaction(1, 2, &tx(2, vec![]), Some(creation(moa(mechanism, None), None))), None);
    assert_eq!(u.index_transaction(2, 1, &tx(10, vec![]), Some(mint(A, 0))), None);
    assert_eq!(u.index_transaction(3, 1, &tx(11, vec![out(10, 0)]), Some(mint(bought, 1))), None);
    assert_eq!(balance(&u, out(11, 1), bought), 333);
    assert_eq!(balance(&u, out(11, 0), A), 0);
    let a = u.get_asset_contract_data(&A);
    assert_eq!((a.minted_supply, a.burned_supply), (1000, 1000));
}

#[test]
fn a_purchase_that_refers_to_a_flawed_transaction_fails() {
    let mut u = with_asset();
    let refers = |to| {
        creation(
            moa(
                MOAMintMechanisms {
                    preallocated: None,
                    free_mint: None,
                    purchase: Some(PurchaseBurnSwap {
                        input_asset: InputAsset::GlittrAsset(to),
                        transfer_scheme: TransferScheme::Burn,
                        ratio: RatioType::Fixed { ratio: Fraction { numerator: 1, denominator: 1 } },
                    }),
                },
                None,
            ),
            None,
        )
    };
    assert_eq!(
        u.index_transaction(2, 1, &tx(2, vec![]), Some(refers(BlockTx { block: 9, tx: 9 }))),
        Some(Flaw::ReferencingFlawedBlockTx)
    );
    assert_eq!(
        u.index_transaction(2, 2, &tx(3, vec![]), Some(refers(BlockTx { block: 2, tx: 1 }))),
        Some(Flaw::ReferencingFlawedBlockTx)
    );
    assert_eq!(u.index_transaction(2, 3, &tx(4, vec![]), Some(refers(A))), None);
}

#[test]
fn a_ticker_is_taken_once() {
    let mut u = with_asset();
    assert_eq!(
        u.index_transaction(2, 1, &tx(2, vec![]), Some(creation(moa(free_mint(1), Some("AAA")), None))),
        Some(Flaw::TickerAlreadyExists)
    );
    assert_eq!(u.get_contract_block_tx_by_ticker(&"AAA".to_string()), Some(A));
    assert_eq!(
        u.index_transaction(2, 2, &tx(3, vec![]), Some(creation(moa(free_mint(1), Some("BBB")), None))),
        None
    );
    assert_eq!(
        u.get_contract_block_tx_by_ticker(&"BBB".to_string()),
        Some(BlockTx { block: 2, tx: 2 })
    );
    assert!(u.get_block_tx_by_ticker(&"BBB".to_string()).unwrap().flaw.is_none());
    assert!(u.get_block_tx_by_ticker(&"CCC".to_string()).is_none());
}

fn template(asset: Option<InputAsset>, peg: Option<PegInType>, update: Option<BlockTx>) -> OpReturnMessage {
    creation(
        ContractType::Spec(SpecContract {
            spec: SpecContractType::MintOnlyAsset(MintOnlyAssetSpec {
                input_asset: asset,
                peg_in_type: peg,
            }),
            block_tx: update,
            pointer: None,
        }),
        None,
    )
}

fn bought_with(input_asset: InputAsset, spec: Option<BlockTx>) -> OpReturnMessage {
    creation(
        moa(
            MOAMintMechanisms {
                preallocated: None,
                free_mint: None,
                purchase: Some(PurchaseBurnSwap {
                    input_asset,
                    transfer_scheme: TransferScheme::Burn,
                    ratio: RatioType::Fixed { ratio: Fraction { numerator: 1, denominator: 1 } },
                }),
            },
            None,
        ),
        spec,
    )
}

#[test]
fn contracts_made_from_a_template_must_conform_and_own_it() {
    let mut u = Updater::new(Database::new(), false);
    let spec = BlockTx { block: 1, tx: 1 };
    assert_eq!(
        u.index_transaction(1, 1, &tx(1, vec![]), Some(template(Some(InputAsset::RawBtc), Some(PegInType::Burn), None))),
        None
    );
    assert_eq!(u.database.outpoints.get(&out(1, 0)).unwrap().spec_owned.specs, vec![spec]);
    assert_eq!(
        u.validate_tx(2, &tx(2, vec![]), Some(bought_with(InputAsset::RawBtc, Some(spec)))),
        Some(Flaw::SpecNotOwned)
    );
    assert_eq!(
        u.validate_tx(2, &tx(2, vec![out(1, 0)]), Some(creation(moa(free_mint(1), None), Some(spec)))),
        Some(Flaw::SpecContractViolation)
    );
    assert_eq!(
        u.validate_tx(2, &tx(2, vec![out(1, 0)]), Some(bought_with(InputAsset::Metaprotocol, Some(spec)))),
        Some(Flaw::SpecContractViolation)
    );
    assert_eq!(
        u.validate_tx(2, &tx(2, vec![out(1, 0)]), Some(bought_with(InputAsset::RawBtc, Some(BlockTx { block: 8, tx: 8 })))),
        Some(Flaw::ContractNotFound)
    );
    assert_eq!(
        u.index_transaction(2, 1, &tx(2, vec![out(1, 0)]), Some(bought_with(InputAsset::RawBtc, Some(spec)))),
        None
    );
    assert_eq!(u.database.outpoints.get(&out(2, 0)).unwrap().spec_owned.specs, vec![spec]);
    assert!(u.database.outpoints.get(&out(1, 0)).is_none());

    assert_eq!(
        u.validate_tx(3, &tx(3, vec![]), Some(template(Some(InputAsset::Metaprotocol), None, Some(spec)))),
        Some(Flaw::SpecNotOwned)
    );
    assert_eq!(
        u.index_transaction(3, 1, &tx(3, vec![out(2, 0)]), Some(template(Some(InputAsset::Metaprotocol), None, Some(spec)))),
        None
    );
    assert_eq!(u.latest_of(&spec), BlockTx { block: 3, tx: 1 });
    assert_eq!(
        u.validate_tx(4, &tx(4, vec![out(3, 0)]), Some(bought_with(InputAsset::RawBtc, Some(spec)))),
        Some(Flaw::SpecContractViolation)
    );
    assert_eq!(
        u.validate_tx(4, &tx(4, vec![out(3, 0)]), Some(bought_with(InputAsset::Metaprotocol, Some(spec)))),
        None
    );
}

fn nft(key: Option<u64>) -> OpReturnMessage {
    creation(
        ContractType::Nft(NftAssetContract {
            supply_cap: Some(U128(1)),
            live_time: 0,
            end_time: None,
            asset: vec![1, 2, 3],
            metadata: vec![],
            whitelist_address_bloom_filter: None,
            access_key_pointer: key,
        }),
        None,
    )
}

#[test]
fn the_state_key_of_a_non_fungible_contract_follows_its_pointer() {
    let mut u = Updater::new(Database::new(), false);
    let id = BlockTx { block: 1, tx: 1 };
    assert_eq!(u.validate_tx(1, &tx(1, vec![]), Some(nft(Some(2)))), Some(Flaw::InvalidPointer));
    assert_eq!(u.validate_tx(1, &tx(1, vec![]), Some(nft(Some(1 << 40)))), Some(Flaw::PointerOverflow));
    assert_eq!(u.index_transaction(1, 1, &tx(1, vec![]), Some(nft(Some(1)))), None);
    assert_eq!(u.get_state_keys(&out(1, 1)), vec![id]);
    let update = |key| {
        call(id, CallType::UpdateNft(UpdateNftOption {
            whitelist_address_bloom_filter: Some(vec![7]),
            trusted_marketplace_fee_addresses: None,
            access_key_pointer: key,
        }))
    };
    assert_eq!(u.validate_tx(2, &tx(2, vec![]), Some(update(Some(0)))), Some(Flaw::StateKeyNotFound));
    assert_eq!(
        u.validate_tx(2, &tx(2, vec![out(1, 1)]), Some(call(BlockTx { block: 5, tx: 5 }, CallType::UpdateNft(UpdateNftOption { whitelist_address_bloom_filter: None, trusted_marketplace_fee_addresses: None, access_key_pointer: None })))),
        Some(Flaw::ContractNotFound)
    );
    assert_eq!(u.index_transaction(2, 1, &tx(2, vec![out(1, 1)]), Some(update(Some(0)))), None);
    assert_eq!(u.get_state_keys(&out(2, 0)), vec![id]);
    assert_eq!(u.latest_of(&id), BlockTx { block: 2, tx: 1 });
    assert_eq!(u.index_transaction(3, 1, &tx(3, vec![out(2, 0)]), Some(update(None))), None);
    assert!(u.database.outpoints.get(&out(3, 0)).is_none());
    assert_eq!(u.get_state_keys(&out(3, 0)), vec![]);
    assert_eq!(u.validate_tx(4, &tx(4, vec![]), Some(mint(id, 0))), Some(Flaw::ContractNotMatch));
}

#[test]
fn queries_report_what_the_store_holds() {
    let mut u = with_account_contract();
    assert_eq!(
        u.get_contract_info_by_block_tx(&A),
        Ok(ContractInfo {
            ticker: Some("AAA".to_string()),
            supply_cap: Some(U128(1_000_000)),
            divisibility: Some(2),
            total_supply: U128(1000),
            mint_type: Some(MintType {
                preallocated: None,
                free_mint: Some(true),
                purchase_or_burn: None,
                collateralized: None,
            }),
            asset: None,
        })
    );
    let loan = u.get_contract_info_by_block_tx(&LOAN).unwrap();
    let short = loan.mint_type.unwrap().collateralized.unwrap();
    assert_eq!(short.assets.len(), 1);
    assert_eq!(short.assets[0].contract_id, A);
    assert_eq!(short.assets[0].ticker, Some("AAA".to_string()));
    assert_eq!(short.assets[0].divisibility, 2);
    assert_eq!(
        u.get_contract_info_by_block_tx(&BlockTx { block: 2, tx: 1 }),
        Err(Flaw::ContractNotMatch)
    );
    assert_eq!(
        u.get_contract_info_by_block_tx(&BlockTx { block: 7, tx: 1 }),
        Err(Flaw::ContractNotFound)
    );

    let found = u.tx_result(&txid(10)).unwrap();
    assert_eq!(found.block_tx, BlockTx { block: 2, tx: 1 });
    assert!(found.is_valid);
    assert!(u.tx_result(&txid(77)).is_none());
    assert_eq!(
        u.index_transaction(2, 2, &tx(20, vec![]), Some(mint(BlockTx { block: 7, tx: 1 }, 0))),
        Some(Flaw::ContractNotFound)
    );
    let found = u.tx_result(&txid(20)).unwrap();
    assert!(!found.is_valid);
    assert_eq!(found.outcome.flaw, Some(Flaw::ContractNotFound));
    assert!(u.get_block_tx(&BlockTx { block: 2, tx: 2 }).is_some());
    assert!(u.get_block_tx(&BlockTx { block: 2, tx: 3 }).is_none());

    let report = u.get_assets(&out(10, 0), true);
    assert_eq!(report.assets.amount(&A), 1000);
    assert_eq!(report.state_keys, vec![]);
    assert_eq!(report.contract_info.len(), 1);
    assert_eq!(report.contract_info.get(&A).unwrap().total_supply, U128(1000));
    let report = u.get_assets(&out(10, 0), false);
    assert_eq!(report.assets.amount(&A), 1000);
    assert_eq!(report.contract_info.len(), 0);
    let report = u.get_assets(&out(10, 1), true);
    assert_eq!(report.assets.amount(&A), 0);
    assert_eq!(report.contract_info.len(), 0);

    assert_eq!(u.get_collateralized_contract_data(&LOAN).err(), Some(Flaw::PoolNotFound));
    assert!(u.get_vesting_contract_data(&A).is_none());
    u.finish_block(2);
    assert_eq!(u.database.last_block, Some(2));
}

#[test]
fn validation_of_a_transaction_leaves_the_store_as_it_is() {
    let mut u = with_asset();
    assert_eq!(u.validate_tx(5, &tx(10, vec![]), Some(mint(A, 0))), None);
    assert_eq!(u.get_asset_contract_data(&A).minted_supply, 0);
    assert!(u.database.outpoints.get(&out(10, 0)).is_none());
    assert!(!u.is_read_only);
    assert_eq!(
        u.validate_tx(5, &tx(10, vec![]), Some(mint(A, 2))),
        Some(Flaw::InvalidPointer)
    );
    assert_eq!(u.validate_tx(5, &tx(10, vec![]), None), Some(Flaw::FailedDeserialization));
    assert_eq!(u.index_transaction(5, 1, &tx(10, vec![]), Some(mint(A, 0))), None);
    assert_eq!(u.get_asset_contract_data(&A).minted_supply, 1000);
}
