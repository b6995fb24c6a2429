use glittr_core::flaw::{Flaw, Positions};
use glittr_core::store::database::Database;
use glittr_core::transaction::message::{
    AssertValues, CallType, ContractCall, ContractCreation, ContractType, MintBurnOption,
    OpReturnMessage, OracleMessage, OracleMessageSigned, SwapOption, Transfer, TxTypeTransfer,
};
use glittr_core::transaction::mint_burn_asset::{
    BurnMechanisms, Collateralized, MBAMintMechanisms, MintBurnAssetContract, MintStructure,
    ProportionalType, RatioModel, ReturnCollateral, SwapMechanisms,
};
use glittr_core::transaction::mint_only_asset::{MOAMintMechanisms, MintOnlyAssetContract};
use glittr_core::transaction::shared::{
    FreeMint, InputAsset, OracleSetting, PurchaseBurnSwap, RatioType, TransferScheme,
};
use glittr_core::transaction::{Transaction, TxOut};
use glittr_core::types::{BlockTx, Fraction, Outpoint, Txid, U128};
use glittr_core::updater::{AssetContractData, Updater};

fn txid(n: u128) -> Txid {
    Txid { hi: 7, lo: n }
}

fn spendable() -> TxOut {
    let mut script = vec![0x76, 0xa9, 0x14];
    script.extend_from_slice(&[0x11; 20]);
    script.extend_from_slice(&[0x88, 0xac]);
    TxOut { value: 546, script_pubkey: script }
}

fn carrier() -> TxOut {
    TxOut { value: 0, script_pubkey: OpReturnMessage::into_script(&b"{}".to_vec()) }
}

fn tx(id: u128, inputs: Vec<Outpoint>, outputs: Vec<TxOut>) -> Transaction {
    Transaction { txid: txid(id), input: inputs, output: outputs }
}

fn out(id: u128, vout: u32) -> Outpoint {
    Outpoint { txid: txid(id), vout }
}

fn free_mint_contract(cap: u128, per_mint: u128) -> OpReturnMessage {
    OpReturnMessage {
        transfer: None,
        contract_creation: Some(ContractCreation {
            contract_type: ContractType::Moa(MintOnlyAssetContract {
                ticker: None,
                supply_cap: Some(U128(cap)),
                divisibility: 18,
                live_time: 0,
                end_time: None,
                mint_mechanism: MOAMintMechanisms {
                    preallocated: None,
                    free_mint: Some(FreeMint {
                        supply_cap: Some(U128(cap)),
                        amount_per_mint: U128(per_mint),
                    }),
                    purchase: None,
                },
                commitment: None,
            }),
            spec: None,
        }),
        contract_call: None,
    }
}

fn option(pointer: Option<u32>) -> MintBurnOption {
    MintBurnOption {
        pointer,
        oracle_message: None,
        pointer_to_key: None,
        assert_values: None,
        commitment_message: None,
    }
}

fn mint_call(contract: BlockTx, pointer: u32) -> OpReturnMessage {
    OpReturnMessage {
        transfer: None,
        contract_creation: None,
        contract_call: Some(ContractCall {
            contract: Some(contract),
            call_type: CallType::Mint(option(Some(pointer))),
        }),
    }
}

fn balance(updater: &Updater, outpoint: Outpoint, contract: BlockTx) -> u128 {
    match updater.database.outpoints.get(&outpoint) {
        Some(held) => held.asset_list.amount(&contract),
        None => 0,
    }
}

fn data(updater: &Updater, contract: BlockTx) -> AssetContractData {
    updater.get_asset_contract_data(&contract)
}

fn pool_contract(model: RatioModel, a: BlockTx, b: BlockTx) -> OpReturnMessage {
    OpReturnMessage {
        transfer: None,
        contract_creation: Some(ContractCreation {
            contract_type: ContractType::Mba(MintBurnAssetContract {
                ticker: None,
                supply_cap: None,
                divisibility: 18,
                live_time: 0,
                end_time: None,
                mint_mechanism: MBAMintMechanisms {
                    preallocated: None,
                    free_mint: None,
                    purchase: None,
                    collateralized: Some(Collateralized {
                        input_assets: vec![InputAsset::GlittrAsset(a), InputAsset::GlittrAsset(b)],
                        mutable_assets: false,
                        mint_structure: MintStructure::Proportional(ProportionalType {
                            ratio_model: model,
                        }),
                    }),
                },
                burn_mechanism: BurnMechanisms {
                    return_collateral: Some(ReturnCollateral { fee: None, oracle_setting: None }),
                },
                swap_mechanism: SwapMechanisms { fee: None },
                commitment: None,
            }),
            spec: None,
        }),
        contract_call: None,
    }
}

const A: BlockTx = BlockTx { block: 1, tx: 1 };
const B: BlockTx = BlockTx { block: 1, tx: 2 };
const POOL: BlockTx = BlockTx { block: 1, tx: 3 };

/// A store with the assets `A` and `B`, 1000 of each per mint, and a
/// pool of the two that holds 1000 of each with 1000 shares out. The
/// shares are at output 0 of transaction 13.
fn with_pool(model: RatioModel) -> Updater {
    let mut u = Updater::new(Database::new(), false);
    let make = |id| tx(id, vec![], vec![spendable(), carrier()]);
    assert_eq!(u.index_transaction(1, 1, &make(1), Some(free_mint_contract(1_000_000, 1000))), None);
    assert_eq!(u.index_transaction(1, 2, &make(2), Some(free_mint_contract(1_000_000, 1000))), None);
    assert_eq!(u.index_transaction(1, 3, &make(3), Some(pool_contract(model, A, B))), None);
    assert_eq!(u.index_transaction(2, 1, &make(11), Some(mint_call(A, 0))), None);
    assert_eq!(u.index_transaction(2, 2, &make(12), Some(mint_call(B, 0))), None);
    let deposit = tx(13, vec![out(11, 0), out(12, 0)], vec![spendable(), carrier()]);
    assert_eq!(u.index_transaction(2, 3, &deposit, Some(mint_call(POOL, 0))), None);
    u
}

fn pool_state(u: &Updater) -> (u128, u128, u128) {
    u.pool_amounts(&POOL, &A, &B).unwrap()
}

#[test]
fn free_mint_creation_then_two_mints() {
    let mut u = Updater::new(Database::new(), false);
    let contract = BlockTx { block: 1, tx: 1 };
    let create = tx(1, vec![], vec![spendable(), carrier()]);
    assert_eq!(u.index_transaction(1, 1, &create, Some(free_mint_contract(1000, 10))), None);
    let mint1 = tx(2, vec![], vec![spendable(), carrier()]);
    assert_eq!(u.index_transaction(2, 1, &mint1, Some(mint_call(contract, 0))), None);
    let mint2 = tx(3, vec![out(2, 0)], vec![spendable(), carrier()]);
    assert_eq!(u.index_transaction(3, 1, &mint2, Some(mint_call(contract, 0))), None);
    assert_eq!(data(&u, contract).minted_supply, 20);
    assert_eq!(balance(&u, out(3, 0), contract), 20);
    assert_eq!(balance(&u, out(2, 0), contract), 0);
    for id in [BlockTx { block: 2, tx: 1 }, BlockTx { block: 3, tx: 1 }] {
        let outcome = u.database.messages.get(&id).unwrap();
        assert!(outcome.flaw.is_none());
        assert!(outcome.message.is_some());
    }
}

#[test]
fn supply_cap_tripwire() {
    let mut u = Updater::new(Database::new(), false);
    let contract = BlockTx { block: 1, tx: 1 };
    let create = tx(1, vec![], vec![spendable(), carrier()]);
    assert_eq!(u.index_transaction(1, 1, &create, Some(free_mint_contract(1000, 10))), None);
    for i in 0..100u32 {
        let mint = tx(100 + i as u128, vec![], vec![spendable(), carrier()]);
        assert_eq!(u.index_transaction(2, i + 1, &mint, Some(mint_call(contract, 0))), None);
    }
    assert_eq!(data(&u, contract).minted_supply, 1000);
    let last = tx(999, vec![], vec![spendable(), carrier()]);
    assert_eq!(
        u.index_transaction(3, 1, &last, Some(mint_call(contract, 0))),
        Some(Flaw::SupplyCapExceeded)
    );
    assert_eq!(data(&u, contract).minted_supply, 1000);
    assert_eq!(balance(&u, out(999, 0), contract), 0);
    let outcome = u.database.messages.get(&BlockTx { block: 3, tx: 1 }).unwrap();
    assert_eq!(outcome.flaw, Some(Flaw::SupplyCapExceeded));
}

#[test]
fn transfer_with_one_overflow() {
    let mut u = Updater::new(Database::new(), false);
    let contract = BlockTx { block: 1, tx: 1 };
    let create = tx(1, vec![], vec![spendable(), carrier()]);
    assert_eq!(u.index_transaction(1, 1, &create, Some(free_mint_contract(1000, 50))), None);
    let mint = tx(2, vec![], vec![carrier(), spendable()]);
    assert_eq!(u.index_transaction(2, 1, &mint, Some(mint_call(contract, 1))), None);
    assert_eq!(balance(&u, out(2, 1), contract), 50);
    let message = OpReturnMessage {
        transfer: Some(Transfer {
            transfers: vec![
                TxTypeTransfer { asset: contract, output: 0, amount: U128(30) },
                TxTypeTransfer { asset: contract, output: 99, amount: U128(10) },
            ],
        }),
        contract_creation: None,
        contract_call: None,
    };
    let transfer = tx(3, vec![out(2, 1)], vec![carrier(), spendable()]);
    assert_eq!(
        u.index_transaction(3, 1, &transfer, Some(message)),
        Some(Flaw::OutputOverflow(Positions::of(&vec![1])))
    );
    assert_eq!(balance(&u, out(3, 0), contract), 30);
    assert_eq!(balance(&u, out(3, 1), contract), 20);
    assert_eq!(balance(&u, out(2, 1), contract), 0);
    assert!(u.database.outpoints.get(&out(2, 1)).is_none());
}

#[test]
fn amm_swap_constant_product() {
    let mut u = with_pool(RatioModel::ConstantProduct);
    assert_eq!(pool_state(&u), (1000, 1000, 1000));
    assert_eq!(balance(&u, out(13, 0), POOL), 1000);
    assert_eq!(data(&u, POOL).minted_supply, 1000);
    let mint = tx(21, vec![], vec![spendable(), carrier()]);
    assert_eq!(
        u.index_transaction(3, 1, &mint, Some(mint_call(A, 0))),
        None
    );
    assert_eq!(balance(&u, out(21, 0), A), 1000);
    let split = OpReturnMessage {
        transfer: Some(Transfer {
            transfers: vec![TxTypeTransfer { asset: A, output: 1, amount: U128(100) }],
        }),
        contract_creation: None,
        contract_call: None,
    };
    let splitting = tx(22, vec![out(21, 0)], vec![spendable(), spendable(), carrier()]);
    assert_eq!(u.index_transaction(3, 2, &splitting, Some(split)), None);
    assert_eq!(balance(&u, out(22, 1), A), 100);
    assert_eq!(balance(&u, out(22, 0), A), 900);
    let swap = OpReturnMessage {
        transfer: None,
        contract_creation: None,
        contract_call: Some(ContractCall {
            contract: Some(POOL),
            call_type: CallType::Swap(SwapOption {
                pointer: 0,
                assert_values: Some(AssertValues {
                    input_values: None,
                    total_collateralized: None,
                    min_out_value: Some(U128(90)),
                }),
            }),
        }),
    };
    let swapping = tx(23, vec![out(22, 1)], vec![spendable(), carrier()]);
    assert_eq!(u.index_transaction(4, 1, &swapping, Some(swap)), None);
    assert_eq!(balance(&u, out(23, 0), B), 90);
    assert_eq!(balance(&u, out(23, 0), A), 0);
    assert_eq!(pool_state(&u), (1100, 910, 1000));
    assert!(1100u128 * 910 >= 1_000_000);
}

#[test]
fn swap_below_the_least_accepted_fails() {
    let mut u = with_pool(RatioModel::ConstantProduct);
    let mint = tx(21, vec![], vec![spendable(), carrier()]);
    assert_eq!(u.index_transaction(3, 1, &mint, Some(mint_call(A, 0))), None);
    let swap = OpReturnMessage {
        transfer: None,
        contract_creation: None,
        contract_call: Some(ContractCall {
            contract: Some(POOL),
            call_type: CallType::Swap(SwapOption {
                pointer: 0,
                assert_values: Some(AssertValues {
                    input_values: None,
                    total_collateralized: None,
                    min_out_value: Some(U128(501)),
                }),
            }),
        }),
    };
    let swapping = tx(23, vec![out(21, 0)], vec![spendable(), carrier()]);
    assert_eq!(
        u.index_transaction(4, 1, &swapping, Some(swap)),
        Some(Flaw::InsufficientOutputAmount)
    );
    assert_eq!(pool_state(&u), (1000, 1000, 1000));
    assert_eq!(balance(&u, out(23, 0), A), 1000);
}

#[test]
fn burn_against_proportional_pool() {
    let mut u = with_pool(RatioModel::ConstantProduct);
    let split = OpReturnMessage {
        transfer: Some(Transfer {
            transfers: vec![TxTypeTransfer { asset: POOL, output: 1, amount: U128(100) }],
        }),
        contract_creation: None,
        contract_call: None,
    };
    let splitting = tx(31, vec![out(13, 0)], vec![spendable(), spendable(), carrier()]);
    assert_eq!(u.index_transaction(3, 1, &splitting, Some(split)), None);
    let burn = OpReturnMessage {
        transfer: None,
        contract_creation: None,
        contract_call: Some(ContractCall {
            contract: Some(POOL),
            call_type: CallType::Burn(option(Some(0))),
        }),
    };
    let burning = tx(32, vec![out(31, 1)], vec![spendable(), carrier()]);
    assert_eq!(u.index_transaction(4, 1, &burning, Some(burn)), None);
    assert_eq!(balance(&u, out(32, 0), A), 100);
    assert_eq!(balance(&u, out(32, 0), B), 100);
    assert_eq!(balance(&u, out(32, 0), POOL), 0);
    assert_eq!(pool_state(&u), (900, 900, 900));
    assert_eq!(data(&u, POOL).burned_supply, 100);
    assert_eq!(balance(&u, out(31, 0), POOL), 900);
}

#[test]
fn constant_sum_pool_swaps_one_for_one() {
    let mut u = with_pool(RatioModel::ConstantSum);
    let mint = tx(21, vec![], vec![spendable(), carrier()]);
    assert_eq!(u.index_transaction(3, 1, &mint, Some(mint_call(B, 0))), None);
    let swap = OpReturnMessage {
        transfer: None,
        contract_creation: None,
        contract_call: Some(ContractCall {
            contract: Some(POOL),
            call_type: CallType::Swap(SwapOption { pointer: 0, assert_values: None }),
        }),
    };
    let swapping = tx(23, vec![out(21, 0)], vec![spendable(), carrier()]);
    assert_eq!(u.index_transaction(4, 1, &swapping, Some(swap)), None);
    assert_eq!(balance(&u, out(23, 0), A), 1000);
    assert_eq!(pool_state(&u), (0, 2000, 1000));
}

fn oracle_purchase_contract(max_staleness: u64, pubkey: Vec<u8>) -> OpReturnMessage {
    OpReturnMessage {
        transfer: None,
        contract_creation: Some(ContractCreation {
            contract_type: ContractType::Moa(MintOnlyAssetContract {
                ticker: None,
                supply_cap: None,
                divisibility: 8,
                live_time: 0,
                end_time: None,
                mint_mechanism: MOAMintMechanisms {
                    preallocated: None,
                    free_mint: None,
                    purchase: Some(PurchaseBurnSwap {
                        input_asset: InputAsset::RawBtc,
                        transfer_scheme: TransferScheme::Burn,
                        ratio: RatioType::Oracle {
                            setting: OracleSetting { pubkey, asset_id: None, max_staleness },
                        },
                    }),
                },
                commitment: None,
            }),
            spec: None,
        }),
        contract_call: None,
    }
}

fn oracle_mint(contract: BlockTx, signed: OracleMessageSigned) -> OpReturnMessage {
    OpReturnMessage {
        transfer: None,
        contract_creation: None,
        contract_call: Some(ContractCall {
            contract: Some(contract),
            call_type: CallType::Mint(MintBurnOption {
                pointer: Some(0),
                oracle_message: Some(signed),
                pointer_to_key: None,
                assert_values: None,
                commitment_message: None,
            }),
        }),
    }
}

fn oracle_message(block_height: u64, out_value: u128) -> OracleMessage {
    OracleMessage {
        input_outpoint: None,
        min_in_value: None,
        out_value: Some(U128(out_value)),
        asset_id: None,
        ratio: None,
        ltv: None,
        outstanding: None,
        block_height,
    }
}

fn sign(payload: &[u8], secret: [u8; 32]) -> (Vec<u8>, Vec<u8>) {
    let secp = bitcoin::secp256k1::Secp256k1::new();
    let keypair = bitcoin::secp256k1::Keypair::from_seckey_slice(&secp, &secret).unwrap();
    let hash = <bitcoin::hashes::sha256::Hash as bitcoin::hashes::Hash>::hash(payload);
    let digest = bitcoin::hashes::Hash::to_byte_array(hash);
    let message = bitcoin::secp256k1::Message::from_digest_slice(&digest).unwrap();
    let signature = secp.sign_schnorr_no_aux_rand(&message, &keypair);
    let (key, _) = keypair.x_only_public_key();
    (key.serialize().to_vec(), signature.serialize().to_vec())
}

#[test]
fn oracle_gated_mint_with_stale_message() {
    let payload = oracle_message(100, 5).canonical_bytes();
    assert_eq!(payload, b"{\"block_height\":100,\"out_value\":\"5\"}".to_vec());
    let (pubkey, signature) = sign(&payload, [3; 32]);
    let mut u = Updater::new(Database::new(), false);
    let contract = BlockTx { block: 90, tx: 1 };
    let create = tx(1, vec![], vec![spendable(), carrier()]);
    assert_eq!(u.index_transaction(90, 1, &create, Some(oracle_purchase_contract(10, pubkey))), None);
    let signed = OracleMessageSigned { signature, message: oracle_message(100, 5) };
    let mint = tx(2, vec![], vec![spendable(), carrier()]);
    assert_eq!(
        u.index_transaction(115, 1, &mint, Some(oracle_mint(contract, signed))),
        Some(Flaw::OracleMintStale)
    );
    assert_eq!(data(&u, contract).minted_supply, 0);
    assert_eq!(balance(&u, out(2, 0), contract), 0);
}

#[test]
fn oracle_gated_mint_with_a_valid_signature() {
    let payload = oracle_message(100, 5).canonical_bytes();
    assert_eq!(payload, b"{\"block_height\":100,\"out_value\":\"5\"}".to_vec());
    let (pubkey, signature) = sign(&payload, [3; 32]);
    let mut u = Updater::new(Database::new(), false);
    let contract = BlockTx { block: 90, tx: 1 };
    let create = tx(1, vec![], vec![spendable(), carrier()]);
    assert_eq!(u.index_transaction(90, 1, &create, Some(oracle_purchase_contract(10, pubkey))), None);
    let signed = OracleMessageSigned { signature, message: oracle_message(100, 5) };
    let mint = tx(2, vec![], vec![spendable(), carrier()]);
    assert_eq!(u.index_transaction(110, 1, &mint, Some(oracle_mint(contract, signed))), None);
    assert_eq!(data(&u, contract).minted_supply, 5);
    assert_eq!(balance(&u, out(2, 0), contract), 5);
}

#[test]
fn oracle_gated_mint_with_a_signature_of_other_bytes() {
    let (pubkey, signature) = sign(b"{\"block_height\":100,\"out_value\":\"6\"}", [3; 32]);
    let mut u = Updater::new(Database::new(), false);
    let contract = BlockTx { block: 90, tx: 1 };
    let create = tx(1, vec![], vec![spendable(), carrier()]);
    assert_eq!(u.index_transaction(90, 1, &create, Some(oracle_purchase_contract(10, pubkey))), None);
    let signed = OracleMessageSigned { signature, message: oracle_message(100, 5) };
    let mint = tx(2, vec![], vec![spendable(), carrier()]);
    assert_eq!(
        u.index_transaction(110, 1, &mint, Some(oracle_mint(contract, signed))),
        Some(Flaw::OracleMintFailed)
    );
    assert_eq!(data(&u, contract).minted_supply, 0);
}

#[test]
fn purchase_at_a_fixed_ratio_counts_what_is_paid_to_the_address() {
    let address = "bcrt1qw508d6qejxtdg4y5r3zarvary0c5xw7kygt080".to_string();
    let script = bitcoin::Address::from_script(
        bitcoin::Script::from_bytes(&{
            let mut s = vec![0x00, 0x14];
            s.extend_from_slice(&[
                0x75, 0x1e, 0x76, 0xe8, 0x19, 0x91, 0x96, 0xd4, 0x54, 0x94, 0x1c, 0x45, 0xd1, 0xb3,
                0xa3, 0x23, 0xf1, 0x43, 0x3b, 0xd6,
            ]);
            s
        }),
        bitcoin::Network::Regtest,
    )
    .unwrap();
    assert_eq!(script.to_string(), address);
    let paying = TxOut { value: 1000, script_pubkey: script.script_pubkey().into_bytes() };
    let contract_message = OpReturnMessage {
        transfer: None,
        contract_creation: Some(ContractCreation {
            contract_type: ContractType::Moa(MintOnlyAssetContract {
                ticker: Some("PAID".to_string()),
                supply_cap: None,
                divisibility: 8,
                live_time: 0,
                end_time: None,
                mint_mechanism: MOAMintMechanisms {
                    preallocated: None,
                    free_mint: None,
                    purchase: Some(PurchaseBurnSwap {
                        input_asset: InputAsset::RawBtc,
                        transfer_scheme: TransferScheme::Purchase(address),
                        ratio: RatioType::Fixed {
                            ratio: Fraction { numerator: 3, denominator: 2 },
                        },
                    }),
                },
                commitment: None,
            }),
            spec: None,
        }),
        contract_call: None,
    };
    let mut u = Updater::new(Database::new(), false);
    let contract = BlockTx { block: 1, tx: 1 };
    let create = tx(1, vec![], vec![spendable(), carrier()]);
    assert_eq!(u.index_transaction(1, 1, &create, Some(contract_message)), None);
    assert!(u.database.tickers.get(&"PAID".to_string()).is_some());
    let mint = tx(2, vec![], vec![spendable(), paying, carrier()]);
    assert_eq!(u.index_transaction(2, 1, &mint, Some(mint_call(contract, 0))), None);
    assert_eq!(data(&u, contract).minted_supply, 1500);
    assert_eq!(balance(&u, out(2, 0), contract), 1500);
}

#[test]
fn pointer_boundaries() {
    let mut u = Updater::new(Database::new(), false);
    let contract = BlockTx { block: 1, tx: 1 };
    let create = tx(1, vec![], vec![spendable(), carrier()]);
    assert_eq!(u.index_transaction(1, 1, &create, Some(free_mint_contract(1000, 10))), None);
    let last = tx(2, vec![], vec![carrier(), spendable(), spendable()]);
    assert_eq!(u.index_transaction(2, 1, &last, Some(mint_call(contract, 2))), None);
    assert_eq!(balance(&u, out(2, 2), contract), 10);
    let at_carrier = tx(3, vec![], vec![spendable(), carrier()]);
    assert_eq!(
        u.index_transaction(2, 2, &at_carrier, Some(mint_call(contract, 1))),
        Some(Flaw::InvalidPointer)
    );
    let beyond = tx(4, vec![], vec![spendable(), carrier()]);
    assert_eq!(
        u.index_transaction(2, 3, &beyond, Some(mint_call(contract, 2))),
        Some(Flaw::PointerOverflow)
    );
    assert_eq!(data(&u, contract).minted_supply, 10);
}

#[test]
fn transfer_of_nothing_and_transfer_that_runs_dry() {
    let mut u = Updater::new(Database::new(), false);
    let contract = BlockTx { block: 1, tx: 1 };
    let create = tx(1, vec![], vec![spendable(), carrier()]);
    assert_eq!(u.index_transaction(1, 1, &create, Some(free_mint_contract(1000, 50))), None);
    let mint = tx(2, vec![], vec![spendable(), carrier()]);
    assert_eq!(u.index_transaction(2, 1, &mint, Some(mint_call(contract, 0))), None);
    let message = OpReturnMessage {
        transfer: Some(Transfer {
            transfers: vec![
                TxTypeTransfer { asset: contract, output: 1, amount: U128(0) },
                TxTypeTransfer { asset: contract, output: 2, amount: U128(40) },
                TxTypeTransfer { asset: contract, output: 3, amount: U128(40) },
            ],
        }),
        contract_creation: None,
        contract_call: None,
    };
    let moving = tx(
        3,
        vec![out(2, 0)],
        vec![spendable(), spendable(), spendable(), spendable(), carrier()],
    );
    assert_eq!(u.index_transaction(3, 1, &moving, Some(message)), None);
    assert!(u.database.outpoints.get(&out(3, 1)).is_none());
    assert_eq!(balance(&u, out(3, 2), contract), 40);
    assert_eq!(balance(&u, out(3, 3), contract), 10);
    assert_eq!(balance(&u, out(3, 0), contract), 0);
}

#[test]
fn without_a_spendable_output_the_bucket_is_lost() {
    let mut u = Updater::new(Database::new(), false);
    let contract = BlockTx { block: 1, tx: 1 };
    let create = tx(1, vec![], vec![spendable(), carrier()]);
    assert_eq!(u.index_transaction(1, 1, &create, Some(free_mint_contract(1000, 50))), None);
    let mint = tx(2, vec![], vec![spendable(), carrier()]);
    assert_eq!(u.index_transaction(2, 1, &mint, Some(mint_call(contract, 0))), None);
    let burnt = tx(3, vec![out(2, 0)], vec![carrier()]);
    assert_eq!(
        u.index_transaction(3, 1, &burnt, None),
        Some(Flaw::FailedDeserialization)
    );
    assert_eq!(balance(&u, out(3, 0), contract), 0);
    assert!(u.database.outpoints.get(&out(2, 0)).is_none());
    assert_eq!(data(&u, contract).minted_supply, 50);
}

#[test]
fn a_transaction_without_payload_moves_balances_and_records_nothing() {
    let mut u = Updater::new(Database::new(), false);
    let contract = BlockTx { block: 1, tx: 1 };
    let create = tx(1, vec![], vec![spendable(), carrier()]);
    assert_eq!(u.index_transaction(1, 1, &create, Some(free_mint_contract(1000, 50))), None);
    let mint = tx(2, vec![], vec![spendable(), carrier()]);
    assert_eq!(u.index_transaction(2, 1, &mint, Some(mint_call(contract, 0))), None);
    let plain = tx(3, vec![out(2, 0)], vec![spendable(), spendable()]);
    assert_eq!(u.index_transaction(3, 1, &plain, None), Some(Flaw::NonGlittrMessage));
    assert_eq!(balance(&u, out(3, 0), contract), 50);
    assert!(u.database.messages.get(&BlockTx { block: 3, tx: 1 }).is_none());
}

#[test]
fn read_only_indexing_writes_nothing() {
    let mut u = Updater::new(Database::new(), false);
    let contract = BlockTx { block: 1, tx: 1 };
    let create = tx(1, vec![], vec![spendable(), carrier()]);
    assert_eq!(u.index_transaction(1, 1, &create, Some(free_mint_contract(1000, 50))), None);
    u.is_read_only = true;
    let mint = tx(2, vec![], vec![spendable(), carrier()]);
    assert_eq!(u.index_transaction(2, 1, &mint, Some(mint_call(contract, 0))), None);
    assert_eq!(data(&u, contract).minted_supply, 0);
    assert_eq!(balance(&u, out(2, 0), contract), 0);
    assert!(u.database.messages.get(&BlockTx { block: 2, tx: 1 }).is_none());
}

#[test]
fn calls_outside_the_live_time_fail() {
    let mut u = Updater::new(Database::new(), false);
    let mut message = free_mint_contract(1000, 10);
    if let Some(creation) = &mut message.contract_creation {
        if let ContractType::Moa(moa) = &mut creation.contract_type {
            moa.live_time = 10;
            moa.end_time = Some(20);
        }
    }
    let contract = BlockTx { block: 1, tx: 1 };
    let create = tx(1, vec![], vec![spendable(), carrier()]);
    assert_eq!(u.index_transaction(1, 1, &create, Some(message)), None);
    let early = tx(2, vec![], vec![spendable(), carrier()]);
    assert_eq!(
        u.index_transaction(9, 1, &early, Some(mint_call(contract, 0))),
        Some(Flaw::LiveTimeNotReached)
    );
    let live = tx(3, vec![], vec![spendable(), carrier()]);
    assert_eq!(u.index_transaction(10, 1, &live, Some(mint_call(contract, 0))), None);
    let late = tx(4, vec![], vec![spendable(), carrier()]);
    assert_eq!(
        u.index_transaction(20, 1, &late, Some(mint_call(contract, 0))),
        Some(Flaw::LiveTimeExpired)
    );
    let unknown = tx(5, vec![], vec![spendable(), carrier()]);
    assert_eq!(
        u.index_transaction(21, 1, &unknown, Some(mint_call(BlockTx { block: 7, tx: 7 }, 0))),
        Some(Flaw::ContractNotFound)
    );
}

#[test]
fn conservation_holds_through_a_swap_and_a_burn() {
    let mut u = with_pool(RatioModel::ConstantProduct);
    let m = tx(21, vec![], vec![spendable(), carrier()]);
    assert_eq!(u.index_transaction(3, 1, &m, Some(mint_call(A, 0))), None);
    let swap = OpReturnMessage {
        transfer: None,
        contract_creation: None,
        contract_call: Some(ContractCall {
            contract: Some(POOL),
            call_type: CallType::Swap(SwapOption { pointer: 0, assert_values: None }),
        }),
    };
    let swapping = tx(23, vec![out(21, 0)], vec![spendable(), carrier()]);
    assert_eq!(u.index_transaction(4, 1, &swapping, Some(swap)), None);
    let (x, y, shares) = pool_state(&u);
    assert_eq!((x, y, shares), (2000, 500, 1000));
    let live = [out(13, 0), out(23, 0)];
    for asset in [A, B, POOL] {
        let held: u128 = live.iter().map(|o| balance(&u, *o, asset)).sum();
        let pooled = if asset == A { x } else if asset == B { y } else { 0 };
        let d = data(&u, asset);
        assert_eq!(held + pooled, d.minted_supply - d.burned_supply);
    }
}

fn swap_call(contract: BlockTx) -> OpReturnMessage {
    OpReturnMessage {
        transfer: None,
        contract_creation: None,
        contract_call: Some(ContractCall {
            contract: Some(contract),
            call_type: CallType::Swap(SwapOption { pointer: 0, assert_values: None }),
        }),
    }
}

#[test]
fn a_later_deposit_gets_shares_in_the_ratio_of_the_smaller_side() {
    let mut u = with_pool(RatioModel::ConstantProduct);
    let a = tx(21, vec![], vec![spendable(), carrier()]);
    assert_eq!(u.index_transaction(3, 1, &a, Some(mint_call(A, 0))), None);
    let b = tx(22, vec![], vec![spendable(), spendable(), carrier()]);
    assert_eq!(u.index_transaction(3, 2, &b, Some(mint_call(B, 0))), None);
    let half = OpReturnMessage {
        transfer: Some(Transfer {
            transfers: vec![TxTypeTransfer { asset: B, output: 1, amount: U128(500) }],
        }),
        contract_creation: None,
        contract_call: None,
    };
    let split = tx(23, vec![out(22, 0)], vec![spendable(), spendable(), carrier()]);
    assert_eq!(u.index_transaction(3, 3, &split, Some(half)), None);
    let deposit = tx(24, vec![out(21, 0), out(23, 1)], vec![spendable(), carrier()]);
    assert_eq!(u.index_transaction(4, 1, &deposit, Some(mint_call(POOL, 0))), None);
    assert_eq!(balance(&u, out(24, 0), POOL), 500);
    assert_eq!(pool_state(&u), (2000, 1500, 1500));
    assert_eq!(data(&u, POOL).minted_supply, 1500);
}

#[test]
fn calls_on_pools_that_fail() {
    let mut u = with_pool(RatioModel::ConstantProduct);
    let empty = tx(30, vec![], vec![spendable(), carrier()]);
    assert_eq!(
        u.validate_tx(5, &empty, Some(swap_call(POOL))),
        Some(Flaw::InsufficientInputAmount)
    );
    assert_eq!(u.validate_tx(5, &empty, Some(swap_call(A))), Some(Flaw::ContractNotMatch));
    assert_eq!(
        u.validate_tx(5, &empty, Some(mint_call(POOL, 0))),
        Some(Flaw::InsufficientInputAmount)
    );
    let both = tx(31, vec![out(13, 0)], vec![spendable(), carrier()]);
    assert_eq!(u.validate_tx(5, &both, Some(swap_call(POOL))), Some(Flaw::InsufficientInputAmount));

    let other = BlockTx { block: 5, tx: 1 };
    let create = tx(40, vec![], vec![spendable(), carrier()]);
    assert_eq!(
        u.index_transaction(5, 1, &create, Some(pool_contract(RatioModel::ConstantSum, A, POOL))),
        None
    );
    let a = tx(41, vec![], vec![spendable(), carrier()]);
    assert_eq!(u.index_transaction(5, 2, &a, Some(mint_call(A, 0))), None);
    let swapping = tx(42, vec![out(41, 0)], vec![spendable(), carrier()]);
    assert_eq!(u.validate_tx(6, &swapping, Some(swap_call(other))), Some(Flaw::PoolNotFound));
    let burn = OpReturnMessage {
        transfer: None,
        contract_creation: None,
        contract_call: Some(ContractCall {
            contract: Some(other),
            call_type: CallType::Burn(option(Some(0))),
        }),
    };
    assert_eq!(u.validate_tx(6, &swapping, Some(burn)), Some(Flaw::InsufficientInputAmount));

    let mut with_fee = pool_contract(RatioModel::ConstantProduct, A, B);
    let mut plain = pool_contract(RatioModel::ConstantProduct, A, B);
    if let Some(creation) = &mut with_fee.contract_creation {
        if let ContractType::Mba(mba) = &mut creation.contract_type {
            mba.swap_mechanism.fee = Some(U128(3));
        }
    }
    if let Some(creation) = &mut plain.contract_creation {
        if let ContractType::Mba(mba) = &mut creation.contract_type {
            mba.mint_mechanism.collateralized = None;
            mba.burn_mechanism.return_collateral = None;
        }
    }
    let fee = tx(43, vec![], vec![spendable(), carrier()]);
    assert_eq!(u.index_transaction(6, 1, &fee, Some(with_fee)), None);
    assert_eq!(
        u.validate_tx(7, &swapping, Some(swap_call(BlockTx { block: 6, tx: 1 }))),
        Some(Flaw::NotImplemented)
    );
    let bare = tx(44, vec![], vec![spendable(), carrier()]);
    assert_eq!(u.index_transaction(6, 2, &bare, Some(plain)), None);
    assert_eq!(
        u.validate_tx(7, &swapping, Some(swap_call(BlockTx { block: 6, tx: 2 }))),
        Some(Flaw::InvalidContractType)
    );
    assert_eq!(
        u.validate_tx(7, &swapping, Some(mint_call(BlockTx { block: 6, tx: 2 }, 0))),
        Some(Flaw::NotImplemented)
    );
}

#[test]
fn a_purchase_that_names_no_address_fails() {
    let contract_message = OpReturnMessage {
        transfer: None,
        contract_creation: Some(ContractCreation {
            contract_type: ContractType::Moa(MintOnlyAssetContract {
                ticker: None,
                supply_cap: None,
                divisibility: 8,
                live_time: 0,
                end_time: None,
                mint_mechanism: MOAMintMechanisms {
                    preallocated: None,
                    free_mint: None,
                    purchase: Some(PurchaseBurnSwap {
                        input_asset: InputAsset::RawBtc,
                        transfer_scheme: TransferScheme::Purchase("not an address".to_string()),
                        ratio: RatioType::Fixed {
                            ratio: Fraction { numerator: 1, denominator: 1 },
                        },
                    }),
                },
                commitment: None,
            }),
            spec: None,
        }),
        contract_call: None,
    };
    let mut u = Updater::new(Database::new(), false);
    let create = tx(1, vec![], vec![spendable(), carrier()]);
    assert_eq!(u.index_transaction(1, 1, &create, Some(contract_message)), None);
    let mint = tx(2, vec![], vec![spendable(), carrier()]);
    assert_eq!(
        u.index_transaction(2, 1, &mint, Some(mint_call(BlockTx { block: 1, tx: 1 }, 0))),
        Some(Flaw::InvalidBitcoinAddress)
    );
}

fn chain() -> Vec<(u64, Vec<(Transaction, Option<OpReturnMessage>)>)> {
    let contract = BlockTx { block: 1, tx: 0 };
    let moved = OpReturnMessage {
        transfer: Some(Transfer {
            transfers: vec![
                TxTypeTransfer { asset: contract, output: 1, amount: U128(3) },
                TxTypeTransfer { asset: contract, output: 7, amount: U128(1) },
            ],
        }),
        contract_creation: None,
        contract_call: None,
    };
    vec![
        (1, vec![(tx(1, vec![], vec![spendable(), carrier()]), Some(free_mint_contract(25, 10)))]),
        (
            2,
            vec![
                (tx(2, vec![], vec![spendable(), carrier()]), Some(mint_call(contract, 0))),
                (tx(3, vec![out(2, 0)], vec![spendable(), spendable()]), None),
                (tx(4, vec![out(3, 0)], vec![spendable(), spendable(), carrier()]), Some(moved)),
            ],
        ),
        (
            3,
            vec![
                (tx(5, vec![], vec![spendable(), carrier()]), Some(mint_call(contract, 0))),
                (tx(6, vec![], vec![spendable(), carrier()]), Some(mint_call(contract, 0))),
                (tx(7, vec![], vec![spendable(), carrier()]), None),
            ],
        ),
    ]
}

fn replay(from: usize, updater: &mut Updater) {
    for (height, entries) in chain().into_iter().skip(from) {
        updater.index_block(height, entries);
    }
}

#[test]
fn indexing_a_chain_again_gives_the_same_store() {
    let mut first = Updater::new(Database::new(), false);
    replay(0, &mut first);
    let mut second = Updater::new(Database::new(), false);
    replay(0, &mut second);
    assert_eq!(format!("{:?}", first.database), format!("{:?}", second.database));

    let contract = BlockTx { block: 1, tx: 0 };
    assert_eq!(first.database.last_block, Some(3));
    assert_eq!(data(&first, contract).minted_supply, 20);
    assert_eq!(balance(&first, out(4, 0), contract), 7);
    assert_eq!(balance(&first, out(4, 1), contract), 3);
    assert_eq!(balance(&first, out(5, 0), contract), 10);
    let flaw = |block, tx| first.database.messages.get(&BlockTx { block, tx }).map(|o| &o.flaw);
    assert_eq!(flaw(2, 1), None);
    assert_eq!(flaw(2, 2), Some(&Some(Flaw::OutputOverflow(Positions::of(&vec![1])))));
    assert_eq!(flaw(3, 1), Some(&Some(Flaw::SupplyCapExceeded)));
    assert_eq!(flaw(3, 2), Some(&Some(Flaw::FailedDeserialization)));

    let mut stopped = Updater::new(Database::new(), false);
    for (height, entries) in chain().into_iter().take(2) {
        stopped.index_block(height, entries);
    }
    let mut resumed = Updater::new(stopped.database, false);
    replay(2, &mut resumed);
    assert_eq!(format!("{:?}", first.database), format!("{:?}", resumed.database));
}
