use glittr_core::flaw::Flaw;
use glittr_core::transaction::message::{
    ContractCreation, ContractType, OpReturnMessage, OracleMessage,
};
use glittr_core::transaction::mint_only_asset::{MOAMintMechanisms, MintOnlyAssetContract};
use glittr_core::transaction::shared::FreeMint;
use glittr_core::transaction::{Transaction, TxOut};
use glittr_core::types::{Fraction, Outpoint, Txid, U128};

fn number(value: &serde_json::Value, key: &str) -> Option<u128> {
    value.get(key)?.as_str()?.parse().ok()
}

/// The document that stands for a message which creates a free mint.
fn encode(message: &OpReturnMessage) -> Vec<u8> {
    let creation = message.contract_creation.as_ref().unwrap();
    let ContractType::Moa(moa) = &creation.contract_type else { unreachable!() };
    let free = moa.mint_mechanism.free_mint.unwrap();
    let mut free_mint = serde_json::Map::new();
    free_mint.insert(
        "supply_cap".to_string(),
        serde_json::Value::String(free.supply_cap.unwrap().0.to_string()),
    );
    free_mint.insert(
        "amount_per_mint".to_string(),
        serde_json::Value::String(free.amount_per_mint.0.to_string()),
    );
    let mut mechanism = serde_json::Map::new();
    mechanism.insert("free_mint".to_string(), serde_json::Value::Object(free_mint));
    let mut asset = serde_json::Map::new();
    asset.insert(
        "supply_cap".to_string(),
        serde_json::Value::String(moa.supply_cap.unwrap().0.to_string()),
    );
    asset.insert("divisibility".to_string(), serde_json::Value::from(moa.divisibility));
    asset.insert("live_time".to_string(), serde_json::Value::from(moa.live_time));
    asset.insert("mint_mechanism".to_string(), serde_json::Value::Object(mechanism));
    let mut kind = serde_json::Map::new();
    kind.insert("moa".to_string(), serde_json::Value::Object(asset));
    let mut made = serde_json::Map::new();
    made.insert("contract_type".to_string(), serde_json::Value::Object(kind));
    let mut document = serde_json::Map::new();
    document.insert("contract_creation".to_string(), serde_json::Value::Object(made));
    serde_json::to_vec(&serde_json::Value::Object(document)).unwrap()
}

fn decode(payload: &[u8]) -> Option<OpReturnMessage> {
    let document: serde_json::Value = serde_json::from_slice(payload).ok()?;
    let asset = document.get("contract_creation")?.get("contract_type")?.get("moa")?;
    let free = asset.get("mint_mechanism")?.get("free_mint")?;
    Some(OpReturnMessage {
        transfer: None,
        contract_creation: Some(ContractCreation {
            contract_type: ContractType::Moa(MintOnlyAssetContract {
                ticker: None,
                supply_cap: number(asset, "supply_cap").map(U128),
                divisibility: asset.get("divisibility")?.as_u64()? as u8,
                live_time: asset.get("live_time")?.as_u64()?,
                end_time: None,
                mint_mechanism: MOAMintMechanisms {
                    preallocated: None,
                    free_mint: Some(FreeMint {
                        supply_cap: number(free, "supply_cap").map(U128),
                        amount_per_mint: U128(number(free, "amount_per_mint")?),
                    }),
                    purchase: None,
                },
                commitment: None,
            }),
            spec: None,
        }),
        contract_call: None,
    })
}

fn library_tx(tx: &bitcoin::Transaction) -> Transaction {
    let id: [u8; 32] = bitcoin::hashes::Hash::to_byte_array(tx.compute_txid());
    let half = |bytes: &[u8]| {
        let mut b = [0u8; 16];
        b.copy_from_slice(bytes);
        u128::from_be_bytes(b)
    };
    Transaction {
        txid: Txid { hi: half(&id[..16]), lo: half(&id[16..]) },
        input: tx
            .input
            .iter()
            .map(|i| {
                let id: [u8; 32] = bitcoin::hashes::Hash::to_byte_array(i.previous_output.txid);
                Outpoint {
                    txid: Txid { hi: half(&id[..16]), lo: half(&id[16..]) },
                    vout: i.previous_output.vout,
                }
            })
            .collect(),
        output: tx
            .output
            .iter()
            .map(|o| TxOut { value: o.value.to_sat(), script_pubkey: o.script_pubkey.to_bytes() })
            .collect(),
    }
}

fn create_dummy_tx() -> bitcoin::Transaction {
    let dummy_message = OpReturnMessage {
        transfer: None,
        contract_creation: Some(ContractCreation {
            contract_type: ContractType::Moa(MintOnlyAssetContract {
                ticker: None,
                supply_cap: Some(U128(1000)),
                divisibility: 18,
                live_time: 0,
                end_time: None,
                mint_mechanism: MOAMintMechanisms {
                    free_mint: Some(FreeMint {
                        supply_cap: Some(U128(1000)),
                        amount_per_mint: U128(10),
                    }),
                    preallocated: None,
                    purchase: None,
                },
                commitment: None,
            }),
            spec: None,
        }),
        contract_call: None,
    };

    bitcoin::Transaction {
        input: Vec::new(),
        lock_time: bitcoin::locktime::absolute::LockTime::ZERO,
        output: vec![bitcoin::TxOut {
            script_pubkey: bitcoin::ScriptBuf::from_bytes(OpReturnMessage::into_script(&encode(
                &dummy_message,
            ))),
            value: bitcoin::Amount::from_int_btc(0),
        }],
        version: bitcoin::transaction::Version(2),
    }
}

fn parse(tx: &bitcoin::Transaction) -> Result<OpReturnMessage, Flaw> {
    let tx = library_tx(tx);
    let decoded = match OpReturnMessage::payload(&tx) {
        Ok(payload) => decode(&payload),
        Err(_) => None,
    };
    OpReturnMessage::parse_tx(&tx, decoded)
}

#[test]
pub fn parse_op_return_message_success() {
    let tx = create_dummy_tx();

    let parsed = parse(&tx);

    if let Some(contract_creation) = parsed.unwrap().contract_creation {
        match contract_creation.contract_type {
            ContractType::Moa(mint_only_asset_contract) => {
                let free_mint = mint_only_asset_contract.mint_mechanism.free_mint.unwrap();
                assert_eq!(mint_only_asset_contract.supply_cap, Some(U128(1000)));
                assert_eq!(mint_only_asset_contract.divisibility, 18);
                assert_eq!(mint_only_asset_contract.live_time, 0);
                assert_eq!(free_mint.supply_cap, Some(U128(1000)));
                assert_eq!(free_mint.amount_per_mint, U128(10));
            }
            _ => panic!("Invalid contract type"),
        }
    } else {
        panic!("the message creates no contract");
    }
}

#[test]
pub fn validate_op_return_message_from_tx_hex_success() {
    let tx = create_dummy_tx();

    let tx_bytes = hex::decode(bitcoin::consensus::encode::serialize_hex(&tx)).unwrap();

    let tx: bitcoin::Transaction = bitcoin::consensus::deserialize(&tx_bytes).unwrap();

    let op_return_message = parse(&tx);

    assert!(op_return_message.is_ok());
}

fn spendable() -> TxOut {
    let mut script = vec![0x76, 0xa9, 0x14];
    script.extend_from_slice(&[0x22; 20]);
    script.extend_from_slice(&[0x88, 0xac]);
    TxOut { value: 1, script_pubkey: script }
}

fn tx_with(outputs: Vec<TxOut>) -> Transaction {
    Transaction { txid: Txid { hi: 0, lo: 1 }, input: vec![], output: outputs }
}

fn script(bytes: &[u8]) -> TxOut {
    TxOut { value: 0, script_pubkey: bytes.to_vec() }
}

const MAGIC: [u8; 6] = *b"GLITTR";

fn carrier_of(tail: &[u8]) -> TxOut {
    let mut bytes = vec![0x6a, 6];
    bytes.extend_from_slice(&MAGIC);
    bytes.extend_from_slice(tail);
    script(&bytes)
}

#[test]
fn payload_round_trip_through_the_script() {
    for len in [1usize, 75, 76, 255, 256, 519, 520, 521, 1040, 1300] {
        let payload: Vec<u8> = (0..len).map(|i| (i % 251) as u8).collect();
        let built = OpReturnMessage::into_script(&payload);
        let tx = tx_with(vec![spendable(), script(&built)]);
        assert_eq!(OpReturnMessage::payload(&tx), Ok(payload));
        let pushes = bitcoin::Script::from_bytes(&built)
            .instructions()
            .skip(2)
            .map(|i| i.unwrap().push_bytes().unwrap().len())
            .collect::<Vec<usize>>();
        assert!(pushes.iter().all(|n| *n <= 520));
        assert_eq!(pushes.len(), (len + 519) / 520);
    }
}

#[test]
fn the_script_starts_with_op_return_and_the_magic_prefix() {
    let built = OpReturnMessage::into_script(&b"abc".to_vec());
    assert_eq!(built, [&[0x6a, 6][..], &MAGIC[..], &[3, b'a', b'b', b'c'][..]].concat());
    assert!(script(&built).is_op_return());
    assert!(!spendable().is_op_return());
    assert!(!script(&[]).is_op_return());
}

#[test]
fn transactions_without_a_message() {
    assert_eq!(OpReturnMessage::payload(&tx_with(vec![])), Err(Flaw::NonGlittrMessage));
    assert_eq!(OpReturnMessage::payload(&tx_with(vec![spendable()])), Err(Flaw::NonGlittrMessage));
    let other_tag = script(&[0x6a, 6, b'O', b'T', b'H', b'E', b'R', b'S', 1, 7]);
    assert_eq!(OpReturnMessage::payload(&tx_with(vec![other_tag])), Err(Flaw::NonGlittrMessage));
    let no_tag = script(&[0x6a, 0x76]);
    assert_eq!(OpReturnMessage::payload(&tx_with(vec![no_tag])), Err(Flaw::NonGlittrMessage));
    assert_eq!(
        OpReturnMessage::payload(&tx_with(vec![carrier_of(&[])])),
        Err(Flaw::NonGlittrMessage)
    );
    assert_eq!(
        OpReturnMessage::parse_tx(&tx_with(vec![spendable()]), None),
        Err(Flaw::NonGlittrMessage)
    );
}

#[test]
fn flawed_carriers() {
    assert_eq!(
        OpReturnMessage::payload(&tx_with(vec![carrier_of(&[1, 9, 0x76])])),
        Err(Flaw::InvalidInstruction(0x76))
    );
    assert_eq!(
        OpReturnMessage::payload(&tx_with(vec![carrier_of(&[1, 9, 5, 1])])),
        Err(Flaw::InvalidScript)
    );
    assert_eq!(
        OpReturnMessage::payload(&tx_with(vec![carrier_of(&[0x76, 5, 1])])),
        Err(Flaw::InvalidInstruction(0x76))
    );
}

#[test]
fn the_first_carrier_is_read_and_the_rest_ignored() {
    let tx = tx_with(vec![spendable(), carrier_of(&[2, 1, 2, 1, 3]), carrier_of(&[1, 9])]);
    assert_eq!(OpReturnMessage::payload(&tx), Ok(vec![1, 2, 3]));
    let tx = tx_with(vec![carrier_of(&[0x76]), carrier_of(&[1, 9])]);
    assert_eq!(OpReturnMessage::payload(&tx), Err(Flaw::InvalidInstruction(0x76)));
}

#[test]
fn payloads_that_decode_to_nothing_fail() {
    let tx = tx_with(vec![carrier_of(&[1, 9])]);
    assert_eq!(OpReturnMessage::parse_tx(&tx, None), Err(Flaw::FailedDeserialization));
    let empty = OpReturnMessage { transfer: None, contract_creation: None, contract_call: None };
    assert_eq!(OpReturnMessage::parse_tx(&tx, Some(empty)), Err(Flaw::FailedDeserialization));
}

#[test]
fn the_canonical_encoding_of_an_oracle_message() {
    let least = OracleMessage {
        input_outpoint: None,
        min_in_value: None,
        out_value: None,
        asset_id: None,
        ratio: None,
        ltv: None,
        outstanding: None,
        block_height: 0,
    };
    assert_eq!(least.canonical_bytes(), b"{\"block_height\":0}".to_vec());
    let full = OracleMessage {
        input_outpoint: Some(Outpoint {
            txid: Txid { hi: 0x0123456789abcdef0000000000000000, lo: 0xff },
            vout: 7,
        }),
        min_in_value: Some(U128(10)),
        out_value: Some(U128(u128::MAX)),
        asset_id: Some("a\"b\\c\n\u{e9}".to_string()),
        ratio: Some(Fraction { numerator: 3, denominator: 2 }),
        ltv: Some(Fraction { numerator: 1, denominator: 2 }),
        outstanding: Some(U128(0)),
        block_height: 18446744073709551615,
    };
    let expected = concat(&[
        "{\"asset_id\":\"a\\\"b\\\\c\\u000a\u{e9}\",",
        "\"block_height\":18446744073709551615,",
        "\"input_outpoint\":\"0123456789abcdef0000000000000000",
        "000000000000000000000000000000ff:7\",",
        "\"ltv\":[\"1\",\"2\"],",
        "\"min_in_value\":\"10\",",
        "\"out_value\":\"340282366920938463463374607431768211455\",",
        "\"outstanding\":\"0\",",
        "\"ratio\":[\"3\",\"2\"]}",
    ]);
    assert_eq!(String::from_utf8(full.canonical_bytes()).unwrap(), expected);
    let document: serde_json::Value = serde_json::from_str(&expected).unwrap();
    assert_eq!(document["asset_id"].as_str(), Some("a\"b\\c\n\u{e9}"));
    assert_eq!(serde_json::to_string(&document).unwrap().len(), expected.len() - 4);
}

fn concat(parts: &[&str]) -> String {
    parts.iter().map(|p| p.to_string()).collect()
}
