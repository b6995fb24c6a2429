use crate::flaw::Flaw;
use crate::transaction::mint_burn_asset::MintBurnAssetContract;
use crate::transaction::mint_only_asset::MintOnlyAssetContract;
use crate::transaction::nft::NftAssetContract;
use crate::transaction::spec_contract::SpecContract;
use crate::transaction::{
    op_return_script, push_to_script, read_script, script_instructions, script_with_push,
    Instruction, ScriptItem, Transaction, TxOut, MAX_PUSH_BYTES, OP_RETURN,
};
use crate::types::{BlockTx, Fraction, Outpoint, U128};
use vstd::prelude::*;

verus! {

#[derive(Debug, PartialEq, Eq)]
pub enum ContractType {
    Moa(MintOnlyAssetContract),
    Mba(MintBurnAssetContract),
    Spec(SpecContract),
    Nft(NftAssetContract),
}

/// What the caller asserts of a call; the call fails where it does not
/// hold.
#[derive(Debug, PartialEq, Eq)]
pub struct AssertValues {
    pub input_values: Option<Vec<U128>>,
    pub total_collateralized: Option<Vec<U128>>,
    pub min_out_value: Option<U128>,
}

/// What an oracle states of an input, at a block height.
#[derive(Debug, PartialEq, Eq)]
pub struct OracleMessage {
    /// The output that the oracle valued.
    pub input_outpoint: Option<Outpoint>,
    /// The least value that must have come in.
    pub min_in_value: Option<U128>,
    /// The value that the oracle gives the input.
    pub out_value: Option<U128>,
    pub asset_id: Option<String>,
    pub ratio: Option<Fraction>,
    pub ltv: Option<Fraction>,
    pub outstanding: Option<U128>,
    /// The block height at which the message was signed.
    pub block_height: u64,
}

/// An oracle message with its signature. The signature covers the
/// digest of the canonical encoding of the message.
#[derive(Debug, PartialEq, Eq)]
pub struct OracleMessageSigned {
    pub signature: Vec<u8>,
    pub message: OracleMessage,
}

#[derive(Debug, PartialEq, Eq)]
pub struct ArgsCommitment {
    pub fixed_string: String,
    pub string: String,
}

#[derive(Debug, PartialEq, Eq)]
pub struct Commitment {
    pub public_key: Vec<u8>,
    pub args: ArgsCommitment,
}

#[derive(Debug, PartialEq, Eq)]
pub struct CommitmentMessage {
    pub public_key: Vec<u8>,
    pub args: Vec<u8>,
}

#[derive(Debug, PartialEq, Eq)]
pub struct MintBurnOption {
    pub pointer: Option<u32>,
    pub oracle_message: Option<OracleMessageSigned>,
    pub pointer_to_key: Option<u32>,
    pub assert_values: Option<AssertValues>,
    pub commitment_message: Option<CommitmentMessage>,
}

#[derive(Debug, PartialEq, Eq)]
pub struct SwapOption {
    pub pointer: u32,
    pub assert_values: Option<AssertValues>,
}

#[derive(Clone, Copy, Debug, PartialEq, Eq, Structural)]
pub struct OpenAccountOption {
    pub pointer_to_key: u32,
    /// The value of what is put in, as the caller states it.
    pub share_amount: U128,
}

#[derive(Clone, Copy, Debug, PartialEq, Eq, Structural)]
pub struct CloseAccountOption {
    pub pointer: u32,
}

#[derive(Debug, PartialEq, Eq)]
pub struct UpdateNftOption {
    pub whitelist_address_bloom_filter: Option<Vec<u8>>,
    pub trusted_marketplace_fee_addresses: Option<Vec<String>>,
    pub access_key_pointer: Option<u64>,
}

#[derive(Debug, PartialEq, Eq)]
pub enum CallType {
    Mint(MintBurnOption),
    Burn(MintBurnOption),
    Swap(SwapOption),
    OpenAccount(OpenAccountOption),
    CloseAccount(CloseAccountOption),
    UpdateNft(UpdateNftOption),
}

/// One transfer: `amount` of `asset` goes to the output numbered
/// `output`.
#[derive(Clone, Copy, Debug, PartialEq, Eq, Structural)]
pub struct TxTypeTransfer {
    pub asset: BlockTx,
    pub output: u32,
    pub amount: U128,
}

#[derive(Debug, PartialEq, Eq)]
pub struct Transfer {
    pub transfers: Vec<TxTypeTransfer>,
}

#[derive(Debug, PartialEq, Eq)]
pub struct ContractCreation {
    pub contract_type: ContractType,
    pub spec: Option<BlockTx>,
}

#[derive(Debug, PartialEq, Eq)]
pub struct ContractCall {
    pub contract: Option<BlockTx>,
    pub call_type: CallType,
}

/// The message a transaction carries: any of a transfer, the creation
/// of a contract and a call of a contract.
#[derive(Debug, PartialEq, Eq)]
pub struct OpReturnMessage {
    pub transfer: Option<Transfer>,
    pub contract_creation: Option<ContractCreation>,
    pub contract_call: Option<ContractCall>,
}

/// A part of a message that can be checked for its shape alone.
pub trait ContractValidator {
    spec fn spec_validate(&self) -> Option<Flaw>;

    fn validate(&self) -> (r: Option<Flaw>)
        ensures
            r == self.spec_validate(),
    ;
}

impl ContractValidator for CallType {
    open spec fn spec_validate(&self) -> Option<Flaw> {
        None
    }

    fn validate(&self) -> (r: Option<Flaw>) {
        None
    }
}

impl ContractType {
    pub open spec fn spec_validate(&self) -> Option<Flaw> {
        match self {
            ContractType::Moa(c) => c.spec_validate(),
            ContractType::Mba(c) => c.spec_validate(),
            ContractType::Spec(c) => c.spec_validate(),
            ContractType::Nft(c) => c.spec_validate(),
        }
    }
}

impl OpReturnMessage {
    /// The flaw in the shape of the message, if it has one: that of the
    /// contract it creates, else that of the call it makes.
    pub open spec fn spec_validate(&self) -> Option<Flaw> {
        if let Some(creation) = self.contract_creation {
            creation.contract_type.spec_validate()
        } else if let Some(call) = self.contract_call {
            call.call_type.spec_validate()
        } else {
            None
        }
    }

    /// Checks the shape of the message, without any state.
    pub fn validate(&self) -> (r: Option<Flaw>)
        ensures
            r == self.spec_validate(),
    {
        if let Some(creation) = &self.contract_creation {
            return match &creation.contract_type {
                ContractType::Moa(c) => c.validate(),
                ContractType::Mba(c) => c.validate(),
                ContractType::Spec(c) => c.validate(),
                ContractType::Nft(c) => c.validate(),
            };
        }
        if let Some(call) = &self.contract_call {
            return call.call_type.validate();
        }
        None
    }
}


/// The tag that marks an unspendable output as the carrier of a message.
pub open spec fn magic_prefix() -> Seq<u8> {
    seq![0x47u8, 0x4c, 0x49, 0x54, 0x54, 0x52]
}

/// Whether the bytes are the magic prefix.
pub fn is_magic_prefix(bytes: &Vec<u8>) -> (r: bool)
    ensures
        r == (bytes@ == magic_prefix()),
{
    let r = bytes.len() == 6 && bytes[0] == 0x47 && bytes[1] == 0x4c && bytes[2] == 0x49
        && bytes[3] == 0x54 && bytes[4] == 0x54 && bytes[5] == 0x52;
    assert(r ==> bytes@ =~= magic_prefix());
    r
}

/// The magic prefix as bytes.
pub fn magic_prefix_bytes() -> (r: Vec<u8>)
    ensures
        r@ == magic_prefix(),
{
    let mut r: Vec<u8> = Vec::new();
    r.push(0x47);
    r.push(0x4c);
    r.push(0x49);
    r.push(0x54);
    r.push(0x54);
    r.push(0x52);
    assert(r@ =~= magic_prefix());
    r
}

/// A script carries a message when it starts with `OP_RETURN` and a
/// push of the magic prefix.
pub open spec fn is_carrier(items: Seq<Instruction>) -> bool {
    items.len() >= 2 && items[0] == Instruction::Op(OP_RETURN) && items[1] == Instruction::Push(
        magic_prefix(),
    )
}

/// The bytes pushed by the instructions from `from` on, or the flaw of
/// the first instruction among them that is no push.
pub open spec fn pushed_bytes(items: Seq<Instruction>, from: int) -> Result<Seq<u8>, Flaw>
    decreases items.len() - from,
{
    if from < 0 || from >= items.len() {
        Ok(Seq::empty())
    } else {
        match items[from] {
            Instruction::Op(op) => Err(Flaw::InvalidInstruction(op)),
            Instruction::Invalid => Err(Flaw::InvalidScript),
            Instruction::Push(bytes) => match pushed_bytes(items, from + 1) {
                Ok(rest) => Ok(bytes + rest),
                Err(flaw) => Err(flaw),
            },
        }
    }
}

pub open spec fn after(head: Seq<u8>, tail: Result<Seq<u8>, Flaw>) -> Result<Seq<u8>, Flaw> {
    match tail {
        Ok(rest) => Ok(head + rest),
        Err(flaw) => Err(flaw),
    }
}

/// The first output from `from` on whose script carries a message.
pub open spec fn carrier_from(outputs: Seq<TxOut>, from: int) -> Option<int>
    decreases outputs.len() - from,
{
    if from < 0 || from >= outputs.len() {
        None
    } else if is_carrier(script_instructions(outputs[from].script_pubkey@)) {
        Some(from)
    } else {
        carrier_from(outputs, from + 1)
    }
}

/// The payload of a transaction: the bytes that its first carrier
/// pushes after the magic prefix. Without a carrier, or with one that
/// pushes nothing, the transaction carries no message.
pub open spec fn payload_of(tx: &Transaction) -> Result<Seq<u8>, Flaw> {
    match carrier_from(tx.output@, 0) {
        None => Err(Flaw::NonGlittrMessage),
        Some(i) => match pushed_bytes(script_instructions(tx.output@[i].script_pubkey@), 2) {
            Err(flaw) => Err(flaw),
            Ok(bytes) => if bytes.len() == 0 {
                Err(Flaw::NonGlittrMessage)
            } else {
                Ok(bytes)
            },
        },
    }
}

/// The script that carries `payload`: `OP_RETURN`, the magic prefix,
/// then the payload in pushes of at most `MAX_PUSH_BYTES` bytes.
pub open spec fn carrier_script(payload: Seq<u8>) -> Seq<u8> {
    with_chunks(script_with_push(seq![OP_RETURN], magic_prefix()), payload)
}

pub open spec fn with_chunks(script: Seq<u8>, data: Seq<u8>) -> Seq<u8>
    decreases data.len(),
{
    if data.len() == 0 {
        script
    } else {
        let n = if data.len() < MAX_PUSH_BYTES {
            data.len() as int
        } else {
            MAX_PUSH_BYTES as int
        };
        with_chunks(script_with_push(script, data.take(n)), data.skip(n))
    }
}

fn append_bytes(dst: &mut Vec<u8>, src: &Vec<u8>)
    ensures
        final(dst)@ == old(dst)@ + src@,
{
    let mut i: usize = 0;
    while i < src.len()
        invariant
            i <= src@.len(),
            dst@ == old(dst)@ + src@.subrange(0, i as int),
        decreases src@.len() - i,
    {
        dst.push(src[i]);
        i += 1;
        assert(dst@ == old(dst)@ + src@.subrange(0, i as int));
    }
    assert(src@.subrange(0, src@.len() as int) == src@);
}

/// Reads the pushes of a carrier after its magic prefix.
fn read_pushes(items: &Vec<ScriptItem>) -> (r: Result<Vec<u8>, Flaw>)
    requires
        items@.len() >= 2,
    ensures
        match pushed_bytes(crate::transaction::items_view(items@), 2) {
            Ok(bytes) => r matches Ok(v) && v@ == bytes,
            Err(flaw) => r == Err::<Vec<u8>, Flaw>(flaw),
        },
{
    let ghost view = crate::transaction::items_view(items@);
    let mut payload: Vec<u8> = Vec::new();
    let mut j: usize = 2;
    assert(after(payload@, pushed_bytes(view, 2)) == pushed_bytes(view, 2)) by {
        match pushed_bytes(view, 2) {
            Ok(b) => {
                assert(Seq::<u8>::empty() + b == b);
            },
            Err(_) => {},
        }
    }
    while j < items.len()
        invariant
            2 <= j <= items@.len(),
            view == crate::transaction::items_view(items@),
            after(payload@, pushed_bytes(view, j as int)) == pushed_bytes(view, 2),
        decreases items@.len() - j,
    {
        assert(view[j as int] == items@[j as int]@);
        match &items[j] {
            ScriptItem::Push(bytes) => {
                let ghost before = payload@;
                append_bytes(&mut payload, bytes);
                proof {
                    match pushed_bytes(view, j + 1) {
                        Ok(rest) => {
                            assert((before + bytes@) + rest == before + (bytes@ + rest));
                        },
                        Err(_) => {},
                    }
                }
            },
            ScriptItem::Op(op) => {
                return Err(Flaw::InvalidInstruction(*op));
            },
            ScriptItem::Invalid => {
                return Err(Flaw::InvalidScript);
            },
        }
        j += 1;
    }
    assert(payload@ + Seq::<u8>::empty() == payload@);
    Ok(payload)
}

impl OpReturnMessage {
    /// Extracts the payload that a transaction carries.
    pub fn payload(tx: &Transaction) -> (r: Result<Vec<u8>, Flaw>)
        ensures
            match payload_of(tx) {
                Ok(bytes) => r matches Ok(v) && v@ == bytes,
                Err(flaw) => r == Err::<Vec<u8>, Flaw>(flaw),
            },
    {
        let mut i: usize = 0;
        while i < tx.output.len()
            invariant
                i <= tx.output@.len(),
                carrier_from(tx.output@, 0) == carrier_from(tx.output@, i as int),
            decreases tx.output@.len() - i,
        {
            let items = read_script(&tx.output[i].script_pubkey);
            let ghost view = crate::transaction::items_view(items@);
            assert(view.len() == items@.len());
            let mut carrier = false;
            if items.len() >= 2 {
                assert(view[0] == items@[0]@);
                assert(view[1] == items@[1]@);
                let starts = match &items[0] {
                    ScriptItem::Op(op) => *op == OP_RETURN,
                    _ => false,
                };
                let tagged = match &items[1] {
                    ScriptItem::Push(bytes) => is_magic_prefix(bytes),
                    _ => false,
                };
                carrier = starts && tagged;
            }
            assert(carrier == is_carrier(view));
            if carrier {
                return match read_pushes(&items) {
                    Ok(bytes) => {
                        if bytes.len() == 0 {
                            Err(Flaw::NonGlittrMessage)
                        } else {
                            Ok(bytes)
                        }
                    },
                    Err(flaw) => Err(flaw),
                };
            }
            i += 1;
        }
        Err(Flaw::NonGlittrMessage)
    }

    /// A message says something when it has at least one of its parts.
    pub open spec fn has_content(&self) -> bool {
        self.transfer is Some || self.contract_creation is Some || self.contract_call is Some
    }

    /// What parsing a transaction gives, where `decoded` is the message
    /// that decoding its payload gave, if it gave one.
    pub open spec fn parsed(tx: &Transaction, decoded: Option<OpReturnMessage>) -> Result<
        OpReturnMessage,
        Flaw,
    > {
        match payload_of(tx) {
            Err(flaw) => Err(flaw),
            Ok(_) => match decoded {
                Some(message) => if message.has_content() {
                    Ok(message)
                } else {
                    Err(Flaw::FailedDeserialization)
                },
                None => Err(Flaw::FailedDeserialization),
            },
        }
    }

    /// Parses the message of a transaction. The payload is found in the
    /// transaction; `decoded` is what decoding that payload gave.
    pub fn parse_tx(tx: &Transaction, decoded: Option<OpReturnMessage>) -> (r: Result<
        OpReturnMessage,
        Flaw,
    >)
        ensures
            r == Self::parsed(tx, decoded),
    {
        match Self::payload(tx) {
            Err(flaw) => Err(flaw),
            Ok(_) => match decoded {
                Some(message) => {
                    if message.transfer.is_none() && message.contract_creation.is_none()
                        && message.contract_call.is_none() {
                        Err(Flaw::FailedDeserialization)
                    } else {
                        Ok(message)
                    }
                },
                None => Err(Flaw::FailedDeserialization),
            },
        }
    }

    /// The script of an output that carries the encoded message
    /// `payload`.
    pub fn into_script(payload: &Vec<u8>) -> (script: Vec<u8>)
        ensures
            script@ == carrier_script(payload@),
    {
        let magic = magic_prefix_bytes();
        let mut script = push_to_script(op_return_script(), &magic);
        let mut done: usize = 0;
        assert(payload@.skip(0) == payload@);
        while done < payload.len()
            invariant
                done <= payload@.len(),
                with_chunks(script@, payload@.skip(done as int)) == carrier_script(payload@),
            decreases payload@.len() - done,
        {
            let left: usize = payload.len() - done;
            let n: usize = if left < MAX_PUSH_BYTES {
                left
            } else {
                MAX_PUSH_BYTES
            };
            let mut chunk: Vec<u8> = Vec::new();
            let mut k: usize = 0;
            while k < n
                invariant
                    k <= n,
                    done + n <= payload@.len(),
                    payload@.len() <= usize::MAX,
                    chunk@ == payload@.subrange(done as int, done + k),
                decreases n - k,
            {
                chunk.push(payload[done + k]);
                k += 1;
                assert(chunk@ == payload@.subrange(done as int, done + k));
            }
            proof {
                let rest = payload@.skip(done as int);
                assert(rest.take(n as int) == chunk@);
                assert(rest.skip(n as int) == payload@.skip(done + n));
            }
            script = push_to_script(script, &chunk);
            done = done + n;
        }
        script
    }
}

} // verus!
