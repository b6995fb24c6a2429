pub mod canonical;
pub mod message;
pub mod mint_burn_asset;
pub mod mint_only_asset;
pub mod nft;
pub mod shared;
pub mod spec_contract;

use crate::types::{Outpoint, Txid};
use vstd::prelude::*;

verus! {

/// The opcode that makes an output unspendable and lets it carry data.
pub const OP_RETURN: u8 = 0x6a;

/// One output of a transaction: its value and its locking script.
#[derive(Debug, PartialEq, Eq)]
pub struct TxOut {
    pub value: u64,
    pub script_pubkey: Vec<u8>,
}

/// What the indexer reads of a transaction: its identifier, the outputs
/// it spends and the outputs it makes.
#[derive(Debug, PartialEq, Eq)]
pub struct Transaction {
    pub txid: Txid,
    pub input: Vec<Outpoint>,
    pub output: Vec<TxOut>,
}

/// One instruction of a script, as a value of contracts.
pub enum Instruction {
    Push(Seq<u8>),
    Op(u8),
    /// The script ends inside an instruction. Nothing follows it.
    Invalid,
}

/// One instruction of a script.
#[derive(Debug, PartialEq, Eq)]
pub enum ScriptItem {
    Push(Vec<u8>),
    Op(u8),
    Invalid,
}

impl View for ScriptItem {
    type V = Instruction;

    open spec fn view(&self) -> Instruction {
        match self {
            ScriptItem::Push(bytes) => Instruction::Push(bytes@),
            ScriptItem::Op(op) => Instruction::Op(*op),
            ScriptItem::Invalid => Instruction::Invalid,
        }
    }
}

pub open spec fn items_view(items: Seq<ScriptItem>) -> Seq<Instruction> {
    Seq::new(items.len(), |i: int| items[i]@)
}

/// The instructions that the script parser of the `bitcoin` crate reads
/// from the bytes of a script.
pub uninterp spec fn script_instructions(script: Seq<u8>) -> Seq<Instruction>;

/// The script that the script builder of the `bitcoin` crate makes by
/// appending a push of `data` to `script`.
pub uninterp spec fn script_with_push(script: Seq<u8>, data: Seq<u8>) -> Seq<u8>;

/// The most bytes that one push of a carrier script holds.
pub const MAX_PUSH_BYTES: usize = 520;

/// Calls `bitcoin::Script::instructions` on the bytes of a script and
/// hands back what the iterator yields, one item for each instruction
/// in order: a push with its bytes, another opcode with its byte, or
/// `Invalid` for the error that ends a malformed script. The contract
/// only names the result.
#[verifier::external_body]
pub(crate) fn read_script(script: &Vec<u8>) -> (items: Vec<ScriptItem>)
    ensures
        items_view(items@) == script_instructions(script@),
{
    bitcoin::Script::from_bytes(script.as_slice()).instructions().map(
        |item| match item {
            Ok(bitcoin::script::Instruction::PushBytes(bytes)) => ScriptItem::Push(
                bytes.as_bytes().to_vec(),
            ),
            Ok(bitcoin::script::Instruction::Op(op)) => ScriptItem::Op(op.to_u8()),
            Err(_) => ScriptItem::Invalid,
        },
    ).collect()
}

/// Calls `bitcoin::script::Builder::push_slice` on a builder that holds
/// `script`, and hands back the bytes of the script it then holds. The
/// builder panics on data of 2^32 bytes or more, which the bound on
/// `data` leaves out. The contract only names the result.
#[verifier::external_body]
pub(crate) fn push_to_script(script: Vec<u8>, data: &Vec<u8>) -> (out: Vec<u8>)
    requires
        data@.len() <= MAX_PUSH_BYTES,
    ensures
        out@ == script_with_push(script@, data@),
{
    let bytes = bitcoin::script::PushBytesBuf::try_from(data.clone()).unwrap_or_default();
    bitcoin::script::Builder::from(script).push_slice(bytes).into_bytes()
}

/// Calls `bitcoin::script::Builder::push_opcode` with `OP_RETURN` on an
/// empty builder: the script of that one opcode.
#[verifier::external_body]
pub(crate) fn op_return_script() -> (out: Vec<u8>)
    ensures
        out@ == seq![OP_RETURN],
{
    bitcoin::script::Builder::new().push_opcode(bitcoin::opcodes::all::OP_RETURN).into_bytes()
}

impl TxOut {
    /// The output is unspendable: its script starts with `OP_RETURN`.
    pub open spec fn op_return(&self) -> bool {
        let items = script_instructions(self.script_pubkey@);
        items.len() > 0 && items[0] == Instruction::Op(OP_RETURN)
    }

    pub fn is_op_return(&self) -> (r: bool)
        ensures
            r == self.op_return(),
    {
        let items = read_script(&self.script_pubkey);
        assert(items_view(items@).len() == items@.len());
        if items.len() == 0 {
            return false;
        }
        assert(items_view(items@)[0] == items@[0]@);
        match &items[0] {
            ScriptItem::Op(op) => *op == OP_RETURN,
            _ => false,
        }
    }
}

impl Transaction {
    /// The index of the first output that is not unspendable.
    pub open spec fn fallback(&self) -> Option<u32> {
        first_spendable(self.output@, 0)
    }

    /// A pointer is an output that exists and can be spent.
    pub open spec fn pointer_valid(&self, pointer: u32) -> bool {
        pointer < self.output@.len() && !self.output@[pointer as int].op_return()
    }
}

/// The index of the first output from `from` on that is not
/// unspendable, if it fits in 32 bits.
pub open spec fn first_spendable(outputs: Seq<TxOut>, from: int) -> Option<u32>
    decreases outputs.len() - from,
{
    if from < 0 || from >= outputs.len() || from > u32::MAX {
        None
    } else if !outputs[from].op_return() {
        Some(from as u32)
    } else {
        first_spendable(outputs, from + 1)
    }
}

} // verus!
