use crate::flaw::Flaw;
use crate::math::{mul_div, sat};
use crate::transaction::message::{ContractType, MintBurnOption, OracleMessageSigned};
use crate::transaction::mint_burn_asset::{Collateralized, MintStructure};
use crate::transaction::shared::{
    FreeMint, InputAsset, Preallocated, PreallocatedShare, PurchaseBurnSwap, RatioType, Tranche,
    TransferScheme, VestingPlan,
};
use crate::transaction::{Transaction, TxOut};
use crate::types::{copy_bytes, same_bytes, BlockTx, Fraction, Outpoint, U128};
use crate::updater::account::revalued;
use crate::updater::ledger::Effect;
use crate::updater::oracle::{address_script, oracle_flaw, script_of_address, validate_oracle_message};
use crate::updater::collateralized::{compute_deposit_shares, deposit_shares};
use crate::updater::plan::{plan_is, AccountMove, AccountMoveView, Claim, ClaimView, Plan, PlanView};
use crate::updater::{
    amount_of, contract_of, pointer_flaw, sat_add, sat_sub, PBSMintResult, Updater, UpdaterView,
};
use vstd::prelude::*;

verus! {

/// The flaw of a call outside the time in which the contract is live:
/// before `live_time`, or from `end_time` on.
pub open spec fn live_time_flaw(live_time: u64, end_time: Option<u64>, block: u64) -> Option<Flaw> {
    if block < live_time {
        Some(Flaw::LiveTimeNotReached)
    } else if end_time matches Some(end) && block >= end {
        Some(Flaw::LiveTimeExpired)
    } else {
        None
    }
}

pub fn check_live_time(live_time: u64, end_time: Option<u64>, block: u64) -> (r: Option<Flaw>)
    ensures
        r == live_time_flaw(live_time, end_time, block),
{
    if block < live_time {
        return Some(Flaw::LiveTimeNotReached);
    }
    if let Some(end) = end_time {
        if block >= end {
            return Some(Flaw::LiveTimeExpired);
        }
    }
    None
}

/// The flaw of minting `amount` where `minted` has been minted: the
/// supply would exceed the cap. A supply that reaches the cap is
/// allowed.
pub open spec fn supply_flaw(minted: u128, cap: Option<U128>, amount: u128) -> Option<Flaw> {
    if cap matches Some(c) && sat_add(minted, amount) > c.0 {
        Some(Flaw::SupplyCapExceeded)
    } else {
        None
    }
}

pub fn check_supply(minted: u128, cap: Option<U128>, amount: u128) -> (r: Option<Flaw>)
    ensures
        r == supply_flaw(minted, cap, amount),
{
    if let Some(c) = cap {
        if minted.saturating_add(amount) > c.0 {
            return Some(Flaw::SupplyCapExceeded);
        }
    }
    None
}

/// The flaw of the pointer of a call that must have one.
pub open spec fn required_pointer_flaw(tx: &Transaction, pointer: Option<u32>) -> Option<Flaw> {
    match pointer {
        None => Some(Flaw::InvalidPointer),
        Some(p) => pointer_flaw(tx, p),
    }
}

/// The steps of minting: the amount is counted and given to an output.
pub open spec fn mint_effects(contract: BlockTx, vout: u32, amount: u128) -> Seq<Effect> {
    seq![Effect::Minted { contract, amount }, Effect::Credit { vout, asset: contract, amount }]
}

/// What a mint of `amount` does after the steps `before`: the amount is
/// counted and given to the pointer, unless the supply would exceed the
/// cap or the pointer is flawed.
pub open spec fn mint_after(
    s: UpdaterView,
    tx: &Transaction,
    contract: BlockTx,
    cap: Option<U128>,
    pointer: Option<u32>,
    before: Seq<Effect>,
    amount: u128,
) -> Result<PlanView, Flaw> {
    if supply_flaw(s.db.contract_data(contract).minted_supply, cap, amount) is Some {
        Err(Flaw::SupplyCapExceeded)
    } else {
        match required_pointer_flaw(tx, pointer) {
            Some(flaw) => Err(flaw),
            None => Ok(PlanView::of(before + mint_effects(contract, pointer->0, amount))),
        }
    }
}

/// What a free mint does: it mints `amount_per_mint` to the pointer,
/// unless the supply would exceed the cap of the mechanism or that of
/// the contract.
pub open spec fn free_mint_plan(
    s: UpdaterView,
    tx: &Transaction,
    contract: BlockTx,
    cap: Option<U128>,
    free_mint: FreeMint,
    pointer: Option<u32>,
) -> Result<PlanView, Flaw> {
    let minted = s.db.contract_data(contract).minted_supply;
    let amount = free_mint.amount_per_mint.0;
    if supply_flaw(minted, free_mint.supply_cap, amount) is Some {
        Err(Flaw::SupplyCapExceeded)
    } else {
        mint_after(s, tx, contract, cap, pointer, Seq::empty(), amount)
    }
}

/// Whether an output counts as payment under a transfer scheme: an
/// unspendable output where payments are burned, an output locked to
/// the script `target` where they are paid to an address.
pub open spec fn pays(output: TxOut, burn: bool, target: Seq<u8>) -> bool {
    if burn {
        output.op_return()
    } else {
        output.script_pubkey@ == target
    }
}

/// The value of the first `n` outputs that count as payment.
pub open spec fn paid_value(outputs: Seq<TxOut>, burn: bool, target: Seq<u8>, n: int) -> u128
    decreases n,
{
    if n <= 0 {
        0
    } else if pays(outputs[n - 1], burn, target) {
        sat_add(paid_value(outputs, burn, target, n - 1), outputs[n - 1].value as u128)
    } else {
        paid_value(outputs, burn, target, n - 1)
    }
}

/// The first of the first `n` outputs that counts as payment.
pub open spec fn first_paying(outputs: Seq<TxOut>, burn: bool, target: Seq<u8>, n: int) -> Option<u32>
    decreases n,
{
    if n <= 0 {
        None
    } else if first_paying(outputs, burn, target, n - 1) is Some {
        first_paying(outputs, burn, target, n - 1)
    } else if pays(outputs[n - 1], burn, target) && n - 1 <= u32::MAX {
        Some((n - 1) as u32)
    } else {
        None
    }
}

/// Sums the values of the outputs that count as payment, and finds the
/// first of them.
pub fn scan_payments(tx: &Transaction, burn: bool, target: &Vec<u8>) -> (r: (u128, Option<u32>))
    ensures
        r.0 == paid_value(tx.output@, burn, target@, tx.output@.len() as int),
        r.1 == first_paying(tx.output@, burn, target@, tx.output@.len() as int),
{
    let mut total: u128 = 0;
    let mut first: Option<u32> = None;
    let mut i: usize = 0;
    while i < tx.output.len()
        invariant
            i <= tx.output@.len(),
            total == paid_value(tx.output@, burn, target@, i as int),
            first == first_paying(tx.output@, burn, target@, i as int),
        decreases tx.output@.len() - i,
    {
        let counts = if burn {
            tx.output[i].is_op_return()
        } else {
            same_bytes(&tx.output[i].script_pubkey, target)
        };
        if counts {
            total = total.saturating_add(tx.output[i].value as u128);
            if first.is_none() && i <= u32::MAX as usize {
                first = Some(i as u32);
            }
        }
        i += 1;
    }
    (total, first)
}

/// What came in for a mint and what becomes of it.
pub struct Payment {
    pub received: u128,
    pub effects: Seq<Effect>,
}

/// The script that payments under a scheme are locked to; for burned
/// payments it plays no part.
pub open spec fn scheme_target(scheme: TransferScheme) -> Option<Seq<u8>> {
    match scheme {
        TransferScheme::Burn => Some(Seq::empty()),
        TransferScheme::Purchase(address) => script_of_address(address@),
    }
}

/// The payment that a transaction makes to a contract. Bitcoin is
/// counted on the outputs that the scheme names. An asset is taken
/// whole from the bucket of the inputs: it is burned, or it goes to the
/// first output locked to the address of the contract.
pub open spec fn payment_of(
    s: UpdaterView,
    tx: &Transaction,
    input_asset: InputAsset,
    scheme: TransferScheme,
) -> Result<Payment, Flaw> {
    let burn = scheme is Burn;
    match scheme_target(scheme) {
        None => Err(Flaw::InvalidBitcoinAddress),
        Some(target) => match input_asset {
            InputAsset::Metaprotocol => Err(Flaw::NotImplemented),
            InputAsset::RawBtc => Ok(
                Payment {
                    received: paid_value(tx.output@, burn, target, tx.output@.len() as int),
                    effects: Seq::empty(),
                },
            ),
            InputAsset::GlittrAsset(asset) => {
                let have = amount_of(s.unallocated.assets, asset);
                if burn {
                    Ok(
                        Payment {
                            received: have,
                            effects: seq![
                                Effect::Debit { asset, amount: have },
                                Effect::Burned { contract: asset, amount: have },
                            ],
                        },
                    )
                } else {
                    match first_paying(tx.output@, burn, target, tx.output@.len() as int) {
                        None => Err(Flaw::InsufficientInputAmount),
                        Some(vout) => Ok(
                            Payment {
                                received: have,
                                effects: seq![
                                    Effect::Debit { asset, amount: have },
                                    Effect::Credit { vout, asset, amount: have },
                                ],
                            },
                        ),
                    }
                }
            },
        },
    }
}

/// What is handed out for `received` under a ratio: the fixed ratio
/// applied to it, or what a valid oracle message states. An oracle
/// message must value an input of the transaction, and what came in
/// must reach its least value.
pub open spec fn out_value_of(
    tx: &Transaction,
    block: u64,
    ratio: RatioType,
    oracle_message: Option<OracleMessageSigned>,
    received: u128,
) -> Result<u128, Flaw> {
    match ratio {
        RatioType::Fixed { ratio } => if !ratio.valid() {
            Err(Flaw::FractionInvalid)
        } else {
            Ok(scaled(received, ratio))
        },
        RatioType::Oracle { setting } => match oracle_message {
            None => Err(Flaw::OracleMintFailed),
            Some(signed) => if oracle_flaw(&signed, &setting, block) is Some {
                Err(oracle_flaw(&signed, &setting, block)->0)
            } else if signed.message.min_in_value matches Some(least) && received < least.0 {
                Err(Flaw::OracleMintFailed)
            } else if signed.message.input_outpoint matches Some(valued) && !tx.input@.contains(
                valued,
            ) {
                Err(Flaw::OracleMintFailed)
            } else {
                match signed.message.out_value {
                    Some(value) => Ok(value.0),
                    None => match signed.message.ratio {
                        Some(r) => if r.valid() {
                            Ok(scaled(received, r))
                        } else {
                            Err(Flaw::FractionInvalid)
                        },
                        None => Err(Flaw::OutValueNotFound),
                    },
                }
            },
        },
    }
}

/// An amount times a ratio, rounded down and held to the range of
/// amounts.
pub open spec fn scaled(amount: u128, ratio: Fraction) -> u128 {
    sat((amount as int * ratio.numerator as int) / (ratio.denominator as int)) as u128
}

pub fn scale(amount: u128, ratio: Fraction) -> (r: u128)
    requires
        ratio.valid(),
    ensures
        r == scaled(amount, ratio),
{
    mul_div(amount, ratio.numerator, ratio.denominator)
}

/// Whether a transaction spends an output.
pub fn spends(tx: &Transaction, outpoint: &Outpoint) -> (r: bool)
    ensures
        r == tx.input@.contains(*outpoint),
{
    let mut i: usize = 0;
    while i < tx.input.len()
        invariant
            i <= tx.input@.len(),
            forall|j: int| 0 <= j < i ==> tx.input@[j] != *outpoint,
        decreases tx.input@.len() - i,
    {
        if tx.input[i].txid.hi == outpoint.txid.hi && tx.input[i].txid.lo == outpoint.txid.lo
            && tx.input[i].vout == outpoint.vout {
            assert(tx.input@[i as int] == *outpoint);
            return true;
        }
        i += 1;
    }
    false
}

/// Computes what is handed out for `received` under a ratio.
pub fn compute_out_value(
    tx: &Transaction,
    block: u64,
    ratio: &RatioType,
    oracle_message: &Option<OracleMessageSigned>,
    received: u128,
) -> (r: Result<u128, Flaw>)
    ensures
        r == out_value_of(tx, block, *ratio, *oracle_message, received),
{
    match ratio {
        RatioType::Fixed { ratio } => {
            if !ratio.is_valid() {
                Err(Flaw::FractionInvalid)
            } else {
                Ok(scale(received, *ratio))
            }
        },
        RatioType::Oracle { setting } => match oracle_message {
            None => Err(Flaw::OracleMintFailed),
            Some(signed) => {
                if let Some(flaw) = validate_oracle_message(signed, setting, block) {
                    return Err(flaw);
                }
                if let Some(least) = signed.message.min_in_value {
                    if received < least.0 {
                        return Err(Flaw::OracleMintFailed);
                    }
                }
                if let Some(valued) = signed.message.input_outpoint {
                    if !spends(tx, &valued) {
                        return Err(Flaw::OracleMintFailed);
                    }
                }
                match signed.message.out_value {
                    Some(value) => Ok(value.0),
                    None => match signed.message.ratio {
                        Some(r) => {
                            if r.is_valid() {
                                Ok(scale(received, r))
                            } else {
                                Err(Flaw::FractionInvalid)
                            }
                        },
                        None => Err(Flaw::OutValueNotFound),
                    },
                }
            },
        },
    }
}

/// What a mint by purchase does: the payment is taken, and what the
/// ratio gives for it is minted to the pointer.
pub open spec fn purchase_plan(
    s: UpdaterView,
    tx: &Transaction,
    block: u64,
    contract: BlockTx,
    cap: Option<U128>,
    pbs: PurchaseBurnSwap,
    option: MintBurnOption,
) -> Result<PlanView, Flaw> {
    match payment_of(s, tx, pbs.input_asset, pbs.transfer_scheme) {
        Err(flaw) => Err(flaw),
        Ok(payment) => match out_value_of(
            tx,
            block,
            pbs.ratio,
            option.oracle_message,
            payment.received,
        ) {
            Err(flaw) => Err(flaw),
            Ok(out) => mint_after(s, tx, contract, cap, option.pointer, payment.effects, out),
        },
    }
}

/// What a recipient was set aside among the first `n` allocations.
pub open spec fn allocated_to(shares: Seq<PreallocatedShare>, recipient: Seq<u8>, n: int) -> u128
    decreases n,
{
    if n <= 0 {
        0
    } else if shares[n - 1].recipient@ == recipient {
        sat_add(allocated_to(shares, recipient, n - 1), shares[n - 1].amount.0)
    } else {
        allocated_to(shares, recipient, n - 1)
    }
}

/// What the first `n` tranches of a schedule have released of `total`
/// at a block.
pub open spec fn released(tranches: Seq<Tranche>, total: u128, block: u64, n: int) -> u128
    decreases n,
{
    if n <= 0 {
        0
    } else if tranches[n - 1].height <= block && tranches[n - 1].share.valid() {
        sat_add(released(tranches, total, block, n - 1), scaled(total, tranches[n - 1].share))
    } else {
        released(tranches, total, block, n - 1)
    }
}

/// What a recipient is entitled to of `total` at a block: all of it
/// without a plan or once the lock has passed, else what the schedule
/// has released, and never more than `total`.
pub open spec fn vested(plan: Option<VestingPlan>, total: u128, block: u64) -> u128 {
    match plan {
        None => total,
        Some(VestingPlan::Timelock(height)) => if block >= height {
            total
        } else {
            0
        },
        Some(VestingPlan::Scheduled(tranches)) => {
            let out = released(tranches@, total, block, tranches@.len() as int);
            if out < total {
                out
            } else {
                total
            }
        },
    }
}

/// What a recipient has claimed of a contract.
pub open spec fn claimed_by(s: UpdaterView, contract: BlockTx, recipient: Seq<u8>) -> u128 {
    if s.db.claims(contract).dom().contains(recipient) {
        s.db.claims(contract)[recipient]
    } else {
        0
    }
}

/// What a mint of a preallocated asset does: the recipient that the
/// commitment names gets what it is entitled to at the block and has
/// not claimed yet. The oracle message must be valid.
pub open spec fn preallocated_plan(
    s: UpdaterView,
    tx: &Transaction,
    block: u64,
    contract: BlockTx,
    cap: Option<U128>,
    pre: Preallocated,
    option: MintBurnOption,
) -> Result<PlanView, Flaw> {
    match (option.commitment_message, option.oracle_message) {
        (Some(commitment), Some(signed)) => if oracle_flaw(&signed, &pre.oracle_setting, block)
            is Some {
            Err(oracle_flaw(&signed, &pre.oracle_setting, block)->0)
        } else {
            let recipient = commitment.public_key@;
            let total = allocated_to(pre.allocations@, recipient, pre.allocations@.len() as int);
            let claimed = claimed_by(s, contract, recipient);
            let claimable = sat_sub(vested(pre.vesting_plan, total, block), claimed);
            if claimable == 0 {
                Err(Flaw::InsufficientOutputAmount)
            } else {
                match mint_after(s, tx, contract, cap, option.pointer, Seq::empty(), claimable) {
                    Err(flaw) => Err(flaw),
                    Ok(plan) => Ok(
                        PlanView {
                            claim: Some(
                                ClaimView {
                                    contract,
                                    recipient,
                                    claimed: sat_add(claimed, claimable),
                                },
                            ),
                            ..plan
                        },
                    ),
                }
            }
        },
        _ => Err(Flaw::OracleMintFailed),
    }
}

/// The asset that an input of a collateralized contract names, where
/// it names one.
pub open spec fn glittr_asset(assets: Seq<InputAsset>, i: int) -> Option<BlockTx> {
    if 0 <= i < assets.len() {
        match assets[i] {
            InputAsset::GlittrAsset(id) => Some(id),
            _ => None,
        }
    } else {
        None
    }
}

/// What a mint against collateral at a ratio does: the first input
/// asset of the contract is taken whole from the bucket of the inputs
/// into the holdings of the contract, and what the ratio gives for it
/// is minted.
pub open spec fn ratio_mint_plan(
    s: UpdaterView,
    tx: &Transaction,
    block: u64,
    contract: BlockTx,
    cap: Option<U128>,
    c: Collateralized,
    ratio: RatioType,
    option: MintBurnOption,
) -> Result<PlanView, Flaw> {
    match glittr_asset(c.input_assets@, 0) {
        None => Err(Flaw::NotImplemented),
        Some(asset) => {
            let received = amount_of(s.unallocated.assets, asset);
            if received == 0 {
                Err(Flaw::InsufficientInputAmount)
            } else {
                match out_value_of(tx, block, ratio, option.oracle_message, received) {
                    Err(flaw) => Err(flaw),
                    Ok(out) => mint_after(
                        s,
                        tx,
                        contract,
                        cap,
                        option.pointer,
                        seq![
                            Effect::Debit { asset, amount: received },
                            Effect::Deposit { pool: contract, asset, amount: received },
                        ],
                        out,
                    ),
                }
            }
        },
    }
}

/// What a deposit into a pool of two assets does: everything that the
/// bucket of the inputs holds of the two goes into the pool, and the
/// shares handed out for it are minted.
pub open spec fn liquidity_plan(
    s: UpdaterView,
    tx: &Transaction,
    contract: BlockTx,
    cap: Option<U128>,
    c: Collateralized,
    option: MintBurnOption,
) -> Result<PlanView, Flaw> {
    match (glittr_asset(c.input_assets@, 0), glittr_asset(c.input_assets@, 1)) {
        (Some(a), Some(b)) => {
            let dx = amount_of(s.unallocated.assets, a);
            let dy = amount_of(s.unallocated.assets, b);
            let pool = s.db.pool(contract);
            let shares = deposit_shares(
                amount_of(pool.amounts, a),
                amount_of(pool.amounts, b),
                pool.total_supply,
                dx,
                dy,
            );
            if dx == 0 || dy == 0 {
                Err(Flaw::InsufficientInputAmount)
            } else if shares == 0 {
                Err(Flaw::InsufficientOutputAmount)
            } else if least_out(option) > shares {
                Err(Flaw::InsufficientOutputAmount)
            } else {
                mint_after(
                    s,
                    tx,
                    contract,
                    cap,
                    option.pointer,
                    seq![
                        Effect::Debit { asset: a, amount: dx },
                        Effect::Debit { asset: b, amount: dy },
                        Effect::Deposit { pool: contract, asset: a, amount: dx },
                        Effect::Deposit { pool: contract, asset: b, amount: dy },
                        Effect::IssueShares { pool: contract, amount: shares },
                    ],
                    shares,
                )
            }
        },
        _ => Err(Flaw::PoolNotFound),
    }
}

/// The least that a call accepts to get out; nothing where it does not
/// say.
pub open spec fn least_out(option: MintBurnOption) -> u128 {
    match option.assert_values {
        Some(values) => match values.min_out_value {
            Some(least) => least.0,
            None => 0,
        },
        None => 0,
    }
}

pub fn least_out_value(option: &MintBurnOption) -> (r: u128)
    ensures
        r == least_out(*option),
{
    match &option.assert_values {
        Some(values) => match values.min_out_value {
            Some(least) => least.0,
            None => 0,
        },
        None => 0,
    }
}

/// What a mint against a collateral account does. The account of the
/// contract must be in the bucket of the inputs, and a valid oracle
/// message must value the output that the account came from. The
/// message sets the loan-to-value ratio and the debt of the account and
/// states what is minted; the account goes to the output that
/// `pointer_to_key` names.
pub open spec fn account_mint_plan(
    s: UpdaterView,
    tx: &Transaction,
    block: u64,
    contract: BlockTx,
    cap: Option<U128>,
    ratio: RatioType,
    option: MintBurnOption,
) -> Result<PlanView, Flaw> {
    if !s.unallocated.accounts.dom().contains(contract) {
        Err(Flaw::CollateralAccountNotFound)
    } else {
        match (ratio, option.oracle_message) {
            (RatioType::Fixed { .. }, _) => Err(Flaw::NotImplemented),
            (_, None) => Err(Flaw::OracleMintFailed),
            (RatioType::Oracle { setting }, Some(signed)) => if oracle_flaw(
                &signed,
                &setting,
                block,
            ) is Some {
                Err(oracle_flaw(&signed, &setting, block)->0)
            } else if !(signed.message.input_outpoint matches Some(valued)
                && s.unallocated.origins.dom().contains(contract) && s.unallocated.origins[contract]
                == valued) {
                Err(Flaw::OracleMintFailed)
            } else {
                match (signed.message.ltv, signed.message.outstanding, signed.message.out_value) {
                    (None, _, _) => Err(Flaw::LtvMustBeUpdated),
                    (_, None, _) => Err(Flaw::OutstandingMustBeUpdated),
                    (_, _, None) => Err(Flaw::OutValueNotFound),
                    (Some(ltv), Some(outstanding), Some(out)) => match option.pointer_to_key {
                        None => Err(Flaw::PointerKeyNotFound),
                        Some(key) => if pointer_flaw(tx, key) is Some {
                            Err(pointer_flaw(tx, key)->0)
                        } else {
                            match mint_after(
                                s,
                                tx,
                                contract,
                                cap,
                                option.pointer,
                                Seq::empty(),
                                out.0,
                            ) {
                                Err(flaw) => Err(flaw),
                                Ok(plan) => Ok(
                                    PlanView {
                                        account: Some(
                                            AccountMoveView {
                                                contract,
                                                target: Some(key),
                                                account: revalued(
                                                    s.unallocated.accounts[contract],
                                                    ltv,
                                                    outstanding.0,
                                                ),
                                            },
                                        ),
                                        ..plan
                                    },
                                ),
                            }
                        },
                    },
                }
            },
        }
    }
}

/// What a mint against collateral does, by the structure of the
/// contract.
pub open spec fn collateralized_plan(
    s: UpdaterView,
    tx: &Transaction,
    block: u64,
    contract: BlockTx,
    cap: Option<U128>,
    c: Collateralized,
    option: MintBurnOption,
) -> Result<PlanView, Flaw> {
    match c.mint_structure {
        MintStructure::Ratio(ratio) => ratio_mint_plan(s, tx, block, contract, cap, c, ratio, option),
        MintStructure::Proportional(_) => liquidity_plan(s, tx, contract, cap, c, option),
        MintStructure::Account(account) => account_mint_plan(
            s,
            tx,
            block,
            contract,
            cap,
            account.ratio,
            option,
        ),
    }
}

/// What a mint does under the mechanisms of a contract: the first of
/// free mint, preallocation, purchase and collateral that the contract
/// has.
pub open spec fn mechanism_plan(
    s: UpdaterView,
    tx: &Transaction,
    block: u64,
    contract: BlockTx,
    cap: Option<U128>,
    free_mint: Option<FreeMint>,
    preallocated: Option<Preallocated>,
    purchase: Option<PurchaseBurnSwap>,
    collateralized: Option<Collateralized>,
    option: MintBurnOption,
) -> Result<PlanView, Flaw> {
    if let Some(m) = free_mint {
        free_mint_plan(s, tx, contract, cap, m, option.pointer)
    } else if let Some(p) = preallocated {
        preallocated_plan(s, tx, block, contract, cap, p, option)
    } else if let Some(p) = purchase {
        purchase_plan(s, tx, block, contract, cap, p, option)
    } else if let Some(c) = collateralized {
        collateralized_plan(s, tx, block, contract, cap, c, option)
    } else {
        Err(Flaw::NotImplemented)
    }
}

/// What a mint call does. The contract must be a fungible asset that
/// is live at the block.
pub open spec fn mint_plan(
    s: UpdaterView,
    tx: &Transaction,
    block: u64,
    contract: BlockTx,
    option: MintBurnOption,
) -> Result<PlanView, Flaw> {
    match contract_of(s.db, contract) {
        Err(flaw) => Err(flaw),
        Ok(message) => match message.contract_creation {
            None => Err(Flaw::ContractNotMatch),
            Some(creation) => match creation.contract_type {
                ContractType::Moa(moa) => if live_time_flaw(moa.live_time, moa.end_time, block)
                    is Some {
                    Err(live_time_flaw(moa.live_time, moa.end_time, block)->0)
                } else {
                    mechanism_plan(
                        s,
                        tx,
                        block,
                        contract,
                        moa.supply_cap,
                        moa.mint_mechanism.free_mint,
                        moa.mint_mechanism.preallocated,
                        moa.mint_mechanism.purchase,
                        None,
                        option,
                    )
                },
                ContractType::Mba(mba) => if live_time_flaw(mba.live_time, mba.end_time, block)
                    is Some {
                    Err(live_time_flaw(mba.live_time, mba.end_time, block)->0)
                } else {
                    mechanism_plan(
                        s,
                        tx,
                        block,
                        contract,
                        mba.supply_cap,
                        mba.mint_mechanism.free_mint,
                        mba.mint_mechanism.preallocated,
                        mba.mint_mechanism.purchase,
                        mba.mint_mechanism.collateralized,
                        option,
                    )
                },
                _ => Err(Flaw::ContractNotMatch),
            },
        },
    }
}

/// The asset that an input of a collateralized contract names.
pub fn input_glittr_asset(assets: &Vec<InputAsset>, i: usize) -> (r: Option<BlockTx>)
    ensures
        r == glittr_asset(assets@, i as int),
{
    if i < assets.len() {
        match assets[i] {
            InputAsset::GlittrAsset(id) => Some(id),
            _ => None,
        }
    } else {
        None
    }
}

impl Updater {
    /// Plans the end of a mint: the supply and the pointer are checked,
    /// and the steps of minting follow the steps `before`.
    pub fn plan_mint_after(
        &self,
        tx: &Transaction,
        contract: &BlockTx,
        cap: Option<U128>,
        pointer: Option<u32>,
        before: Vec<Effect>,
        amount: u128,
    ) -> (r: Result<Plan, Flaw>)
        ensures
            plan_is(r, mint_after(self@, tx, *contract, cap, pointer, before@, amount)),
    {
        let minted = self.get_asset_contract_data(contract).minted_supply;
        if check_supply(minted, cap, amount).is_some() {
            return Err(Flaw::SupplyCapExceeded);
        }
        match pointer {
            None => Err(Flaw::InvalidPointer),
            Some(vout) => {
                if let Some(flaw) = Self::validate_pointer(vout, tx) {
                    return Err(flaw);
                }
                let mut effects = before;
                effects.push(Effect::Minted { contract: *contract, amount });
                effects.push(Effect::Credit { vout, asset: *contract, amount });
                assert(effects@ =~= before@ + mint_effects(*contract, vout, amount));
                Ok(Plan::of(effects))
            },
        }
    }

    /// Plans a free mint.
    pub fn mint_free_mint(
        &self,
        tx: &Transaction,
        contract: &BlockTx,
        cap: Option<U128>,
        free_mint: FreeMint,
        pointer: Option<u32>,
    ) -> (r: Result<Plan, Flaw>)
        ensures
            plan_is(r, free_mint_plan(self@, tx, *contract, cap, free_mint, pointer)),
    {
        let minted = self.get_asset_contract_data(contract).minted_supply;
        let amount = free_mint.amount_per_mint.0;
        if check_supply(minted, free_mint.supply_cap, amount).is_some() {
            return Err(Flaw::SupplyCapExceeded);
        }
        self.plan_mint_after(tx, contract, cap, pointer, Vec::new(), amount)
    }

    /// Finds the payment that a transaction makes to a contract.
    pub fn compute_payment(
        &self,
        tx: &Transaction,
        input_asset: &InputAsset,
        scheme: &TransferScheme,
    ) -> (r: Result<(u128, Vec<Effect>), Flaw>)
        ensures
            match (r, payment_of(self@, tx, *input_asset, *scheme)) {
                (Ok(p), Ok(w)) => p.0 == w.received && p.1@ == w.effects,
                (Err(f), Err(g)) => f == g,
                _ => false,
            },
    {
        let (burn, target) = match scheme {
            TransferScheme::Burn => (true, Vec::new()),
            TransferScheme::Purchase(address) => match address_script(address) {
                Some(script) => (false, script),
                None => {
                    return Err(Flaw::InvalidBitcoinAddress);
                },
            },
        };
        assert(scheme_target(*scheme) == Some(target@));
        match input_asset {
            InputAsset::Metaprotocol => Err(Flaw::NotImplemented),
            InputAsset::RawBtc => {
                let scanned = scan_payments(tx, burn, &target);
                Ok((scanned.0, Vec::new()))
            },
            InputAsset::GlittrAsset(asset) => {
                let have = self.unallocated_inputs.asset_list.amount(asset);
                let mut effects: Vec<Effect> = Vec::new();
                effects.push(Effect::Debit { asset: *asset, amount: have });
                if burn {
                    effects.push(Effect::Burned { contract: *asset, amount: have });
                    assert(effects@ =~= seq![
                        Effect::Debit { asset: *asset, amount: have },
                        Effect::Burned { contract: *asset, amount: have },
                    ]);
                    Ok((have, effects))
                } else {
                    let scanned = scan_payments(tx, burn, &target);
                    match scanned.1 {
                        None => Err(Flaw::InsufficientInputAmount),
                        Some(vout) => {
                            effects.push(Effect::Credit { vout, asset: *asset, amount: have });
                            assert(effects@ =~= seq![
                                Effect::Debit { asset: *asset, amount: have },
                                Effect::Credit { vout, asset: *asset, amount: have },
                            ]);
                            Ok((have, effects))
                        },
                    }
                }
            },
        }
    }

    /// Plans a mint by purchase.
    pub fn mint_purchase_burn_swap(
        &self,
        pbs: &PurchaseBurnSwap,
        tx: &Transaction,
        block: u64,
        contract_id: &BlockTx,
        cap: Option<U128>,
        mint_option: &MintBurnOption,
    ) -> (r: Result<Plan, Flaw>)
        ensures
            plan_is(r, purchase_plan(self@, tx, block, *contract_id, cap, *pbs, *mint_option)),
    {
        let payment = match self.compute_payment(tx, &pbs.input_asset, &pbs.transfer_scheme) {
            Ok(p) => p,
            Err(flaw) => {
                return Err(flaw);
            },
        };
        let out = match compute_out_value(
            tx,
            block,
            &pbs.ratio,
            &mint_option.oracle_message,
            payment.0,
        ) {
            Ok(v) => v,
            Err(flaw) => {
                return Err(flaw);
            },
        };
        self.plan_mint_after(tx, contract_id, cap, mint_option.pointer, payment.1, out)
    }

    /// What a mint by purchase would give, and the output it would go
    /// to.
    pub fn purchase_result(
        &self,
        pbs: &PurchaseBurnSwap,
        tx: &Transaction,
        block: u64,
        contract_id: &BlockTx,
        cap: Option<U128>,
        mint_option: &MintBurnOption,
    ) -> (r: Result<PBSMintResult, Flaw>)
        ensures
            match purchase_plan(self@, tx, block, *contract_id, cap, *pbs, *mint_option) {
                Ok(_) => r == Ok::<PBSMintResult, Flaw>(
                    PBSMintResult {
                        out_value: out_value_of(
                            tx,
                            block,
                            pbs.ratio,
                            mint_option.oracle_message,
                            payment_of(self@, tx, pbs.input_asset, pbs.transfer_scheme)->Ok_0.received,
                        )->Ok_0,
                        txout: mint_option.pointer->0,
                    },
                ),
                Err(flaw) => r == Err::<PBSMintResult, Flaw>(flaw),
            },
    {
        let payment = match self.compute_payment(tx, &pbs.input_asset, &pbs.transfer_scheme) {
            Ok(p) => p,
            Err(flaw) => {
                return Err(flaw);
            },
        };
        let out = match compute_out_value(
            tx,
            block,
            &pbs.ratio,
            &mint_option.oracle_message,
            payment.0,
        ) {
            Ok(v) => v,
            Err(flaw) => {
                return Err(flaw);
            },
        };
        let minted = self.get_asset_contract_data(contract_id).minted_supply;
        if check_supply(minted, cap, out).is_some() {
            return Err(Flaw::SupplyCapExceeded);
        }
        match mint_option.pointer {
            None => Err(Flaw::InvalidPointer),
            Some(vout) => match Self::validate_pointer(vout, tx) {
                Some(flaw) => Err(flaw),
                None => Ok(PBSMintResult { out_value: out, txout: vout }),
            },
        }
    }

    /// What a recipient has claimed of a contract.
    pub fn claimed(&self, contract: &BlockTx, recipient: &Vec<u8>) -> (r: u128)
        ensures
            r == claimed_by(self@, *contract, recipient@),
    {
        match self.database.vesting_contract_data.get(contract) {
            Some(data) => match data.claimed_allocations.get(recipient) {
                Some(a) => *a,
                None => 0,
            },
            None => 0,
        }
    }

    /// Plans a mint of a preallocated asset.
    pub fn mint_preallocated(
        &self,
        pre: &Preallocated,
        tx: &Transaction,
        block: u64,
        contract: &BlockTx,
        cap: Option<U128>,
        option: &MintBurnOption,
    ) -> (r: Result<Plan, Flaw>)
        ensures
            plan_is(r, preallocated_plan(self@, tx, block, *contract, cap, *pre, *option)),
    {
        match (&option.commitment_message, &option.oracle_message) {
            (Some(commitment), Some(signed)) => {
                if let Some(flaw) = validate_oracle_message(signed, &pre.oracle_setting, block) {
                    return Err(flaw);
                }
                let total = compute_allocated_to(&pre.allocations, &commitment.public_key);
                let claimed = self.claimed(contract, &commitment.public_key);
                let entitled = compute_vested(&pre.vesting_plan, total, block);
                let claimable = entitled.saturating_sub(claimed);
                if claimable == 0 {
                    return Err(Flaw::InsufficientOutputAmount);
                }
                match self.plan_mint_after(
                    tx,
                    contract,
                    cap,
                    option.pointer,
                    Vec::new(),
                    claimable,
                ) {
                    Err(flaw) => Err(flaw),
                    Ok(plan) => Ok(
                        Plan {
                            effects: plan.effects,
                            claim: Some(
                                Claim {
                                    contract: *contract,
                                    recipient: copy_bytes(&commitment.public_key),
                                    claimed: claimed.saturating_add(claimable),
                                },
                            ),
                            account: None,
                        },
                    ),
                }
            },
            _ => Err(Flaw::OracleMintFailed),
        }
    }

    /// Plans a mint against collateral at a ratio.
    pub fn mint_ratio(
        &self,
        c: &Collateralized,
        ratio: &RatioType,
        tx: &Transaction,
        block: u64,
        contract: &BlockTx,
        cap: Option<U128>,
        option: &MintBurnOption,
    ) -> (r: Result<Plan, Flaw>)
        ensures
            plan_is(r, ratio_mint_plan(self@, tx, block, *contract, cap, *c, *ratio, *option)),
    {
        let asset = match input_glittr_asset(&c.input_assets, 0) {
            Some(a) => a,
            None => {
                return Err(Flaw::NotImplemented);
            },
        };
        let received = self.unallocated_inputs.asset_list.amount(&asset);
        if received == 0 {
            return Err(Flaw::InsufficientInputAmount);
        }
        let out = match compute_out_value(tx, block, ratio, &option.oracle_message, received) {
            Ok(v) => v,
            Err(flaw) => {
                return Err(flaw);
            },
        };
        let mut before: Vec<Effect> = Vec::new();
        before.push(Effect::Debit { asset, amount: received });
        before.push(Effect::Deposit { pool: *contract, asset, amount: received });
        assert(before@ =~= seq![
            Effect::Debit { asset, amount: received },
            Effect::Deposit { pool: *contract, asset, amount: received },
        ]);
        self.plan_mint_after(tx, contract, cap, option.pointer, before, out)
    }

    /// What a contract holds of an asset, and the shares it has out.
    pub fn pool_amounts(&self, contract: &BlockTx, a: &BlockTx, b: &BlockTx) -> (r: Option<
        (u128, u128, u128),
    >)
        ensures
            r == (if self@.db.pools.dom().contains(*contract) {
                Some(
                    (
                        amount_of(self@.db.pool(*contract).amounts, *a),
                        amount_of(self@.db.pool(*contract).amounts, *b),
                        self@.db.pool(*contract).total_supply,
                    ),
                )
            } else {
                None
            }),
    {
        match self.database.pool_data.get(contract) {
            Some(p) => Some((p.amounts.amount(a), p.amounts.amount(b), p.total_supply)),
            None => None,
        }
    }

    /// Plans a deposit into a pool of two assets.
    pub fn mint_liquidity(
        &self,
        c: &Collateralized,
        tx: &Transaction,
        contract: &BlockTx,
        cap: Option<U128>,
        option: &MintBurnOption,
    ) -> (r: Result<Plan, Flaw>)
        ensures
            plan_is(r, liquidity_plan(self@, tx, *contract, cap, *c, *option)),
    {
        match (input_glittr_asset(&c.input_assets, 0), input_glittr_asset(&c.input_assets, 1)) {
            (Some(a), Some(b)) => {
                let dx = self.unallocated_inputs.asset_list.amount(&a);
                let dy = self.unallocated_inputs.asset_list.amount(&b);
                if dx == 0 || dy == 0 {
                    return Err(Flaw::InsufficientInputAmount);
                }
                let held = match self.pool_amounts(contract, &a, &b) {
                    Some(h) => h,
                    None => (0, 0, 0),
                };
                let shares = compute_deposit_shares(held.0, held.1, held.2, dx, dy);
                if shares == 0 {
                    return Err(Flaw::InsufficientOutputAmount);
                }
                if least_out_value(option) > shares {
                    return Err(Flaw::InsufficientOutputAmount);
                }
                let mut before: Vec<Effect> = Vec::new();
                before.push(Effect::Debit { asset: a, amount: dx });
                before.push(Effect::Debit { asset: b, amount: dy });
                before.push(Effect::Deposit { pool: *contract, asset: a, amount: dx });
                before.push(Effect::Deposit { pool: *contract, asset: b, amount: dy });
                before.push(Effect::IssueShares { pool: *contract, amount: shares });
                assert(before@ =~= seq![
                    Effect::Debit { asset: a, amount: dx },
                    Effect::Debit { asset: b, amount: dy },
                    Effect::Deposit { pool: *contract, asset: a, amount: dx },
                    Effect::Deposit { pool: *contract, asset: b, amount: dy },
                    Effect::IssueShares { pool: *contract, amount: shares },
                ]);
                self.plan_mint_after(tx, contract, cap, option.pointer, before, shares)
            },
            _ => Err(Flaw::PoolNotFound),
        }
    }

    /// Plans a mint against a collateral account.
    pub fn mint_account(
        &self,
        ratio: &RatioType,
        tx: &Transaction,
        block: u64,
        contract: &BlockTx,
        cap: Option<U128>,
        option: &MintBurnOption,
    ) -> (r: Result<Plan, Flaw>)
        ensures
            plan_is(r, account_mint_plan(self@, tx, block, *contract, cap, *ratio, *option)),
    {
        let account = match self.unallocated_inputs.collateral_accounts.get(contract) {
            Some(a) => a,
            None => {
                return Err(Flaw::CollateralAccountNotFound);
            },
        };
        let setting = match ratio {
            RatioType::Fixed { .. } => {
                return Err(Flaw::NotImplemented);
            },
            RatioType::Oracle { setting } => setting,
        };
        let signed = match &option.oracle_message {
            None => {
                return Err(Flaw::OracleMintFailed);
            },
            Some(signed) => signed,
        };
        if let Some(flaw) = validate_oracle_message(signed, setting, block) {
            return Err(flaw);
        }
        let from = match (
            signed.message.input_outpoint,
            self.unallocated_inputs.helper_outpoint_collateral_accounts.get(contract),
        ) {
            (Some(valued), Some(origin)) => valued.txid.hi == origin.txid.hi && valued.txid.lo
                == origin.txid.lo && valued.vout == origin.vout,
            _ => false,
        };
        if !from {
            return Err(Flaw::OracleMintFailed);
        }
        let ltv = match signed.message.ltv {
            Some(v) => v,
            None => {
                return Err(Flaw::LtvMustBeUpdated);
            },
        };
        let outstanding = match signed.message.outstanding {
            Some(v) => v,
            None => {
                return Err(Flaw::OutstandingMustBeUpdated);
            },
        };
        let out = match signed.message.out_value {
            Some(v) => v,
            None => {
                return Err(Flaw::OutValueNotFound);
            },
        };
        let key = match option.pointer_to_key {
            Some(k) => k,
            None => {
                return Err(Flaw::PointerKeyNotFound);
            },
        };
        if let Some(flaw) = Self::validate_pointer(key, tx) {
            return Err(flaw);
        }
        match self.plan_mint_after(tx, contract, cap, option.pointer, Vec::new(), out.0) {
            Err(flaw) => Err(flaw),
            Ok(plan) => {
                let mut moved = account.duplicate();
                moved.ltv = ltv;
                moved.amount_outstanding = outstanding.0;
                Ok(
                    Plan {
                        effects: plan.effects,
                        claim: None,
                        account: Some(
                            AccountMove { contract: *contract, target: Some(key), account: moved },
                        ),
                    },
                )
            },
        }
    }

    /// Plans a mint call.
    pub fn plan_mint(
        &self,
        tx: &Transaction,
        block: u64,
        contract_id: &BlockTx,
        mint_option: &MintBurnOption,
    ) -> (r: Result<Plan, Flaw>)
        ensures
            plan_is(r, mint_plan(self@, tx, block, *contract_id, *mint_option)),
    {
        let message = match self.get_message(contract_id) {
            Ok(m) => m,
            Err(flaw) => {
                return Err(flaw);
            },
        };
        let creation = match &message.contract_creation {
            Some(c) => c,
            None => {
                return Err(Flaw::ContractNotMatch);
            },
        };
        match &creation.contract_type {
            ContractType::Moa(moa) => {
                if let Some(flaw) = check_live_time(moa.live_time, moa.end_time, block) {
                    return Err(flaw);
                }
                if let Some(m) = moa.mint_mechanism.free_mint {
                    self.mint_free_mint(tx, contract_id, moa.supply_cap, m, mint_option.pointer)
                } else if let Some(p) = &moa.mint_mechanism.preallocated {
                    self.mint_preallocated(p, tx, block, contract_id, moa.supply_cap, mint_option)
                } else if let Some(p) = &moa.mint_mechanism.purchase {
                    self.mint_purchase_burn_swap(
                        p,
                        tx,
                        block,
                        contract_id,
                        moa.supply_cap,
                        mint_option,
                    )
                } else {
                    Err(Flaw::NotImplemented)
                }
            },
            ContractType::Mba(mba) => {
                if let Some(flaw) = check_live_time(mba.live_time, mba.end_time, block) {
                    return Err(flaw);
                }
                if let Some(m) = mba.mint_mechanism.free_mint {
                    self.mint_free_mint(tx, contract_id, mba.supply_cap, m, mint_option.pointer)
                } else if let Some(p) = &mba.mint_mechanism.preallocated {
                    self.mint_preallocated(p, tx, block, contract_id, mba.supply_cap, mint_option)
                } else if let Some(p) = &mba.mint_mechanism.purchase {
                    self.mint_purchase_burn_swap(
                        p,
                        tx,
                        block,
                        contract_id,
                        mba.supply_cap,
                        mint_option,
                    )
                } else if let Some(c) = &mba.mint_mechanism.collateralized {
                    match &c.mint_structure {
                        MintStructure::Ratio(ratio) => self.mint_ratio(
                            c,
                            ratio,
                            tx,
                            block,
                            contract_id,
                            mba.supply_cap,
                            mint_option,
                        ),
                        MintStructure::Proportional(_) => self.mint_liquidity(
                            c,
                            tx,
                            contract_id,
                            mba.supply_cap,
                            mint_option,
                        ),
                        MintStructure::Account(account) => self.mint_account(
                            &account.ratio,
                            tx,
                            block,
                            contract_id,
                            mba.supply_cap,
                            mint_option,
                        ),
                    }
                } else {
                    Err(Flaw::NotImplemented)
                }
            },
            _ => Err(Flaw::ContractNotMatch),
        }
    }

    /// Carries out a plan where planning gave one, and hands back the
    /// flaw where it gave none. A flaw leaves the state as it is.
    pub fn settle(&mut self, planned: Result<Plan, Flaw>) -> (r: Option<Flaw>)
        ensures
            match planned {
                Ok(plan) => r is None && final(self)@ == old(self)@.after_plan(plan@),
                Err(flaw) => r == Some(flaw) && final(self)@ == old(self)@,
            },
    {
        match planned {
            Ok(plan) => {
                self.carry_out(plan);
                None
            },
            Err(flaw) => Some(flaw),
        }
    }

    /// Carries out a mint call.
    pub fn mint(
        &mut self,
        tx: &Transaction,
        block_tx: &BlockTx,
        contract_id: &BlockTx,
        mint_option: &MintBurnOption,
    ) -> (r: Option<Flaw>)
        ensures
            match mint_plan(old(self)@, tx, block_tx.block, *contract_id, *mint_option) {
                Ok(plan) => r is None && final(self)@ == old(self)@.after_plan(plan),
                Err(flaw) => r matches Some(f) && f == flaw && final(self)@ == old(self)@,
            },
    {
        let planned = self.plan_mint(tx, block_tx.block, contract_id, mint_option);
        self.settle(planned)
    }
}

/// Sums what a recipient was set aside.
pub fn compute_allocated_to(shares: &Vec<PreallocatedShare>, recipient: &Vec<u8>) -> (r: u128)
    ensures
        r == allocated_to(shares@, recipient@, shares@.len() as int),
{
    let mut total: u128 = 0;
    let mut i: usize = 0;
    while i < shares.len()
        invariant
            i <= shares@.len(),
            total == allocated_to(shares@, recipient@, i as int),
        decreases shares@.len() - i,
    {
        if same_bytes(&shares[i].recipient, recipient) {
            total = total.saturating_add(shares[i].amount.0);
        }
        i += 1;
    }
    total
}

/// Computes what a recipient is entitled to at a block.
pub fn compute_vested(plan: &Option<VestingPlan>, total: u128, block: u64) -> (r: u128)
    ensures
        r == vested(*plan, total, block),
{
    match plan {
        None => total,
        Some(VestingPlan::Timelock(height)) => {
            if block >= *height {
                total
            } else {
                0
            }
        },
        Some(VestingPlan::Scheduled(tranches)) => {
            let mut out: u128 = 0;
            let mut i: usize = 0;
            while i < tranches.len()
                invariant
                    i <= tranches@.len(),
                    out == released(tranches@, total, block, i as int),
                decreases tranches@.len() - i,
            {
                let t = tranches[i];
                if t.height <= block && t.share.is_valid() {
                    out = out.saturating_add(scale(total, t.share));
                }
                i += 1;
            }
            if out < total {
                out
            } else {
                total
            }
        },
    }
}

} // verus!
