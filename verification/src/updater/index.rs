use crate::flaw::Flaw;
use crate::store::database::DatabaseView;
use crate::transaction::message::{CallType, ContractCall, OpReturnMessage, TxTypeTransfer};
use crate::transaction::Transaction;
use crate::types::{BlockTx, Txid};
use crate::updater::account::{close_account_plan, open_account_plan};
use crate::updater::burn::burn_plan;
use crate::updater::collateralized::PoolView;
use crate::updater::creation::{creation_flaw, update_nft_flaw};
use crate::updater::mint::mint_plan;
use crate::updater::plan::PlanView;
use crate::updater::swap::swap_plan;
use crate::updater::{
    transfer_flaw, AssetContractData, MessageDataOutcome, Updater, UpdaterView,
};
use vstd::prelude::*;

verus! {

/// What a part of a message comes to: the state after it, and its flaw
/// if it failed.
pub struct Step {
    pub state: UpdaterView,
    pub flaw: Option<Flaw>,
}

/// A plan that was made is carried out; a flaw leaves the state as it
/// is.
pub open spec fn settled(s: UpdaterView, planned: Result<PlanView, Flaw>) -> Step {
    match planned {
        Ok(plan) => Step { state: s.after_plan(plan), flaw: None },
        Err(flaw) => Step { state: s, flaw: Some(flaw) },
    }
}

/// What the call of a message comes to. A call must name its contract.
#[verifier::opaque]
pub open spec fn call_step(s: UpdaterView, tx: &Transaction, current: BlockTx, call: ContractCall) -> Step {
    match call.contract {
        None => Step { state: s, flaw: Some(Flaw::ContractNotFound) },
        Some(id) => match call.call_type {
            CallType::Mint(option) => settled(s, mint_plan(s, tx, current.block, id, option)),
            CallType::Burn(option) => settled(s, burn_plan(s, tx, current.block, id, option)),
            CallType::Swap(option) => settled(s, swap_plan(s, tx, current.block, id, option)),
            CallType::OpenAccount(option) => settled(
                s,
                open_account_plan(s, tx, current.block, id, option),
            ),
            CallType::CloseAccount(option) => settled(
                s,
                close_account_plan(s, tx, current.block, id, option),
            ),
            CallType::UpdateNft(option) => match update_nft_flaw(s, tx, id, option) {
                Some(flaw) => Step { state: s, flaw: Some(flaw) },
                None => Step { state: s.after_update_nft(current, id, option), flaw: None },
            },
        },
    }
}

/// What the transfers of a message come to, where its shape has the
/// flaw `shape`: a message with a flawed shape moves nothing.
pub open spec fn transfer_step(s: UpdaterView, tx: &Transaction, message: OpReturnMessage, shape: Option<Flaw>) -> Step {
    if shape is Some {
        Step { state: s, flaw: shape }
    } else {
        match message.transfer {
            None => Step { state: s, flaw: None },
            Some(t) => if t.transfers@.len() > u32::MAX {
                Step { state: s, flaw: Some(Flaw::MessageInvalid) }
            } else {
                Step {
                    state: s.with_transfers(
                        t.transfers@,
                        tx.output@.len(),
                        t.transfers@.len() as int,
                    ),
                    flaw: transfer_flaw(t.transfers@, tx.output@.len()),
                }
            },
        }
    }
}

/// What a message comes to. Its shape is checked first, then its
/// transfers are carried out, its creation is checked and its call is
/// carried out, each part only where no part before it failed. The
/// creation takes effect last, and only where no part failed.
#[verifier::opaque]
pub open spec fn message_step(s: UpdaterView, tx: &Transaction, current: BlockTx, message: OpReturnMessage) -> Step {
    let moved = transfer_step(s, tx, message, message.spec_validate());
    let checked = if moved.flaw is Some {
        moved.flaw
    } else {
        match message.contract_creation {
            Some(creation) => creation_flaw(moved.state, tx, creation),
            None => None,
        }
    };
    let called = if checked is Some {
        Step { state: moved.state, flaw: checked }
    } else {
        match message.contract_call {
            Some(call) => call_step(moved.state, tx, current, call),
            None => Step { state: moved.state, flaw: None },
        }
    };
    if called.flaw is None {
        match message.contract_creation {
            Some(creation) => Step {
                state: called.state.after_creation(current, creation),
                flaw: None,
            },
            None => called,
        }
    } else {
        called
    }
}

/// What indexing comes to for what parsing gave: a message is carried
/// out, a flaw of parsing stands as it is.
pub open spec fn index_step(
    s: UpdaterView,
    tx: &Transaction,
    current: BlockTx,
    parsed: Result<OpReturnMessage, Flaw>,
) -> Step {
    match parsed {
        Ok(message) => message_step(s, tx, current, message),
        Err(flaw) => Step { state: s, flaw: Some(flaw) },
    }
}

/// Whether a transaction carries a payload, be it flawed.
pub open spec fn carries_payload(tx: &Transaction, decoded: Option<OpReturnMessage>) -> bool {
    OpReturnMessage::parsed(tx, decoded) != Err::<OpReturnMessage, Flaw>(Flaw::NonGlittrMessage)
}

/// What a transaction comes to, where `decoded` is the message that
/// decoding its payload gave, if it gave one. The inputs are taken in
/// whatever parsing gives; a transaction that carries a payload is
/// indexed; the outputs are committed in every case.
pub open spec fn transaction_step(
    s: UpdaterView,
    tx: &Transaction,
    current: BlockTx,
    decoded: Option<OpReturnMessage>,
) -> Step {
    let parsed = OpReturnMessage::parsed(tx, decoded);
    let taken = s.after_inputs(tx.input@, tx.input@.len() as int);
    if !carries_payload(tx, decoded) {
        Step { state: taken, flaw: Some(Flaw::NonGlittrMessage) }
    } else {
        index_step(taken, tx, current, parsed)
    }
}

/// What is recorded of a transaction: the message that parsing gave,
/// if it gave one, and the flaw that indexing came to.
pub open spec fn outcome_of(parsed: Result<OpReturnMessage, Flaw>, flaw: Option<Flaw>) -> MessageDataOutcome {
    MessageDataOutcome {
        message: match parsed {
            Ok(message) => Some(message),
            Err(_) => None,
        },
        flaw,
    }
}

/// The state after what parsing gave was indexed and the outcome
/// recorded.
pub open spec fn indexed(
    s: UpdaterView,
    tx: &Transaction,
    current: BlockTx,
    parsed: Result<OpReturnMessage, Flaw>,
) -> UpdaterView {
    let step = index_step(s, tx, current, parsed);
    step.state.recorded(current, tx.txid, outcome_of(parsed, step.flaw))
}

/// The state after a transaction was indexed from its inputs to its
/// outputs. The outcome of a transaction without a payload is not
/// recorded.
pub open spec fn processed(
    s: UpdaterView,
    tx: &Transaction,
    current: BlockTx,
    decoded: Option<OpReturnMessage>,
) -> UpdaterView {
    settled_state(s, tx, current, decoded).committed(tx.txid, tx.fallback())
}

/// The state in which the outputs of a transaction are committed: the
/// inputs were taken in, and the message, if the transaction carries a
/// payload, was indexed.
pub open spec fn settled_state(
    s: UpdaterView,
    tx: &Transaction,
    current: BlockTx,
    decoded: Option<OpReturnMessage>,
) -> UpdaterView {
    let taken = s.after_inputs(tx.input@, tx.input@.len() as int);
    if carries_payload(tx, decoded) {
        indexed(taken, tx, current, OpReturnMessage::parsed(tx, decoded))
    } else {
        taken
    }
}

/// The state after the first `n` transactions of a block were indexed
/// in order. Each entry is a transaction with the message that
/// decoding its payload gave, if it gave one.
pub open spec fn replayed(
    s: UpdaterView,
    block_height: u64,
    entries: Seq<(Transaction, Option<OpReturnMessage>)>,
    n: int,
) -> UpdaterView
    decreases n,
{
    if n <= 0 {
        s
    } else {
        processed(
            replayed(s, block_height, entries, n - 1),
            &entries[n - 1].0,
            BlockTx { block: block_height, tx: (n - 1) as u32 },
            entries[n - 1].1,
        )
    }
}

/// The state after a block was marked as indexed in full.
pub open spec fn finished(s: UpdaterView, block_height: u64) -> UpdaterView {
    if s.read_only {
        s
    } else {
        UpdaterView { db: DatabaseView { last_block: Some(block_height), ..s.db }, ..s }
    }
}

/// Indexing is determined by the store and the transactions: two
/// blocks with the same first `n` entries bring the same state to the
/// same state. Indexing the same chain again from the same store gives
/// the same store.
pub proof fn lemma_replay_determined(
    s: UpdaterView,
    block_height: u64,
    a: Seq<(Transaction, Option<OpReturnMessage>)>,
    b: Seq<(Transaction, Option<OpReturnMessage>)>,
    n: int,
)
    requires
        0 <= n <= a.len(),
        n <= b.len(),
        forall|i: int| 0 <= i < n ==> a[i] == b[i],
    ensures
        replayed(s, block_height, a, n) == replayed(s, block_height, b, n),
    decreases n,
{
    if n > 0 {
        lemma_replay_determined(s, block_height, a, b, n - 1);
    }
}

/// Indexing can stop after any transaction and go on from the state it
/// has reached: the end is the same as without the stop.
pub proof fn lemma_replay_resumes(
    s: UpdaterView,
    block_height: u64,
    entries: Seq<(Transaction, Option<OpReturnMessage>)>,
    k: int,
    n: int,
)
    requires
        0 <= k <= n <= entries.len(),
    ensures
        replayed(s, block_height, entries, n) == resumed(
            replayed(s, block_height, entries, k),
            block_height,
            entries,
            k,
            n,
        ),
    decreases n - k,
{
    if k < n {
        lemma_replay_resumes(s, block_height, entries, k, n - 1);
    }
}

/// The state after the transactions from `k` up to `n` of a block were
/// indexed in order, from a state that the first `k` have led to.
pub open spec fn resumed(
    s: UpdaterView,
    block_height: u64,
    entries: Seq<(Transaction, Option<OpReturnMessage>)>,
    k: int,
    n: int,
) -> UpdaterView
    decreases n - k,
{
    if n <= k {
        s
    } else {
        processed(
            resumed(s, block_height, entries, k, n - 1),
            &entries[n - 1].0,
            BlockTx { block: block_height, tx: (n - 1) as u32 },
            entries[n - 1].1,
        )
    }
}

/// The state of the contracts: everything in the store but what the
/// outputs hold and the outcomes of messages.
pub struct ContractState {
    pub asset_contract_data: Map<BlockTx, AssetContractData>,
    pub vesting: Map<BlockTx, Map<Seq<u8>, u128>>,
    pub pools: Map<BlockTx, PoolView>,
    pub tickers: Map<Seq<char>, BlockTx>,
    pub updates: Map<BlockTx, BlockTx>,
}

impl DatabaseView {
    pub open spec fn contract_state(self) -> ContractState {
        ContractState {
            asset_contract_data: self.asset_contract_data,
            vesting: self.vesting,
            pools: self.pools,
            tickers: self.tickers,
            updates: self.updates,
        }
    }
}

impl UpdaterView {
    /// The state after the outcome of a transaction was recorded.
    pub open spec fn recorded(self, current: BlockTx, txid: Txid, outcome: MessageDataOutcome) -> UpdaterView {
        if self.read_only {
            self
        } else {
            UpdaterView {
                db: DatabaseView {
                    messages: self.db.messages.insert(current, outcome),
                    tx_to_block_tx: self.db.tx_to_block_tx.insert(txid, current),
                    ..self.db
                },
                ..self
            }
        }
    }
}

/// Transfers change the buckets alone.
pub proof fn lemma_transfers_keep_store(s: UpdaterView, transfers: Seq<TxTypeTransfer>, outputs: nat, n: int)
    ensures
        s.with_transfers(transfers, outputs, n).db == s.db,
        s.with_transfers(transfers, outputs, n).read_only == s.read_only,
    decreases n,
{
    if n > 0 {
        lemma_transfers_keep_store(s, transfers, outputs, n - 1);
    }
}

/// Taking in the inputs of a transaction changes what the outputs
/// hold, and nothing else of the store.
pub proof fn lemma_inputs_keep_contracts(s: UpdaterView, inputs: Seq<crate::types::Outpoint>, n: int)
    ensures
        s.after_inputs(inputs, n).db.contract_state() == s.db.contract_state(),
        s.after_inputs(inputs, n).db.messages == s.db.messages,
        s.after_inputs(inputs, n).read_only == s.read_only,
    decreases n,
{
    if n > 0 {
        lemma_inputs_keep_contracts(s, inputs, n - 1);
    }
}

/// Steps never change whether the store is written.
pub proof fn lemma_effects_keep_mode(s: UpdaterView, effects: Seq<crate::updater::ledger::Effect>, n: int)
    ensures
        s.after_all(effects, n).read_only == s.read_only,
    decreases n,
{
    if n > 0 {
        lemma_effects_keep_mode(s, effects, n - 1);
    }
}

/// Indexing never changes whether the store is written.
pub proof fn lemma_index_keeps_mode(
    s: UpdaterView,
    tx: &Transaction,
    current: BlockTx,
    parsed: Result<OpReturnMessage, Flaw>,
)
    ensures
        index_step(s, tx, current, parsed).state.read_only == s.read_only,
{
    reveal(message_step);
    reveal(call_step);
    if let Ok(message) = parsed {
        let moved = transfer_step(s, tx, message, message.spec_validate());
        assert(moved.state.read_only == s.read_only) by {
            if let Some(t) = message.transfer {
                lemma_transfers_keep_store(
                    s,
                    t.transfers@,
                    tx.output@.len(),
                    t.transfers@.len() as int,
                );
            }
        }
        assert forall|plan: PlanView| #[trigger]
            moved.state.after_plan(plan).read_only == s.read_only by {
            lemma_effects_keep_mode(moved.state, plan.effects, plan.effects.len() as int);
        }
    }
}

/// A message that fails leaves the store as it was.
pub proof fn lemma_flawed_message_keeps_contracts(
    s: UpdaterView,
    tx: &Transaction,
    current: BlockTx,
    parsed: Result<OpReturnMessage, Flaw>,
)
    requires
        index_step(s, tx, current, parsed).flaw is Some,
    ensures
        index_step(s, tx, current, parsed).state.db == s.db,
{
    reveal(message_step);
    reveal(call_step);
    if let Ok(message) = parsed {
        let moved = transfer_step(s, tx, message, message.spec_validate());
        assert(moved.state.db == s.db) by {
            if let Some(t) = message.transfer {
                lemma_transfers_keep_store(
                    s,
                    t.transfers@,
                    tx.output@.len(),
                    t.transfers@.len() as int,
                );
            }
        }
        let checked = if moved.flaw is Some {
            moved.flaw
        } else {
            match message.contract_creation {
                Some(creation) => creation_flaw(moved.state, tx, creation),
                None => None,
            }
        };
        if checked is None {
            if let Some(call) = message.contract_call {
                let called = call_step(moved.state, tx, current, call);
                assert(called.flaw is Some ==> called.state == moved.state);
            }
        }
    }
}

impl Updater {
    /// Carries out the call of a message.
    pub fn call(&mut self, tx: &Transaction, current: &BlockTx, call: &ContractCall) -> (r: Option<Flaw>)
        ensures
            r == call_step(old(self)@, tx, *current, *call).flaw,
            final(self)@ == call_step(old(self)@, tx, *current, *call).state,
    {
        reveal(call_step);
        let id = match call.contract {
            Some(id) => id,
            None => {
                return Some(Flaw::ContractNotFound);
            },
        };
        match &call.call_type {
            CallType::Mint(option) => self.mint(tx, current, &id, option),
            CallType::Burn(option) => self.burn(tx, current, &id, option),
            CallType::Swap(option) => self.swap(tx, current, &id, option),
            CallType::OpenAccount(option) => self.open_account(tx, current, &id, option),
            CallType::CloseAccount(option) => self.close_account(tx, current, &id, option),
            CallType::UpdateNft(option) => self.update_nft(tx, current, &id, option),
        }
    }

    /// Carries out a message.
    pub fn execute(&mut self, tx: &Transaction, current: &BlockTx, message: &OpReturnMessage) -> (r:
        Option<Flaw>)
        ensures
            r == message_step(old(self)@, tx, *current, *message).flaw,
            final(self)@ == message_step(old(self)@, tx, *current, *message).state,
    {
        reveal(message_step);
        let shape = message.validate();
        if shape.is_some() {
            return shape;
        }
        if let Some(t) = &message.transfer {
            if t.transfers.len() > u32::MAX as usize {
                return Some(Flaw::MessageInvalid);
            }
            let moved = self.transfers(tx, &t.transfers);
            if moved.is_some() {
                return moved;
            }
        }
        if let Some(creation) = &message.contract_creation {
            let checked = self.check_creation(tx, creation);
            if checked.is_some() {
                return checked;
            }
        }
        if let Some(call) = &message.contract_call {
            let called = self.call(tx, current, call);
            if called.is_some() {
                return called;
            }
        }
        if let Some(creation) = &message.contract_creation {
            self.apply_creation(current, creation);
        }
        None
    }

    /// Indexes one transaction from its inputs to its outputs. The
    /// outcome of a transaction that carries a payload is recorded
    /// under the transaction, also where the message failed.
    pub fn index_transaction(
        &mut self,
        block_height: u64,
        tx_index: u32,
        tx: &Transaction,
        decoded: Option<OpReturnMessage>,
    ) -> (r: Option<Flaw>)
        ensures
            r == transaction_step(
                old(self)@,
                tx,
                BlockTx { block: block_height, tx: tx_index },
                decoded,
            ).flaw,
            final(self)@ == processed(
                old(self)@,
                tx,
                BlockTx { block: block_height, tx: tx_index },
                decoded,
            ),
            r is Some ==> final(self)@.db.contract_state() == old(self)@.db.contract_state(),
    {
        let ghost current = BlockTx { block: block_height, tx: tx_index };
        let parsed = OpReturnMessage::parse_tx(tx, decoded);
        self.unallocate_inputs(tx);
        let ghost taken = self@;
        proof {
            lemma_inputs_keep_contracts(old(self)@, tx.input@, tx.input@.len() as int);
            lemma_index_keeps_mode(taken, tx, current, parsed);
        }
        let skip = match &parsed {
            Err(Flaw::NonGlittrMessage) => true,
            _ => false,
        };
        let flaw = if skip {
            Some(Flaw::NonGlittrMessage)
        } else {
            self.index(block_height, tx_index, tx, parsed)
        };
        let ghost indexed = self@;
        self.commit_outputs(tx);
        flaw
    }

    /// Indexes the transactions of a block in order and marks the
    /// block as indexed in full. Each entry is a transaction with the
    /// message that decoding its payload gave, if it gave one.
    pub fn index_block(
        &mut self,
        block_height: u64,
        entries: Vec<(Transaction, Option<OpReturnMessage>)>,
    )
        requires
            entries@.len() <= u32::MAX,
        ensures
            final(self)@ == finished(
                replayed(old(self)@, block_height, entries@, entries@.len() as int),
                block_height,
            ),
    {
        let mut entries = entries;
        let ghost all = entries@;
        let mut stack: Vec<(Transaction, Option<OpReturnMessage>)> = Vec::new();
        loop
            invariant
                entries@.len() + stack@.len() == all.len(),
                forall|i: int| 0 <= i < entries@.len() ==> entries@[i] == all[i],
                forall|i: int|
                    0 <= i < stack@.len() ==> stack@[i] == all[all.len() - 1 - i],
            ensures
                stack@.len() == all.len(),
            decreases entries@.len(),
        {
            match entries.pop() {
                Some(e) => {
                    stack.push(e);
                },
                None => {
                    break ;
                },
            }
        }
        let mut n: u32 = 0;
        loop
            invariant
                all.len() <= u32::MAX,
                n + stack@.len() == all.len(),
                forall|i: int|
                    0 <= i < stack@.len() ==> stack@[i] == all[all.len() - 1 - i],
                self@ == replayed(old(self)@, block_height, all, n as int),
            ensures
                n == all.len(),
            decreases stack@.len(),
        {
            match stack.pop() {
                Some(e) => {
                    assert(e == all[n as int]);
                    self.index_transaction(block_height, n, &e.0, e.1);
                    n += 1;
                },
                None => {
                    break ;
                },
            }
        }
        self.finish_block(block_height);
    }

    /// Marks a block as indexed in full.
    pub fn finish_block(&mut self, block_height: u64)
        ensures
            final(self)@ == finished(old(self)@, block_height),
    {
        if !self.is_read_only {
            self.database.last_block = Some(block_height);
        }
    }

    /// Indexes the message of a transaction, or the flaw that parsing
    /// it gave, and records the outcome under the transaction. The
    /// inputs of the transaction must have been taken in before, and
    /// its outputs are committed after.
    pub fn index(
        &mut self,
        block_height: u64,
        tx_index: u32,
        tx: &Transaction,
        message_result: Result<OpReturnMessage, Flaw>,
    ) -> (r: Option<Flaw>)
        ensures
            r == index_step(
                old(self)@,
                tx,
                BlockTx { block: block_height, tx: tx_index },
                message_result,
            ).flaw,
            final(self)@ == indexed(
                old(self)@,
                tx,
                BlockTx { block: block_height, tx: tx_index },
                message_result,
            ),
            r is Some ==> final(self)@.db.contract_state() == old(self)@.db.contract_state(),
    {
        let current = BlockTx { block: block_height, tx: tx_index };
        proof {
            lemma_index_keeps_mode(old(self)@, tx, current, message_result);
            if index_step(old(self)@, tx, current, message_result).flaw is Some {
                lemma_flawed_message_keeps_contracts(old(self)@, tx, current, message_result);
            }
        }
        let (message, flaw) = match message_result {
            Ok(message) => {
                let flaw = self.execute(tx, &current, &message);
                (Some(message), flaw)
            },
            Err(flaw) => (None, Some(flaw)),
        };
        let kept = match &flaw {
            Some(f) => Some(f.duplicate()),
            None => None,
        };
        let ghost step = index_step(old(self)@, tx, current, message_result);
        assert(self@ == step.state);
        if !self.is_read_only {
            let outcome = MessageDataOutcome { message, flaw: kept };
            assert(outcome == outcome_of(message_result, step.flaw));
            self.database.messages.insert(current, outcome);
            self.database.tx_to_block_tx.insert(tx.txid, current);
        }
        flaw
    }
}

} // verus!
