use crate::flaw::Flaw;
use crate::store::database::{vesting_view, DatabaseView};
use crate::types::BlockTx;
use crate::updater::ledger::Effect;
use crate::updater::{
    accounts_view, allocations_view, AccountView, AllocationView, CollateralAccount, Updater,
    UpdaterView, VestingContractData,
};
use crate::vec_map::VecMap;
use vstd::prelude::*;

verus! {

/// A claim on a preallocated asset: what the recipient has claimed in
/// all once the message is carried out.
#[derive(Debug)]
pub struct Claim {
    pub contract: BlockTx,
    pub recipient: Vec<u8>,
    pub claimed: u128,
}

pub struct ClaimView {
    pub contract: BlockTx,
    pub recipient: Seq<u8>,
    pub claimed: u128,
}

impl View for Claim {
    type V = ClaimView;

    open spec fn view(&self) -> ClaimView {
        ClaimView { contract: self.contract, recipient: self.recipient@, claimed: self.claimed }
    }
}

/// What becomes of the collateral account of a contract: it leaves the
/// bucket of the inputs and goes to the output `target` as `account`.
/// With `target` absent the account is closed.
#[derive(Debug)]
pub struct AccountMove {
    pub contract: BlockTx,
    pub target: Option<u32>,
    pub account: CollateralAccount,
}

pub struct AccountMoveView {
    pub contract: BlockTx,
    pub target: Option<u32>,
    pub account: AccountView,
}

impl View for AccountMove {
    type V = AccountMoveView;

    open spec fn view(&self) -> AccountMoveView {
        AccountMoveView { contract: self.contract, target: self.target, account: self.account@ }
    }
}

/// Everything a message that succeeds does to the state.
#[derive(Debug)]
pub struct Plan {
    pub effects: Vec<Effect>,
    pub claim: Option<Claim>,
    pub account: Option<AccountMove>,
}

pub struct PlanView {
    pub effects: Seq<Effect>,
    pub claim: Option<ClaimView>,
    pub account: Option<AccountMoveView>,
}

impl View for Plan {
    type V = PlanView;

    open spec fn view(&self) -> PlanView {
        PlanView {
            effects: self.effects@,
            claim: match self.claim {
                Some(c) => Some(c@),
                None => None,
            },
            account: match self.account {
                Some(a) => Some(a@),
                None => None,
            },
        }
    }
}

impl PlanView {
    /// A plan of steps on balances, holdings and counters alone.
    pub open spec fn of(effects: Seq<Effect>) -> PlanView {
        PlanView { effects, claim: None, account: None }
    }
}

/// What planning gave is what it was to give.
pub open spec fn plan_is(r: Result<Plan, Flaw>, wanted: Result<PlanView, Flaw>) -> bool {
    match (r, wanted) {
        (Ok(p), Ok(w)) => p@ == w,
        (Err(f), Err(g)) => f == g,
        _ => false,
    }
}

impl DatabaseView {
    /// What the recipients of a contract have claimed.
    pub open spec fn claims(self, contract: BlockTx) -> Map<Seq<u8>, u128> {
        if self.vesting.dom().contains(contract) {
            self.vesting[contract]
        } else {
            Map::empty()
        }
    }

    pub open spec fn with_claim(self, claim: ClaimView) -> DatabaseView {
        DatabaseView {
            vesting: self.vesting.insert(
                claim.contract,
                self.claims(claim.contract).insert(claim.recipient, claim.claimed),
            ),
            ..self
        }
    }
}

impl UpdaterView {
    pub open spec fn with_claim(self, claim: Option<ClaimView>) -> UpdaterView {
        match claim {
            Some(c) => if self.read_only {
                self
            } else {
                UpdaterView { db: self.db.with_claim(c), ..self }
            },
            None => self,
        }
    }

    pub open spec fn with_account_move(self, moved: Option<AccountMoveView>) -> UpdaterView {
        match moved {
            Some(m) => {
                let left = UpdaterView {
                    unallocated: AllocationView {
                        accounts: self.unallocated.accounts.remove(m.contract),
                        origins: self.unallocated.origins.remove(m.contract),
                        ..self.unallocated
                    },
                    ..self
                };
                match m.target {
                    Some(vout) => UpdaterView {
                        allocated: left.allocated.insert(
                            vout,
                            AllocationView {
                                accounts: left.allocation_at(vout).accounts.insert(
                                    m.contract,
                                    m.account,
                                ),
                                ..left.allocation_at(vout)
                            },
                        ),
                        ..left
                    },
                    None => left,
                }
            },
            None => self,
        }
    }

    /// The state after a plan was carried out: its steps in order, then
    /// its claim, then what it does to a collateral account.
    pub open spec fn after_plan(self, plan: PlanView) -> UpdaterView {
        self.after_all(plan.effects, plan.effects.len() as int).with_claim(
            plan.claim,
        ).with_account_move(plan.account)
    }
}

impl Plan {
    /// A plan of steps on balances, holdings and counters alone.
    pub fn of(effects: Vec<Effect>) -> (r: Plan)
        ensures
            r@ == PlanView::of(effects@),
    {
        Plan { effects, claim: None, account: None }
    }
}

impl Updater {
    fn record_claim(&mut self, claim: Claim)
        ensures
            final(self)@ == old(self)@.with_claim(Some(claim@)),
    {
        if !self.is_read_only {
            let mut data = match self.database.vesting_contract_data.remove(&claim.contract) {
                Some(d) => d,
                None => VestingContractData { claimed_allocations: VecMap::new() },
            };
            data.claimed_allocations.insert(claim.recipient, claim.claimed);
            self.database.vesting_contract_data.insert(claim.contract, data);
            assert(vesting_view(self.database.vesting_contract_data@) =~= old(
                self,
            )@.db.with_claim(claim@).vesting);
        }
    }

    fn move_account(&mut self, moved: AccountMove)
        ensures
            final(self)@ == old(self)@.with_account_move(Some(moved@)),
    {
        self.unallocated_inputs.collateral_accounts.remove(&moved.contract);
        self.unallocated_inputs.helper_outpoint_collateral_accounts.remove(&moved.contract);
        assert(accounts_view(self.unallocated_inputs.collateral_accounts@) =~= old(
            self,
        )@.unallocated.accounts.remove(moved.contract));
        if let Some(vout) = moved.target {
            let ghost left = self@;
            let mut a = self.take_allocation(vout);
            let ghost held = a.collateral_accounts@;
            a.collateral_accounts.insert(moved.contract, moved.account);
            assert(accounts_view(held.insert(moved.contract, moved.account)) =~= accounts_view(
                held,
            ).insert(moved.contract, moved.account@));
            self.allocated_outputs.insert(vout, a);
            assert(allocations_view(self.allocated_outputs@) =~= left.allocated.insert(vout, a@));
        }
    }

    /// Carries out a plan.
    pub fn carry_out(&mut self, plan: Plan)
        ensures
            final(self)@ == old(self)@.after_plan(plan@),
    {
        self.apply_all(&plan.effects);
        if let Some(claim) = plan.claim {
            self.record_claim(claim);
        }
        if let Some(moved) = plan.account {
            self.move_account(moved);
        }
    }
}

} // verus!
