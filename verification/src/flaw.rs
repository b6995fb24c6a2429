use vstd::prelude::*;

verus! {

/// Positions in a list, in rising order. They are kept as a chain so
/// that a flaw is a plain value: two flaws with the same positions are
/// equal.
#[derive(Debug, PartialEq, Eq)]
pub enum Positions {
    End,
    More(u32, Box<Positions>),
}

/// The positions that a chain holds, in order.
pub open spec fn listed(chain: Positions) -> Seq<u32>
    decreases chain,
{
    match chain {
        Positions::End => Seq::empty(),
        Positions::More(first, rest) => seq![first] + listed(*rest),
    }
}

impl View for Positions {
    type V = Seq<u32>;

    open spec fn view(&self) -> Seq<u32> {
        listed(*self)
    }
}

/// The chain that holds the first `n` positions of a list.
pub open spec fn positions_of(list: Seq<u32>, n: int) -> Positions
    decreases n,
{
    if n <= 0 || n > list.len() {
        Positions::End
    } else {
        Positions::More(list[list.len() - n], Box::new(positions_of(list, n - 1)))
    }
}

/// The chain of a list holds the positions of the list.
pub proof fn lemma_positions_view(list: Seq<u32>, n: int)
    requires
        0 <= n <= list.len(),
    ensures
        positions_of(list, n)@ == list.subrange(list.len() - n, list.len() as int),
    decreases n,
{
    if n > 0 {
        lemma_positions_view(list, n - 1);
        assert(seq![list[list.len() - n]] + list.subrange(list.len() - n + 1, list.len() as int)
            =~= list.subrange(list.len() - n, list.len() as int));
    } else {
        assert(list.subrange(list.len() as int, list.len() as int) =~= Seq::<u32>::empty());
    }
}

impl Positions {
    /// The chain that holds the positions of a list.
    pub fn of(list: &Vec<u32>) -> (r: Positions)
        ensures
            r == positions_of(list@, list@.len() as int),
            r@ == list@,
    {
        let mut chain = Positions::End;
        let mut n: usize = 0;
        while n < list.len()
            invariant
                n <= list@.len(),
                chain == positions_of(list@, n as int),
            decreases list@.len() - n,
        {
            chain = Positions::More(list[list.len() - 1 - n], Box::new(chain));
            n += 1;
        }
        proof {
            lemma_positions_view(list@, list@.len() as int);
            assert(list@.subrange(0, list@.len() as int) == list@);
        }
        chain
    }

    /// The positions as a list.
    pub fn to_vec(&self) -> (r: Vec<u32>)
        ensures
            r@ == self@,
    {
        let mut out: Vec<u32> = Vec::new();
        let mut at = self;
        loop
            invariant
                out@ + at@ == self@,
            ensures
                out@ == self@,
            decreases at,
        {
            match at {
                Positions::End => {
                    assert(out@ + Seq::<u32>::empty() == out@);
                    break ;
                },
                Positions::More(first, rest) => {
                    assert(out@.push(*first) + rest@ == out@ + (seq![*first] + rest@));
                    out.push(*first);
                    at = rest;
                },
            }
        }
        out
    }

    /// A copy of the chain.
    pub fn duplicate(&self) -> (r: Positions)
        ensures
            r == *self,
        decreases self,
    {
        match self {
            Positions::End => Positions::End,
            Positions::More(first, rest) => Positions::More(*first, Box::new(rest.duplicate())),
        }
    }

    /// Whether the chain holds no position.
    pub fn is_empty(&self) -> (r: bool)
        ensures
            r == (self@.len() == 0),
            r == (*self == Positions::End),
    {
        match self {
            Positions::End => true,
            Positions::More(_, _) => false,
        }
    }
}

/// The reason a message failed. A flawed message is recorded with its
/// flaw and changes no contract state.
#[derive(Debug, PartialEq, Eq)]
pub enum Flaw {
    // Codec.
    NonGlittrMessage,
    InvalidScript,
    /// A non-push opcode after the magic prefix; holds the opcode.
    InvalidInstruction(u8),
    FailedDeserialization,
    // Static validation.
    MessageInvalid,
    DivisibilityTooHigh,
    SupplyCapInvalid,
    AmountPerMintInvalid,
    FractionInvalid,
    PubkeyInvalid,
    InputAssetsInvalid,
    AssetTooLarge,
    InvalidBlockTxPointer,
    InvalidBitcoinAddress,
    // Contract lookup.
    ContractNotFound,
    ContractNotMatch,
    InvalidContractType,
    TickerAlreadyExists,
    ReferencingFlawedBlockTx,
    NotImplemented,
    // Time window and supply.
    LiveTimeNotReached,
    LiveTimeExpired,
    SupplyCapExceeded,
    // Pointers.
    PointerOverflow,
    InvalidPointer,
    PointerKeyNotFound,
    /// Transfers whose output does not exist; holds their positions in
    /// the list of transfers.
    OutputOverflow(Positions),
    // Amounts.
    InsufficientInputAmount,
    InsufficientOutputAmount,
    BurnValueIncorrect,
    // Oracle.
    OracleMintFailed,
    OracleMintStale,
    OutValueNotFound,
    // Pools and collateral accounts.
    PoolNotFound,
    CollateralAccountNotFound,
    LtvMustBeUpdated,
    OutstandingMustBeUpdated,
    OutstandingNotCleared,
    // Specification contracts.
    SpecContractViolation,
    SpecNotOwned,
    StateKeyNotFound,
}

/// The first of two flaws in the order of checking.
pub open spec fn first_flaw(a: Option<Flaw>, b: Option<Flaw>) -> Option<Flaw> {
    if a is Some {
        a
    } else {
        b
    }
}

impl Flaw {
    /// A copy of the flaw.
    pub fn duplicate(&self) -> (r: Flaw)
        ensures
            r == *self,
    {
        match self {
            Flaw::NonGlittrMessage => Flaw::NonGlittrMessage,
            Flaw::InvalidScript => Flaw::InvalidScript,
            Flaw::InvalidInstruction(op) => Flaw::InvalidInstruction(*op),
            Flaw::FailedDeserialization => Flaw::FailedDeserialization,
            Flaw::MessageInvalid => Flaw::MessageInvalid,
            Flaw::DivisibilityTooHigh => Flaw::DivisibilityTooHigh,
            Flaw::SupplyCapInvalid => Flaw::SupplyCapInvalid,
            Flaw::AmountPerMintInvalid => Flaw::AmountPerMintInvalid,
            Flaw::FractionInvalid => Flaw::FractionInvalid,
            Flaw::PubkeyInvalid => Flaw::PubkeyInvalid,
            Flaw::InputAssetsInvalid => Flaw::InputAssetsInvalid,
            Flaw::AssetTooLarge => Flaw::AssetTooLarge,
            Flaw::InvalidBlockTxPointer => Flaw::InvalidBlockTxPointer,
            Flaw::InvalidBitcoinAddress => Flaw::InvalidBitcoinAddress,
            Flaw::ContractNotFound => Flaw::ContractNotFound,
            Flaw::ContractNotMatch => Flaw::ContractNotMatch,
            Flaw::InvalidContractType => Flaw::InvalidContractType,
            Flaw::TickerAlreadyExists => Flaw::TickerAlreadyExists,
            Flaw::ReferencingFlawedBlockTx => Flaw::ReferencingFlawedBlockTx,
            Flaw::NotImplemented => Flaw::NotImplemented,
            Flaw::LiveTimeNotReached => Flaw::LiveTimeNotReached,
            Flaw::LiveTimeExpired => Flaw::LiveTimeExpired,
            Flaw::SupplyCapExceeded => Flaw::SupplyCapExceeded,
            Flaw::PointerOverflow => Flaw::PointerOverflow,
            Flaw::InvalidPointer => Flaw::InvalidPointer,
            Flaw::PointerKeyNotFound => Flaw::PointerKeyNotFound,
            Flaw::OutputOverflow(positions) => Flaw::OutputOverflow(positions.duplicate()),
            Flaw::InsufficientInputAmount => Flaw::InsufficientInputAmount,
            Flaw::InsufficientOutputAmount => Flaw::InsufficientOutputAmount,
            Flaw::BurnValueIncorrect => Flaw::BurnValueIncorrect,
            Flaw::OracleMintFailed => Flaw::OracleMintFailed,
            Flaw::OracleMintStale => Flaw::OracleMintStale,
            Flaw::OutValueNotFound => Flaw::OutValueNotFound,
            Flaw::PoolNotFound => Flaw::PoolNotFound,
            Flaw::CollateralAccountNotFound => Flaw::CollateralAccountNotFound,
            Flaw::LtvMustBeUpdated => Flaw::LtvMustBeUpdated,
            Flaw::OutstandingMustBeUpdated => Flaw::OutstandingMustBeUpdated,
            Flaw::OutstandingNotCleared => Flaw::OutstandingNotCleared,
            Flaw::SpecContractViolation => Flaw::SpecContractViolation,
            Flaw::SpecNotOwned => Flaw::SpecNotOwned,
            Flaw::StateKeyNotFound => Flaw::StateKeyNotFound,
        }
    }
}

} // verus!
