use vstd::prelude::*;

verus! {

/// Coordinate of an indexed transaction: the block height and the
/// position of the transaction inside that block. A contract is known
/// by the coordinate of the transaction that created it.
#[derive(Clone, Copy, Debug, PartialEq, Eq, Structural)]
pub struct BlockTx {
    pub block: u64,
    pub tx: u32,
}

impl BlockTx {
    pub fn from_tuple(t: (u64, u32)) -> (r: BlockTx)
        ensures
            r == (BlockTx { block: t.0, tx: t.1 }),
    {
        BlockTx { block: t.0, tx: t.1 }
    }

    pub fn to_tuple(&self) -> (r: (u64, u32))
        ensures
            r == (self.block, self.tx),
    {
        (self.block, self.tx)
    }
}

/// A 256-bit transaction identifier, kept as two 128-bit halves so that
/// it is a plain value: copied and compared without a loop.
#[derive(Clone, Copy, Debug, PartialEq, Eq, Structural)]
pub struct Txid {
    pub hi: u128,
    pub lo: u128,
}

/// The address of one transaction output.
#[derive(Clone, Copy, Debug, PartialEq, Eq, Structural)]
pub struct Outpoint {
    pub txid: Txid,
    pub vout: u32,
}

/// An amount of an asset. Arithmetic on amounts saturates.
#[derive(Clone, Copy, Debug, PartialEq, Eq, Structural)]
pub struct U128(pub u128);

/// A ratio of two amounts. A fraction is usable when its denominator is
/// not zero.
#[derive(Clone, Copy, Debug, PartialEq, Eq, Structural)]
pub struct Fraction {
    pub numerator: u128,
    pub denominator: u128,
}

impl Fraction {
    pub open spec fn valid(&self) -> bool {
        self.denominator != 0
    }

    pub fn is_valid(&self) -> (r: bool)
        ensures
            r == self.valid(),
    {
        self.denominator != 0
    }
}

/// Keys of the library's maps: values whose run-time comparison agrees
/// with equality of their views.
pub trait Key: View + Sized {
    fn same(&self, other: &Self) -> (r: bool)
        ensures
            r == (self@ == other@),
    ;
}

impl View for BlockTx {
    type V = BlockTx;

    open spec fn view(&self) -> BlockTx {
        *self
    }
}

impl View for Txid {
    type V = Txid;

    open spec fn view(&self) -> Txid {
        *self
    }
}

impl View for Outpoint {
    type V = Outpoint;

    open spec fn view(&self) -> Outpoint {
        *self
    }
}

/// Whether two byte strings hold the same bytes.
pub fn same_bytes(a: &Vec<u8>, b: &Vec<u8>) -> (r: bool)
    ensures
        r == (a@ == b@),
{
    if a.len() != b.len() {
        return false;
    }
    let mut i: usize = 0;
    while i < a.len()
        invariant
            i <= a@.len(),
            a@.len() == b@.len(),
            forall|j: int| 0 <= j < i ==> a@[j] == b@[j],
        decreases a@.len() - i,
    {
        if a[i] != b[i] {
            return false;
        }
        i += 1;
    }
    assert(a@ =~= b@);
    true
}

/// A copy of a byte string.
pub fn copy_bytes(a: &Vec<u8>) -> (r: Vec<u8>)
    ensures
        r@ == a@,
{
    let mut r: Vec<u8> = Vec::new();
    let mut i: usize = 0;
    while i < a.len()
        invariant
            i <= a@.len(),
            r@ == a@.subrange(0, i as int),
        decreases a@.len() - i,
    {
        r.push(a[i]);
        i += 1;
        assert(r@ == a@.subrange(0, i as int));
    }
    assert(a@.subrange(0, a@.len() as int) == a@);
    r
}

impl Key for Vec<u8> {
    fn same(&self, other: &Self) -> (r: bool) {
        same_bytes(self, other)
    }
}

impl Key for String {
    fn same(&self, other: &Self) -> (r: bool) {
        *self == *other
    }
}

impl Key for u32 {
    fn same(&self, other: &Self) -> (r: bool) {
        *self == *other
    }
}

impl Key for BlockTx {
    fn same(&self, other: &Self) -> (r: bool) {
        self.block == other.block && self.tx == other.tx
    }
}

impl Key for Txid {
    fn same(&self, other: &Self) -> (r: bool) {
        self.hi == other.hi && self.lo == other.lo
    }
}

impl Key for Outpoint {
    fn same(&self, other: &Self) -> (r: bool) {
        self.txid.same(&other.txid) && self.vout == other.vout
    }
}

} // verus!
