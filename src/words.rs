use vstd::prelude::*;

verus! {

/// A 256-bit value (a hash or an unsigned integer), held as two big-endian halves.
#[derive(Clone, Copy, Debug, PartialEq, Eq, Structural, Hash)]
pub struct Word256 {
    pub high: u128,
    pub low: u128,
}

/// A 160-bit account address, held as two big-endian parts.
#[derive(Clone, Copy, Debug, PartialEq, Eq, Structural, Hash)]
pub struct Address {
    pub high: u32,
    pub low: u128,
}

/// Upper half of the Keccak-256 hash of the empty byte string.
pub const KECCAK_EMPTY_HIGH: u128 = 0xc5d2460186f7233c927e7db2dcc703c0;

/// Lower half of the Keccak-256 hash of the empty byte string.
pub const KECCAK_EMPTY_LOW: u128 = 0xe500b653ca82273b7bfad8045d85a470;

/// The code hash of an account without code.
pub open spec fn empty_code_hash() -> Word256 {
    Word256 { high: KECCAK_EMPTY_HIGH, low: KECCAK_EMPTY_LOW }
}

/// The value zero.
pub open spec fn zero_word() -> Word256 {
    Word256 { high: 0, low: 0 }
}

/// The mathematical value of a word.
pub open spec fn word_value(w: Word256) -> nat {
    (w.high as nat) * 0x1_0000_0000_0000_0000_0000_0000_0000_0000nat + (w.low as nat)
}

/// The hash of the empty byte string, which marks an account without code.
pub fn keccak_empty() -> (r: Word256)
    ensures
        r == empty_code_hash(),
{
    Word256 { high: KECCAK_EMPTY_HIGH, low: KECCAK_EMPTY_LOW }
}

impl Word256 {
    /// The value zero.
    pub fn zero() -> (r: Word256)
        ensures
            r == zero_word(),
            word_value(r) == 0,
    {
        Word256 { high: 0, low: 0 }
    }

    /// A word holding a value that fits in 128 bits.
    pub fn from_u128(v: u128) -> (r: Word256)
        ensures
            word_value(r) == v as nat,
            r.high == 0,
            r.low == v,
    {
        Word256 { high: 0, low: v }
    }

    /// Whether this is the code hash of an account without code.
    pub fn is_empty_code_hash(&self) -> (r: bool)
        ensures
            r == (*self == empty_code_hash()),
    {
        self.high == KECCAK_EMPTY_HIGH && self.low == KECCAK_EMPTY_LOW
    }
}

/// A copy of a sequence of plain values.
pub(crate) fn copy_vec<T: Copy>(v: &Vec<T>) -> (r: Vec<T>)
    ensures
        r@ == v@,
{
    let mut r: Vec<T> = Vec::with_capacity(v.len());
    let mut i: usize = 0;
    while i < v.len()
        invariant
            i <= v.len(),
            r@ == v@.subrange(0, i as int),
        decreases v.len() - i,
    {
        r.push(v[i]);
        i = i + 1;
        assert(r@ =~= v@.subrange(0, i as int));
    }
    assert(r@ =~= v@);
    r
}

} // verus!
