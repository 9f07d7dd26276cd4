//! Fixed-width values that the ledger carries: hashes, addresses, bloom
//! filters and 256-bit amounts.

use vstd::prelude::*;

verus! {

/// Whether two byte strings hold the same bytes.
pub fn same_bytes(a: &[u8], b: &[u8]) -> (r: bool)
    ensures
        r == (a@ == b@),
{
    if a.len() != b.len() {
        return false;
    }
    let mut i: usize = 0;
    while i < a.len()
        invariant
            i <= a.len(),
            a.len() == b.len(),
            forall|j: int| 0 <= j < i ==> a@[j] == b@[j],
        decreases a.len() - i,
    {
        if a[i] != b[i] {
            return false;
        }
        i += 1;
    }
    assert(a@ =~= b@);
    true
}

/// A copy of a byte string.
pub fn copy_bytes(a: &[u8]) -> (r: Vec<u8>)
    ensures
        r@ == a@,
{
    let mut out: Vec<u8> = Vec::new();
    let mut i: usize = 0;
    while i < a.len()
        invariant
            i <= a.len(),
            out@ == a@.take(i as int),
        decreases a.len() - i,
    {
        out.push(a[i]);
        assert(a@.take(i as int).push(a@[i as int]) =~= a@.take(i + 1));
        i += 1;
    }
    assert(a@.take(a.len() as int) =~= a@);
    out
}

/// A 32-byte digest.
#[derive(Clone, Copy, Debug, PartialEq, Eq, Hash)]
pub struct H256 {
    pub bytes: [u8; 32],
}

impl View for H256 {
    type V = Seq<u8>;

    open spec fn view(&self) -> Seq<u8> {
        self.bytes@
    }
}

impl H256 {
    /// The digest whose bytes are all zero.
    pub fn zero() -> (r: H256)
        ensures
            r@ == Seq::new(32, |i: int| 0u8),
    {
        let r = H256 { bytes: [0u8; 32] };
        assert(r@ =~= Seq::new(32, |i: int| 0u8));
        r
    }

    /// Whether both digests hold the same bytes.
    pub fn same(&self, other: &H256) -> (r: bool)
        ensures
            r == (self@ == other@),
    {
        same_bytes(self.bytes.as_slice(), other.bytes.as_slice())
    }

    /// The bytes of the digest.
    pub fn to_vec(&self) -> (r: Vec<u8>)
        ensures
            r@ == self@,
    {
        copy_bytes(self.bytes.as_slice())
    }
}

/// A 20-byte account address.
#[derive(Clone, Copy, Debug, PartialEq, Eq, Hash)]
pub struct Address {
    pub bytes: [u8; 20],
}

impl View for Address {
    type V = Seq<u8>;

    open spec fn view(&self) -> Seq<u8> {
        self.bytes@
    }
}

impl Address {
    /// The address whose bytes are all zero.
    pub fn zero() -> (r: Address)
        ensures
            r@ == Seq::new(20, |i: int| 0u8),
    {
        let r = Address { bytes: [0u8; 20] };
        assert(r@ =~= Seq::new(20, |i: int| 0u8));
        r
    }

    /// Whether both addresses hold the same bytes.
    pub fn same(&self, other: &Address) -> (r: bool)
        ensures
            r == (self@ == other@),
    {
        same_bytes(self.bytes.as_slice(), other.bytes.as_slice())
    }

    /// The bytes of the address.
    pub fn to_vec(&self) -> (r: Vec<u8>)
        ensures
            r@ == self@,
    {
        copy_bytes(self.bytes.as_slice())
    }
}

/// A 2048-bit log bloom filter. The ledger stores it and hands it on; it
/// never looks inside.
#[derive(Clone, Copy, Debug, PartialEq, Eq)]
pub struct Bloom {
    pub bytes: [u8; 256],
}

impl View for Bloom {
    type V = Seq<u8>;

    open spec fn view(&self) -> Seq<u8> {
        self.bytes@
    }
}

impl Bloom {
    /// The empty filter.
    pub fn zero() -> (r: Bloom)
        ensures
            r@ == Seq::new(256, |i: int| 0u8),
    {
        let r = Bloom { bytes: [0u8; 256] };
        assert(r@ =~= Seq::new(256, |i: int| 0u8));
        r
    }
}

/// An unsigned 256-bit amount, held as four 64-bit words, least significant
/// first.
#[derive(Clone, Copy, Debug, PartialEq, Eq, Hash, Structural)]
pub struct U256 {
    pub w0: u64,
    pub w1: u64,
    pub w2: u64,
    pub w3: u64,
}

/// Two to the power 64.
pub open spec fn word_base() -> nat {
    0x1_0000_0000_0000_0000nat
}

/// Two to the power 256.
pub open spec fn u256_limit() -> nat {
    0x1_0000_0000_0000_0000_0000_0000_0000_0000_0000_0000_0000_0000_0000_0000_0000_0000nat
}

impl U256 {
    /// The number that the four words stand for.
    pub open spec fn as_nat(self) -> nat {
        self.w0 as nat + 0x1_0000_0000_0000_0000nat * (self.w1 as nat)
            + 0x1_0000_0000_0000_0000_0000_0000_0000_0000nat * (self.w2 as nat)
            + 0x1_0000_0000_0000_0000_0000_0000_0000_0000_0000_0000_0000_0000nat * (self.w3 as nat)
    }

    /// Zero.
    pub fn zero() -> (r: U256)
        ensures
            r.as_nat() == 0,
    {
        U256 { w0: 0, w1: 0, w2: 0, w3: 0 }
    }

    /// The largest amount, two to the power 256 less one.
    pub fn max_value() -> (r: U256)
        ensures
            r.as_nat() == u256_limit() - 1,
    {
        let r = U256 { w0: u64::MAX, w1: u64::MAX, w2: u64::MAX, w3: u64::MAX };
        r
    }

    /// The amount with the value of `value`.
    pub fn from_u64(value: u64) -> (r: U256)
        ensures
            r.as_nat() == value,
    {
        U256 { w0: value, w1: 0, w2: 0, w3: 0 }
    }

    /// Whether `self` is strictly less than `other`.
    pub fn lt(&self, other: &U256) -> (r: bool)
        ensures
            r == (self.as_nat() < other.as_nat()),
    {
        if self.w3 != other.w3 {
            self.w3 < other.w3
        } else if self.w2 != other.w2 {
            self.w2 < other.w2
        } else if self.w1 != other.w1 {
            self.w1 < other.w1
        } else {
            self.w0 < other.w0
        }
    }

    /// Whether `self` is strictly greater than `other`.
    pub fn gt(&self, other: &U256) -> (r: bool)
        ensures
            r == (self.as_nat() > other.as_nat()),
    {
        other.lt(self)
    }

    /// The sum of both amounts, or `None` where it does not fit in 256 bits.
    pub fn checked_add(&self, other: &U256) -> (r: Option<U256>)
        ensures
            match r {
                Some(sum) => sum.as_nat() == self.as_nat() + other.as_nat(),
                None => self.as_nat() + other.as_nat() >= u256_limit(),
            },
    {
        let (w0, c0) = add_words(self.w0, other.w0, false);
        let (w1, c1) = add_words(self.w1, other.w1, c0);
        let (w2, c2) = add_words(self.w2, other.w2, c1);
        let (w3, c3) = add_words(self.w3, other.w3, c2);
        if c3 {
            None
        } else {
            Some(U256 { w0, w1, w2, w3 })
        }
    }
}

/// The amount with the value `n`, for `n` below two to the power 256.
pub open spec fn u256_of(n: nat) -> U256 {
    choose|u: U256| u.as_nat() == n
}

/// An amount is the amount of its value.
pub proof fn lemma_u256_of_value(a: U256)
    ensures
        u256_of(a.as_nat()) == a,
{
    let chosen = u256_of(a.as_nat());
    assert(chosen.as_nat() == a.as_nat());
    lemma_u256_value_is_injective(chosen, a);
}

/// Two amounts with the same value are the same amount.
pub proof fn lemma_u256_value_is_injective(a: U256, b: U256)
    requires
        a.as_nat() == b.as_nat(),
    ensures
        a == b,
{
    if a.w3 != b.w3 {
        if a.w3 < b.w3 {
            assert(a.as_nat() < b.as_nat());
        } else {
            assert(b.as_nat() < a.as_nat());
        }
    } else if a.w2 != b.w2 {
        if a.w2 < b.w2 {
            assert(a.as_nat() < b.as_nat());
        } else {
            assert(b.as_nat() < a.as_nat());
        }
    } else if a.w1 != b.w1 {
        if a.w1 < b.w1 {
            assert(a.as_nat() < b.as_nat());
        } else {
            assert(b.as_nat() < a.as_nat());
        }
    }
}

/// One word of a multi-word addition: the low 64 bits of `a + b + carry`
/// and whether a carry leaves the word.
fn add_words(a: u64, b: u64, carry: bool) -> (r: (u64, bool))
    ensures
        r.0 as nat + (if r.1 { word_base() } else { 0 }) == a as nat + b as nat + (if carry {
            1nat
        } else {
            0
        }),
{
    let wide: u128 = a as u128 + b as u128 + (if carry { 1u128 } else { 0u128 });
    if wide > 0xffff_ffff_ffff_ffffu128 {
        ((wide - 0x1_0000_0000_0000_0000u128) as u64, true)
    } else {
        (wide as u64, false)
    }
}

} // verus!
