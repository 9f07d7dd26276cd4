//! Digests that the ledger and the confidential context are built on, and
//! the decimal rendering of block numbers that block hashes are taken of.

use vstd::prelude::*;

use crate::primitives::H256;

verus! {

/// The Keccak-256 digest of a byte string: 32 bytes.
pub uninterp spec fn keccak256_digest(data: Seq<u8>) -> Seq<u8>;

/// The SHA-512/256 digest of a byte string: 32 bytes.
pub uninterp spec fn sha512_256_digest(data: Seq<u8>) -> Seq<u8>;

/// Calls `keccak_hash::keccak`, which runs Keccak-256 over the bytes and
/// returns the 32-byte digest. Nothing is proved of the digest; it is known
/// only as `keccak256_digest` of the input.
#[verifier::external_body]
pub(crate) fn keccak256(data: &[u8]) -> (r: H256)
    ensures
        r@ == keccak256_digest(data@),
{
    H256 { bytes: keccak_hash::keccak(data).0 }
}

/// Calls `sha2::Sha512_256::digest`, which runs SHA-512/256 over the bytes
/// and returns the 32-byte digest. Nothing is proved of the digest; it is
/// known only as `sha512_256_digest` of the input.
#[verifier::external_body]
pub(crate) fn sha512_256(data: &[u8]) -> (r: H256)
    ensures
        r@ == sha512_256_digest(data@),
{
    let digest = <sha2::Sha512_256 as sha2::Digest>::digest(data);
    let mut bytes = [0u8; 32];
    bytes.copy_from_slice(&digest);
    H256 { bytes }
}

/// The ASCII decimal digits of a number, most significant first, without
/// leading zeros.
pub open spec fn decimal(n: nat) -> Seq<u8>
    decreases n,
{
    if n < 10 {
        seq![(48 + n) as u8]
    } else {
        decimal(n / 10).push((48 + n % 10) as u8)
    }
}

/// The ASCII decimal digits of a number, least significant first.
pub open spec fn decimal_reversed(n: nat) -> Seq<u8>
    decreases n,
{
    if n < 10 {
        seq![(48 + n) as u8]
    } else {
        seq![(48 + n % 10) as u8] + decimal_reversed(n / 10)
    }
}

/// Reading the least-significant-first digits backwards gives the usual
/// rendering.
pub proof fn lemma_decimal_reversed(n: nat)
    ensures
        decimal_reversed(n).reverse() == decimal(n),
        decimal_reversed(n).len() == decimal(n).len(),
    decreases n,
{
    if n < 10 {
        assert(decimal_reversed(n).reverse() =~= decimal(n));
    } else {
        lemma_decimal_reversed(n / 10);
        let head = seq![(48 + n % 10) as u8];
        let tail = decimal_reversed(n / 10);
        assert((head + tail).reverse() =~= tail.reverse().push((48 + n % 10) as u8));
    }
}

/// The ASCII decimal digits of `n`, as `to_string` renders it.
pub fn decimal_digits(n: u64) -> (r: Vec<u8>)
    ensures
        r@ == decimal(n as nat),
{
    let mut reversed: Vec<u8> = Vec::new();
    let mut rest: u64 = n;
    while rest >= 10
        invariant
            decimal_reversed(n as nat) == reversed@ + decimal_reversed(rest as nat),
        decreases rest,
    {
        let digit: u8 = 48u8 + (rest % 10) as u8;
        proof {
            let r = rest as nat;
            assert(decimal_reversed(r) == seq![(48 + r % 10) as u8] + decimal_reversed(r / 10));
            assert(reversed@.push(digit) + decimal_reversed(r / 10) =~= reversed@
                + decimal_reversed(r));
        }
        reversed.push(digit);
        rest = rest / 10;
    }
    reversed.push(48u8 + rest as u8);
    assert(reversed@ =~= decimal_reversed(n as nat));
    let mut out: Vec<u8> = Vec::new();
    let mut i: usize = reversed.len();
    while i > 0
        invariant
            i <= reversed.len(),
            out@.len() == reversed.len() - i,
            forall|j: int| 0 <= j < out@.len() ==> out@[j] == reversed@[reversed.len() - 1 - j],
        decreases i,
    {
        i -= 1;
        out.push(reversed[i]);
    }
    proof {
        lemma_decimal_reversed(n as nat);
        assert(out@ =~= reversed@.reverse());
    }
    out
}

/// The hash that the ledger gives to the block with this number: the
/// Keccak-256 digest of the number's decimal rendering. It stands in for a
/// hash of the block's contents.
pub open spec fn block_hash_of(number: u64) -> Seq<u8> {
    keccak256_digest(decimal(number as nat))
}

/// The hash of the block with this number.
pub fn block_hash(number: u64) -> (r: H256)
    ensures
        r@ == block_hash_of(number),
{
    let digits = decimal_digits(number);
    keccak256(digits.as_slice())
}

} // verus!
