//! Key material of confidential contracts and the nonces that go with it.

use vstd::prelude::*;

verus! {

/// Size of a nonce in bytes.
pub const NONCE_SIZE: usize = 15;

/// Size of the part of a nonce that stays fixed while the nonce counts.
pub const NONCE_TAG_SIZE: usize = 11;

/// Size of a storage encryption key in bytes.
pub const KEY_SIZE: usize = 32;

/// Size of the authentication tag that the cipher appends, in bytes.
pub const TAG_SIZE: usize = 16;

/// The bytes of a wiped key: 32 zeros.
pub open spec fn wiped() -> Seq<u8> {
    Seq::new(32, |i: int| 0u8)
}

/// Calls `zeroize::Zeroize::zeroize` on the array, which writes zero over
/// every byte in a way that the compiler may not remove.
#[verifier::external_body]
pub(crate) fn wipe(key: &mut [u8; 32])
    ensures
        final(key)@ == wiped(),
{
    zeroize::Zeroize::zeroize(key)
}

/// A public key.
#[derive(Clone, Copy, Debug, Default, PartialEq, Eq)]
pub struct PublicKey {
    pub bytes: [u8; 32],
}

impl View for PublicKey {
    type V = Seq<u8>;

    open spec fn view(&self) -> Seq<u8> {
        self.bytes@
    }
}

/// A secret key.
#[derive(Clone, Copy, Debug, Default, PartialEq, Eq)]
pub struct PrivateKey {
    pub bytes: [u8; 32],
}

impl View for PrivateKey {
    type V = Seq<u8>;

    open spec fn view(&self) -> Seq<u8> {
        self.bytes@
    }
}

/// The key under which a contract's storage is encrypted.
#[derive(Clone, Copy, Debug, Default, PartialEq, Eq)]
pub struct StateKey {
    pub bytes: [u8; 32],
}

impl View for StateKey {
    type V = Seq<u8>;

    open spec fn view(&self) -> Seq<u8> {
        self.bytes@
    }
}

/// The pair of keys under which a contract receives encrypted input.
#[derive(Clone, Copy, Debug, Default, PartialEq, Eq)]
pub struct InputKeyPair {
    pk: PublicKey,
    sk: PrivateKey,
}

impl InputKeyPair {
    /// The public key.
    pub closed spec fn public(&self) -> Seq<u8> {
        self.pk@
    }

    /// The secret key.
    pub closed spec fn secret(&self) -> Seq<u8> {
        self.sk@
    }

    /// A pair of the two keys.
    pub fn new(pk: PublicKey, sk: PrivateKey) -> (r: InputKeyPair)
        ensures
            r.public() == pk@,
            r.secret() == sk@,
    {
        InputKeyPair { pk, sk }
    }

    /// The public key.
    pub fn get_pk(&self) -> (r: PublicKey)
        ensures
            r@ == self.public(),
    {
        self.pk
    }

    /// The secret key.
    pub fn get_sk(&self) -> (r: PrivateKey)
        ensures
            r@ == self.secret(),
    {
        self.sk
    }

    /// Writes zero over the secret key.
    pub fn wipe(&mut self)
        ensures
            final(self).secret() == wiped(),
            final(self).public() == old(self).public(),
    {
        wipe(&mut self.sk.bytes);
    }
}

/// The keys of one contract, as the key manager hands them out.
#[derive(Clone, Debug, Default, PartialEq, Eq)]
pub struct ContractKey {
    /// The keys for encrypted input.
    pub input_keypair: InputKeyPair,
    /// The key for the contract's storage.
    pub state_key: StateKey,
    /// A checksum of the keys.
    pub checksum: Vec<u8>,
}

/// The mathematical value of a `ContractKey`.
pub struct ContractKeyView {
    pub public_key: Seq<u8>,
    pub secret_key: Seq<u8>,
    pub state_key: Seq<u8>,
    pub checksum: Seq<u8>,
}

impl View for ContractKey {
    type V = ContractKeyView;

    open spec fn view(&self) -> ContractKeyView {
        ContractKeyView {
            public_key: self.input_keypair.public(),
            secret_key: self.input_keypair.secret(),
            state_key: self.state_key@,
            checksum: self.checksum@,
        }
    }
}

impl ContractKey {
    /// The keys of one contract.
    pub fn new(
        public_key: PublicKey,
        private_key: PrivateKey,
        state_key: StateKey,
        checksum: Vec<u8>,
    ) -> (r: ContractKey)
        ensures
            r@ == (ContractKeyView {
                public_key: public_key@,
                secret_key: private_key@,
                state_key: state_key@,
                checksum: checksum@,
            }),
    {
        ContractKey { input_keypair: InputKeyPair::new(public_key, private_key), state_key, checksum }
    }

    /// Writes zero over the secret key and the state key.
    pub fn wipe(&mut self)
        ensures
            final(self)@ == (ContractKeyView {
                secret_key: wiped(),
                state_key: wiped(),
                ..old(self)@
            }),
    {
        self.input_keypair.wipe();
        wipe(&mut self.state_key.bytes);
    }
}

/// The number that the last four bytes of a nonce count, most significant
/// byte first.
pub open spec fn counter_of(nonce: Seq<u8>) -> nat {
    (nonce[11] as nat) * 0x100_0000 + (nonce[12] as nat) * 0x1_0000 + (nonce[13] as nat) * 0x100
        + (nonce[14] as nat)
}

/// The nonce that follows `nonce`: the same but for the counter, which is
/// one more. The carry runs from the last byte towards the first of the
/// four.
pub open spec fn next_nonce(nonce: Seq<u8>) -> Seq<u8> {
    if nonce[14] < 255 {
        nonce.update(14, (nonce[14] + 1) as u8)
    } else if nonce[13] < 255 {
        nonce.update(13, (nonce[13] + 1) as u8).update(14, 0)
    } else if nonce[12] < 255 {
        nonce.update(12, (nonce[12] + 1) as u8).update(13, 0).update(14, 0)
    } else {
        nonce.update(11, (nonce[11] + 1) as u8).update(12, 0).update(13, 0).update(14, 0)
    }
}

/// Whether a nonce has a successor: its counter is not at its limit.
pub open spec fn has_next(nonce: Seq<u8>) -> bool {
    counter_of(nonce) < 0xffff_ffff
}

/// The successor of a nonce keeps the first eleven bytes and counts one
/// further, so it differs from the nonce.
pub proof fn lemma_next_nonce(nonce: Seq<u8>)
    requires
        nonce.len() == 15,
        has_next(nonce),
    ensures
        next_nonce(nonce).len() == 15,
        next_nonce(nonce).take(11) == nonce.take(11),
        counter_of(next_nonce(nonce)) == counter_of(nonce) + 1,
        next_nonce(nonce) != nonce,
{
    let next = next_nonce(nonce);
    assert(next.take(11) =~= nonce.take(11));
}

/// A 15-byte nonce: eleven bytes that stay, and a counter of four bytes.
#[derive(Clone, Copy, Debug, PartialEq, Eq)]
pub struct Nonce {
    bytes: [u8; 15],
}

impl View for Nonce {
    type V = Seq<u8>;

    closed spec fn view(&self) -> Seq<u8> {
        self.bytes@
    }
}

/// Why a nonce could not be stepped.
#[derive(Clone, Copy, Debug, PartialEq, Eq)]
pub enum NonceError {
    /// The counter is at its limit.
    Exhausted,
}

impl Nonce {
    /// The nonce with these bytes.
    pub fn new(bytes: [u8; 15]) -> (r: Nonce)
        ensures
            r@ == bytes@,
    {
        Nonce { bytes }
    }

    /// The bytes of the nonce.
    pub fn to_bytes(&self) -> (r: [u8; 15])
        ensures
            r@ == self@,
    {
        self.bytes
    }

    /// A nonce is 15 bytes long.
    pub proof fn lemma_len(&self)
        ensures
            self@.len() == 15,
    {
    }

    /// Steps the nonce to its successor. At the counter's limit the nonce
    /// stays as it is and the call fails.
    pub fn increment(&mut self) -> (r: Result<(), NonceError>)
        ensures
            match r {
                Ok(_) => has_next(old(self)@) && final(self)@ == next_nonce(old(self)@),
                Err(e) => !has_next(old(self)@) && final(self)@ == old(self)@ && e
                    == NonceError::Exhausted,
            },
    {
        let b = self.bytes;
        let mut out = b;
        if b[14] < 255 {
            out[14] = b[14] + 1;
        } else if b[13] < 255 {
            out[13] = b[13] + 1;
            out[14] = 0;
        } else if b[12] < 255 {
            out[12] = b[12] + 1;
            out[13] = 0;
            out[14] = 0;
        } else if b[11] < 255 {
            out[11] = b[11] + 1;
            out[12] = 0;
            out[13] = 0;
            out[14] = 0;
        } else {
            return Err(NonceError::Exhausted);
        }
        assert(out@ =~= next_nonce(b@));
        self.bytes = out;
        Ok(())
    }
}

} // verus!
