//! The confidential execution context: the keys and nonces under which one
//! execution encrypts for its peer and for contract storage.

use vstd::prelude::*;
use vstd::string::StringExecFns;

use crate::hashing::{keccak256, keccak256_digest, sha512_256, sha512_256_digest};
use crate::keys::{
    counter_of, has_next, lemma_next_nonce, next_nonce, wipe, wiped, ContractKey,
    ContractKeyView, Nonce, PrivateKey, PublicKey, StateKey, NONCE_SIZE, TAG_SIZE,
};
use crate::primitives::{copy_bytes, Address, H256};
use crate::transaction::address_option_view;

verus! {

/// A failure of the confidential context, with its reason.
#[derive(Clone, Debug, PartialEq, Eq)]
pub struct ConfidentialError {
    /// The reason.
    pub words: String,
}

impl ConfidentialError {
    /// The words that go with the error.
    pub open spec fn text(&self) -> Seq<char> {
        "Confidential error: "@ + self.words@
    }

    /// The words that go with the error.
    pub fn message(&self) -> (r: String)
        ensures
            r@ == self.text(),
    {
        String::from_str("Confidential error: ").concat(self.words.as_str())
    }
}

/// The reason given where a session lacks a key or a nonce.
pub open spec fn session_not_ready() -> Seq<char> {
    "must have key pair of a contract and peer and a next nonce"@
}

/// The reason given where transaction data is opened without a contract.
pub open spec fn no_contract_key() -> Seq<char> {
    "The confidential context must have a contract key when opening encrypted transaction data"@
}

/// The reason given where a stored value is too short to hold a tag and a
/// nonce.
pub open spec fn truncated_ciphertext() -> Seq<char> {
    "truncated ciphertext"@
}

/// The reason given where a value is to be stored without a storage nonce.
pub open spec fn no_storage_nonce() -> Seq<char> {
    "Should always have a storage encryption nonce."@
}

/// The reason given where storage is to be encrypted without a cipher.
pub open spec fn no_cipher_to_encrypt() -> Seq<char> {
    "Should always have a Deoxys-II instance to encrypt storage"@
}

/// The reason given where storage is to be decrypted without a cipher.
pub open spec fn no_cipher_to_decrypt() -> Seq<char> {
    "Should always have a Deoxys-II instance to decrypt storage"@
}

/// The reason given where a nonce has no successor.
pub open spec fn nonce_exhausted() -> Seq<char> {
    "nonce counter exhausted"@
}

/// What opening an encrypted payload gives.
#[derive(Clone, Debug, PartialEq, Eq)]
pub struct Decryption {
    /// The decrypted bytes.
    pub plaintext: Vec<u8>,
    /// The public key of the peer that sealed the payload.
    pub peer_public_key: PublicKey,
    /// The nonce under which the payload was sealed.
    pub nonce: Nonce,
    /// The data that the payload authenticates next to the plaintext.
    pub aad: Vec<u8>,
}

/// Decrypted data with the data that was authenticated next to it.
#[derive(Clone, Debug, PartialEq, Eq)]
pub struct AuthenticatedPayload {
    pub decrypted_data: Vec<u8>,
    pub additional_data: Vec<u8>,
}

/// The cipher for one contract's storage: the contract's state key.
#[derive(Clone, Debug, PartialEq, Eq)]
pub struct StorageCipher {
    key: [u8; 32],
}

impl View for StorageCipher {
    type V = Seq<u8>;

    closed spec fn view(&self) -> Seq<u8> {
        self.key@
    }
}

impl StorageCipher {
    /// The cipher under the given state key.
    pub fn new(state_key: &StateKey) -> (r: StorageCipher)
        ensures
            r@ == state_key@,
    {
        StorageCipher { key: state_key.bytes }
    }
}

/// The mathematical value of a `ConfidentialCtx`.
pub struct CtxView {
    /// The public key of the peer, once a session is open.
    pub peer_public_key: Option<Seq<u8>>,
    /// The active contract: its address and its keys.
    pub contract: Option<(Seq<u8>, ContractKeyView)>,
    /// The nonce of the next message to the peer.
    pub next_nonce: Option<Seq<u8>>,
    /// Whether a confidential contract ran anywhere in the call tree.
    pub activated: bool,
    /// The hash of the previous block.
    pub prev_block_hash: Seq<u8>,
    /// The key of the storage cipher.
    pub cipher_key: Option<Seq<u8>>,
    /// The nonce of the next stored value.
    pub next_storage_nonce: Option<Seq<u8>>,
}

/// The value of a contract that may be absent.
pub open spec fn contract_view(contract: Option<(Address, ContractKey)>) -> Option<
    (Seq<u8>, ContractKeyView),
> {
    match contract {
        Some(c) => Some((c.0@, c.1@)),
        None => None,
    }
}

/// The identifier under which the key manager files a contract: the
/// Keccak-256 digest of its address.
pub open spec fn contract_id_of(address: Seq<u8>) -> Seq<u8> {
    keccak256_digest(address)
}

/// The first storage nonce of a contract in the block after the one with
/// hash `prev_block_hash`: the first eleven bytes of the SHA-512/256 digest
/// of hash and address, then a counter of zero.
pub open spec fn first_storage_nonce(prev_block_hash: Seq<u8>, address: Seq<u8>) -> Seq<u8> {
    let digest = sha512_256_digest(prev_block_hash + address);
    Seq::new(15, |i: int| if i < 11 { digest[i] } else { 0u8 })
}

/// A stored value: what the cipher sealed, then the nonce it sealed under.
pub open spec fn framed_storage_value(sealed: Seq<u8>, nonce: Seq<u8>) -> Seq<u8> {
    sealed + nonce
}

/// The two parts of a stored value, what the cipher sealed and the nonce,
/// or `None` where the value is too short to hold a tag and a nonce.
pub open spec fn storage_value_parts(data: Seq<u8>) -> Option<(Seq<u8>, Seq<u8>)> {
    if data.len() < TAG_SIZE + NONCE_SIZE {
        None
    } else {
        Some((data.take(data.len() - NONCE_SIZE), data.skip(data.len() - NONCE_SIZE)))
    }
}

impl CtxView {
    /// The context that a block starts with.
    pub open spec fn fresh(prev_block_hash: Seq<u8>) -> CtxView {
        CtxView {
            peer_public_key: None,
            contract: None,
            next_nonce: None,
            activated: false,
            prev_block_hash,
            cipher_key: None,
            next_storage_nonce: None,
        }
    }

    /// Whether the context encrypts: it was activated and has a contract.
    pub open spec fn is_encrypting(self) -> bool {
        self.activated && self.contract is Some
    }

    /// The address of the active contract.
    pub open spec fn contract_address(self) -> Option<Seq<u8>> {
        match self.contract {
            Some(c) => Some(c.0),
            None => None,
        }
    }

    /// The context after the active contract was exchanged: the storage
    /// cipher and the storage nonce are those of the new contract.
    pub open spec fn swapped(self, contract: Option<(Seq<u8>, ContractKeyView)>) -> CtxView {
        CtxView {
            contract,
            cipher_key: match contract {
                Some(c) => Some(c.1.state_key),
                None => None,
            },
            next_storage_nonce: match contract {
                Some(c) => Some(first_storage_nonce(self.prev_block_hash, c.0)),
                None => None,
            },
            ..self
        }
    }

    /// The context after it was activated for `contract`.
    pub open spec fn activated_for(self, contract: Option<(Seq<u8>, ContractKeyView)>) -> CtxView {
        (CtxView { activated: true, ..self }).swapped(contract)
    }

    /// Whether a message can be sealed for the peer: the peer's key, a
    /// contract and a nonce are there.
    pub open spec fn session_ready(self) -> bool {
        self.peer_public_key is Some && self.contract is Some && self.next_nonce is Some
    }

    /// The context after a message was sealed for the peer, and what the
    /// caller gets: the sealed payload, with the nonce stepped, or the
    /// reason of the failure, with the context as it was.
    pub open spec fn session_sealed(self, sealed: Result<Seq<u8>, Seq<char>>) -> (
        CtxView,
        Result<Seq<u8>, Seq<char>>,
    ) {
        match sealed {
            Err(words) => (self, Err(words)),
            Ok(payload) => if has_next(self.next_nonce.unwrap()) {
                (
                    CtxView { next_nonce: Some(next_nonce(self.next_nonce.unwrap())), ..self },
                    Ok(payload),
                )
            } else {
                (self, Err(nonce_exhausted()))
            },
        }
    }

    /// The context after a payload of the peer was opened, and whether the
    /// caller gets the opened payload (`None`) or the reason of a failure.
    /// The peer's key is kept as soon as the payload opens; the nonce after
    /// the payload's becomes the next nonce.
    pub open spec fn session_opened(
        self,
        opened: Result<(Seq<u8>, Seq<u8>), Seq<char>>,
    ) -> (CtxView, Option<Seq<char>>) {
        match opened {
            Err(words) => (self, Some(words)),
            Ok(from) => {
                let known = CtxView { peer_public_key: Some(from.0), ..self };
                if has_next(from.1) {
                    (CtxView { next_nonce: Some(next_nonce(from.1)), ..known }, None)
                } else {
                    (known, Some(nonce_exhausted()))
                }
            },
        }
    }

    /// The context after a value was sealed for storage, and what the
    /// caller gets: the sealed value with the nonce behind it, with the
    /// storage nonce stepped, or the reason of the failure, with the context
    /// as it was.
    pub open spec fn storage_value_sealed(self, sealed: Seq<u8>) -> (
        CtxView,
        Result<Seq<u8>, Seq<char>>,
    ) {
        let nonce = self.next_storage_nonce.unwrap();
        if has_next(nonce) {
            (
                CtxView { next_storage_nonce: Some(next_nonce(nonce)), ..self },
                Ok(framed_storage_value(sealed, nonce)),
            )
        } else {
            (self, Err(nonce_exhausted()))
        }
    }
}

/// The bytes or the reason that a result holds.
pub open spec fn outcome_view(r: Result<Vec<u8>, ConfidentialError>) -> Result<
    Seq<u8>,
    Seq<char>,
> {
    match r {
        Ok(bytes) => Ok(bytes@),
        Err(e) => Err(e.words@),
    }
}

/// The bytes or the words that a cipher's result holds.
pub open spec fn sealed_view(r: Result<Vec<u8>, String>) -> Result<Seq<u8>, Seq<char>> {
    match r {
        Ok(bytes) => Ok(bytes@),
        Err(words) => Err(words@),
    }
}

/// The peer key and the nonce of an opened payload, or the words of the
/// failure.
pub open spec fn opened_view(r: Result<Decryption, String>) -> Result<
    (Seq<u8>, Seq<u8>),
    Seq<char>,
> {
    match r {
        Ok(d) => Ok((d.peer_public_key@, d.nonce@)),
        Err(words) => Err(words@),
    }
}

/// The confidential context of one execution.
pub struct ConfidentialCtx {
    peer_public_key: Option<PublicKey>,
    contract: Option<(Address, ContractKey)>,
    next_nonce: Option<Nonce>,
    activated: bool,
    prev_block_hash: H256,
    d2: Option<StorageCipher>,
    next_storage_nonce: Option<Nonce>,
}

/// The bytes of a key that may be absent.
pub open spec fn public_key_view(key: Option<PublicKey>) -> Option<Seq<u8>> {
    match key {
        Some(k) => Some(k@),
        None => None,
    }
}

/// The bytes of a nonce that may be absent.
pub open spec fn nonce_view(nonce: Option<Nonce>) -> Option<Seq<u8>> {
    match nonce {
        Some(n) => Some(n@),
        None => None,
    }
}

/// The key of a cipher that may be absent.
pub open spec fn cipher_view(cipher: Option<StorageCipher>) -> Option<Seq<u8>> {
    match cipher {
        Some(c) => Some(c@),
        None => None,
    }
}

impl View for ConfidentialCtx {
    type V = CtxView;

    closed spec fn view(&self) -> CtxView {
        CtxView {
            peer_public_key: public_key_view(self.peer_public_key),
            contract: contract_view(self.contract),
            next_nonce: nonce_view(self.next_nonce),
            activated: self.activated,
            prev_block_hash: self.prev_block_hash@,
            cipher_key: cipher_view(self.d2),
            next_storage_nonce: nonce_view(self.next_storage_nonce),
        }
    }
}

/// A confidential error with the given reason.
fn confidential(words: &str) -> (r: ConfidentialError)
    ensures
        r.words@ == words@,
{
    ConfidentialError { words: String::from_str(words) }
}

/// The first storage nonce of the contract at `address` in the block after
/// the one with hash `prev_block_hash`.
fn storage_nonce_for(prev_block_hash: &H256, address: &Address) -> (r: Nonce)
    ensures
        r@ == first_storage_nonce(prev_block_hash@, address@),
{
    let mut buffer = prev_block_hash.to_vec();
    let mut i: usize = 0;
    while i < 20
        invariant
            i <= 20,
            buffer@ == prev_block_hash@ + address@.take(i as int),
        decreases 20 - i,
    {
        buffer.push(address.bytes[i]);
        assert(address@.take(i as int).push(address@[i as int]) =~= address@.take(i + 1));
        assert(buffer@ =~= prev_block_hash@ + address@.take(i + 1));
        i += 1;
    }
    assert(address@.take(20) =~= address@);
    let digest = sha512_256(buffer.as_slice());
    let mut bytes = [0u8; 15];
    let mut j: usize = 0;
    while j < 11
        invariant
            j <= 11,
            forall|k: int| 0 <= k < j ==> bytes@[k] == digest@[k],
            forall|k: int| j <= k < 15 ==> bytes@[k] == 0u8,
        decreases 11 - j,
    {
        bytes[j] = digest.bytes[j];
        j += 1;
    }
    assert(bytes@ =~= first_storage_nonce(prev_block_hash@, address@));
    Nonce::new(bytes)
}

impl ConfidentialCtx {
    /// The context that a block starts with: not activated, without
    /// contract, peer or nonces.
    pub fn new(prev_block_hash: H256) -> (r: ConfidentialCtx)
        ensures
            r@ == CtxView::fresh(prev_block_hash@),
    {
        ConfidentialCtx {
            peer_public_key: None,
            contract: None,
            next_nonce: None,
            activated: false,
            d2: None,
            prev_block_hash,
            next_storage_nonce: None,
        }
    }

    /// A context with every part as given.
    pub fn new_test(
        peer_public_key: Option<PublicKey>,
        contract: Option<(Address, ContractKey)>,
        next_nonce: Option<Nonce>,
        activated: bool,
        prev_block_hash: H256,
        d2: Option<StorageCipher>,
        next_storage_nonce: Option<Nonce>,
    ) -> (r: ConfidentialCtx)
        ensures
            r@ == (CtxView {
                peer_public_key: public_key_view(peer_public_key),
                contract: contract_view(contract),
                next_nonce: nonce_view(next_nonce),
                activated,
                prev_block_hash: prev_block_hash@,
                cipher_key: cipher_view(d2),
                next_storage_nonce: nonce_view(next_storage_nonce),
            }),
    {
        ConfidentialCtx {
            peer_public_key,
            contract,
            next_nonce,
            activated,
            d2,
            prev_block_hash,
            next_storage_nonce,
        }
    }

    /// Whether the context encrypts: it was activated and has a contract.
    /// Inside a call from a confidential contract into one that is not, it
    /// is activated and does not encrypt.
    pub fn is_encrypting(&self) -> (r: bool)
        ensures
            r == self@.is_encrypting(),
    {
        self.activated() && self.contract.is_some()
    }

    /// Whether a confidential contract ran anywhere in the call tree.
    pub fn activated(&self) -> (r: bool)
        ensures
            r == self@.activated,
    {
        self.activated
    }

    /// The public key of the peer, once a session is open.
    pub fn peer(&self) -> (r: Option<Vec<u8>>)
        ensures
            match r {
                Some(key) => self@.peer_public_key == Some(key@),
                None => self@.peer_public_key is None,
            },
    {
        match &self.peer_public_key {
            Some(key) => Some(copy_bytes(key.bytes.as_slice())),
            None => None,
        }
    }

    /// The identifier under which the key manager files the contract at
    /// `address`.
    pub fn contract_id(address: &Address) -> (r: H256)
        ensures
            r@ == contract_id_of(address@),
    {
        let bytes = address.to_vec();
        keccak256(bytes.as_slice())
    }

    /// Writes zero over the secrets that the context holds: the key of the
    /// storage cipher and the secret keys of the contract.
    fn wipe_secrets(&mut self)
        ensures
            final(self)@.activated == old(self)@.activated,
            final(self)@.prev_block_hash == old(self)@.prev_block_hash,
            final(self)@.peer_public_key == old(self)@.peer_public_key,
            final(self)@.next_nonce == old(self)@.next_nonce,
            final(self)@.next_storage_nonce == old(self)@.next_storage_nonce,
            final(self)@.contract_address() == old(self)@.contract_address(),
            final(self)@.cipher_key is Some ==> final(self)@.cipher_key == Some(wiped()),
            final(self)@.contract is Some ==> final(self)@.contract.unwrap().1.secret_key
                == wiped() && final(self)@.contract.unwrap().1.state_key == wiped(),
    {
        match self.d2.take() {
            Some(mut cipher) => {
                wipe(&mut cipher.key);
                self.d2 = Some(cipher);
            },
            None => {},
        }
        match self.contract.take() {
            Some(mut held) => {
                held.1.wipe();
                self.contract = Some(held);
            },
            None => {},
        }
    }

    /// Exchanges the active contract and returns the address of the one
    /// that was active. The storage cipher and the storage nonce are set up
    /// for the new contract; what the old one left is wiped.
    pub fn swap_contract(&mut self, contract: Option<(Address, ContractKey)>) -> (r: Option<
        Address,
    >)
        ensures
            final(self)@ == old(self)@.swapped(contract_view(contract)),
            address_option_view(r) == old(self)@.contract_address(),
    {
        let old_contract_address = match &self.contract {
            Some(c) => Some(c.0),
            None => None,
        };
        self.wipe_secrets();
        match &contract {
            Some(c) => {
                self.d2 = Some(StorageCipher::new(&c.1.state_key));
                self.next_storage_nonce = Some(storage_nonce_for(&self.prev_block_hash, &c.0));
            },
            None => {
                self.d2 = None;
                self.next_storage_nonce = None;
            },
        }
        self.contract = contract;
        old_contract_address
    }

    /// Leaves every confidential state behind: the context is again what a
    /// block starts with, and the secrets it held are wiped before they are
    /// released.
    pub fn deactivate(&mut self)
        ensures
            final(self)@ == CtxView::fresh(old(self)@.prev_block_hash),
    {
        self.wipe_secrets();
        self.peer_public_key = None;
        self.contract = None;
        self.next_nonce = None;
        self.activated = false;
        self.d2 = None;
        self.next_storage_nonce = None;
    }
}

/// A stored value as a cipher `seal` and a nonce give it.
pub open spec fn encrypted_storage_value(
    seal: spec_fn(Seq<u8>, Seq<u8>, Seq<u8>) -> Seq<u8>,
    key: Seq<u8>,
    nonce: Seq<u8>,
    plaintext: Seq<u8>,
) -> Seq<u8> {
    framed_storage_value(seal(key, nonce, plaintext), nonce)
}

/// What a cipher `open` recovers from a stored value.
pub open spec fn decrypted_storage_value(
    open: spec_fn(Seq<u8>, Seq<u8>, Seq<u8>) -> Option<Seq<u8>>,
    key: Seq<u8>,
    data: Seq<u8>,
) -> Option<Seq<u8>> {
    match storage_value_parts(data) {
        Some(parts) => open(key, parts.1, parts.0),
        None => None,
    }
}

/// Taking a stored value apart gives back what it was put together from:
/// what the cipher sealed, which ends in a tag, and the nonce.
pub proof fn lemma_storage_value_parts(sealed: Seq<u8>, nonce: Seq<u8>)
    requires
        nonce.len() == NONCE_SIZE,
        sealed.len() >= TAG_SIZE,
    ensures
        storage_value_parts(framed_storage_value(sealed, nonce)) == Some((sealed, nonce)),
{
    let data = framed_storage_value(sealed, nonce);
    assert(data.take(data.len() - NONCE_SIZE) =~= sealed);
    assert(data.skip(data.len() - NONCE_SIZE) =~= nonce);
}

/// A stored value decrypts to the plaintext it was encrypted from, under
/// any cipher whose `open` undoes its `seal` and whose `seal` appends a tag.
pub proof fn lemma_storage_value_round_trip(
    seal: spec_fn(Seq<u8>, Seq<u8>, Seq<u8>) -> Seq<u8>,
    open: spec_fn(Seq<u8>, Seq<u8>, Seq<u8>) -> Option<Seq<u8>>,
    key: Seq<u8>,
    nonce: Seq<u8>,
    plaintext: Seq<u8>,
)
    requires
        nonce.len() == NONCE_SIZE,
        seal(key, nonce, plaintext).len() >= TAG_SIZE,
        open(key, nonce, seal(key, nonce, plaintext)) == Some(plaintext),
    ensures
        decrypted_storage_value(
            open,
            key,
            encrypted_storage_value(seal, key, nonce, plaintext),
        ) == Some(plaintext),
{
    lemma_storage_value_parts(seal(key, nonce, plaintext), nonce);
}

/// A value that a context stored decrypts to its plaintext in the context
/// that storing left, although the storage nonce has moved on: under any
/// cipher whose `open` undoes its `seal` and whose `seal` appends a tag.
pub proof fn lemma_stored_value_decrypts(
    seal: spec_fn(Seq<u8>, Seq<u8>, Seq<u8>) -> Seq<u8>,
    open: spec_fn(Seq<u8>, Seq<u8>, Seq<u8>) -> Option<Seq<u8>>,
    ctx: CtxView,
    plaintext: Seq<u8>,
)
    requires
        ctx.cipher_key is Some,
        ctx.next_storage_nonce is Some,
        ctx.next_storage_nonce.unwrap().len() == NONCE_SIZE,
        has_next(ctx.next_storage_nonce.unwrap()),
        seal(ctx.cipher_key.unwrap(), ctx.next_storage_nonce.unwrap(), plaintext).len()
            >= TAG_SIZE,
        open(
            ctx.cipher_key.unwrap(),
            ctx.next_storage_nonce.unwrap(),
            seal(ctx.cipher_key.unwrap(), ctx.next_storage_nonce.unwrap(), plaintext),
        ) == Some(plaintext),
    ensures
        ({
            let key = ctx.cipher_key.unwrap();
            let nonce = ctx.next_storage_nonce.unwrap();
            let stored = ctx.storage_value_sealed(seal(key, nonce, plaintext));
            &&& stored.1 == Ok::<Seq<u8>, Seq<char>>(
                encrypted_storage_value(seal, key, nonce, plaintext),
            )
            &&& stored.0.cipher_key == ctx.cipher_key
            &&& stored.0.next_storage_nonce != ctx.next_storage_nonce
            &&& decrypted_storage_value(
                open,
                stored.0.cipher_key.unwrap(),
                encrypted_storage_value(seal, key, nonce, plaintext),
            ) == Some(plaintext)
        }),
{
    let key = ctx.cipher_key.unwrap();
    let nonce = ctx.next_storage_nonce.unwrap();
    lemma_storage_value_round_trip(seal, open, key, nonce, plaintext);
    lemma_next_nonce(nonce);
}

impl ConfidentialCtx {
    /// Activates the context for `contract`, and returns the address of the
    /// contract that was active. With `None`, a call into a contract that is
    /// not confidential, the context keeps no contract; with an address it
    /// asks `key_manager` for the keys filed under the contract's
    /// identifier.
    pub fn activate<K>(&mut self, contract: Option<Address>, key_manager: K) -> (r: Result<
        Option<Address>,
        ConfidentialError,
    >) where K: FnOnce(H256) -> ContractKey
        requires
            forall|id: H256| key_manager.requires((id,)),
        ensures
            match r {
                Ok(previous) => address_option_view(previous) == old(self)@.contract_address(),
                Err(_) => false,
            },
            match contract {
                None => final(self)@ == old(self)@.activated_for(None),
                Some(address) => exists|id: H256, key: ContractKey|
                    id@ == contract_id_of(address@) && key_manager.ensures((id,), key)
                        && final(self)@ == old(self)@.activated_for(Some((address@, key@))),
            },
    {
        self.activated = true;
        match contract {
            None => Ok(self.swap_contract(None)),
            Some(address) => {
                let id = Self::contract_id(&address);
                let key = key_manager(id);
                let ghost held = key;
                let previous = self.swap_contract(Some((address, key)));
                assert(id@ == contract_id_of(address@) && key_manager.ensures((id,), held)
                    && self@ == old(self)@.activated_for(Some((address@, held@))));
                Ok(previous)
            },
        }
    }

    /// Finishes sealing a message for the peer, given what the cipher made
    /// of it: steps the session nonce and hands the payload on.
    pub fn complete_encrypt_session(&mut self, sealed: Result<Vec<u8>, String>) -> (r: Result<
        Vec<u8>,
        ConfidentialError,
    >)
        ensures
            !old(self)@.session_ready() ==> final(self)@ == old(self)@ && outcome_view(r)
                == Err::<Seq<u8>, Seq<char>>(session_not_ready()),
            old(self)@.session_ready() ==> (final(self)@, outcome_view(r))
                == old(self)@.session_sealed(sealed_view(sealed)),
    {
        if self.peer_public_key.is_none() || self.contract.is_none() || self.next_nonce.is_none() {
            return Err(
                confidential("must have key pair of a contract and peer and a next nonce"),
            );
        }
        let payload = match sealed {
            Ok(payload) => payload,
            Err(words) => {
                return Err(ConfidentialError { words });
            },
        };
        let mut nonce = match self.next_nonce.take() {
            Some(nonce) => nonce,
            None => vstd::pervasive::unreached(),
        };
        let stepped = nonce.increment();
        self.next_nonce = Some(nonce);
        match stepped {
            Ok(_) => Ok(payload),
            Err(_) => Err(confidential("nonce counter exhausted")),
        }
    }

    /// Seals `data` for the peer under the contract's keys and the session
    /// nonce, and steps the nonce. `seal` is the cipher; it is handed the
    /// data, the nonce, the peer's public key and the contract's two keys.
    /// Without a peer, a contract or a nonce nothing is sealed.
    pub fn encrypt_session<S>(&mut self, data: Vec<u8>, seal: S) -> (r: Result<
        Vec<u8>,
        ConfidentialError,
    >) where S: FnOnce(Vec<u8>, Nonce, PublicKey, PublicKey, PrivateKey) -> Result<Vec<u8>, String>
        requires
            forall|d: Vec<u8>, n: Nonce, p: PublicKey, k: PublicKey, s: PrivateKey|
                seal.requires((d, n, p, k, s)),
        ensures
            !old(self)@.session_ready() ==> final(self)@ == old(self)@ && outcome_view(r)
                == Err::<Seq<u8>, Seq<char>>(session_not_ready()),
            old(self)@.session_ready() ==> exists|
                n: Nonce,
                p: PublicKey,
                k: PublicKey,
                s: PrivateKey,
                sealed: Result<Vec<u8>, String>,
            |
                Some(n@) == old(self)@.next_nonce && Some(p@) == old(self)@.peer_public_key && k@
                    == old(self)@.contract.unwrap().1.public_key && s@
                    == old(self)@.contract.unwrap().1.secret_key && seal.ensures(
                    (data, n, p, k, s),
                    sealed,
                ) && (final(self)@, outcome_view(r)) == old(self)@.session_sealed(
                    sealed_view(sealed),
                ),
    {
        let (peer, contract_pk, contract_sk, nonce) = match (
            &self.peer_public_key,
            &self.contract,
            &self.next_nonce,
        ) {
            (Some(peer), Some(c), Some(nonce)) => (
                *peer,
                c.1.input_keypair.get_pk(),
                c.1.input_keypair.get_sk(),
                *nonce,
            ),
            _ => {
                return Err(
                    confidential("must have key pair of a contract and peer and a next nonce"),
                );
            },
        };
        let sealed = seal(data, nonce, peer, contract_pk, contract_sk);
        let ghost handed = sealed;
        let r = self.complete_encrypt_session(sealed);
        assert(seal.ensures((data, nonce, peer, contract_pk, contract_sk), handed) && (
            self@,
            outcome_view(r),
        ) == old(self)@.session_sealed(sealed_view(handed)));
        r
    }

    /// Finishes opening a payload of the peer, given what the cipher made of
    /// it: keeps the peer's key, makes the nonce after the payload's the
    /// next session nonce, and hands the plaintext on.
    pub fn complete_decrypt_session(&mut self, opened: Result<Decryption, String>) -> (r: Result<
        AuthenticatedPayload,
        ConfidentialError,
    >)
        ensures
            final(self)@ == old(self)@.session_opened(opened_view(opened)).0,
            match r {
                Ok(payload) => old(self)@.session_opened(opened_view(opened)).1 is None
                    && opened is Ok && payload.decrypted_data@ == opened.unwrap().plaintext@
                    && payload.additional_data@ == opened.unwrap().aad@,
                Err(e) => old(self)@.session_opened(opened_view(opened)).1 == Some(e.words@),
            },
    {
        let decryption = match opened {
            Ok(decryption) => decryption,
            Err(words) => {
                return Err(ConfidentialError { words });
            },
        };
        self.peer_public_key = Some(decryption.peer_public_key);
        let mut nonce = decryption.nonce;
        match nonce.increment() {
            Ok(_) => {},
            Err(_) => {
                return Err(confidential("nonce counter exhausted"));
            },
        }
        self.next_nonce = Some(nonce);
        Ok(
            AuthenticatedPayload {
                decrypted_data: decryption.plaintext,
                additional_data: decryption.aad,
            },
        )
    }

    /// Opens a payload of the peer with the contract's secret key, and so
    /// opens the session: the peer's key is kept and the nonce after the
    /// payload's is the next session nonce. `open` is the cipher; it is
    /// handed the payload and the secret key. Without a contract nothing is
    /// opened.
    pub fn decrypt_session<O>(&mut self, encrypted_payload: Vec<u8>, open: O) -> (r: Result<
        AuthenticatedPayload,
        ConfidentialError,
    >) where O: FnOnce(Vec<u8>, PrivateKey) -> Result<Decryption, String>
        requires
            forall|d: Vec<u8>, s: PrivateKey| open.requires((d, s)),
        ensures
            old(self)@.contract is None ==> final(self)@ == old(self)@ && r is Err
                && r.unwrap_err().words@ == no_contract_key(),
            old(self)@.contract is Some ==> exists|s: PrivateKey, opened: Result<Decryption, String>|
                s@ == old(self)@.contract.unwrap().1.secret_key && open.ensures(
                    (encrypted_payload, s),
                    opened,
                ) && final(self)@ == old(self)@.session_opened(opened_view(opened)).0 && match r {
                    Ok(payload) => old(self)@.session_opened(opened_view(opened)).1 is None
                        && opened is Ok && payload.decrypted_data@ == opened.unwrap().plaintext@
                        && payload.additional_data@ == opened.unwrap().aad@,
                    Err(e) => old(self)@.session_opened(opened_view(opened)).1 == Some(e.words@),
                },
    {
        let contract_sk = match &self.contract {
            Some(c) => c.1.input_keypair.get_sk(),
            None => {
                return Err(
                    confidential(
                        "The confidential context must have a contract key when opening encrypted transaction data",
                    ),
                );
            },
        };
        let opened = open(encrypted_payload, contract_sk);
        let ghost handed = opened;
        let r = self.complete_decrypt_session(opened);
        assert(open.ensures((encrypted_payload, contract_sk), handed) && self@
            == old(self)@.session_opened(opened_view(handed)).0 && match r {
            Ok(payload) => old(self)@.session_opened(opened_view(handed)).1 is None
                && handed is Ok && payload.decrypted_data@ == handed.unwrap().plaintext@
                && payload.additional_data@ == handed.unwrap().aad@,
            Err(e) => old(self)@.session_opened(opened_view(handed)).1 == Some(e.words@),
        });
        r
    }

    /// Opens encrypted transaction data with the contract's secret key and
    /// returns the plaintext; the context stays as it is. `open` is the
    /// cipher. Without a contract nothing is opened.
    pub fn decrypt<O>(&self, encrypted_tx_data: Vec<u8>, open: O) -> (r: Result<
        Vec<u8>,
        ConfidentialError,
    >) where O: FnOnce(Vec<u8>, PrivateKey) -> Result<Decryption, String>
        requires
            forall|d: Vec<u8>, s: PrivateKey| open.requires((d, s)),
        ensures
            self@.contract is None ==> outcome_view(r) == Err::<Seq<u8>, Seq<char>>(
                no_contract_key(),
            ),
            self@.contract is Some ==> exists|s: PrivateKey, opened: Result<Decryption, String>|
                s@ == self@.contract.unwrap().1.secret_key && open.ensures(
                    (encrypted_tx_data, s),
                    opened,
                ) && match opened {
                    Ok(d) => outcome_view(r) == Ok::<Seq<u8>, Seq<char>>(d.plaintext@),
                    Err(words) => outcome_view(r) == Err::<Seq<u8>, Seq<char>>(words@),
                },
    {
        let contract_sk = match &self.contract {
            Some(c) => c.1.input_keypair.get_sk(),
            None => {
                return Err(
                    confidential(
                        "The confidential context must have a contract key when opening encrypted transaction data",
                    ),
                );
            },
        };
        let opened = open(encrypted_tx_data, contract_sk);
        let ghost handed = opened;
        let r = match opened {
            Ok(decryption) => Ok(decryption.plaintext),
            Err(words) => Err(ConfidentialError { words }),
        };
        assert(open.ensures((encrypted_tx_data, contract_sk), handed) && match handed {
            Ok(d) => outcome_view(r) == Ok::<Seq<u8>, Seq<char>>(d.plaintext@),
            Err(words) => outcome_view(r) == Err::<Seq<u8>, Seq<char>>(words@),
        });
        r
    }

    /// Encrypts a storage key under the contract's state key and the nonce
    /// of fifteen zeros, so that one key always encrypts to one ciphertext
    /// and can be looked up by it. `seal` is the cipher; it is handed the
    /// state key, the nonce and the data. The context stays as it is.
    pub fn encrypt_storage_key<S>(&self, data: Vec<u8>, seal: S) -> (r: Result<
        Vec<u8>,
        ConfidentialError,
    >) where S: FnOnce([u8; 32], [u8; 15], Vec<u8>) -> Vec<u8>
        requires
            forall|k: [u8; 32], n: [u8; 15], d: Vec<u8>| seal.requires((k, n, d)),
        ensures
            self@.cipher_key is None ==> outcome_view(r) == Err::<Seq<u8>, Seq<char>>(
                no_cipher_to_encrypt(),
            ),
            self@.cipher_key is Some ==> exists|k: [u8; 32], n: [u8; 15], sealed: Vec<u8>|
                Some(k@) == self@.cipher_key && n@ == Seq::new(15, |i: int| 0u8) && seal.ensures(
                    (k, n, data),
                    sealed,
                ) && outcome_view(r) == Ok::<Seq<u8>, Seq<char>>(sealed@),
    {
        let key = match &self.d2 {
            Some(cipher) => cipher.key,
            None => {
                return Err(
                    confidential("Should always have a Deoxys-II instance to encrypt storage"),
                );
            },
        };
        let nonce = [0u8; NONCE_SIZE];
        let sealed = seal(key, nonce, data);
        assert(nonce@ =~= Seq::new(15, |i: int| 0u8));
        assert(Some(key@) == self@.cipher_key && seal.ensures((key, nonce, data), sealed));
        Ok(sealed)
    }

    /// Finishes storing a value, given what the cipher sealed under the
    /// storage nonce: puts the nonce behind it and steps the storage nonce.
    pub fn complete_encrypt_storage_value(&mut self, sealed: Vec<u8>) -> (r: Result<
        Vec<u8>,
        ConfidentialError,
    >)
        ensures
            old(self)@.next_storage_nonce is None ==> final(self)@ == old(self)@ && outcome_view(r)
                == Err::<Seq<u8>, Seq<char>>(no_storage_nonce()),
            old(self)@.next_storage_nonce is Some ==> (final(self)@, outcome_view(r))
                == old(self)@.storage_value_sealed(sealed@),
    {
        let mut nonce = match self.next_storage_nonce.take() {
            Some(nonce) => nonce,
            None => {
                return Err(confidential("Should always have a storage encryption nonce."));
            },
        };
        let bytes = nonce.to_bytes();
        let mut ciphertext = sealed;
        let mut i: usize = 0;
        while i < NONCE_SIZE
            invariant
                i <= NONCE_SIZE,
                ciphertext@ == sealed@ + bytes@.take(i as int),
            decreases NONCE_SIZE - i,
        {
            ciphertext.push(bytes[i]);
            assert(bytes@.take(i as int).push(bytes@[i as int]) =~= bytes@.take(i + 1));
            assert(ciphertext@ =~= sealed@ + bytes@.take(i + 1));
            i += 1;
        }
        assert(bytes@.take(NONCE_SIZE as int) =~= bytes@);
        let stepped = nonce.increment();
        self.next_storage_nonce = Some(nonce);
        match stepped {
            Ok(_) => Ok(ciphertext),
            Err(_) => Err(confidential("nonce counter exhausted")),
        }
    }

    /// Encrypts a value for storage under the contract's state key and the
    /// storage nonce, puts the nonce behind the ciphertext and its tag, and
    /// steps the storage nonce. `seal` is the cipher; it is handed the state
    /// key, the nonce and the data.
    pub fn encrypt_storage_value<S>(&mut self, data: Vec<u8>, seal: S) -> (r: Result<
        Vec<u8>,
        ConfidentialError,
    >) where S: FnOnce([u8; 32], [u8; 15], Vec<u8>) -> Vec<u8>
        requires
            forall|k: [u8; 32], n: [u8; 15], d: Vec<u8>| seal.requires((k, n, d)),
        ensures
            old(self)@.next_storage_nonce is None ==> final(self)@ == old(self)@ && outcome_view(r)
                == Err::<Seq<u8>, Seq<char>>(no_storage_nonce()),
            old(self)@.next_storage_nonce is Some && old(self)@.cipher_key is None
                ==> final(self)@ == old(self)@ && outcome_view(r) == Err::<Seq<u8>, Seq<char>>(
                no_cipher_to_encrypt(),
            ),
            old(self)@.next_storage_nonce is Some && old(self)@.cipher_key is Some ==> exists|
                k: [u8; 32],
                n: [u8; 15],
                sealed: Vec<u8>,
            |
                Some(k@) == old(self)@.cipher_key && Some(n@) == old(self)@.next_storage_nonce
                    && seal.ensures((k, n, data), sealed) && (final(self)@, outcome_view(r))
                    == old(self)@.storage_value_sealed(sealed@),
    {
        let nonce = match &self.next_storage_nonce {
            Some(nonce) => nonce.to_bytes(),
            None => {
                return Err(confidential("Should always have a storage encryption nonce."));
            },
        };
        let key = match &self.d2 {
            Some(cipher) => cipher.key,
            None => {
                return Err(
                    confidential("Should always have a Deoxys-II instance to encrypt storage"),
                );
            },
        };
        let sealed = seal(key, nonce, data);
        let ghost handed = sealed;
        let r = self.complete_encrypt_storage_value(sealed);
        assert(Some(key@) == old(self)@.cipher_key && Some(nonce@)
            == old(self)@.next_storage_nonce && seal.ensures((key, nonce, data), handed) && (
            self@,
            outcome_view(r),
        ) == old(self)@.storage_value_sealed(handed@));
        r
    }

    /// Takes a stored value apart: what the cipher sealed, and the nonce
    /// behind it.
    pub fn split_storage_value(data: &Vec<u8>) -> (r: Result<(Vec<u8>, [u8; 15]), ConfidentialError>)
        ensures
            match r {
                Ok(parts) => storage_value_parts(data@) == Some((parts.0@, parts.1@)),
                Err(e) => storage_value_parts(data@) is None && e.words@ == truncated_ciphertext(),
            },
    {
        if data.len() < TAG_SIZE + NONCE_SIZE {
            return Err(confidential("truncated ciphertext"));
        }
        let nonce_offset = data.len() - NONCE_SIZE;
        let mut nonce = [0u8; NONCE_SIZE];
        let mut i: usize = 0;
        while i < NONCE_SIZE
            invariant
                i <= NONCE_SIZE,
                nonce_offset + NONCE_SIZE == data@.len(),
                data@.len() <= usize::MAX,
                forall|k: int| 0 <= k < i ==> nonce@[k] == data@[nonce_offset + k],
            decreases NONCE_SIZE - i,
        {
            nonce[i] = data[nonce_offset + i];
            i += 1;
        }
        let mut ciphertext: Vec<u8> = Vec::new();
        let mut j: usize = 0;
        while j < nonce_offset
            invariant
                j <= nonce_offset,
                nonce_offset <= data@.len(),
                ciphertext@ == data@.take(j as int),
            decreases nonce_offset - j,
        {
            ciphertext.push(data[j]);
            assert(data@.take(j as int).push(data@[j as int]) =~= data@.take(j + 1));
            j += 1;
        }
        assert(nonce@ =~= data@.skip(data@.len() - NONCE_SIZE));
        Ok((ciphertext, nonce))
    }

    /// Decrypts a stored value: takes the nonce from its end and opens the
    /// rest under the contract's state key. The storage nonce plays no part,
    /// so a value stored earlier decrypts as well. `open` is the cipher; it
    /// is handed the state key, the nonce and the ciphertext with its tag.
    pub fn decrypt_storage_value<O>(&self, data: Vec<u8>, open: O) -> (r: Result<
        Vec<u8>,
        ConfidentialError,
    >) where O: FnOnce([u8; 32], [u8; 15], Vec<u8>) -> Result<Vec<u8>, String>
        requires
            forall|k: [u8; 32], n: [u8; 15], d: Vec<u8>| open.requires((k, n, d)),
        ensures
            storage_value_parts(data@) is None ==> outcome_view(r) == Err::<Seq<u8>, Seq<char>>(
                truncated_ciphertext(),
            ),
            storage_value_parts(data@) is Some && self@.cipher_key is None ==> outcome_view(r)
                == Err::<Seq<u8>, Seq<char>>(no_cipher_to_decrypt()),
            storage_value_parts(data@) is Some && self@.cipher_key is Some ==> exists|
                k: [u8; 32],
                n: [u8; 15],
                sealed: Vec<u8>,
                opened: Result<Vec<u8>, String>,
            |
                Some(k@) == self@.cipher_key && storage_value_parts(data@) == Some((sealed@, n@))
                    && open.ensures((k, n, sealed), opened) && outcome_view(r) == sealed_view(
                    opened,
                ),
    {
        let (ciphertext, nonce) = match Self::split_storage_value(&data) {
            Ok(parts) => parts,
            Err(e) => {
                return Err(e);
            },
        };
        let key = match &self.d2 {
            Some(cipher) => cipher.key,
            None => {
                return Err(
                    confidential("Should always have a Deoxys-II instance to decrypt storage"),
                );
            },
        };
        let opened = open(key, nonce, ciphertext);
        let ghost handed = opened;
        let r = match opened {
            Ok(plaintext) => Ok(plaintext),
            Err(words) => Err(ConfidentialError { words }),
        };
        assert(Some(key@) == self@.cipher_key && storage_value_parts(data@) == Some(
            (ciphertext@, nonce@),
        ) && open.ensures((key, nonce, ciphertext), handed) && outcome_view(r) == sealed_view(
            handed,
        ));
        r
    }
}

/// A storage key as a cipher `seal` encrypts it in a context: under the
/// context's cipher key and the nonce of fifteen zeros.
pub open spec fn encrypted_storage_key(
    seal: spec_fn(Seq<u8>, Seq<u8>, Seq<u8>) -> Seq<u8>,
    ctx: CtxView,
    data: Seq<u8>,
) -> Seq<u8> {
    seal(ctx.cipher_key.unwrap(), Seq::new(15, |i: int| 0u8), data)
}

/// A storage key encrypts to the same bytes in any two contexts with the
/// same cipher key, whatever else they hold and however far their nonces
/// have counted.
pub proof fn lemma_storage_key_is_stable(
    seal: spec_fn(Seq<u8>, Seq<u8>, Seq<u8>) -> Seq<u8>,
    a: CtxView,
    b: CtxView,
    data: Seq<u8>,
)
    requires
        a.cipher_key == b.cipher_key,
    ensures
        encrypted_storage_key(seal, a, data) == encrypted_storage_key(seal, b, data),
{
}

/// The context after the values of `sealed` were stored one after the
/// other.
pub open spec fn stored_all(ctx: CtxView, sealed: Seq<Seq<u8>>) -> CtxView
    decreases sealed.len(),
{
    if sealed.len() == 0 {
        ctx
    } else {
        stored_all(ctx, sealed.drop_last()).storage_value_sealed(sealed.last()).0
    }
}

/// The context after the payloads of `sealed` were sealed for the peer one
/// after the other.
pub open spec fn sealed_all(ctx: CtxView, sealed: Seq<Seq<u8>>) -> CtxView
    decreases sealed.len(),
{
    if sealed.len() == 0 {
        ctx
    } else {
        sealed_all(ctx, sealed.drop_last()).session_sealed(Ok(sealed.last())).0
    }
}

/// Every stored value steps the counter of the storage nonce by one and
/// leaves the rest of the nonce alone. So each value of a run is stored
/// under a nonce of its own: the value at place `i` under the counter that
/// is `i` more than the first.
pub proof fn lemma_storage_nonce_counts(ctx: CtxView, sealed: Seq<Seq<u8>>)
    requires
        ctx.next_storage_nonce is Some,
        ctx.next_storage_nonce.unwrap().len() == NONCE_SIZE,
        counter_of(ctx.next_storage_nonce.unwrap()) + sealed.len() <= 0xffff_ffff,
    ensures
        stored_all(ctx, sealed).next_storage_nonce is Some,
        stored_all(ctx, sealed).next_storage_nonce.unwrap().len() == NONCE_SIZE,
        stored_all(ctx, sealed).next_storage_nonce.unwrap().take(11)
            == ctx.next_storage_nonce.unwrap().take(11),
        counter_of(stored_all(ctx, sealed).next_storage_nonce.unwrap()) == counter_of(
            ctx.next_storage_nonce.unwrap(),
        ) + sealed.len(),
        sealed.len() > 0 ==> stored_all(ctx, sealed.drop_last()).storage_value_sealed(
            sealed.last(),
        ).1 == Ok::<Seq<u8>, Seq<char>>(
            framed_storage_value(
                sealed.last(),
                stored_all(ctx, sealed.drop_last()).next_storage_nonce.unwrap(),
            ),
        ),
    decreases sealed.len(),
{
    if sealed.len() > 0 {
        lemma_storage_nonce_counts(ctx, sealed.drop_last());
        let before = stored_all(ctx, sealed.drop_last());
        lemma_next_nonce(before.next_storage_nonce.unwrap());
    }
}

/// Every payload sealed for the peer steps the counter of the session nonce
/// by one and leaves the rest of the nonce alone. So each payload of a run
/// is sealed under a nonce of its own.
pub proof fn lemma_session_nonce_counts(ctx: CtxView, sealed: Seq<Seq<u8>>)
    requires
        ctx.next_nonce is Some,
        ctx.next_nonce.unwrap().len() == NONCE_SIZE,
        counter_of(ctx.next_nonce.unwrap()) + sealed.len() <= 0xffff_ffff,
    ensures
        sealed_all(ctx, sealed).next_nonce is Some,
        sealed_all(ctx, sealed).next_nonce.unwrap().len() == NONCE_SIZE,
        sealed_all(ctx, sealed).next_nonce.unwrap().take(11) == ctx.next_nonce.unwrap().take(11),
        counter_of(sealed_all(ctx, sealed).next_nonce.unwrap()) == counter_of(
            ctx.next_nonce.unwrap(),
        ) + sealed.len(),
        sealed.len() > 0 ==> sealed_all(ctx, sealed.drop_last()).session_sealed(
            Ok(sealed.last()),
        ).1 == Ok::<Seq<u8>, Seq<char>>(sealed.last()),
    decreases sealed.len(),
{
    if sealed.len() > 0 {
        lemma_session_nonce_counts(ctx, sealed.drop_last());
        let before = sealed_all(ctx, sealed.drop_last());
        lemma_next_nonce(before.next_nonce.unwrap());
    }
}

/// No two values of a run are stored under one nonce: the storage nonce
/// after `i` values differs from the storage nonce after `j` values.
pub proof fn lemma_storage_nonce_never_repeats(
    ctx: CtxView,
    sealed: Seq<Seq<u8>>,
    i: int,
    j: int,
)
    requires
        ctx.next_storage_nonce is Some,
        ctx.next_storage_nonce.unwrap().len() == NONCE_SIZE,
        counter_of(ctx.next_storage_nonce.unwrap()) + sealed.len() <= 0xffff_ffff,
        0 <= i < j <= sealed.len(),
    ensures
        stored_all(ctx, sealed.take(i)).next_storage_nonce != stored_all(
            ctx,
            sealed.take(j),
        ).next_storage_nonce,
{
    lemma_storage_nonce_counts(ctx, sealed.take(i));
    lemma_storage_nonce_counts(ctx, sealed.take(j));
}

/// No two payloads of a run are sealed under one nonce: the session nonce
/// after `i` payloads differs from the session nonce after `j` payloads.
pub proof fn lemma_session_nonce_never_repeats(
    ctx: CtxView,
    sealed: Seq<Seq<u8>>,
    i: int,
    j: int,
)
    requires
        ctx.next_nonce is Some,
        ctx.next_nonce.unwrap().len() == NONCE_SIZE,
        counter_of(ctx.next_nonce.unwrap()) + sealed.len() <= 0xffff_ffff,
        0 <= i < j <= sealed.len(),
    ensures
        sealed_all(ctx, sealed.take(i)).next_nonce != sealed_all(ctx, sealed.take(j)).next_nonce,
{
    lemma_session_nonce_counts(ctx, sealed.take(i));
    lemma_session_nonce_counts(ctx, sealed.take(j));
}

impl ConfidentialCtx {
    /// The nonces of a context are 15 bytes long.
    pub proof fn lemma_nonce_lengths(&self)
        ensures
            self@.next_nonce is Some ==> self@.next_nonce.unwrap().len() == NONCE_SIZE,
            self@.next_storage_nonce is Some ==> self@.next_storage_nonce.unwrap().len()
                == NONCE_SIZE,
    {
        if self.next_nonce is Some {
            self.next_nonce.unwrap().lemma_len();
        }
        if self.next_storage_nonce is Some {
            self.next_storage_nonce.unwrap().lemma_len();
        }
    }
}

/// The first storage nonce of a contract counts from zero.
pub proof fn lemma_first_storage_nonce(prev_block_hash: Seq<u8>, address: Seq<u8>)
    ensures
        first_storage_nonce(prev_block_hash, address).len() == NONCE_SIZE,
        counter_of(first_storage_nonce(prev_block_hash, address)) == 0,
{
}

} // verus!
