use web3_gateway::confidential::{
    AuthenticatedPayload, ConfidentialCtx, ConfidentialError, Decryption, StorageCipher,
};
use web3_gateway::keys::{
    ContractKey, Nonce, PrivateKey, PublicKey, StateKey, NONCE_SIZE, TAG_SIZE,
};
use web3_gateway::primitives::{Address, H256};

/// What the payload cipher says of a payload that is too short to hold a
/// nonce and a public key.
fn open_payload(data: Vec<u8>, _secret_key: PrivateKey) -> Result<Decryption, String> {
    if data.len() < NONCE_SIZE + 32 {
        return Err("invalid nonce or public key".to_string());
    }
    let mut nonce = [0u8; NONCE_SIZE];
    nonce.copy_from_slice(&data[..NONCE_SIZE]);
    let mut peer = [0u8; 32];
    peer.copy_from_slice(&data[NONCE_SIZE..NONCE_SIZE + 32]);
    Ok(Decryption {
        plaintext: data[NONCE_SIZE + 32..].to_vec(),
        peer_public_key: PublicKey { bytes: peer },
        nonce: Nonce::new(nonce),
        aad: vec![],
    })
}

/// A stand-in for the storage cipher: XOR under key and nonce, and a tag of
/// sixteen bytes that checks the key, the nonce and the length.
fn seal_storage(key: [u8; 32], nonce: [u8; 15], data: Vec<u8>) -> Vec<u8> {
    let mut out: Vec<u8> = data
        .iter()
        .enumerate()
        .map(|(i, b)| b ^ key[i % 32] ^ nonce[i % 15])
        .collect();
    for i in 0..TAG_SIZE {
        out.push(key[i] ^ nonce[i % 15] ^ (data.len() as u8));
    }
    out
}

fn open_storage(key: [u8; 32], nonce: [u8; 15], sealed: Vec<u8>) -> Result<Vec<u8>, String> {
    if sealed.len() < TAG_SIZE {
        return Err("Ciphertext did not include a complete tag.".to_string());
    }
    let len = sealed.len() - TAG_SIZE;
    for i in 0..TAG_SIZE {
        if sealed[len + i] != key[i] ^ nonce[i % 15] ^ (len as u8) {
            return Err("Tag verification failed".to_string());
        }
    }
    Ok(sealed[..len]
        .iter()
        .enumerate()
        .map(|(i, b)| b ^ key[i % 32] ^ nonce[i % 15])
        .collect())
}

fn state_key() -> StateKey {
    let mut bytes = [0u8; 32];
    for i in 0..32 {
        bytes[i] = (7 * i + 3) as u8;
    }
    StateKey { bytes }
}

fn contract_key() -> ContractKey {
    ContractKey::new(
        PublicKey { bytes: [1u8; 32] },
        PrivateKey { bytes: [2u8; 32] },
        state_key(),
        vec![],
    )
}

fn address(tag: u8) -> Address {
    Address { bytes: [tag; 20] }
}

fn active_ctx(prev: H256) -> ConfidentialCtx {
    let mut ctx = ConfidentialCtx::new(prev);
    let previous = ctx.activate(Some(address(9)), |_id| contract_key()).unwrap();
    assert_eq!(previous, None);
    ctx
}

#[test]
fn test_decrypt_with_no_contract_key() {
    let ctx = ConfidentialCtx::new(H256::zero());
    let res = ctx.decrypt(Vec::new(), open_payload);

    assert_eq!(
        &res.err().unwrap().message(),
        "Confidential error: The confidential context must have a contract key when opening encrypted transaction data"
    );
}

#[test]
fn test_decrypt_invalid() {
    let peer_public_key = PublicKey::default();
    let public_key = PublicKey::default();
    let private_key = PrivateKey::default();
    let state_key = StateKey::default();
    let contract_key = ContractKey::new(public_key, private_key, state_key, vec![]);
    let nonce = Nonce::new([0; NONCE_SIZE]);
    let address = Address::zero();
    let ctx = ConfidentialCtx::new_test(
        Some(peer_public_key),
        Some((address, contract_key)),
        Some(nonce.clone()),
        true,
        H256::zero(),
        // No storage encryption, so don't need a Deoxys-II instance.
        None,
        Some(nonce),
    );

    let res = ctx.decrypt(Vec::new(), open_payload);

    assert_eq!(
        &res.err().unwrap().message(),
        "Confidential error: invalid nonce or public key"
    );
}

#[test]
fn test_activated() {
    let peer_public_key = PublicKey::default();
    let public_key = PublicKey::default();
    let private_key = PrivateKey::default();
    let state_key = StateKey::default();
    let contract_key = ContractKey::new(public_key, private_key, state_key, vec![]);
    let nonce = Nonce::new([0; NONCE_SIZE]);
    let address = Address::zero();
    assert_eq!(
        ConfidentialCtx::new_test(
            Some(peer_public_key),
            Some((address, contract_key)),
            Some(nonce),
            true,
            H256::zero(),
            // No storage encryption, so don't need a Deoxys-II instance.
            None,
            None,
        )
        .activated(),
        true
    );
    assert_eq!(
        ConfidentialCtx::new_test(None, None, None, false, H256::zero(), None, None).activated(),
        false
    );
}

#[test]
fn test_decrypt_tx_data_after_deactivate() {
    let peer_public_key = PublicKey::default();
    let public_key = PublicKey::default();
    let private_key = PrivateKey::default();
    let state_key = StateKey::default();
    let contract_key = ContractKey::new(public_key, private_key, state_key, vec![]);
    let nonce = Nonce::new([0; NONCE_SIZE]);
    let address = Address::zero();
    let mut ctx = ConfidentialCtx::new_test(
        Some(peer_public_key),
        Some((address, contract_key)),
        Some(nonce),
        false,
        H256::zero(),
        // No storage encryption, so don't need a Deoxys-II instance.
        None,
        None,
    );

    ctx.deactivate();
    let res = ctx.decrypt(Vec::new(), open_payload);

    assert_eq!(
        &res.err().unwrap().message(),
        "Confidential error: The confidential context must have a contract key when opening encrypted transaction data"
    );
}

#[test]
fn test_is_encrypting_needs_activation_and_contract() {
    let mut ctx = ConfidentialCtx::new(H256::zero());
    assert!(!ctx.is_encrypting());
    assert!(!ctx.activated());

    let previous = ctx.activate(Some(address(9)), |_id| contract_key()).unwrap();
    assert_eq!(previous, None);
    assert!(ctx.activated());
    assert!(ctx.is_encrypting());

    // A call from the confidential contract into one that is not.
    let previous = ctx.activate(None, |_id| contract_key()).unwrap();
    assert_eq!(previous, Some(address(9)));
    assert!(ctx.activated());
    assert!(!ctx.is_encrypting());

    // Back in the confidential contract.
    let previous = ctx.activate(Some(address(9)), |_id| contract_key()).unwrap();
    assert_eq!(previous, None);
    assert!(ctx.is_encrypting());

    ctx.deactivate();
    assert!(!ctx.activated());
    assert!(!ctx.is_encrypting());
    assert_eq!(ctx.peer(), None);
}

#[test]
fn test_activate_asks_for_the_keccak_of_the_address() {
    let mut ctx = ConfidentialCtx::new(H256::zero());
    let mut asked = None;
    ctx.activate(Some(address(9)), |id| {
        asked = Some(id);
        contract_key()
    })
    .unwrap();
    let expected = keccak_hash::keccak([9u8; 20]);
    assert_eq!(asked.unwrap().bytes, expected.0);
    assert_eq!(ConfidentialCtx::contract_id(&address(9)).bytes, expected.0);
    assert_ne!(asked.unwrap().bytes[..20], [9u8; 20]);
}

#[test]
fn test_storage_value_layout_and_first_nonce() {
    let prev = H256 { bytes: [5u8; 32] };
    let mut ctx = active_ctx(prev);
    let plaintext = vec![10u8, 20, 30];

    let stored = ctx
        .encrypt_storage_value(plaintext.clone(), seal_storage)
        .unwrap();

    // ciphertext || tag || nonce
    assert_eq!(stored.len(), plaintext.len() + TAG_SIZE + NONCE_SIZE);
    let mut buffer = vec![5u8; 32];
    buffer.extend_from_slice(&[9u8; 20]);
    let digest = <sha2::Sha512_256 as sha2::Digest>::digest(&buffer);
    let mut nonce = [0u8; NONCE_SIZE];
    nonce[..11].copy_from_slice(&digest[..11]);
    assert_eq!(&stored[stored.len() - NONCE_SIZE..], &nonce[..]);
    assert_eq!(
        &stored[..stored.len() - NONCE_SIZE],
        &seal_storage(state_key().bytes, nonce, plaintext)[..]
    );
}

#[test]
fn test_storage_value_round_trip() {
    let mut ctx = active_ctx(H256::zero());
    for plaintext in [vec![], vec![0u8], vec![1u8, 2, 3, 4, 5], vec![255u8; 100]] {
        let stored = ctx
            .encrypt_storage_value(plaintext.clone(), seal_storage)
            .unwrap();
        let opened = ctx.decrypt_storage_value(stored, open_storage).unwrap();
        assert_eq!(opened, plaintext);
    }
}

#[test]
fn test_storage_value_decrypts_after_later_stores() {
    let mut ctx = active_ctx(H256::zero());
    let first = ctx
        .encrypt_storage_value(vec![1u8, 2, 3], seal_storage)
        .unwrap();
    let second = ctx
        .encrypt_storage_value(vec![4u8, 5, 6], seal_storage)
        .unwrap();
    assert_eq!(
        ctx.decrypt_storage_value(first, open_storage).unwrap(),
        vec![1u8, 2, 3]
    );
    assert_eq!(
        ctx.decrypt_storage_value(second, open_storage).unwrap(),
        vec![4u8, 5, 6]
    );
}

#[test]
fn test_storage_nonce_counts_up() {
    let mut ctx = active_ctx(H256::zero());
    let mut seen: Vec<Vec<u8>> = Vec::new();
    for i in 0..300u32 {
        let stored = ctx.encrypt_storage_value(vec![7u8], seal_storage).unwrap();
        let nonce = stored[stored.len() - NONCE_SIZE..].to_vec();
        let counter = u32::from_be_bytes([nonce[11], nonce[12], nonce[13], nonce[14]]);
        assert_eq!(counter, i);
        assert!(!seen.contains(&nonce));
        if let Some(last) = seen.last() {
            assert_eq!(last[..11], nonce[..11]);
        }
        seen.push(nonce);
    }
}

#[test]
fn test_storage_nonce_differs_between_contracts_and_blocks() {
    let nonce_of = |prev: H256, contract: Address| {
        let mut ctx = ConfidentialCtx::new(prev);
        ctx.activate(Some(contract), |_id| contract_key()).unwrap();
        let stored = ctx.encrypt_storage_value(vec![], seal_storage).unwrap();
        stored[stored.len() - NONCE_SIZE..].to_vec()
    };
    let a = nonce_of(H256::zero(), address(1));
    let b = nonce_of(H256::zero(), address(2));
    let c = nonce_of(H256 { bytes: [1u8; 32] }, address(1));
    assert_ne!(a, b);
    assert_ne!(a, c);
    assert_eq!(a, nonce_of(H256::zero(), address(1)));
}

#[test]
fn test_storage_nonce_exhausted() {
    let mut last = [0u8; NONCE_SIZE];
    last[11..].copy_from_slice(&[0xff, 0xff, 0xff, 0xff]);
    let mut ctx = ConfidentialCtx::new_test(
        None,
        Some((address(9), contract_key())),
        None,
        true,
        H256::zero(),
        Some(StorageCipher::new(&state_key())),
        Some(Nonce::new(last)),
    );
    let res = ctx.encrypt_storage_value(vec![1u8], seal_storage);
    assert_eq!(
        res.err().unwrap().message(),
        "Confidential error: nonce counter exhausted"
    );
    // The nonce stayed where it was.
    let res = ctx.encrypt_storage_value(vec![1u8], seal_storage);
    assert!(res.is_err());
}

#[test]
fn test_nonce_increment_carries() {
    let mut bytes = [3u8; NONCE_SIZE];
    bytes[11..].copy_from_slice(&[0x00, 0x01, 0xff, 0xff]);
    let mut nonce = Nonce::new(bytes);
    assert_eq!(nonce.increment(), Ok(()));
    let mut expected = [3u8; NONCE_SIZE];
    expected[11..].copy_from_slice(&[0x00, 0x02, 0x00, 0x00]);
    assert_eq!(nonce.to_bytes(), expected);
}

#[test]
fn test_storage_key_is_deterministic() {
    let mut ctx = active_ctx(H256::zero());
    let key = vec![1u8, 2, 3, 4];
    let first = ctx.encrypt_storage_key(key.clone(), seal_storage).unwrap();
    // Storing values in between moves the storage nonce, not the key nonce.
    ctx.encrypt_storage_value(vec![9u8], seal_storage).unwrap();
    let second = ctx.encrypt_storage_key(key.clone(), seal_storage).unwrap();
    assert_eq!(first, second);
    assert_eq!(first, seal_storage(state_key().bytes, [0u8; NONCE_SIZE], key));

    // Another block, the same contract key: the same ciphertext.
    let ctx = active_ctx(H256 { bytes: [8u8; 32] });
    let third = ctx
        .encrypt_storage_key(vec![1u8, 2, 3, 4], seal_storage)
        .unwrap();
    assert_eq!(first, third);
}

#[test]
fn test_decrypt_storage_value_truncated() {
    let ctx = active_ctx(H256::zero());
    let res = ctx.decrypt_storage_value(vec![0u8; TAG_SIZE + NONCE_SIZE - 1], open_storage);
    assert_eq!(
        res.err().unwrap().message(),
        "Confidential error: truncated ciphertext"
    );
    // Long enough to be taken apart, and then refused by the cipher.
    let res = ctx.decrypt_storage_value(vec![0u8; TAG_SIZE + NONCE_SIZE], open_storage);
    assert_eq!(
        res.err().unwrap().message(),
        "Confidential error: Tag verification failed"
    );
}

#[test]
fn test_storage_without_cipher_fails() {
    let mut ctx = ConfidentialCtx::new(H256::zero());
    assert_eq!(
        ctx.encrypt_storage_key(vec![1u8], seal_storage)
            .err()
            .unwrap()
            .message(),
        "Confidential error: Should always have a Deoxys-II instance to encrypt storage"
    );
    assert_eq!(
        ctx.encrypt_storage_value(vec![1u8], seal_storage)
            .err()
            .unwrap()
            .message(),
        "Confidential error: Should always have a storage encryption nonce."
    );
    assert_eq!(
        ctx.decrypt_storage_value(vec![0u8; 40], open_storage)
            .err()
            .unwrap()
            .message(),
        "Confidential error: Should always have a Deoxys-II instance to decrypt storage"
    );
}

#[test]
fn test_split_storage_value() {
    let mut data = vec![1u8; 20];
    data.extend_from_slice(&[2u8; NONCE_SIZE]);
    let (sealed, nonce) = ConfidentialCtx::split_storage_value(&data).unwrap();
    assert_eq!(sealed, vec![1u8; 20]);
    assert_eq!(nonce, [2u8; NONCE_SIZE]);
    assert!(ConfidentialCtx::split_storage_value(&vec![0u8; 30]).is_err());
    assert!(ConfidentialCtx::split_storage_value(&vec![0u8; 31]).is_ok());
}

#[test]
fn test_encrypt_session_needs_peer_contract_and_nonce() {
    let mut ctx = active_ctx(H256::zero());
    let res = ctx.encrypt_session(vec![1u8], |_, _, _, _, _| Ok(vec![]));
    assert_eq!(
        res.err().unwrap().message(),
        "Confidential error: must have key pair of a contract and peer and a next nonce"
    );
}

fn payload(nonce: [u8; NONCE_SIZE], peer: [u8; 32], plaintext: &[u8]) -> Vec<u8> {
    let mut out = nonce.to_vec();
    out.extend_from_slice(&peer);
    out.extend_from_slice(plaintext);
    out
}

#[test]
fn test_session_opens_and_ratchets() {
    let mut ctx = active_ctx(H256::zero());
    let mut start = [4u8; NONCE_SIZE];
    start[11..].copy_from_slice(&[0, 0, 0, 41]);

    let mut handed_key = None;
    let opened: AuthenticatedPayload = ctx
        .decrypt_session(payload(start, [6u8; 32], b"call"), |data, sk| {
            handed_key = Some(sk);
            open_payload(data, sk)
        })
        .unwrap();
    assert_eq!(opened.decrypted_data, b"call".to_vec());
    assert_eq!(opened.additional_data, Vec::<u8>::new());
    assert_eq!(handed_key, Some(PrivateKey { bytes: [2u8; 32] }));
    assert_eq!(ctx.peer(), Some(vec![6u8; 32]));

    let mut nonces = Vec::new();
    for _ in 0..3 {
        let sealed = ctx
            .encrypt_session(b"answer".to_vec(), |data, nonce, peer, pk, sk| {
                assert_eq!(peer, PublicKey { bytes: [6u8; 32] });
                assert_eq!(pk, PublicKey { bytes: [1u8; 32] });
                assert_eq!(sk, PrivateKey { bytes: [2u8; 32] });
                nonces.push(nonce.to_bytes());
                Ok(data)
            })
            .unwrap();
        assert_eq!(sealed, b"answer".to_vec());
    }
    let counters: Vec<u32> = nonces
        .iter()
        .map(|n| u32::from_be_bytes([n[11], n[12], n[13], n[14]]))
        .collect();
    assert_eq!(counters, vec![42, 43, 44]);
    assert!(nonces.iter().all(|n| n[..11] == [4u8; 11]));
}

#[test]
fn test_session_seal_failure_keeps_nonce() {
    let mut ctx = active_ctx(H256::zero());
    ctx.decrypt_session(payload([0u8; NONCE_SIZE], [6u8; 32], b""), open_payload)
        .unwrap();
    let res = ctx.encrypt_session(vec![], |_, _, _, _, _| Err("no luck".to_string()));
    assert_eq!(
        res.err().unwrap(),
        ConfidentialError { words: "no luck".to_string() }
    );
    let mut seen = None;
    ctx.encrypt_session(vec![], |data, nonce, _, _, _| {
        seen = Some(nonce.to_bytes());
        Ok(data)
    })
    .unwrap();
    let mut expected = [0u8; NONCE_SIZE];
    expected[14] = 1;
    assert_eq!(seen, Some(expected));
}

#[test]
fn test_decrypt_session_without_contract_fails() {
    let mut ctx = ConfidentialCtx::new(H256::zero());
    let res = ctx.decrypt_session(vec![0u8; 64], open_payload);
    assert_eq!(
        res.err().unwrap().message(),
        "Confidential error: The confidential context must have a contract key when opening encrypted transaction data"
    );
    assert_eq!(ctx.peer(), None);
}

#[test]
fn test_swap_contract_for_another() {
    let mut ctx = active_ctx(H256::zero());
    let other = ContractKey::new(
        PublicKey { bytes: [3u8; 32] },
        PrivateKey { bytes: [4u8; 32] },
        StateKey { bytes: [5u8; 32] },
        vec![],
    );
    let previous = ctx.swap_contract(Some((address(7), other)));
    assert_eq!(previous, Some(address(9)));
    let sealed = ctx.encrypt_storage_key(vec![1u8], seal_storage).unwrap();
    assert_eq!(sealed, seal_storage([5u8; 32], [0u8; NONCE_SIZE], vec![1u8]));
}
