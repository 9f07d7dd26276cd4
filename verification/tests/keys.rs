use web3_gateway::keys::{
    ContractKey, InputKeyPair, Nonce, NonceError, PrivateKey, PublicKey, StateKey, KEY_SIZE,
    NONCE_SIZE, NONCE_TAG_SIZE, TAG_SIZE,
};

#[test]
fn test_sizes() {
    assert_eq!(NONCE_SIZE, 15);
    assert_eq!(NONCE_TAG_SIZE, 11);
    assert_eq!(KEY_SIZE, 32);
    assert_eq!(TAG_SIZE, 16);
}

#[test]
fn test_nonce_counts_in_its_last_four_bytes() {
    let mut nonce = Nonce::new([9u8; NONCE_SIZE]);
    assert_eq!(nonce.increment(), Ok(()));
    let mut expected = [9u8; NONCE_SIZE];
    expected[14] = 10;
    assert_eq!(nonce.to_bytes(), expected);

    let mut bytes = [0u8; NONCE_SIZE];
    bytes[11..].copy_from_slice(&[0x12, 0xff, 0xff, 0xff]);
    let mut nonce = Nonce::new(bytes);
    assert_eq!(nonce.increment(), Ok(()));
    bytes[11..].copy_from_slice(&[0x13, 0x00, 0x00, 0x00]);
    assert_eq!(nonce.to_bytes(), bytes);
}

#[test]
fn test_nonce_stops_at_the_last_counter() {
    let mut bytes = [7u8; NONCE_SIZE];
    bytes[11..].copy_from_slice(&[0xff, 0xff, 0xff, 0xfe]);
    let mut nonce = Nonce::new(bytes);
    assert_eq!(nonce.increment(), Ok(()));
    bytes[14] = 0xff;
    assert_eq!(nonce.to_bytes(), bytes);
    assert_eq!(nonce.increment(), Err(NonceError::Exhausted));
    assert_eq!(nonce.to_bytes(), bytes);
    assert_eq!(nonce.increment(), Err(NonceError::Exhausted));
}

#[test]
fn test_wipe_overwrites_the_secrets() {
    let mut pair = InputKeyPair::new(PublicKey { bytes: [1u8; 32] }, PrivateKey { bytes: [2u8; 32] });
    pair.wipe();
    assert_eq!(pair.get_sk(), PrivateKey { bytes: [0u8; 32] });
    assert_eq!(pair.get_pk(), PublicKey { bytes: [1u8; 32] });

    let mut key = ContractKey::new(
        PublicKey { bytes: [1u8; 32] },
        PrivateKey { bytes: [2u8; 32] },
        StateKey { bytes: [3u8; 32] },
        vec![4u8, 5],
    );
    key.wipe();
    assert_eq!(key.state_key, StateKey { bytes: [0u8; 32] });
    assert_eq!(key.input_keypair.get_sk(), PrivateKey { bytes: [0u8; 32] });
    assert_eq!(key.input_keypair.get_pk(), PublicKey { bytes: [1u8; 32] });
    assert_eq!(key.checksum, vec![4u8, 5]);
}
