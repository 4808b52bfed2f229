use ows_wallet::xrpl::{sha512_half, ChainType, Curve, SignerError, XrplSigner};

const ABANDON_PHRASE: &str = "abandon abandon abandon abandon abandon abandon abandon abandon abandon abandon abandon about";

/// The secp256k1 key of the abandon mnemonic at m/44'/144'/0'/0/0 (BIP-32).
fn test_privkey() -> Vec<u8> {
    let mnemonic = bip39::Mnemonic::parse(ABANDON_PHRASE).unwrap();
    let seed = mnemonic.to_seed("");
    let signer = XrplSigner;
    let path: bip32::DerivationPath = signer.default_derivation_path(0).parse().unwrap();
    bip32::XPrv::derive_from_path(seed, &path)
        .unwrap()
        .to_bytes()
        .to_vec()
}

fn hex(bytes: &[u8]) -> String {
    bytes.iter().map(|b| format!("{:02x}", b)).collect()
}

#[test]
fn test_chain_properties() {
    let signer = XrplSigner;
    assert_eq!(signer.chain_type(), ChainType::Xrpl);
    assert_eq!(signer.curve(), Curve::Secp256k1);
    assert_eq!(signer.coin_type(), 144);
}

#[test]
fn test_derivation_path() {
    let signer = XrplSigner;
    assert_eq!(signer.default_derivation_path(0), "m/44'/144'/0'/0/0");
    assert_eq!(signer.default_derivation_path(1), "m/44'/144'/0'/0/1");
    assert_eq!(signer.default_derivation_path(5), "m/44'/144'/0'/0/5");
}

#[test]
fn test_derive_address_format() {
    let privkey = test_privkey();
    let signer = XrplSigner;
    let address = signer.derive_address(&privkey).unwrap();

    assert!(
        address.starts_with('r'),
        "XRPL address must start with 'r', got: {}",
        address
    );
    assert!(
        address.len() >= 25 && address.len() <= 34,
        "XRPL address length must be 25-34, got: {}",
        address.len()
    );
}

#[test]
fn test_derive_address_known_vector() {
    let privkey = test_privkey();
    let signer = XrplSigner;
    let address = signer.derive_address(&privkey).unwrap();
    assert_eq!(address, "rHsMGQEkVNJmpGWs8XUBoTBiAAbwxZN5v3");
}

#[test]
fn test_derive_address_deterministic() {
    let privkey = test_privkey();
    let signer = XrplSigner;
    let addr1 = signer.derive_address(&privkey).unwrap();
    let addr2 = signer.derive_address(&privkey).unwrap();
    assert_eq!(addr1, addr2);
}

#[test]
fn test_sign_transaction_single() {
    let privkey = test_privkey();
    let signer = XrplSigner;
    let tx_bytes = b"fake_encoded_tx_bytes_from_encodeForSigning";

    let result = signer.sign_transaction(&privkey, tx_bytes).unwrap();

    // DER signature starts with 0x30
    assert_eq!(result.signature[0], 0x30, "expected DER sequence tag 0x30");
    // secp256k1 DER signatures are 70-72 bytes
    assert!(
        result.signature.len() >= 70 && result.signature.len() <= 72,
        "unexpected DER signature length: {}",
        result.signature.len()
    );
    assert!(result.recovery_id.is_none());
    assert!(result.public_key.is_none());
}

#[test]
fn test_sign_transaction_deterministic() {
    let privkey = test_privkey();
    let signer = XrplSigner;
    let tx_bytes = b"deterministic_test_tx";

    let sig1 = signer.sign_transaction(&privkey, tx_bytes).unwrap();
    let sig2 = signer.sign_transaction(&privkey, tx_bytes).unwrap();
    assert_eq!(
        sig1.signature, sig2.signature,
        "secp256k1 (RFC6979) must be deterministic"
    );
}

#[test]
fn test_sign_transaction_empty_input_errors() {
    let privkey = test_privkey();
    let signer = XrplSigner;
    assert!(signer.sign_transaction(&privkey, b"").is_err());
}

#[test]
fn test_sign_transaction_equals_sign_of_sha512_half() {
    let privkey = test_privkey();
    let signer = XrplSigner;
    let tx_bytes = b"some_encoded_tx_bytes_with_prefix_already_included";

    let sig_tx = signer.sign_transaction(&privkey, tx_bytes).unwrap();
    let digest = sha512_half(tx_bytes);
    let sig_direct = signer.sign(&privkey, &digest).unwrap();

    assert_eq!(
        sig_tx.signature, sig_direct.signature,
        "sign_transaction must be equivalent to sign(sha512_half(bytes))"
    );
}

#[test]
fn test_sign_raw_32_byte_hash() {
    let privkey = test_privkey();
    let signer = XrplSigner;
    let hash = sha512_half(b"test message");
    let result = signer.sign(&privkey, &hash).unwrap();
    assert_eq!(result.signature[0], 0x30);
}

#[test]
fn test_sign_rejects_non_32_byte_hash() {
    let privkey = test_privkey();
    let signer = XrplSigner;
    assert!(signer.sign(&privkey, b"too short").is_err());
    assert!(signer.sign(&privkey, &[0u8; 33]).is_err());
}

#[test]
fn test_sign_message_unsupported() {
    let privkey = test_privkey();
    let signer = XrplSigner;
    let result = signer.sign_message(&privkey, b"hello");
    assert!(result.is_err());
    let err = result.unwrap_err().to_string();
    assert!(
        err.contains("not supported"),
        "error should mention 'not supported', got: {}",
        err
    );
}

#[test]
fn test_derive_address_invalid_key() {
    let signer = XrplSigner;
    assert!(signer.derive_address(&[0u8; 16]).is_err());
    assert!(signer.derive_address(&[]).is_err());
}

// --- further cases ---

#[test]
fn sha512_half_of_empty_input() {
    // SHA-512("") = cf83e135...; its first half.
    assert_eq!(
        hex(&sha512_half(b"")),
        "cf83e1357eefb8bdf1542850d66d8007d620e4050b5715dc83f4a921d36ce9ce"
    );
}

#[test]
fn sha512_half_is_not_its_input() {
    let input = [7u8; 32];
    assert_ne!(sha512_half(&input), input);
}

#[test]
fn derivation_path_of_largest_index() {
    let signer = XrplSigner;
    assert_eq!(signer.default_derivation_path(u32::MAX), "m/44'/144'/0'/0/4294967295");
    assert_eq!(signer.default_derivation_path(10), "m/44'/144'/0'/0/10");
}

#[test]
fn distinct_indices_give_distinct_paths() {
    let signer = XrplSigner;
    assert_ne!(signer.default_derivation_path(1), signer.default_derivation_path(10));
    assert_ne!(signer.default_derivation_path(12), signer.default_derivation_path(120));
}

#[test]
fn sign_reports_the_wrong_hash_length() {
    let privkey = test_privkey();
    let signer = XrplSigner;
    match signer.sign(&privkey, b"too short") {
        Err(SignerError::InvalidMessage(m)) => assert_eq!(m, "expected 32-byte hash, got 9 bytes"),
        other => panic!("unexpected: {:?}", other),
    }
    match signer.sign(&privkey, &[0u8; 33]) {
        Err(SignerError::InvalidMessage(m)) => assert_eq!(m, "expected 32-byte hash, got 33 bytes"),
        other => panic!("unexpected: {:?}", other),
    }
}

#[test]
fn sign_transaction_empty_input_message() {
    let signer = XrplSigner;
    match signer.sign_transaction(&test_privkey(), b"") {
        Err(SignerError::InvalidTransaction(m)) => {
            assert_eq!(m, "transaction bytes must not be empty")
        }
        other => panic!("unexpected: {:?}", other),
    }
}

#[test]
fn sign_message_error_text() {
    let signer = XrplSigner;
    match signer.sign_message(&test_privkey(), b"hello") {
        Err(e @ SignerError::Unsupported(_)) => assert_eq!(
            e.to_string(),
            "unsupported: XRPL off-chain message signing is not supported: no canonical standard exists. Define a convention (e.g. SHA512Half(XMSG\\0 || message)) before enabling this."
        ),
        other => panic!("unexpected: {:?}", other),
    }
}

#[test]
fn invalid_keys_are_reported_as_invalid_private_key() {
    let signer = XrplSigner;
    // The secp256k1 group order n is not a valid scalar, nor is zero.
    let order = [
        0xFF, 0xFF, 0xFF, 0xFF, 0xFF, 0xFF, 0xFF, 0xFF, 0xFF, 0xFF, 0xFF, 0xFF, 0xFF, 0xFF, 0xFF,
        0xFE, 0xBA, 0xAE, 0xDC, 0xE6, 0xAF, 0x48, 0xA0, 0x3B, 0xBF, 0xD2, 0x5E, 0x8C, 0xD0, 0x36,
        0x41, 0x41,
    ];
    for key in [&order[..], &[0u8; 32][..], &[1u8; 33][..], &[1u8; 23][..]] {
        assert!(matches!(
            signer.derive_address(key),
            Err(SignerError::InvalidPrivateKey(_))
        ));
        assert!(matches!(
            signer.sign_transaction(key, b"tx"),
            Err(SignerError::InvalidPrivateKey(_))
        ));
        assert!(matches!(
            signer.sign(key, &[1u8; 32]),
            Err(SignerError::InvalidPrivateKey(_))
        ));
    }
    let mut below_order = order;
    below_order[31] = 0x40;
    assert!(signer.derive_address(&below_order).is_ok());
}

#[test]
fn short_keys_are_padded_on_the_left() {
    let signer = XrplSigner;
    let short = [5u8; 24];
    let mut padded = [0u8; 32];
    padded[8..].copy_from_slice(&short);
    assert_eq!(
        signer.derive_address(&short).unwrap(),
        signer.derive_address(&padded).unwrap()
    );
}

#[test]
fn signatures_differ_between_transactions() {
    let privkey = test_privkey();
    let signer = XrplSigner;
    let a = signer.sign_transaction(&privkey, b"tx-a").unwrap();
    let b = signer.sign_transaction(&privkey, b"tx-b").unwrap();
    assert_ne!(a.signature, b.signature);
}

#[test]
fn address_of_key_one() {
    // Secret key 1: its public key is the generator point G.
    let mut key = [0u8; 32];
    key[31] = 1;
    let address = XrplSigner.derive_address(&key).unwrap();
    assert!(address.starts_with('r'));
    assert!(address.chars().all(|c| "rpshnaf39wBUDNEGHJKLM4PQRST7VWXYZ2bcdeCg65jkm8oFqi1tuvAxyz".contains(c)));
}

#[test]
fn addresses_have_the_classic_format() {
    let signer = XrplSigner;
    for seed in 1u8..=60 {
        let mut key = [0u8; 32];
        key[0] = seed;
        key[31] = seed.wrapping_mul(7);
        let address = signer.derive_address(&key).unwrap();
        assert!(address.starts_with('r'), "{}", address);
        assert!(address.len() >= 25 && address.len() <= 34, "{}", address);
        assert!(address.chars().all(|c| RIPPLE_ALPHABET.contains(c)), "{}", address);
    }
}

const RIPPLE_ALPHABET: &str = "rpshnaf39wBUDNEGHJKLM4PQRST7VWXYZ2bcdeCg65jkm8oFqi1tuvAxyz";

#[test]
fn key_errors_carry_the_k256_text() {
    let signer = XrplSigner;
    match signer.derive_address(&[0u8; 32]) {
        Err(SignerError::InvalidPrivateKey(m)) => assert_eq!(m, "signature error"),
        other => panic!("unexpected: {:?}", other),
    }
    match signer.sign(&[0u8; 32], &[1u8; 32]) {
        Err(e @ SignerError::InvalidPrivateKey(_)) => {
            assert_eq!(e.to_string(), "invalid private key: signature error")
        }
        other => panic!("unexpected: {:?}", other),
    }
    match signer.sign_transaction(&[], b"tx") {
        Err(SignerError::InvalidPrivateKey(m)) => assert_eq!(m, "signature error"),
        other => panic!("unexpected: {:?}", other),
    }
}

#[test]
fn signatures_are_short_der_sequences() {
    let privkey = test_privkey();
    let signer = XrplSigner;
    for tx in [&b"a"[..], &b"payment"[..], &[0u8; 300][..]] {
        let out = signer.sign_transaction(&privkey, tx).unwrap();
        assert_eq!(out.signature[0], 0x30);
        assert!(!out.signature.is_empty() && out.signature.len() <= 72);
        assert!(out.recovery_id.is_none() && out.public_key.is_none());
    }
}
