use tx_support::signer::{Account, AccountRegistry, ResolveError, SignerArgs, SigningKey};

const MNEMONIC: &str = "abandon abandon abandon abandon abandon abandon abandon abandon abandon abandon abandon abandon abandon abandon abandon abandon abandon abandon abandon abandon abandon abandon abandon art";
const PATH: &str = "m/44'/118'/0'/0/0";

fn expect_err(r: Result<SigningKey, ResolveError>) -> ResolveError {
    match r {
        Ok(_) => panic!("expected resolution to fail"),
        Err(e) => e,
    }
}

fn args(
    account: Option<&str>,
    mnemonic: Option<&str>,
    private_key: Option<&str>,
) -> SignerArgs {
    SignerArgs {
        signer_account: account.map(String::from),
        signer_mnemonic: mnemonic.map(String::from),
        signer_private_key: private_key.map(String::from),
    }
}

#[test]
fn test_no_credential_supplied() {
    let empty = AccountRegistry::new();
    let e = expect_err(args(None, None, None).private_key(&empty, PATH));
    assert_eq!(e, ResolveError::NoCredentialSupplied);

    // The registry's contents play no part when no credential is given.
    let mut populated = AccountRegistry::new();
    populated.add(
        "validator".to_string(),
        Account::FromMnemonic {
            mnemonic: MNEMONIC.to_string(),
        },
    );
    let e = expect_err(args(None, None, None)
        .private_key(&populated, PATH));
    assert_eq!(e, ResolveError::NoCredentialSupplied);
}

#[test]
fn test_unknown_account_wins_over_other_fields() {
    let mut registry = AccountRegistry::new();
    registry.add(
        "validator".to_string(),
        Account::FromMnemonic {
            mnemonic: MNEMONIC.to_string(),
        },
    );
    // The account branch is taken even though the other two fields are
    // (invalidly) populated as well.
    let e = expect_err(args(Some("ghost"), Some(MNEMONIC), Some("AAAA"))
        .private_key(&registry, PATH));
    assert_eq!(e, ResolveError::UnknownAccount("ghost".to_string()));
    assert_eq!(
        e.message(),
        "signer account: `ghost` is not defined".to_string()
    );
}

#[test]
fn test_mnemonic_derivation_is_deterministic() {
    let registry = AccountRegistry::new();
    let a = args(None, Some(MNEMONIC), None)
        .private_key(&registry, PATH)
        .unwrap();
    let b = args(None, Some(MNEMONIC), None)
        .private_key(&registry, PATH)
        .unwrap();
    assert_eq!(a.to_bytes(), b.to_bytes());
    assert_eq!(a.to_bytes().len(), 32);

    // A different path selects a different key: derivation really depends on
    // the path.
    let other = args(None, Some(MNEMONIC), None)
        .private_key(&registry, "m/44'/118'/0'/0/1")
        .unwrap();
    assert_ne!(a.to_bytes(), other.to_bytes());
}

#[test]
fn test_invalid_mnemonic() {
    let registry = AccountRegistry::new();
    let e = expect_err(args(None, Some("this is not a valid phrase"), None)
        .private_key(&registry, PATH));
    assert_eq!(e, ResolveError::InvalidMnemonic);
}

#[test]
fn test_malformed_derivation_path() {
    let registry = AccountRegistry::new();
    let e = expect_err(args(None, Some(MNEMONIC), None)
        .private_key(&registry, "not-a-path"));
    assert_eq!(e, ResolveError::InvalidDerivationPath);
}

#[test]
fn test_private_key_not_base64() {
    let registry = AccountRegistry::new();
    let e = expect_err(args(None, None, Some("%%% not base64 %%%"))
        .private_key(&registry, PATH));
    assert_eq!(e, ResolveError::InvalidPrivateKeyEncoding);
}

#[test]
fn test_private_key_roundtrip() {
    let registry = AccountRegistry::new();
    let raw = [1u8; 32];
    let encoded = base64::encode(raw);
    let key = args(None, None, Some(&encoded))
        .private_key(&registry, PATH)
        .unwrap();
    assert_eq!(key.to_bytes().as_slice(), raw.as_slice());
}

#[test]
fn test_private_key_invalid_bytes() {
    let registry = AccountRegistry::new();

    // Zero is not a valid secp256k1 scalar.
    let zeros = base64::encode([0u8; 32]);
    let e = expect_err(args(None, None, Some(&zeros))
        .private_key(&registry, PATH));
    assert_eq!(e, ResolveError::InvalidPrivateKeyBytes);

    // Too short to be a key at all.
    let short = base64::encode([1u8; 16]);
    let e = expect_err(args(None, None, Some(&short))
        .private_key(&registry, PATH));
    assert_eq!(e, ResolveError::InvalidPrivateKeyBytes);

    // 24 bytes would be a valid scalar once left-padded, and the backend
    // alone would accept it; a raw key here is exactly 32 bytes.
    let padded = base64::encode([1u8; 24]);
    let e = expect_err(args(None, None, Some(&padded))
        .private_key(&registry, PATH));
    assert_eq!(e, ResolveError::InvalidPrivateKeyBytes);

    // Too long.
    let long = base64::encode([1u8; 33]);
    let e = expect_err(args(None, None, Some(&long))
        .private_key(&registry, PATH));
    assert_eq!(e, ResolveError::InvalidPrivateKeyBytes);
}

#[test]
fn test_account_from_mnemonic_matches_direct_resolution() {
    let mut registry = AccountRegistry::new();
    registry.add(
        "validator".to_string(),
        Account::FromMnemonic {
            mnemonic: MNEMONIC.to_string(),
        },
    );
    let via_account = args(Some("validator"), None, None)
        .private_key(&registry, PATH)
        .unwrap();
    let direct = args(None, Some(MNEMONIC), None)
        .private_key(&registry, PATH)
        .unwrap();
    assert_eq!(via_account.to_bytes(), direct.to_bytes());
}

#[test]
fn test_account_from_private_key() {
    let raw = [2u8; 32];
    let mut registry = AccountRegistry::new();
    registry.add(
        "treasury".to_string(),
        Account::FromPrivateKey {
            private_key: base64::encode(raw),
        },
    );
    let key = args(Some("treasury"), None, None)
        .private_key(&registry, PATH)
        .unwrap();
    assert_eq!(key.to_bytes().as_slice(), raw.as_slice());
}

#[test]
fn test_mnemonic_wins_over_private_key() {
    let registry = AccountRegistry::new();
    let raw = [3u8; 32];
    let encoded = base64::encode(raw);
    let key = args(None, Some(MNEMONIC), Some(&encoded))
        .private_key(&registry, PATH)
        .unwrap();
    // The mnemonic branch was taken: the key is the derived one, not the
    // decoded bytes.
    let derived = SigningKey::from_mnemonic(MNEMONIC, PATH).unwrap();
    assert_eq!(key.to_bytes(), derived.to_bytes());
    assert_ne!(key.to_bytes().as_slice(), raw.as_slice());
}

#[test]
fn test_malformed_path_checked_after_mnemonic() {
    // The phrase is validated before the path is read, so with both invalid
    // the mnemonic error wins.
    let registry = AccountRegistry::new();
    let e = expect_err(args(None, Some("this is not a valid phrase"), None)
        .private_key(&registry, "not-a-path"));
    assert_eq!(e, ResolveError::InvalidMnemonic);
}

#[test]
fn test_registry_first_entry_wins() {
    let raw = [4u8; 32];
    let mut registry = AccountRegistry::new();
    registry.add(
        "validator".to_string(),
        Account::FromPrivateKey {
            private_key: base64::encode(raw),
        },
    );
    registry.add(
        "validator".to_string(),
        Account::FromMnemonic {
            mnemonic: MNEMONIC.to_string(),
        },
    );
    let key = args(Some("validator"), None, None)
        .private_key(&registry, PATH)
        .unwrap();
    assert_eq!(key.to_bytes().as_slice(), raw.as_slice());
}

#[test]
fn test_no_credential_message() {
    let e = ResolveError::NoCredentialSupplied;
    assert_eq!(
        e.message(),
        "Unable to retrieve signer private key".to_string()
    );
}
