use base64::engine::general_purpose::URL_SAFE_NO_PAD;
use base64::Engine as _;
use serde_json::Value;
use sd_vc_qr::wallet::{DidKeyResolver, FieldsAmount, FieldsSize, IssuanceConfig, IssuanceParams, SignatureAlgorithm, Wallet};
use sd_vc_qr::wallet::p256::{P256Algorithm, P256Wallet};

#[test]
fn p256_test_verify_sd_vc_jwt() {
    let wallet = P256Wallet;

    // First, we need to generate a DID and keys
    let (issuer_did, keys) = wallet.generate_did().unwrap();

    let params = IssuanceParams {
        issuer_did: issuer_did.clone(),
        method: "TestCredential".to_string(),
        private_key: keys.priv_key,
        config: IssuanceConfig::default(),
    };

    // Issue the JWT
    let (jwt, _disclosures) = wallet.issue_sd_vc_jwt(params).unwrap();

    println!("\n=== P-256 Verification JWT ===");
    println!("{}", jwt);

    // Verify the JWT
    let is_valid = wallet.verify_sd_vc_jwt(jwt).unwrap();
    assert!(is_valid);
}

#[test]
fn p256_test_generate_did() {
    let wallet = P256Wallet;
    let (did, keys) = wallet.generate_did().unwrap();

    // Basic DID format checks
    assert!(did.starts_with("did:key:"));
    assert!(!keys.priv_key.is_empty());
    assert!(!keys.pub_key.is_empty());

    // Check key lengths
    assert_eq!(keys.priv_key.len(), 32); // P-256 private key is 32 bytes
    assert_eq!(keys.pub_key.len(), 65); // Uncompressed P-256 public key is 65 bytes
}

#[test]
fn p256_test_extract_pubkey_from_did() {
    let wallet = P256Wallet;
    let (did, keys) = wallet.generate_did().unwrap();

    // Extract public key from DID
    let extracted_pubkey = DidKeyResolver::extract_pubkey_from_did(&did, 0x1200).unwrap();

    // Should match the original public key
    assert_eq!(extracted_pubkey, keys.pub_key);
}

#[test]
fn p256_test_sign_and_verify_data() {
    let algorithm = P256Algorithm;
    let wallet = P256Wallet;

    // Generate keys
    let (_did, keys) = wallet.generate_did().unwrap();

    // Test data to sign
    let test_data = b"Hello, P-256 world!";

    // Sign the data
    let signature = algorithm.sign_data(test_data, &keys.priv_key).unwrap();
    assert!(!signature.is_empty(), "Signature should not be empty");

    // Verify the signature with correct public key
    let is_valid = algorithm.verify_signature(test_data, &signature, &keys.pub_key).unwrap();
    assert!(is_valid, "Signature verification should succeed with correct key");

    // Verify signature fails with wrong data
    let wrong_data = b"Wrong data";
    let is_invalid = algorithm.verify_signature(wrong_data, &signature, &keys.pub_key).unwrap();
    assert!(!is_invalid, "Signature verification should fail with wrong data");

    // Verify signature fails with wrong public key
    let (_wrong_did, wrong_keys) = wallet.generate_did().unwrap();
    let is_invalid_key = algorithm.verify_signature(test_data, &signature, &wrong_keys.pub_key).unwrap();
    assert!(!is_invalid_key, "Signature verification should fail with wrong public key");
}

#[test]
fn p256_test_algorithm_properties() {
    let algorithm = P256Algorithm;

    assert_eq!(algorithm.algorithm_name(), "ES256");
    assert_eq!(algorithm.proof_type(), "EcdsaSecp256r1Signature2019");
    assert_eq!(algorithm.multicodec_prefix(), 0x1200);
}

#[test]
fn p256_test_issue_sd_vc_jwt() {
    let wallet = P256Wallet;

    // First, we need to generate a DID and keys
    let (issuer_did, keys) = wallet.generate_did().unwrap();

    let params = IssuanceParams {
        issuer_did: issuer_did.clone(),
        method: "TestCredential".to_string(),
        private_key: keys.priv_key,
        config: IssuanceConfig::default(),
    };

    // Issue the JWT
    let (jwt, _disclosures) = wallet.issue_sd_vc_jwt(params).unwrap();

    println!("\n=== P-256 JWT ===");
    println!("{}", jwt);

    // Basic JWT format checks
    assert!(jwt.contains('.'));
    assert!(jwt.contains('~'));

    // Decode and parse the payload
    let parts: Vec<&str> = jwt.split('~').collect();
    let jwt_parts: Vec<&str> = parts[0].split('.').collect();
    assert_eq!(jwt_parts.len(), 3);

    let payload_json = String::from_utf8(URL_SAFE_NO_PAD.decode(jwt_parts[1]).unwrap()).unwrap();
    let payload: Value = serde_json::from_str(&payload_json).unwrap();

    // Basic payload validations
    assert!(payload.get("iss").is_some());
    assert!(payload.get("credentialSubject").is_some());
    assert!(payload.get("validFrom").is_some());
    assert!(payload.get("validUntil").is_some());
    assert!(
        payload["type"]
            .as_array()
            .unwrap()
            .contains(&Value::from("TestCredential"))
    );
}

