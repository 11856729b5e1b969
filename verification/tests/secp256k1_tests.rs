use base64::engine::general_purpose::URL_SAFE_NO_PAD;
use base64::Engine as _;
use serde_json::Value;
use sd_vc_qr::wallet::{DidKeyResolver, FieldsAmount, FieldsSize, IssuanceConfig, IssuanceParams, SignatureAlgorithm, Wallet};
use sd_vc_qr::wallet::secp256k1::{Secp256k1Algorithm, Secp256k1Wallet};

#[test]
fn secp256k1_test_verify_sd_vc_jwt() {
    let wallet = Secp256k1Wallet;

    // First, we need to generate a DID and keys
    let (issuer_did, keys) = wallet.generate_did().unwrap();

    // Create issuance parameters
    let params = IssuanceParams {
        issuer_did: issuer_did.clone(),
        method: "TestCredential".to_string(),
        private_key: keys.priv_key.clone(),
        config: IssuanceConfig {
            fields_amount: FieldsAmount::Small,
            fields_size: FieldsSize::Small,
            demo_vc: false,
            seed: 12345,
        },
    };

    // Issue a SD-JWT VC
    let (jwt, _) = wallet.issue_sd_vc_jwt(params).unwrap();

    println!("\n=== secp256k1 Verification JWT ===");
    println!("{}", jwt);

    let result = wallet.verify_sd_vc_jwt(jwt).unwrap();

    assert!(result, "JWT verification failed");
}

#[test]
fn secp256k1_test_generate_did() {
    let wallet = Secp256k1Wallet;
    let (did, did_keys) = wallet.generate_did().unwrap();

    assert!(did.starts_with("did:key:"));
    assert_eq!(did_keys.pub_key.len(), 33); // Compressed public key length
    assert_eq!(did_keys.priv_key.len(), 32); // Private key length
}

#[test]
fn secp256k1_test_extract_pubkey_from_did() {
    let generator = Secp256k1Wallet;
    let algorithm = Secp256k1Algorithm;
    let (did, keys) = generator.generate_did().unwrap();

    let extracted_pubkey =
        DidKeyResolver::extract_pubkey_from_did(&did, algorithm.multicodec_prefix()).unwrap();

    assert_eq!(extracted_pubkey, keys.pub_key, "Public key mismatch");
}

#[test]
fn secp256k1_test_sign_and_verify_data() {
    let algorithm = Secp256k1Algorithm;
    let wallet = Secp256k1Wallet;

    // Generate keys
    let (_did, keys) = wallet.generate_did().unwrap();

    // Test data to sign
    let test_data = b"Hello, secp256k1 world!";

    // Sign the data
    let signature = algorithm.sign_data(test_data, &keys.priv_key).unwrap();
    assert!(!signature.is_empty(), "Signature should not be empty");

    // Verify the signature with correct public key
    let is_valid = algorithm.verify_signature(test_data, &signature, &keys.pub_key).unwrap();
    assert!(is_valid, "Signature verification should succeed with correct key");

    // Verify signature fails with wrong data
    let wrong_data = b"Wrong data";
    let is_invalid = algorithm.verify_signature(wrong_data, &signature, &keys.pub_key).unwrap();
    assert!(!is_invalid, "Signature verification should fail with wrong data");

    // Verify signature fails with wrong public key
    let (_wrong_did, wrong_keys) = wallet.generate_did().unwrap();
    let is_invalid_key = algorithm.verify_signature(test_data, &signature, &wrong_keys.pub_key).unwrap();
    assert!(!is_invalid_key, "Signature verification should fail with wrong public key");
}

#[test]
fn secp256k1_test_algorithm_properties() {
    let algorithm = Secp256k1Algorithm;

    assert_eq!(algorithm.algorithm_name(), "ES256K");
    assert_eq!(algorithm.proof_type(), "EcdsaSecp256k1Signature2019");
    assert_eq!(algorithm.multicodec_prefix(), 0xe7);
}

#[test]
fn secp256k1_test_issue_sd_vc_jwt() {
    let wallet = Secp256k1Wallet;

    // First generate a DID and keys
    let (issuer_did, keys) = wallet.generate_did().unwrap();

    // Create issuance parameters
    let params = IssuanceParams {
        issuer_did,
        method: "TestCredential".to_string(),
        private_key: keys.priv_key,
        config: IssuanceConfig {
            fields_amount: FieldsAmount::Small,
            fields_size: FieldsSize::Small,
            demo_vc: false,
            seed: 12345,
        },
    };

    // Issue the SD-JWT VC
    let (jwt, _disclosures) = wallet.issue_sd_vc_jwt(params).unwrap();

    println!("\n=== secp256k1 JWT ===");
    println!("{}", jwt);

    // Basic validation
    let parts: Vec<&str> = jwt.split('.').collect();
    assert_eq!(parts.len(), 3, "JWT should have 3 parts separated by dots");

    // Decode and parse the header
    let header_json = String::from_utf8(URL_SAFE_NO_PAD.decode(parts[0]).unwrap()).unwrap();
    let header: Value = serde_json::from_str(&header_json).unwrap();

    // Basic header validations
    assert_eq!(header["alg"], "ES256K");
    assert_eq!(header["typ"], "vc+sd-jwt");

    // Decode and parse the payload
    let payload_json = String::from_utf8(URL_SAFE_NO_PAD.decode(parts[1]).unwrap()).unwrap();
    let payload: Value = serde_json::from_str(&payload_json).unwrap();

    // Basic payload validations
    assert!(payload.get("iss").is_some());
    assert!(payload.get("credentialSubject").is_some());
    assert!(payload.get("validFrom").is_some());
    assert!(payload.get("validUntil").is_some());
    assert!(
        payload["type"]
            .as_array()
            .unwrap()
            .contains(&Value::from("TestCredential"))
    );
}
