use base64::engine::general_purpose::URL_SAFE_NO_PAD;
use base64::Engine as _;
use serde_json::Value;
use sd_vc_qr::wallet::{DidKeyResolver, FieldsAmount, FieldsSize, IssuanceConfig, IssuanceParams, SignatureAlgorithm, Wallet};
use sd_vc_qr::wallet::falcon512::{Falcon512Algorithm, Falcon512Wallet};

#[test]
fn falcon512_test_verify_sd_vc_jwt() {
    let wallet = Falcon512Wallet {};

    // First generate a DID and keys
    let (issuer_did, keys) = wallet.generate_did().unwrap();

    // Create issuance parameters
    let params = IssuanceParams {
        issuer_did,
        method: "TestCredential".to_string(),
        private_key: keys.priv_key,
        config: IssuanceConfig {
            fields_amount: FieldsAmount::Small,
            fields_size: FieldsSize::Small,
            demo_vc: false,
            seed: 12345,
        },
    };

    // Issue the SD-JWT VC
    let (jwt, _disclosures) = wallet.issue_sd_vc_jwt(params).unwrap();

    println!("\n=== Falcon-512 JWT ===");
    println!("{}", jwt);

    // Verify the JWT
    let is_valid = wallet.verify_sd_vc_jwt(jwt).unwrap();
    assert!(is_valid, "JWT verification failed");
}

#[test]
fn falcon512_test_generate_did() {
    let generator = Falcon512Wallet {};
    let (did, keys) = generator.generate_did().unwrap();

    assert!(did.starts_with("did:key:"));
    assert!(!keys.pub_key.is_empty());
    assert!(!keys.priv_key.is_empty());
}

#[test]
fn falcon512_test_extract_pubkey_from_did() {
    let generator = Falcon512Wallet {};
    let algorithm = Falcon512Algorithm;
    let (did, keys) = generator.generate_did().unwrap();

    let extracted_pubkey =
        DidKeyResolver::extract_pubkey_from_did(&did, algorithm.multicodec_prefix()).unwrap();

    assert_eq!(extracted_pubkey, keys.pub_key, "Public key mismatch");
}

#[test]
fn falcon512_test_sign_and_verify_data() {
    let algorithm = Falcon512Algorithm;
    let wallet = Falcon512Wallet {};

    // Generate keys
    let (_did, keys) = wallet.generate_did().unwrap();

    // Test data to sign
    let test_data = b"Hello, Falcon-512 world!";

    // Sign the data
    let signature = algorithm.sign_data(test_data, &keys.priv_key).unwrap();
    assert!(!signature.is_empty(), "Signature should not be empty");

    // Verify the signature with correct public key
    let is_valid = algorithm.verify_signature(test_data, &signature, &keys.pub_key).unwrap();
    assert!(is_valid, "Signature verification should succeed with correct key");

    // Verify signature fails with wrong data
    let wrong_data = b"Wrong data";
    let is_invalid = algorithm.verify_signature(wrong_data, &signature, &keys.pub_key).unwrap();
    assert!(!is_invalid, "Signature verification should fail with wrong data");

    // Verify signature fails with wrong public key
    let (_wrong_did, wrong_keys) = wallet.generate_did().unwrap();
    let is_invalid_key = algorithm.verify_signature(test_data, &signature, &wrong_keys.pub_key).unwrap();
    assert!(!is_invalid_key, "Signature verification should fail with wrong public key");
}

#[test]
fn falcon512_test_algorithm_properties() {
    let algorithm = Falcon512Algorithm;

    assert_eq!(algorithm.algorithm_name(), "falcon512");
    assert_eq!(algorithm.proof_type(), "FalconQuantumResistantSignature2023");
    assert_eq!(algorithm.multicodec_prefix(), 0xEF02);
}

#[test]
fn falcon512_test_issue_sd_vc_jwt() {
    let wallet = Falcon512Wallet {};

    // First generate a DID and keys
    let (issuer_did, keys) = wallet.generate_did().unwrap();

    // Create issuance parameters
    let params = IssuanceParams {
        issuer_did,
        method: "TestCredential".to_string(),
        private_key: keys.priv_key,
        config: IssuanceConfig {
            fields_amount: FieldsAmount::Small,
            fields_size: FieldsSize::Small,
            demo_vc: false,
            seed: 12345,
        },
    };

    // Issue the SD-JWT VC
    let (jwt, disclosures) = wallet.issue_sd_vc_jwt(params).unwrap();
    let disclosures = Value::from(disclosures);

    println!("\n=== Falcon-512 Full SD-JWT VC ===");
    println!("JWT: {}", jwt);
    println!("Disclosures: {}", serde_json::to_string_pretty(&disclosures).unwrap());

    // Basic validation
    let parts: Vec<&str> = jwt.split('.').collect();
    assert_eq!(parts.len(), 3, "JWT should have 3 parts separated by dots");

    // Decode and parse the header
    let header_json = String::from_utf8(URL_SAFE_NO_PAD.decode(parts[0]).unwrap()).unwrap();
    let header: Value = serde_json::from_str(&header_json).unwrap();

    // Basic header validations
    assert_eq!(header["alg"], "falcon512");
    assert_eq!(header["typ"], "vc+sd-jwt");

    // Decode and parse the payload
    let payload_json = String::from_utf8(URL_SAFE_NO_PAD.decode(parts[1]).unwrap()).unwrap();
    let payload: Value = serde_json::from_str(&payload_json).unwrap();

    // Basic payload validations
    assert!(payload.get("iss").is_some());
    assert!(payload.get("credentialSubject").is_some());
    assert!(payload.get("validFrom").is_some());
    assert!(payload.get("validUntil").is_some());
    assert!(payload["_sd_alg"] == "sha-256");
    assert!(
        payload["type"]
            .as_array()
            .unwrap()
            .contains(&Value::from("TestCredential"))
    );

    // Verify disclosures
    assert!(disclosures.is_array());
    let disclosures_arr = disclosures.as_array().unwrap();
    assert!(!disclosures_arr.is_empty());
}
