use sd_vc_qr::claims::{ClaimSet, ClaimValue};
use sd_vc_qr::did::dilithium2::Dilithium2DidGenerator;
use sd_vc_qr::did::{did_key_from_public_key, DidGenerator};
use sd_vc_qr::encoding::{base64url_decode, base64url_encode, decode_base64url, sha256_digest, varint_decode_u64, varint_encode_u64};
use sd_vc_qr::error::{CryptoError, DidError, SdJwtError};
use sd_vc_qr::json::{json_string_literal, flag_disclosure_json, header_json, parse_header_claims, parse_payload_claims, payload_json, text_disclosure_json, PayloadClaims};
use sd_vc_qr::sd_jwt::issuer::SdJwtIssuer;
use sd_vc_qr::sd_jwt::verifying::SdJwtVerifier;
use sd_vc_qr::text::{join_strings, split_char};
use sd_vc_qr::wallet::ed25519::{Ed25519Algorithm, Ed25519Wallet};
use sd_vc_qr::wallet::secp256k1::{Secp256k1Algorithm, Secp256k1Wallet};
use sd_vc_qr::wallet::p256::P256Algorithm;
use sd_vc_qr::wallet::{DidKeyResolver, FieldsAmount, FieldsSize, IssuanceConfig, IssuanceParams, SignatureAlgorithm, Wallet};

#[test]
fn test_build_vc() {
    let wallet = Secp256k1Wallet {};
    let params = IssuanceParams {
        issuer_did: "did:key:example".to_string(),
        method: "ExampleMethod".to_string(),
        private_key: vec![],
        config: IssuanceConfig::default(),
    };
    let vc = wallet.build_vc(&params).unwrap();

    assert_eq!(vc.issuer, "did:key:example");
    assert_eq!(vc.types[0], "VerifiableCredential");
}

#[test]
fn dilithium2_test_generate_did() {
    let generator = Dilithium2DidGenerator {};
    let (did, private_key) = generator.generate_did().unwrap();

    assert!(did.starts_with("did:key:"));
    assert!(private_key.is_object());
}

#[test]
fn build_vc_subject_is_in_key_order_and_seeded() {
    let wallet = Secp256k1Wallet;
    let params = IssuanceParams {
        issuer_did: "did:key:example".to_string(),
        method: "ExampleMethod".to_string(),
        private_key: vec![],
        config: IssuanceConfig { fields_amount: FieldsAmount::Small, fields_size: FieldsSize::Medium, demo_vc: false, seed: 7 },
    };
    let vc = wallet.build_vc(&params).unwrap();
    let keys: Vec<&str> = vc.credential_subject.entries().iter().map(|(k, _)| k.as_str()).collect();
    assert_eq!(keys, vec!["field1", "field2", "field3", "field4", "field5", "id"]);
    for (k, v) in vc.credential_subject.entries().iter() {
        match v {
            ClaimValue::Text(t) if k != "id" => {
                assert_eq!(t.len(), 64);
                assert!(t.chars().all(|c| c.is_ascii_lowercase()));
            }
            ClaimValue::Text(t) => assert_eq!(t, "did:key:example"),
            ClaimValue::Flag(_) | ClaimValue::Json(_) => panic!("only text expected"),
        }
    }
    assert_eq!(vc.context, vec!["https://www.w3.org/2018/credentials/v1".to_string()]);
    assert_eq!(vc.types, vec!["VerifiableCredential".to_string(), "ExampleMethod".to_string()]);
    assert!(vc.id.starts_with("urn:uuid:"));
    // The same seed draws the same fields.
    let again = wallet.build_vc(&params).unwrap();
    let first: Vec<String> = vc.credential_subject.entries().iter().map(|(_, v)| match v { ClaimValue::Text(t) => t.clone(), ClaimValue::Flag(_) | ClaimValue::Json(_) => String::new() }).collect();
    let second: Vec<String> = again.credential_subject.entries().iter().map(|(_, v)| match v { ClaimValue::Text(t) => t.clone(), ClaimValue::Flag(_) | ClaimValue::Json(_) => String::new() }).collect();
    assert_eq!(first, second);
}

#[test]
fn build_vc_demo_has_demo_and_id() {
    let wallet = Ed25519Wallet {};
    let params = IssuanceParams {
        issuer_did: "did:key:z".to_string(),
        method: "M".to_string(),
        private_key: vec![],
        config: IssuanceConfig { fields_amount: FieldsAmount::Large, fields_size: FieldsSize::Large, demo_vc: true, seed: 0 },
    };
    let vc = wallet.build_vc(&params).unwrap();
    assert_eq!(vc.credential_subject.len(), 2);
    let e = vc.credential_subject.entries();
    assert_eq!(e[0].0, "demo");
    assert!(matches!(e[0].1, ClaimValue::Flag(true)));
    assert_eq!(e[1].0, "id");
}

#[test]
fn claim_set_keeps_byte_order_and_replaces() {
    let mut set = ClaimSet::new();
    set.insert("b".to_string(), ClaimValue::Flag(false));
    set.insert("a".to_string(), ClaimValue::Text("x".to_string()));
    set.insert("ab".to_string(), ClaimValue::Flag(true));
    set.insert("b".to_string(), ClaimValue::Text("y".to_string()));
    let keys: Vec<&str> = set.entries().iter().map(|(k, _)| k.as_str()).collect();
    assert_eq!(keys, vec!["a", "ab", "b"]);
    assert!(matches!(&set.entries()[2].1, ClaimValue::Text(t) if t == "y"));
    assert_eq!(set.len(), 3);
}

#[test]
fn fields_counts_and_labels() {
    assert_eq!(FieldsAmount::Small.to_usize(), 5);
    assert_eq!(FieldsAmount::Medium.to_usize(), 50);
    assert_eq!(FieldsAmount::Large.to_usize(), 500);
    assert_eq!(FieldsSize::Small.to_usize(), 6);
    assert_eq!(FieldsSize::Medium.to_usize(), 64);
    assert_eq!(FieldsSize::Large.to_usize(), 640);
    assert_eq!(FieldsAmount::Medium.to_label(), "50_fields");
    assert_eq!(FieldsSize::Large.to_label(), "640_bytes");
    let config = IssuanceConfig::default();
    assert!(matches!(config.fields_amount, FieldsAmount::Small));
    assert!(matches!(config.fields_size, FieldsSize::Small));
    assert!(!config.demo_vc);
    assert_eq!(config.seed, 0);
}

#[test]
fn base64url_examples() {
    assert_eq!(base64url_encode(b"hello"), "aGVsbG8");
    assert_eq!(base64url_encode(&[0xfb, 0xff]), "-_8");
    assert_eq!(base64url_encode(b""), "");
    assert_eq!(base64url_decode("aGVsbG8").unwrap(), b"hello".to_vec());
    assert!(base64url_decode("aGVsbG8=").is_none());
    assert!(base64url_decode("aGVsbG9").is_none());
    assert!(decode_base64url("a").is_none());
    assert_eq!(decode_base64url("-_8").unwrap(), vec![0xfb, 0xff]);
}

#[test]
fn sha256_of_empty_input() {
    let d = sha256_digest(b"");
    assert_eq!(base64url_encode(&d), "47DEQpj8HBSa-_TImW-5JCeuQeRkm5NMpJWZG3hSuFU");
}

#[test]
fn varint_examples() {
    assert_eq!(varint_encode_u64(0xed), vec![0xed, 0x01]);
    assert_eq!(varint_encode_u64(0x1200), vec![0x80, 0x24]);
    assert_eq!(varint_encode_u64(0xe7), vec![0xe7, 0x01]);
    assert_eq!(varint_encode_u64(5), vec![5]);
    assert_eq!(varint_decode_u64(&[0xed, 0x01, 9, 9]).unwrap(), (0xed, vec![9, 9]));
    assert!(varint_decode_u64(&[0x80]).is_none());
    assert!(varint_decode_u64(&[0x80, 0x00]).is_none());
}

#[test]
fn split_and_join() {
    assert_eq!(split_char("a.b.c", '.'), vec!["a", "b", "c"]);
    assert_eq!(split_char("", '~'), vec![""]);
    assert_eq!(split_char("a~", '~'), vec!["a", ""]);
    assert_eq!(join_strings(&vec!["x".to_string(), "y".to_string()], "~"), "x~y");
    assert_eq!(join_strings(&vec![], "~"), "");
}

#[test]
fn did_key_roundtrip_and_prefix() {
    let key = [7u8; 32];
    let did = did_key_from_public_key(0xed, &key);
    // Ed25519 key DIDs start with z6Mk.
    assert!(did.starts_with("did:key:z6Mk"));
    assert_eq!(DidKeyResolver::extract_pubkey_from_did(&did, 0xed).unwrap(), key.to_vec());
    assert_eq!(
        DidKeyResolver::extract_pubkey_from_did(&did, 0xe7),
        Err(DidError::UnexpectedMulticodec { expected: 0xe7, found: 0xed })
    );
}

#[test]
fn did_key_errors() {
    assert_eq!(DidKeyResolver::extract_pubkey_from_did("did:web:x", 0xed), Err(DidError::MissingDidKeyPrefix));
    assert_eq!(DidKeyResolver::extract_pubkey_from_did("did:key", 0xed), Err(DidError::MissingDidKeyPrefix));
    assert_eq!(DidKeyResolver::extract_pubkey_from_did("did:key:z0OIl", 0xed), Err(DidError::InvalidMultibase));
    // Base58 of the single byte 0x80: a varint that never ends.
    let did = format!("did:key:{}", multibase::encode(multibase::Base::Base58Btc, [0x80u8]));
    assert_eq!(DidKeyResolver::extract_pubkey_from_did(&did, 0xed), Err(DidError::InvalidVarint));
}

#[test]
fn parse_jwt_layout() {
    let (jwt_parts, parts) = SdJwtVerifier::parse_jwt("h.p.s~d1~d2").unwrap();
    assert_eq!(jwt_parts, vec!["h", "p", "s"]);
    assert_eq!(parts, vec!["h.p.s", "d1", "d2"]);
    assert!(matches!(SdJwtVerifier::parse_jwt("h.p~d"), Err(SdJwtError::InvalidJwtFormat)));
    assert!(matches!(SdJwtVerifier::parse_jwt("a.b.c.d"), Err(SdJwtError::InvalidJwtFormat)));
}

#[test]
fn header_json_text_and_reading() {
    let h = header_json("EdDSA", "vc+sd-jwt", "did:key:z#keys-1");
    assert_eq!(h, r#"{"alg":"EdDSA","kid":"did:key:z#keys-1","typ":"vc+sd-jwt"}"#);
    let claims = parse_header_claims(h.as_bytes()).unwrap();
    assert_eq!(claims.alg.as_deref(), Some("EdDSA"));
    assert_eq!(claims.kid.as_deref(), Some("did:key:z#keys-1"));
    assert!(parse_header_claims(b"not json").is_none());
}

#[test]
fn payload_json_text_matches_serde() {
    let ctx = vec!["c".to_string()];
    let digests = vec!["d1".to_string(), "d\"2".to_string()];
    let types = vec!["T".to_string()];
    let text = payload_json("sha-256", &ctx, &digests, 10, -3, "urn:x", "did:key:z", &types, "f", "u");
    let mut m = serde_json::Map::new();
    m.insert("_sd_alg".into(), "sha-256".into());
    m.insert("@context".into(), serde_json::Value::from(ctx.clone()));
    let mut cs = serde_json::Map::new();
    cs.insert("_sd".into(), serde_json::Value::from(digests.clone()));
    m.insert("credentialSubject".into(), serde_json::Value::Object(cs));
    m.insert("exp".into(), 10.into());
    m.insert("iat".into(), (-3).into());
    m.insert("id".into(), "urn:x".into());
    m.insert("iss".into(), "did:key:z".into());
    let mut iss = serde_json::Map::new();
    iss.insert("id".into(), "did:key:z".into());
    m.insert("issuer".into(), serde_json::Value::Object(iss));
    m.insert("sub".into(), "urn:x".into());
    m.insert("type".into(), serde_json::Value::from(types.clone()));
    m.insert("validFrom".into(), "f".into());
    m.insert("validUntil".into(), "u".into());
    assert_eq!(text, serde_json::Value::Object(m).to_string());
    let claims = parse_payload_claims(text.as_bytes()).unwrap();
    assert_eq!(claims.iss.as_deref(), Some("did:key:z"));
    assert_eq!(claims.sd_alg.as_deref(), Some("sha-256"));
    assert_eq!(claims.sd_digests, Some(vec![Some("d1".to_string()), Some("d\"2".to_string())]));
}

#[test]
fn disclosure_json_matches_serde() {
    let text = text_disclosure_json("s\\alt", "name", "va\"lue");
    let expected = serde_json::Value::from(vec![
        serde_json::Value::from("s\\alt"),
        serde_json::Value::from("name"),
        serde_json::Value::from("va\"lue"),
    ]);
    assert_eq!(text, expected.to_string());
    let flag = flag_disclosure_json("salt", "demo", true);
    let expected = serde_json::Value::from(vec![
        serde_json::Value::from("salt"),
        serde_json::Value::from("demo"),
        serde_json::Value::from(true),
    ]);
    assert_eq!(flag, expected.to_string());
    assert_eq!(flag_disclosure_json("a", "b", false), "[\"a\",\"b\",false]");
}

fn payload(sd_alg: Option<&str>, sd: Option<Vec<Option<String>>>) -> PayloadClaims {
    PayloadClaims { iss: Some("did".to_string()), sd_alg: sd_alg.map(|s| s.to_string()), sd_digests: sd }
}

#[test]
fn verify_disclosures_outcomes() {
    let d = "WyJzYWx0IiwibmFtZSIsInZhbHVlIl0";
    let digest = SdJwtIssuer::digest_of(d);
    assert!(SdJwtVerifier::verify_disclosures(&["jwt"], &payload(None, None)).unwrap());
    assert!(matches!(SdJwtVerifier::verify_disclosures(&["jwt", d], &payload(None, None)), Err(SdJwtError::MissingSdAlg)));
    assert!(matches!(
        SdJwtVerifier::verify_disclosures(&["jwt", d], &payload(Some("sha-512"), None)),
        Err(SdJwtError::UnsupportedSdAlg(a)) if a == "sha-512"
    ));
    assert!(matches!(SdJwtVerifier::verify_disclosures(&["jwt", d], &payload(Some("sha-256"), None)), Err(SdJwtError::InvalidSdFormat)));
    assert!(SdJwtVerifier::verify_disclosures(&["jwt", d], &payload(Some("sha-256"), Some(vec![None, Some(digest.clone())]))).unwrap());
    assert!(matches!(
        SdJwtVerifier::verify_disclosures(&["jwt", d], &payload(Some("sha-256"), Some(vec![Some("other".to_string())]))),
        Err(SdJwtError::DigestNotFound(x)) if x == digest
    ));
}

#[test]
fn verify_jwt_structure_errors() {
    let h_ok = base64url_encode(header_json("EdDSA", "vc+sd-jwt", "did:key:abc#keys-1").as_bytes());
    let p_ok = base64url_encode(br#"{"iss":"did:key:abc"}"#);
    let p_bad_iss = base64url_encode(br#"{"iss":"did:key:other"}"#);
    let h_no_kid = base64url_encode(br#"{"alg":"EdDSA"}"#);
    let not_json = base64url_encode(b"{");
    let (_h, _p, did) = SdJwtVerifier::verify_jwt_structure(&[&h_ok, &p_ok], "EdDSA").unwrap();
    assert_eq!(did, "did:key:abc");
    assert!(matches!(SdJwtVerifier::verify_jwt_structure(&["*", &p_ok], "EdDSA"), Err(SdJwtError::HeaderDecode)));
    assert!(matches!(SdJwtVerifier::verify_jwt_structure(&[&not_json, &p_ok], "EdDSA"), Err(SdJwtError::HeaderParse)));
    assert!(matches!(SdJwtVerifier::verify_jwt_structure(&[&h_ok, &p_ok], "ES256"), Err(SdJwtError::UnsupportedAlgorithm)));
    assert!(matches!(SdJwtVerifier::verify_jwt_structure(&[&h_no_kid, &p_ok], "EdDSA"), Err(SdJwtError::MissingKid)));
    assert!(matches!(SdJwtVerifier::verify_jwt_structure(&[&h_ok, "*"], "EdDSA"), Err(SdJwtError::PayloadDecode)));
    assert!(matches!(SdJwtVerifier::verify_jwt_structure(&[&h_ok, &not_json], "EdDSA"), Err(SdJwtError::PayloadParse)));
    assert!(matches!(SdJwtVerifier::verify_jwt_structure(&[&h_ok, &p_bad_iss], "EdDSA"), Err(SdJwtError::IssuerMismatch)));
}

#[test]
fn issued_token_verifies_and_tampering_fails() {
    let wallet = Ed25519Wallet {};
    let (did, keys) = wallet.generate_did().unwrap();
    let params = IssuanceParams {
        issuer_did: did,
        method: "TestCredential".to_string(),
        private_key: keys.priv_key,
        config: IssuanceConfig { fields_amount: FieldsAmount::Small, fields_size: FieldsSize::Small, demo_vc: true, seed: 1 },
    };
    let (jwt, disclosures) = wallet.issue_sd_vc_jwt(params).unwrap();
    assert_eq!(disclosures.len(), 2);
    assert!(jwt.ends_with(&format!("~{}~{}", disclosures[0], disclosures[1])));
    assert!(wallet.verify_sd_vc_jwt(jwt.clone()).unwrap());
    // Dropping a disclosure still verifies: only listed digests are checked.
    let shorter = jwt.rsplitn(2, '~').nth(1).unwrap().to_string();
    assert!(wallet.verify_sd_vc_jwt(shorter).unwrap());
    // A disclosure the payload does not list is refused.
    let forged = format!("{}~WyJ4IiwieSIsInoiXQ", jwt);
    assert!(matches!(wallet.verify_sd_vc_jwt(forged), Err(SdJwtError::DigestNotFound(_))));
    // A wrong signature makes the token invalid.
    let parts: Vec<&str> = jwt.split('~').collect();
    let jwt_parts: Vec<&str> = parts[0].split('.').collect();
    let other_sig = base64url_encode(&[0u8; 64]);
    let tampered = format!("{}.{}.{}~{}", jwt_parts[0], jwt_parts[1], other_sig, parts[1..].join("~"));
    assert!(!wallet.verify_sd_vc_jwt(tampered).unwrap());
}

#[test]
fn sign_with_invalid_key_fails() {
    let algorithm = Ed25519Algorithm;
    assert!(matches!(algorithm.sign_data(b"x", &[1, 2, 3]), Err(CryptoError::InvalidPrivateKey)));
    assert!(matches!(algorithm.verify_signature(b"x", &[0; 64], &[1, 2]), Err(CryptoError::InvalidPublicKey)));
    let wallet = Ed25519Wallet {};
    let (_did, keys) = wallet.generate_did().unwrap();
    assert!(matches!(algorithm.verify_signature(b"x", &[0; 3], &keys.pub_key), Err(CryptoError::InvalidSignature)));
    let params = IssuanceParams {
        issuer_did: "did:key:x".to_string(),
        method: "M".to_string(),
        private_key: vec![1, 2, 3],
        config: IssuanceConfig::default(),
    };
    assert!(matches!(wallet.issue_sd_vc_jwt(params), Err(SdJwtError::Crypto(CryptoError::InvalidPrivateKey))));
}


#[test]
fn issuance_times_from_a_clock_reading() {
    let (iat, exp, from, until) = SdJwtIssuer::issuance_times_at(0).unwrap();
    assert_eq!((iat, exp), (0, 157_680_000));
    assert_eq!(from, "1970-01-01T00:00:00.000Z");
    assert_eq!(until, "1974-12-31T00:00:00.000Z");
    let (iat, exp, _, _) = SdJwtIssuer::issuance_times_at(-1).unwrap();
    assert_eq!((iat, exp), (-1, 157_679_999));
    assert!(matches!(SdJwtIssuer::issuance_times_at(i64::MAX), Err(SdJwtError::ClockOutOfRange)));
}

#[test]
fn json_string_literal_escapes_as_serde() {
    let text = "q\"b\\c\u{1}\u{8}\t\n\u{c}\r\u{1f}\u{7f}é";
    assert_eq!(json_string_literal(text), serde_json::Value::from(text).to_string());
    assert_eq!(json_string_literal("\u{1}"), "\"\\u0001\"");
}

#[test]
fn disclosure_of_any_json_value() {
    let salt = [7u8; 16];
    let value = serde_json::Value::from(vec![serde_json::Value::from(1), serde_json::Value::Null]);
    let d = SdJwtIssuer::disclose(&salt, "n", &ClaimValue::Json(value.to_string())).unwrap();
    let decoded = String::from_utf8(base64url_decode(&d).unwrap()).unwrap();
    let expected = serde_json::Value::from(vec![
        serde_json::Value::from(base64url_encode(&salt)),
        serde_json::Value::from("n"),
        value,
    ]);
    assert_eq!(decoded, expected.to_string());
    assert_eq!(SdJwtIssuer::digest_of(&d).len(), 43);
}

#[test]
fn issue_and_verify_with_number_claims() {
    let wallet = Ed25519Wallet {};
    let (did, keys) = wallet.generate_did().unwrap();
    assert_eq!((keys.pub_key.len(), keys.priv_key.len()), (32, 32));
    let params = IssuanceParams {
        issuer_did: did.clone(),
        method: "T".to_string(),
        private_key: keys.priv_key.clone(),
        config: IssuanceConfig::default(),
    };
    let mut vc = wallet.build_vc(&params).unwrap();
    assert!(vc.id.starts_with("urn:uuid:"));
    assert_eq!(vc.id.len(), 45);
    assert_eq!(&vc.id[23..24], "4");
    vc.credential_subject.insert("age".to_string(), ClaimValue::Json("42".to_string()));
    let (jwt, disclosures) =
        SdJwtIssuer::issue(&vc, &vc.credential_subject, &did, &keys.priv_key, &Ed25519Algorithm).unwrap();
    assert_eq!(disclosures.len(), vc.credential_subject.len());
    assert!(SdJwtVerifier::verify(&jwt, &Ed25519Algorithm).unwrap());
}

#[test]
fn ecdsa_keys_outside_the_slice_range_are_refused() {
    assert!(matches!(P256Algorithm.sign_data(b"x", &[]), Err(CryptoError::InvalidPrivateKey)));
    assert!(matches!(Secp256k1Algorithm.sign_data(b"x", &[1u8; 33]), Err(CryptoError::InvalidPrivateKey)));
}

#[test]
fn presentation_with_fewer_or_reordered_disclosures_verifies() {
    let wallet = Ed25519Wallet {};
    let (did, keys) = wallet.generate_did().unwrap();
    let params = IssuanceParams {
        issuer_did: did,
        method: "T".to_string(),
        private_key: keys.priv_key,
        config: IssuanceConfig::default(),
    };
    let (jwt, disclosures) = wallet.issue_sd_vc_jwt(params).unwrap();
    assert!(disclosures.len() >= 2);
    let head = jwt.split('~').next().unwrap().to_string();
    let fewer = format!("{}~{}", head, disclosures[1]);
    assert!(SdJwtVerifier::verify(&fewer, &Ed25519Algorithm).unwrap());
    let reordered = format!("{}~{}~{}", head, disclosures[1], disclosures[0]);
    assert!(SdJwtVerifier::verify(&reordered, &Ed25519Algorithm).unwrap());
    assert!(matches!(SdJwtVerifier::verify(&jwt, &Secp256k1Algorithm), Err(SdJwtError::UnsupportedAlgorithm)));
}

#[test]
fn dilithium2_key_object_holds_the_public_key_of_the_did() {
    let (did, key) = Dilithium2DidGenerator {}.generate_did().unwrap();
    let bytes: Vec<u8> = key["privateKey"].as_array().unwrap().iter().map(|b| b.as_u64().unwrap() as u8).collect();
    assert_eq!(key.as_object().unwrap().len(), 1);
    assert_eq!(bytes.len(), 1312);
    assert_eq!(did, did_key_from_public_key(0xEF01, &bytes));
}

#[test]
fn jwt_without_disclosures_and_issuance_date() {
    let wallet = Ed25519Wallet {};
    let (did, keys) = wallet.generate_did().unwrap();
    let params = IssuanceParams {
        issuer_did: did,
        method: "T".to_string(),
        private_key: keys.priv_key,
        config: IssuanceConfig::default(),
    };
    let vc = wallet.build_vc(&params).unwrap();
    assert!(vc.issuance_date.ends_with("+00:00"));
    let (jwt, _disclosures) = wallet.issue_sd_vc_jwt(params).unwrap();
    let bare = jwt.split('~').next().unwrap().to_string();
    assert!(SdJwtVerifier::verify(&bare, &Ed25519Algorithm).unwrap());
}
