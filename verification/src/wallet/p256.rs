//! P-256 ECDSA keys and signatures.
use vstd::prelude::*;
use crate::did::did_key_from_public_key;
use crate::error::{CryptoError, SdJwtError};
use crate::sd_jwt::IssuedToken;
use crate::entropy::uuid_v4_text;
use crate::sd_jwt::issuer::{issued_as, issue_oversized};
use crate::sd_jwt::verifying::SdJwtVerifier;
use crate::text::string_views;
use crate::wallet::{DidKeys, IssuanceParams, SignatureAlgorithm, Wallet, issue_built_vc, subject_claims, vc_context,
    vc_types};
use p256::ecdsa::signature::Signer as _;
use p256::ecdsa::signature::Verifier as _;
use p256::elliptic_curve::sec1::ToEncodedPoint as _;

verus! {

/// `p256::SecretKey::from_slice` accepts the bytes as a secret scalar.
pub uninterp spec fn spec_p256_valid_secret_key(secret_key: Seq<u8>) -> bool;

/// The uncompressed SEC1 public key of a valid secret key.
pub uninterp spec fn spec_p256_public_key(secret_key: Seq<u8>) -> Seq<u8>;

/// `p256::EncodedPoint::from_bytes` and then
/// `p256::ecdsa::VerifyingKey::from_encoded_point` accept the bytes.
pub uninterp spec fn spec_p256_valid_public_key(public_key: Seq<u8>) -> bool;

/// `p256::ecdsa::Signature::from_der` accepts the bytes.
pub uninterp spec fn spec_p256_valid_signature(signature: Seq<u8>) -> bool;

/// The DER signature of `data` under a valid secret key.
pub uninterp spec fn spec_p256_signature(secret_key: Seq<u8>, data: Seq<u8>) -> Seq<u8>;

/// The signature checks out for `data` under the public key.
pub uninterp spec fn spec_p256_verify(public_key: Seq<u8>, data: Seq<u8>, signature: Seq<u8>) -> bool;

/// `p256::SecretKey::random` with the operating system's random source,
/// written with `to_bytes`: 32 bytes of a valid secret key.
#[verifier::external_body]
fn p256_generate_secret_key() -> (secret_key: Vec<u8>)
    ensures
        secret_key@.len() == 32,
        spec_p256_valid_secret_key(secret_key@),
{
    p256::SecretKey::random(&mut rand_core::OsRng).to_bytes().to_vec()
}

/// `p256::SecretKey::from_slice` succeeds; it refuses slices shorter than 24
/// or longer than 32 bytes.
#[verifier::external_body]
fn p256_secret_key_is_valid(secret_key: &[u8]) -> (valid: bool)
    ensures
        valid == spec_p256_valid_secret_key(secret_key@),
        !(24 <= secret_key@.len() <= 32) ==> !valid,
{
    p256::SecretKey::from_slice(secret_key).is_ok()
}

/// `p256::SecretKey::public_key().to_encoded_point(false)`: the 65 bytes of
/// the uncompressed public key, which `EncodedPoint::from_bytes` and
/// `VerifyingKey::from_encoded_point` accept.
#[verifier::external_body]
fn p256_public_key_of(secret_key: &[u8]) -> (public_key: Vec<u8>)
    requires
        spec_p256_valid_secret_key(secret_key@),
    ensures
        public_key@ == spec_p256_public_key(secret_key@),
        public_key@.len() == 65,
        spec_p256_valid_public_key(public_key@),
{
    let key = p256::SecretKey::from_slice(secret_key).unwrap();
    key.public_key().to_encoded_point(false).as_bytes().to_vec()
}

/// `p256::ecdsa::SigningKey::sign`, written with `to_der`: a DER signature
/// of at most 73 bytes (the DER size bound for a 32-byte field) that
/// `from_der` accepts and that `verify` accepts under the key's public key.
#[verifier::external_body]
fn p256_sign(data: &[u8], secret_key: &[u8]) -> (signature: Vec<u8>)
    requires
        spec_p256_valid_secret_key(secret_key@),
    ensures
        signature@ == spec_p256_signature(secret_key@, data@),
        signature@.len() <= 73,
        spec_p256_valid_signature(signature@),
        spec_p256_verify(spec_p256_public_key(secret_key@), data@, signature@),
{
    let key = p256::ecdsa::SigningKey::from(p256::SecretKey::from_slice(secret_key).unwrap());
    let signature: p256::ecdsa::Signature = key.sign(data);
    signature.to_der().as_bytes().to_vec()
}

/// `p256::EncodedPoint::from_bytes`, then
/// `p256::ecdsa::VerifyingKey::from_encoded_point`, succeed.
#[verifier::external_body]
fn p256_public_key_is_valid(public_key: &[u8]) -> (valid: bool)
    ensures
        valid == spec_p256_valid_public_key(public_key@),
{
    match p256::EncodedPoint::from_bytes(public_key) {
        Ok(point) => p256::ecdsa::VerifyingKey::from_encoded_point(&point).is_ok(),
        Err(_) => false,
    }
}

/// `p256::ecdsa::Signature::from_der` succeeds.
#[verifier::external_body]
fn p256_signature_is_valid(signature: &[u8]) -> (valid: bool)
    ensures
        valid == spec_p256_valid_signature(signature@),
{
    p256::ecdsa::Signature::from_der(signature).is_ok()
}

/// `p256::ecdsa::VerifyingKey::verify` succeeds.
#[verifier::external_body]
fn p256_verify(data: &[u8], signature: &[u8], public_key: &[u8]) -> (valid: bool)
    requires
        spec_p256_valid_public_key(public_key@),
        spec_p256_valid_signature(signature@),
    ensures
        valid == spec_p256_verify(public_key@, data@, signature@),
{
    let point = p256::EncodedPoint::from_bytes(public_key).unwrap();
    let key = p256::ecdsa::VerifyingKey::from_encoded_point(&point).unwrap();
    key.verify(data, &p256::ecdsa::Signature::from_der(signature).unwrap()).is_ok()
}

/// A Wallet implementation using the P-256 elliptic curve.
pub struct P256Wallet;

/// A signature algorithm implementation for P-256.
pub struct P256Algorithm;

impl SignatureAlgorithm for P256Algorithm {
    open spec fn spec_algorithm_name(&self) -> Seq<char> {
        "ES256"@
    }

    open spec fn spec_proof_type(&self) -> Seq<char> {
        "EcdsaSecp256r1Signature2019"@
    }

    open spec fn spec_multicodec_prefix(&self) -> u64 {
        0x1200
    }

    open spec fn accepts_private_key(&self, private_key: Seq<u8>) -> bool {
        spec_p256_valid_secret_key(private_key)
    }

    open spec fn key_pair(&self, private_key: Seq<u8>, public_key: Seq<u8>) -> bool {
        &&& spec_p256_valid_secret_key(private_key)
        &&& public_key == spec_p256_public_key(private_key)
        &&& spec_p256_valid_public_key(public_key)
    }

    open spec fn signs(&self, private_key: Seq<u8>, data: Seq<u8>, signature: Seq<u8>) -> bool {
        &&& spec_p256_valid_secret_key(private_key)
        &&& signature == spec_p256_signature(private_key, data)
        &&& signature.len() <= 73
    }

    open spec fn verification(&self, data: Seq<u8>, signature: Seq<u8>, public_key: Seq<u8>) -> Result<
        bool,
        CryptoError,
    > {
        if !spec_p256_valid_signature(signature) {
            Err(CryptoError::InvalidSignature)
        } else if !spec_p256_valid_public_key(public_key) {
            Err(CryptoError::InvalidPublicKey)
        } else {
            Ok(spec_p256_verify(public_key, data, signature))
        }
    }

    fn algorithm_name(&self) -> (name: &'static str) {
        "ES256"
    }

    fn proof_type(&self) -> (proof_type: &'static str) {
        "EcdsaSecp256r1Signature2019"
    }

    fn multicodec_prefix(&self) -> (code: u64) {
        0x1200
    }

    fn sign_data(&self, data: &[u8], private_key: &[u8]) -> (res: Result<Vec<u8>, CryptoError>)
        ensures
            res matches Ok(sig) ==> sig@ == spec_p256_signature(private_key@, data@),
            !(24 <= private_key@.len() <= 32) ==> res is Err,
    {
        if !p256_secret_key_is_valid(private_key) {
            return Err(CryptoError::InvalidPrivateKey);
        }
        Ok(p256_sign(data, private_key))
    }

    fn verify_signature(&self, data: &[u8], signature: &[u8], public_key: &[u8]) -> (res: Result<
        bool,
        CryptoError,
    >) {
        if !p256_signature_is_valid(signature) {
            return Err(CryptoError::InvalidSignature);
        }
        if !p256_public_key_is_valid(public_key) {
            return Err(CryptoError::InvalidPublicKey);
        }
        Ok(p256_verify(data, signature, public_key))
    }
}

impl Wallet for P256Wallet {
    type Algorithm = P256Algorithm;

    open spec fn algorithm(&self) -> P256Algorithm {
        P256Algorithm
    }

    fn generate_did(&self) -> (res: Result<(String, DidKeys), CryptoError>)
        ensures
            res is Ok,
            res matches Ok((did, keys)) ==> keys.pub_key@.len() == 65 && keys.priv_key@.len() == 32,
    {
        let algorithm = P256Algorithm;
        let secret_key = p256_generate_secret_key();
        let public_key = p256_public_key_of(secret_key.as_slice());
        let did = did_key_from_public_key(algorithm.multicodec_prefix(), public_key.as_slice());
        Ok((did, DidKeys::new(public_key, secret_key)))
    }

    fn issue_sd_vc_jwt(&self, params: IssuanceParams) -> (res: Result<(String, Vec<String>), SdJwtError>) {
        let unsigned = match self.build_vc(&params) {
            Ok(vc) => vc,
            Err(e) => {
                return Err(e);
            },
        };
        let res = issue_built_vc(&unsigned, &params, &P256Algorithm);
        proof {
            if res is Err && res->Err_0 is TooLarge {
                let u = choose|u: Seq<char>| uuid_v4_text(u) && unsigned.id@ == "urn:uuid:"@ + u;
                assert(issue_oversized(
                    self.algorithm(),
                    vc_context(),
                    "urn:uuid:"@ + u,
                    vc_types(params.method@),
                    params.issuer_did@,
                    params.private_key@,
                    subject_claims(params.issuer_did@, params.config),
                ));
            }
            if res is Ok {
                let (jwt, disclosures) = res.unwrap();
                let (w, id) = choose|w: IssuedToken, id: Seq<char>|
                    #[trigger] issued_as(
                        w,
                        P256Algorithm,
                        vc_context(),
                        id,
                        vc_types(params.method@),
                        params.issuer_did@,
                        params.private_key@,
                        jwt@,
                        string_views(disclosures@),
                    );
                assert(issued_as(
                    w,
                    self.algorithm(),
                    vc_context(),
                    id,
                    vc_types(params.method@),
                    params.issuer_did@,
                    params.private_key@,
                    jwt@,
                    string_views(disclosures@),
                ));
            }
        }
        res
    }

    fn verify_sd_vc_jwt(&self, token: String) -> (res: Result<bool, SdJwtError>) {
        SdJwtVerifier::verify(token.as_str(), &P256Algorithm)
    }
}

} // verus!
