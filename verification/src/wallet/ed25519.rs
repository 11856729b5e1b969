//! Ed25519 keys and signatures.
use vstd::prelude::*;
use crate::error::CryptoError;
use crate::did::did_key_from_public_key;
use crate::error::SdJwtError;
use crate::sd_jwt::verifying::SdJwtVerifier;
use crate::wallet::{DidKeys, IssuanceParams, SignatureAlgorithm, Wallet, issue_built_vc, subject_claims, vc_context,
    vc_types};
use crate::sd_jwt::IssuedToken;
use crate::entropy::uuid_v4_text;
use crate::sd_jwt::issuer::{issued_as, issue_oversized};
use crate::text::string_views;
use ed25519_dalek::Signer as _;
use ed25519_dalek::Verifier as _;

verus! {

/// The Ed25519 public key of a 32-byte secret key.
pub uninterp spec fn spec_ed25519_public_key(secret_key: Seq<u8>) -> Seq<u8>;

/// The 32 bytes are the compressed form of a curve point.
pub uninterp spec fn spec_ed25519_valid_public_key(public_key: Seq<u8>) -> bool;

/// The Ed25519 signature of `data` under a 32-byte secret key.
pub uninterp spec fn spec_ed25519_signature(secret_key: Seq<u8>, data: Seq<u8>) -> Seq<u8>;

/// The 64-byte signature checks out for `data` under the valid public key.
pub uninterp spec fn spec_ed25519_verify(public_key: Seq<u8>, data: Seq<u8>, signature: Seq<u8>) -> bool;

/// `ed25519_dalek::SigningKey::generate` with the operating system's random
/// source: 32 fresh secret key bytes.
#[verifier::external_body]
fn ed25519_generate_secret_key() -> (secret_key: Vec<u8>)
    ensures
        secret_key@.len() == 32,
{
    ed25519_dalek::SigningKey::generate(&mut rand_core::OsRng).to_bytes().to_vec()
}

/// `ed25519_dalek::SigningKey::verifying_key`: the public key of the secret
/// key, 32 bytes that form a valid point.
#[verifier::external_body]
fn ed25519_public_key_of(secret_key: &[u8]) -> (public_key: Vec<u8>)
    requires
        secret_key@.len() == 32,
    ensures
        public_key@ == spec_ed25519_public_key(secret_key@),
        public_key@.len() == 32,
        spec_ed25519_valid_public_key(public_key@),
{
    let bytes: [u8; 32] = secret_key.try_into().unwrap();
    ed25519_dalek::SigningKey::from_bytes(&bytes).verifying_key().to_bytes().to_vec()
}

/// `ed25519_dalek::SigningKey::sign`: the 64-byte signature, which
/// `VerifyingKey::verify` accepts under the key's public key.
#[verifier::external_body]
fn ed25519_sign(data: &[u8], secret_key: &[u8]) -> (signature: Vec<u8>)
    requires
        secret_key@.len() == 32,
    ensures
        signature@ == spec_ed25519_signature(secret_key@, data@),
        signature@.len() == 64,
        spec_ed25519_verify(spec_ed25519_public_key(secret_key@), data@, signature@),
{
    let bytes: [u8; 32] = secret_key.try_into().unwrap();
    ed25519_dalek::SigningKey::from_bytes(&bytes).sign(data).to_bytes().to_vec()
}

/// `ed25519_dalek::VerifyingKey::from_bytes` succeeds.
#[verifier::external_body]
fn ed25519_public_key_is_valid(public_key: &[u8]) -> (valid: bool)
    requires
        public_key@.len() == 32,
    ensures
        valid == spec_ed25519_valid_public_key(public_key@),
{
    let bytes: [u8; 32] = public_key.try_into().unwrap();
    ed25519_dalek::VerifyingKey::from_bytes(&bytes).is_ok()
}

/// `ed25519_dalek::VerifyingKey::verify` succeeds.
#[verifier::external_body]
fn ed25519_verify(data: &[u8], signature: &[u8], public_key: &[u8]) -> (valid: bool)
    requires
        public_key@.len() == 32,
        signature@.len() == 64,
        spec_ed25519_valid_public_key(public_key@),
    ensures
        valid == spec_ed25519_verify(public_key@, data@, signature@),
{
    let pk: [u8; 32] = public_key.try_into().unwrap();
    let sig: [u8; 64] = signature.try_into().unwrap();
    let key = ed25519_dalek::VerifyingKey::from_bytes(&pk).unwrap();
    key.verify(data, &ed25519_dalek::Signature::from_bytes(&sig)).is_ok()
}

/// A Wallet implementation using the Ed25519 signature algorithm.
pub struct Ed25519Wallet {}

/// A signature algorithm implementation for Ed25519.
pub struct Ed25519Algorithm;

impl SignatureAlgorithm for Ed25519Algorithm {
    open spec fn spec_algorithm_name(&self) -> Seq<char> {
        seq!['E', 'd', 'D', 'S', 'A']
    }

    open spec fn spec_proof_type(&self) -> Seq<char> {
        seq![
            'E', 'd', '2', '5', '5', '1', '9', 'S', 'i', 'g', 'n', 'a', 't', 'u', 'r', 'e', '2', '0',
            '2', '0',
        ]
    }

    open spec fn spec_multicodec_prefix(&self) -> u64 {
        0xed
    }

    open spec fn accepts_private_key(&self, private_key: Seq<u8>) -> bool {
        private_key.len() == 32
    }

    open spec fn key_pair(&self, private_key: Seq<u8>, public_key: Seq<u8>) -> bool {
        &&& private_key.len() == 32
        &&& public_key.len() == 32
        &&& public_key == spec_ed25519_public_key(private_key)
        &&& spec_ed25519_valid_public_key(public_key)
    }

    open spec fn signs(&self, private_key: Seq<u8>, data: Seq<u8>, signature: Seq<u8>) -> bool {
        &&& private_key.len() == 32
        &&& signature == spec_ed25519_signature(private_key, data)
        &&& signature.len() == 64
    }

    open spec fn verification(&self, data: Seq<u8>, signature: Seq<u8>, public_key: Seq<u8>) -> Result<
        bool,
        CryptoError,
    > {
        if public_key.len() != 32 || !spec_ed25519_valid_public_key(public_key) {
            Err(CryptoError::InvalidPublicKey)
        } else if signature.len() != 64 {
            Err(CryptoError::InvalidSignature)
        } else {
            Ok(spec_ed25519_verify(public_key, data, signature))
        }
    }

    fn algorithm_name(&self) -> (name: &'static str) {
        proof {
            reveal_strlit("EdDSA");
        }
        "EdDSA"
    }

    fn proof_type(&self) -> (proof_type: &'static str) {
        proof {
            reveal_strlit("Ed25519Signature2020");
        }
        "Ed25519Signature2020"
    }

    fn multicodec_prefix(&self) -> (code: u64) {
        0xed
    }

    fn sign_data(&self, data: &[u8], private_key: &[u8]) -> (res: Result<Vec<u8>, CryptoError>)
        ensures
            res matches Ok(sig) ==> sig@ == spec_ed25519_signature(private_key@, data@),
            res matches Ok(sig) ==> sig@.len() == 64,
    {
        if private_key.len() != 32 {
            return Err(CryptoError::InvalidPrivateKey);
        }
        Ok(ed25519_sign(data, private_key))
    }

    fn verify_signature(&self, data: &[u8], signature: &[u8], public_key: &[u8]) -> (res: Result<
        bool,
        CryptoError,
    >) {
        if public_key.len() != 32 {
            return Err(CryptoError::InvalidPublicKey);
        }
        if !ed25519_public_key_is_valid(public_key) {
            return Err(CryptoError::InvalidPublicKey);
        }
        if signature.len() != 64 {
            return Err(CryptoError::InvalidSignature);
        }
        Ok(ed25519_verify(data, signature, public_key))
    }
}

impl Wallet for Ed25519Wallet {
    type Algorithm = Ed25519Algorithm;

    open spec fn algorithm(&self) -> Ed25519Algorithm {
        Ed25519Algorithm
    }

    fn generate_did(&self) -> (res: Result<(String, DidKeys), CryptoError>)
        ensures
            res is Ok,
            res matches Ok((did, keys)) ==> keys.pub_key@.len() == 32 && keys.priv_key@.len() == 32,
    {
        let algorithm = Ed25519Algorithm;
        let secret_key = ed25519_generate_secret_key();
        let public_key = ed25519_public_key_of(secret_key.as_slice());
        let did = did_key_from_public_key(algorithm.multicodec_prefix(), public_key.as_slice());
        Ok((did, DidKeys::new(public_key, secret_key)))
    }

    fn issue_sd_vc_jwt(&self, params: IssuanceParams) -> (res: Result<(String, Vec<String>), SdJwtError>) {
        let unsigned = match self.build_vc(&params) {
            Ok(vc) => vc,
            Err(e) => {
                return Err(e);
            },
        };
        let res = issue_built_vc(&unsigned, &params, &Ed25519Algorithm);
        proof {
            if res is Err && res->Err_0 is TooLarge {
                let u = choose|u: Seq<char>| uuid_v4_text(u) && unsigned.id@ == "urn:uuid:"@ + u;
                assert(issue_oversized(
                    self.algorithm(),
                    vc_context(),
                    "urn:uuid:"@ + u,
                    vc_types(params.method@),
                    params.issuer_did@,
                    params.private_key@,
                    subject_claims(params.issuer_did@, params.config),
                ));
            }
            if res is Ok {
                let (jwt, disclosures) = res.unwrap();
                let (w, id) = choose|w: IssuedToken, id: Seq<char>|
                    #[trigger] issued_as(
                        w,
                        Ed25519Algorithm,
                        vc_context(),
                        id,
                        vc_types(params.method@),
                        params.issuer_did@,
                        params.private_key@,
                        jwt@,
                        string_views(disclosures@),
                    );
                assert(issued_as(
                    w,
                    self.algorithm(),
                    vc_context(),
                    id,
                    vc_types(params.method@),
                    params.issuer_did@,
                    params.private_key@,
                    jwt@,
                    string_views(disclosures@),
                ));
            }
        }
        res
    }

    fn verify_sd_vc_jwt(&self, token: String) -> (res: Result<bool, SdJwtError>) {
        SdJwtVerifier::verify(token.as_str(), &Ed25519Algorithm)
    }
}

} // verus!
