//! Falcon-512 post-quantum keys and signatures.
use vstd::prelude::*;
use crate::did::did_key_from_public_key;
use crate::error::{CryptoError, SdJwtError};
use crate::sd_jwt::IssuedToken;
use crate::entropy::uuid_v4_text;
use crate::sd_jwt::issuer::{issued_as, issue_oversized};
use crate::sd_jwt::verifying::SdJwtVerifier;
use crate::text::string_views;
use crate::wallet::{DidKeys, IssuanceParams, SignatureAlgorithm, Wallet, issue_built_vc, subject_claims, vc_context,
    vc_types};
use pqcrypto_traits::sign::{DetachedSignature as _, PublicKey as _, SecretKey as _};

verus! {

/// `secret_key` is the Falcon-512 secret key that belongs to `public_key`.
pub uninterp spec fn spec_falcon512_key_pair(public_key: Seq<u8>, secret_key: Seq<u8>) -> bool;

/// The detached signature checks out for `data` under the public key.
pub uninterp spec fn spec_falcon512_verify(public_key: Seq<u8>, data: Seq<u8>, signature: Seq<u8>) -> bool;

/// `pqcrypto_falcon::falcon512::keypair`: a fresh public key (897 bytes) and
/// the secret key (1281 bytes) that belongs to it.
#[verifier::external_body]
fn falcon512_keypair() -> (keys: (Vec<u8>, Vec<u8>))
    ensures
        keys.0@.len() == 897,
        keys.1@.len() == 1281,
        spec_falcon512_key_pair(keys.0@, keys.1@),
{
    let (pk, sk) = pqcrypto_falcon::falcon512::keypair();
    (pk.as_bytes().to_vec(), sk.as_bytes().to_vec())
}

/// `pqcrypto_falcon::falcon512::detached_sign`: a signature of at most 752
/// bytes that `verify_detached_signature` accepts under the public key the
/// secret key belongs to. Signing draws randomness, so nothing more is said of it.
#[verifier::external_body]
fn falcon512_sign(data: &[u8], secret_key: &[u8]) -> (signature: Vec<u8>)
    requires
        secret_key@.len() == 1281,
    ensures
        signature@.len() <= 752,
        forall|pk: Seq<u8>|
            #[trigger] spec_falcon512_key_pair(pk, secret_key@) ==> spec_falcon512_verify(
                pk,
                data@,
                signature@,
            ),
{
    let sk = pqcrypto_falcon::falcon512::SecretKey::from_bytes(secret_key).unwrap();
    pqcrypto_falcon::falcon512::detached_sign(data, &sk).as_bytes().to_vec()
}

/// `pqcrypto_falcon::falcon512::verify_detached_signature` succeeds.
#[verifier::external_body]
fn falcon512_verify(data: &[u8], signature: &[u8], public_key: &[u8]) -> (valid: bool)
    requires
        public_key@.len() == 897,
        signature@.len() <= 752,
    ensures
        valid == spec_falcon512_verify(public_key@, data@, signature@),
{
    let pk = pqcrypto_falcon::falcon512::PublicKey::from_bytes(public_key).unwrap();
    let sig = pqcrypto_falcon::falcon512::DetachedSignature::from_bytes(signature).unwrap();
    pqcrypto_falcon::falcon512::verify_detached_signature(&sig, data, &pk).is_ok()
}

/// A Wallet implementation using the Falcon-512 post-quantum algorithm.
pub struct Falcon512Wallet {}

/// A signature algorithm implementation for Falcon-512.
pub struct Falcon512Algorithm;

impl SignatureAlgorithm for Falcon512Algorithm {
    open spec fn spec_algorithm_name(&self) -> Seq<char> {
        "falcon512"@
    }

    open spec fn spec_proof_type(&self) -> Seq<char> {
        "FalconQuantumResistantSignature2023"@
    }

    open spec fn spec_multicodec_prefix(&self) -> u64 {
        0xEF02
    }

    open spec fn accepts_private_key(&self, private_key: Seq<u8>) -> bool {
        private_key.len() == 1281
    }

    open spec fn key_pair(&self, private_key: Seq<u8>, public_key: Seq<u8>) -> bool {
        &&& private_key.len() == 1281
        &&& public_key.len() == 897
        &&& spec_falcon512_key_pair(public_key, private_key)
    }

    open spec fn signs(&self, private_key: Seq<u8>, data: Seq<u8>, signature: Seq<u8>) -> bool {
        &&& private_key.len() == 1281
        &&& signature.len() <= 752
    }

    open spec fn verification(&self, data: Seq<u8>, signature: Seq<u8>, public_key: Seq<u8>) -> Result<
        bool,
        CryptoError,
    > {
        if public_key.len() != 897 {
            Err(CryptoError::InvalidPublicKey)
        } else if signature.len() > 752 {
            Err(CryptoError::InvalidSignature)
        } else {
            Ok(spec_falcon512_verify(public_key, data, signature))
        }
    }

    fn algorithm_name(&self) -> (name: &'static str) {
        "falcon512"
    }

    fn proof_type(&self) -> (proof_type: &'static str) {
        "FalconQuantumResistantSignature2023"
    }

    fn multicodec_prefix(&self) -> (code: u64) {
        0xEF02
    }

    fn sign_data(&self, data: &[u8], private_key: &[u8]) -> (res: Result<Vec<u8>, CryptoError>) {
        if private_key.len() != 1281 {
            return Err(CryptoError::InvalidPrivateKey);
        }
        Ok(falcon512_sign(data, private_key))
    }

    fn verify_signature(&self, data: &[u8], signature: &[u8], public_key: &[u8]) -> (res: Result<
        bool,
        CryptoError,
    >) {
        if public_key.len() != 897 {
            return Err(CryptoError::InvalidPublicKey);
        }
        if signature.len() > 752 {
            return Err(CryptoError::InvalidSignature);
        }
        Ok(falcon512_verify(data, signature, public_key))
    }
}

impl Wallet for Falcon512Wallet {
    type Algorithm = Falcon512Algorithm;

    open spec fn algorithm(&self) -> Falcon512Algorithm {
        Falcon512Algorithm
    }

    fn generate_did(&self) -> (res: Result<(String, DidKeys), CryptoError>)
        ensures
            res is Ok,
            res matches Ok((did, keys)) ==> keys.pub_key@.len() == 897 && keys.priv_key@.len() == 1281,
    {
        let algorithm = Falcon512Algorithm;
        let (public_key, secret_key) = falcon512_keypair();
        let did = did_key_from_public_key(algorithm.multicodec_prefix(), public_key.as_slice());
        Ok((did, DidKeys::new(public_key, secret_key)))
    }

    fn issue_sd_vc_jwt(&self, params: IssuanceParams) -> (res: Result<(String, Vec<String>), SdJwtError>) {
        let unsigned = match self.build_vc(&params) {
            Ok(vc) => vc,
            Err(e) => {
                return Err(e);
            },
        };
        let res = issue_built_vc(&unsigned, &params, &Falcon512Algorithm);
        proof {
            if res is Err && res->Err_0 is TooLarge {
                let u = choose|u: Seq<char>| uuid_v4_text(u) && unsigned.id@ == "urn:uuid:"@ + u;
                assert(issue_oversized(
                    self.algorithm(),
                    vc_context(),
                    "urn:uuid:"@ + u,
                    vc_types(params.method@),
                    params.issuer_did@,
                    params.private_key@,
                    subject_claims(params.issuer_did@, params.config),
                ));
            }
            if res is Ok {
                let (jwt, disclosures) = res.unwrap();
                let (w, id) = choose|w: IssuedToken, id: Seq<char>|
                    #[trigger] issued_as(
                        w,
                        Falcon512Algorithm,
                        vc_context(),
                        id,
                        vc_types(params.method@),
                        params.issuer_did@,
                        params.private_key@,
                        jwt@,
                        string_views(disclosures@),
                    );
                assert(issued_as(
                    w,
                    self.algorithm(),
                    vc_context(),
                    id,
                    vc_types(params.method@),
                    params.issuer_did@,
                    params.private_key@,
                    jwt@,
                    string_views(disclosures@),
                ));
            }
        }
        res
    }

    fn verify_sd_vc_jwt(&self, token: String) -> (res: Result<bool, SdJwtError>) {
        SdJwtVerifier::verify(token.as_str(), &Falcon512Algorithm)
    }
}

} // verus!
