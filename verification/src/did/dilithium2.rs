//! A DID generator for Dilithium-2 post-quantum keys.
use vstd::prelude::*;
use crate::did::{did_key_for, did_key_from_public_key, DidGenerator};
use crate::error::CryptoError;
use pqcrypto_traits::sign::PublicKey as _;

verus! {

/// `pqcrypto_dilithium::dilithium2::keypair`: the bytes of a fresh public key
/// (1312 bytes).
#[verifier::external_body]
fn dilithium2_public_key() -> (public_key: Vec<u8>)
    ensures
        public_key@.len() == 1312,
{
    let (pk, _sk) = pqcrypto_dilithium::dilithium2::keypair();
    pk.as_bytes().to_vec()
}

/// `serde_json::Value::Object` with the one member `name`, whose value is the
/// array of the bytes as numbers.
#[verifier::external_body]
fn byte_array_object(name: &str, bytes: &[u8]) -> (object: serde_json::Value) {
    let mut members = serde_json::Map::new();
    members.insert(name.to_string(), serde_json::Value::from(bytes.to_vec()));
    serde_json::Value::Object(members)
}

/// A DID Generator implementation using the Dilithium2 post-quantum algorithm.
pub struct Dilithium2DidGenerator {}

impl DidGenerator for Dilithium2DidGenerator {
    open spec fn spec_multicodec_prefix(&self) -> u64 {
        0xEF01
    }

    open spec fn spec_public_key_len(&self) -> nat {
        1312
    }

    /// Makes a key pair and the DID of its public key; the JSON object holds
    /// the public key's bytes under `privateKey`.
    fn generate_did(&self) -> (res: Result<(String, serde_json::Value), CryptoError>)
        ensures
            res is Ok,
    {
        let public_key = dilithium2_public_key();
        let did = did_key_from_public_key(0xEF01, public_key.as_slice());
        let key = byte_array_object("privateKey", public_key.as_slice());
        let ghost did_view = did@;
        proof {
            assert(did_view == did_key_for(self.spec_multicodec_prefix(), public_key@));
        }
        let res = Ok((did, key));
        assert(res matches Ok((d, _k)) && d@ == did_view);
        res
    }
}

} // verus!
