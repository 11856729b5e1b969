//! `did:key` identifiers: a multicodec varint naming the key type, then the
//! public key bytes, written in multibase base58 after `did:key:`.
use vstd::prelude::*;
use vstd::string::StringExecFns;
use vstd::slice::slice_to_vec;
use crate::encoding::{
    multibase_base58btc_encode, spec_base58btc, varint_encode_u64, varint_encoding,
    is_base58btc_char,
};

pub mod dilithium2;

verus! {

/// The scheme prefix of every key DID.
pub open spec fn did_key_prefix() -> Seq<char> {
    seq!['d', 'i', 'd', ':', 'k', 'e', 'y', ':']
}

/// The bytes a key DID encodes: the multicodec varint, then the key.
pub open spec fn multicodec_key(code: u64, public_key: Seq<u8>) -> Seq<u8> {
    varint_encoding(code as nat) + public_key
}

/// The key DID of `public_key` for the key type `code`.
pub open spec fn did_key_for(code: u64, public_key: Seq<u8>) -> Seq<char> {
    did_key_prefix() + seq!['z'] + spec_base58btc(multicodec_key(code, public_key))
}

/// Writes the key DID of `public_key` for the key type `code`; it holds no `#`,
/// so it can stand before a `#fragment`.
pub fn did_key_from_public_key(code: u64, public_key: &[u8]) -> (did: String)
    ensures
        did@ == did_key_for(code, public_key@),
        !did@.contains('#'),
{
    let mut payload = varint_encode_u64(code);
    let mut key = slice_to_vec(public_key);
    payload.append(&mut key);
    let mb = multibase_base58btc_encode(payload.as_slice());
    let prefix = "did:key:";
    proof {
        reveal_strlit("did:key:");
        assert(prefix@ =~= did_key_prefix());
    }
    let mut did = String::from_str(prefix);
    did.append(mb.as_str());
    proof {
        assert(payload@ =~= multicodec_key(code, public_key@));
        if did@.contains('#') {
            let i = choose|i: int| 0 <= i < did@.len() && did@[i] == '#';
            if i >= 8 {
                assert(did@[i] == mb@[i - 8]);
                if i > 8 {
                    assert(is_base58btc_char(mb@[i - 8]));
                }
            }
        }
    }
    did
}

/// The JSON value type.
#[verifier::external_type_specification]
#[verifier::external_body]
pub struct ExJsonValue(serde_json::Value);

/// Generates DIDs and their key material.
pub trait DidGenerator {
    /// The multicodec code of the generated keys.
    spec fn spec_multicodec_prefix(&self) -> u64;

    /// The length of the generated public keys.
    spec fn spec_public_key_len(&self) -> nat;

    /// A fresh DID, the key DID of a fresh public key, and its key material.
    fn generate_did(&self) -> (res: Result<(String, serde_json::Value), crate::error::CryptoError>)
        ensures
            res matches Ok((did, _key)) ==> exists|pk: Seq<u8>|
                pk.len() == self.spec_public_key_len() && did@ == #[trigger] did_key_for(
                    self.spec_multicodec_prefix(),
                    pk,
                ),
            res matches Ok((did, _key)) ==> !did@.contains('#'),
    ;
}

} // verus!
