//! SD-JWT verifiable credentials: the token layout, disclosures and digests,
//! and what makes a token one that verification accepts.
use vstd::prelude::*;
use vstd::utf8::encode_utf8;
use crate::encoding::{base64url, spec_sha256};
use crate::json::{header_text, payload_text, PayloadFields};
use crate::text::{join_on, split_on, pieces_free_of, lemma_split_after_first, lemma_split_join,
    lemma_split_without_sep};

pub mod issuer;
pub mod sizes;
pub mod types;
pub mod verifying;

verus! {

/// The digest of a disclosure as `_sd` lists it: Base64 of the SHA-256 of
/// the disclosure's text.
pub open spec fn disclosure_digest(disclosure: Seq<char>) -> Seq<char> {
    base64url(spec_sha256(encode_utf8(disclosure)))
}

/// The key identifier of an issuer DID.
pub open spec fn key_id(did: Seq<char>) -> Seq<char> {
    did + seq!['#', 'k', 'e', 'y', 's', '-', '1']
}

/// The media type of an SD-JWT VC.
pub open spec fn sd_jwt_type() -> Seq<char> {
    seq!['v', 'c', '+', 's', 'd', '-', 'j', 'w', 't']
}

/// The only selective-disclosure digest algorithm.
pub open spec fn sha_256_name() -> Seq<char> {
    seq!['s', 'h', 'a', '-', '2', '5', '6']
}

/// The Base64 header part of a token.
pub open spec fn header_part(alg: Seq<char>, typ: Seq<char>, did: Seq<char>) -> Seq<char> {
    base64url(encode_utf8(header_text(alg, typ, key_id(did))))
}

/// The Base64 payload part of a token.
pub open spec fn payload_part(fields: PayloadFields) -> Seq<char> {
    base64url(encode_utf8(payload_text(fields)))
}

/// The text that is signed: header and payload parts joined by `.`.
pub open spec fn signing_input(header: Seq<char>, payload: Seq<char>) -> Seq<char> {
    header + seq!['.'] + payload
}

/// `header.payload.signature~d1~d2...`
pub open spec fn compose_token(
    header: Seq<char>,
    payload: Seq<char>,
    signature: Seq<char>,
    disclosures: Seq<Seq<char>>,
) -> Seq<char> {
    header + seq!['.'] + payload + seq!['.'] + signature + seq!['~'] + join_on(disclosures, '~')
}

/// Splitting a composed token gives back its parts, when the three JWT parts
/// hold neither separator and the disclosures hold no `~`.
pub proof fn lemma_token_layout(
    header: Seq<char>,
    payload: Seq<char>,
    signature: Seq<char>,
    disclosures: Seq<Seq<char>>,
)
    requires
        !header.contains('.') && !header.contains('~'),
        !payload.contains('.') && !payload.contains('~'),
        !signature.contains('.') && !signature.contains('~'),
        disclosures.len() >= 1,
        pieces_free_of(disclosures, '~'),
    ensures
        split_on(compose_token(header, payload, signature, disclosures), '~') == seq![
            header + seq!['.'] + payload + seq!['.'] + signature,
        ] + disclosures,
        split_on(header + seq!['.'] + payload + seq!['.'] + signature, '.') == seq![
            header,
            payload,
            signature,
        ],
{
    let jwt = header + seq!['.'] + payload + seq!['.'] + signature;
    assert(!jwt.contains('~')) by {
        if jwt.contains('~') {
            let i = choose|i: int| 0 <= i < jwt.len() && jwt[i] == '~';
            if i < header.len() {
                assert(header[i] == '~');
            } else if header.len() < i < header.len() + 1 + payload.len() {
                assert(payload[i - header.len() - 1] == '~');
            } else if i > header.len() + 1 + payload.len() {
                assert(signature[i - header.len() - 2 - payload.len()] == '~');
            }
        }
    }
    assert(compose_token(header, payload, signature, disclosures) =~= jwt + seq!['~'] + join_on(
        disclosures,
        '~',
    ));
    lemma_split_after_first(jwt, join_on(disclosures, '~'), '~');
    lemma_split_join(disclosures, '~');
    assert(jwt =~= header + seq!['.'] + (payload + seq!['.'] + signature));
    lemma_split_after_first(header, payload + seq!['.'] + signature, '.');
    lemma_split_after_first(payload, signature, '.');
    lemma_split_without_sep(signature, '.');
    assert(split_on(jwt, '.') =~= seq![header, payload, signature]);
}

/// The text before the first `~` of a composed token is its JWT, whatever the
/// disclosures, and the JWT splits at `.` into its three parts.
pub proof fn lemma_token_jwt(
    header: Seq<char>,
    payload: Seq<char>,
    signature: Seq<char>,
    disclosures: Seq<Seq<char>>,
)
    requires
        !header.contains('.') && !header.contains('~'),
        !payload.contains('.') && !payload.contains('~'),
        !signature.contains('.') && !signature.contains('~'),
    ensures
        split_on(compose_token(header, payload, signature, disclosures), '~')[0] == header + seq!['.']
            + payload + seq!['.'] + signature,
        !(header + seq!['.'] + payload + seq!['.'] + signature).contains('~'),
        split_on(header + seq!['.'] + payload + seq!['.'] + signature, '.') == seq![
            header,
            payload,
            signature,
        ],
{
    let jwt = header + seq!['.'] + payload + seq!['.'] + signature;
    assert(!jwt.contains('~')) by {
        if jwt.contains('~') {
            let i = choose|i: int| 0 <= i < jwt.len() && jwt[i] == '~';
            if i < header.len() {
                assert(header[i] == '~');
            } else if header.len() < i < header.len() + 1 + payload.len() {
                assert(payload[i - header.len() - 1] == '~');
            } else if i > header.len() + 1 + payload.len() {
                assert(signature[i - header.len() - 2 - payload.len()] == '~');
            }
        }
    }
    assert(compose_token(header, payload, signature, disclosures) =~= jwt + seq!['~'] + join_on(
        disclosures,
        '~',
    ));
    lemma_split_after_first(jwt, join_on(disclosures, '~'), '~');
    assert(jwt =~= header + seq!['.'] + (payload + seq!['.'] + signature));
    lemma_split_after_first(header, payload + seq!['.'] + signature, '.');
    lemma_split_after_first(payload, signature, '.');
    lemma_split_without_sep(signature, '.');
    assert(split_on(jwt, '.') =~= seq![header, payload, signature]);
}

/// What a verifier needs to know of a token to accept it: it was composed
/// from a header naming the algorithm and a `#`-free issuer DID as key id, a
/// payload whose `iss` is that DID and whose `_sd` lists the digest of every
/// disclosure, a signature of header and payload that the algorithm accepts
/// under the public key the DID encodes, and at least one disclosure.
pub struct IssuedToken {
    pub did: Seq<char>,
    pub public_key: Seq<u8>,
    pub typ: Seq<char>,
    pub payload: PayloadFields,
    pub signature: Seq<u8>,
    pub disclosures: Seq<Seq<char>>,
}

impl IssuedToken {
    pub open spec fn header(self, alg_name: Seq<char>) -> Seq<char> {
        header_part(alg_name, self.typ, self.did)
    }

    pub open spec fn token(self, alg_name: Seq<char>) -> Seq<char> {
        compose_token(
            self.header(alg_name),
            payload_part(self.payload),
            base64url(self.signature),
            self.disclosures,
        )
    }

    pub open spec fn well_formed(self, multicodec: u64) -> bool {
        &&& !self.did.contains('#')
        &&& self.did == crate::did::did_key_for(multicodec, self.public_key)
        &&& self.payload.iss == self.did
        &&& self.payload.sd_alg == sha_256_name()
        &&& crate::json::payload_in_range(self.payload)
        &&& self.disclosures.len() >= 1
        &&& pieces_free_of(self.disclosures, '~')
        &&& forall|i: int|
            0 <= i < self.disclosures.len() ==> self.payload.digests.contains(
                disclosure_digest(#[trigger] self.disclosures[i]),
            )
    }
}

} // verus!
