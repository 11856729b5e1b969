//! Wallets: key pairs, issuance settings, `did:key` resolution, and the
//! signature algorithms a credential can be signed with.
use vstd::prelude::*;
use vstd::string::StrSliceExecFns;
use crate::did::{did_key_prefix, did_key_for, multicodec_key};
use crate::encoding::{
    multibase_decode, spec_multibase_decode, varint_decode_u64, varint_decoding,
    lemma_varint_roundtrip, spec_base58btc,
};
use crate::error::{CryptoError, DidError};
use crate::claims::{ClaimModel, ClaimSet, ClaimValue, with_claim};
use crate::entropy::{new_uuid_v4, uuid_v4_text, seeded_u32s, spec_seeded_u32s, utc_now_rfc3339};
use crate::error::{SdJwtError, SdJwtErrorModel, result_model};
use crate::sd_jwt::IssuedToken;
use crate::sd_jwt::issuer::{discloses, issued_as, issue_oversized};
use crate::sd_jwt::sizes::{claim_text_len, small_bound};
use crate::sd_jwt::verifying::{certifies, verification_outcome};
use crate::text::{push_str, string_views};
use vstd::string::StringExecFns;

pub mod ed25519;
pub mod falcon512;
pub mod p256;
pub mod secp256k1;

verus! {

/// A struct containing the public and private keys for a DID.
pub struct DidKeys {
    pub pub_key: Vec<u8>,
    pub priv_key: Vec<u8>,
}

impl DidKeys {
    pub fn new(pub_key: Vec<u8>, priv_key: Vec<u8>) -> (keys: Self)
        ensures
            keys.pub_key@ == pub_key@,
            keys.priv_key@ == priv_key@,
    {
        Self { pub_key, priv_key }
    }
}

/// Configuration for issuance functionality.
pub struct IssuanceConfig {
    pub fields_amount: FieldsAmount,
    pub fields_size: FieldsSize,
    pub demo_vc: bool,
    pub seed: u32,
}

impl Default for IssuanceConfig {
    fn default() -> (config: Self)
        ensures
            config.fields_amount == FieldsAmount::Small,
            config.fields_size == FieldsSize::Small,
            !config.demo_vc,
            config.seed == 0,
    {
        Self { fields_amount: FieldsAmount::Small, fields_size: FieldsSize::Small, demo_vc: false, seed: 0 }
    }
}

/// The amount of fields to include in a VC.
#[derive(Clone, Copy, Debug, PartialEq, Eq, Structural)]
pub enum FieldsAmount {
    Small,
    Medium,
    Large,
}

/// The size of fields to include in a VC.
#[derive(Clone, Copy, Debug, PartialEq, Eq, Structural)]
pub enum FieldsSize {
    Small,
    Medium,
    Large,
}

/// The number of generated fields.
pub open spec fn fields_amount_count(amount: FieldsAmount) -> nat {
    match amount {
        FieldsAmount::Small => 5,
        FieldsAmount::Medium => 50,
        FieldsAmount::Large => 500,
    }
}

/// The number of characters of each generated field.
pub open spec fn fields_size_count(size: FieldsSize) -> nat {
    match size {
        FieldsSize::Small => 6,
        FieldsSize::Medium => 64,
        FieldsSize::Large => 640,
    }
}

impl FieldsAmount {
    pub fn to_usize(&self) -> (n: usize)
        ensures
            n == fields_amount_count(*self),
    {
        match self {
            FieldsAmount::Small => 5,
            FieldsAmount::Medium => 50,
            FieldsAmount::Large => 500,
        }
    }

    /// The display text: the count followed by `_fields`.
    pub fn to_label(&self) -> (label: String)
        ensures
            label@ == crate::json::decimal_text(fields_amount_count(*self) as int) + "_fields"@,
    {
        let mut label = crate::json::json_integer(self.to_usize() as i64);
        crate::text::push_str(&mut label, "_fields");
        label
    }
}

impl FieldsSize {
    pub fn to_usize(&self) -> (n: usize)
        ensures
            n == fields_size_count(*self),
    {
        match self {
            FieldsSize::Small => 6,
            FieldsSize::Medium => 64,
            FieldsSize::Large => 640,
        }
    }

    /// The display text: the count followed by `_bytes`.
    pub fn to_label(&self) -> (label: String)
        ensures
            label@ == crate::json::decimal_text(fields_size_count(*self) as int) + "_bytes"@,
    {
        let mut label = crate::json::json_integer(self.to_usize() as i64);
        crate::text::push_str(&mut label, "_bytes");
        label
    }
}

/// Parameters for issuing a Verifiable Credential.
pub struct IssuanceParams {
    pub issuer_did: String,
    pub method: String,
    pub private_key: Vec<u8>,
    pub config: IssuanceConfig,
}

/// An unsigned Verifiable Credential. `credential_schema` holds the schema
/// as JSON text, where there is one.
pub struct UnsignedVC {
    pub context: Vec<String>,
    pub id: String,
    pub types: Vec<String>,
    pub issuer: String,
    pub issuance_date: String,
    pub expiration_date: Option<String>,
    pub credential_subject: ClaimSet,
    pub credential_schema: Option<String>,
}

/// What `DidKeyResolver::extract_pubkey_from_did` gives for `did`.
pub open spec fn resolve_did_key(did: Seq<char>, expected_code: u64) -> Result<Seq<u8>, DidError> {
    if !(did.len() >= 8 && did.take(8) == did_key_prefix()) {
        Err(DidError::MissingDidKeyPrefix)
    } else {
        match spec_multibase_decode(did.skip(8)) {
            None => Err(DidError::InvalidMultibase),
            Some(data) => match varint_decoding(data) {
                None => Err(DidError::InvalidVarint),
                Some((code, consumed)) => if code != expected_code {
                    Err(DidError::UnexpectedMulticodec { expected: expected_code, found: code as u64 })
                } else {
                    Ok(data.skip(consumed as int))
                },
            },
        }
    }
}

/// Common utilities for DID operations.
pub struct DidKeyResolver;

impl DidKeyResolver {
    /// Extracts the public key from a `did:key` DID whose multicodec prefix is
    /// `expected_code`. A DID written by `did_key_from_public_key` for that code
    /// gives back the key it was written from.
    pub fn extract_pubkey_from_did(did: &str, expected_code: u64) -> (res: Result<Vec<u8>, DidError>)
        ensures
            res matches Ok(k) ==> resolve_did_key(did@, expected_code) == Ok::<Seq<u8>, DidError>(k@),
            res matches Err(e) ==> resolve_did_key(did@, expected_code) == Err::<Seq<u8>, DidError>(e),
            forall|pk: Seq<u8>|
                #[trigger] did_key_for(expected_code, pk) == did@ ==> res is Ok && res.unwrap()@ == pk,
    {
        let prefix = "did:key:";
        proof {
            reveal_strlit("did:key:");
            assert(prefix@ =~= did_key_prefix());
        }
        let n = did.unicode_len();
        if n < 8 {
            return Err(DidError::MissingDidKeyPrefix);
        }
        let mut i: usize = 0;
        while i < 8
            invariant
                0 <= i <= 8,
                8 <= n == did@.len(),
                prefix@ == did_key_prefix(),
                forall|j: int| 0 <= j < i ==> did@[j] == did_key_prefix()[j],
            decreases 8 - i,
        {
            if did.get_char(i) != prefix.get_char(i) {
                proof {
                    assert(did@.take(8)[i as int] != did_key_prefix()[i as int]);
                }
                return Err(DidError::MissingDidKeyPrefix);
            }
            i = i + 1;
        }
        assert(did@.take(8) =~= did_key_prefix());
        let mb = did.substring_char(8, n);
        assert(mb@ =~= did@.skip(8));
        let data = match multibase_decode(mb) {
            Some(d) => d,
            None => {
                proof {
                    assert forall|pk: Seq<u8>| #[trigger] did_key_for(expected_code, pk) != did@ by {
                        if did_key_for(expected_code, pk) == did@ {
                            assert(mb@ =~= seq!['z'] + spec_base58btc(multicodec_key(expected_code, pk)));
                        }
                    }
                }
                return Err(DidError::InvalidMultibase);
            },
        };
        let (code, rest) = match varint_decode_u64(data.as_slice()) {
            Some(p) => p,
            None => {
                proof {
                    assert forall|pk: Seq<u8>| #[trigger] did_key_for(expected_code, pk) != did@ by {
                        if did_key_for(expected_code, pk) == did@ {
                            assert(mb@ =~= seq!['z'] + spec_base58btc(multicodec_key(expected_code, pk)));
                            assert(data@ == multicodec_key(expected_code, pk));
                            lemma_varint_roundtrip(expected_code, pk);
                        }
                    }
                }
                return Err(DidError::InvalidVarint);
            },
        };
        proof {
            assert forall|pk: Seq<u8>| #[trigger] did_key_for(expected_code, pk) == did@ implies code
                == expected_code && rest@ == pk by {
                assert(did@.skip(8) =~= seq!['z'] + spec_base58btc(multicodec_key(expected_code, pk)));
                assert(data@ == multicodec_key(expected_code, pk));
                lemma_varint_roundtrip(expected_code, pk);
                assert(data@.skip(crate::encoding::varint_encoding(expected_code as nat).len() as int)
                    =~= pk);
            }
        }
        if code != expected_code {
            return Err(DidError::UnexpectedMulticodec { expected: expected_code, found: code });
        }
        Ok(rest)
    }
}

/// The JSON-LD context of every credential.
pub open spec fn credentials_context() -> Seq<char> {
    "https://www.w3.org/2018/credentials/v1"@
}

/// The base type of every credential.
pub open spec fn credential_type() -> Seq<char> {
    "VerifiableCredential"@
}

/// The `@context` of every credential.
pub open spec fn vc_context() -> Seq<Seq<char>> {
    seq![credentials_context()]
}

/// The `type` of a credential for an issuance method.
pub open spec fn vc_types(method: Seq<char>) -> Seq<Seq<char>> {
    seq![credential_type(), method]
}

/// Appends the decimal digits of `n`.
fn push_decimal(out: &mut String, n: usize)
    ensures
        final(out)@ == old(out)@ + crate::json::decimal_digits(n as nat),
    decreases n,
{
    if n >= 10 {
        push_decimal(out, n / 10);
    }
    let digit = (n % 10) as u8;
    let c = (digit + 48u8) as char;
    assert(c == ('0' as int + (n as nat) % 10) as char);
    push_char(out, c);
}

/// The decimal digits of the number.
fn usize_to_decimal(n: usize) -> (text: String)
    ensures
        text@ == crate::json::decimal_text(n as int),
{
    let mut text = String::new();
    push_decimal(&mut text, n);
    assert(text@ =~= crate::json::decimal_digits(n as nat));
    text
}

/// `String::push`.
#[verifier::external_body]
fn push_char(s: &mut String, c: char)
    ensures
        final(s)@ == old(s)@.push(c),
{
    s.push(c);
}

/// The lowercase letter a random draw stands for.
pub open spec fn letter_of(draw: u32) -> char {
    ('a' as int + draw % 26) as char
}

/// The value of generated field `i`: `size` letters from the draws.
pub open spec fn field_value(draws: Seq<u32>, size: nat, i: nat) -> Seq<char> {
    Seq::new(size, |j: int| letter_of(draws[i * size + j]))
}

/// The key of generated field `i`: `field` and its number, counting from 1.
pub open spec fn field_key(i: nat) -> Seq<char> {
    "field"@ + crate::json::decimal_text(i + 1int)
}

/// The claims after generating the first `n` fields onto `claims`.
pub open spec fn with_fields(
    claims: Seq<(Seq<char>, ClaimModel)>,
    draws: Seq<u32>,
    size: nat,
    n: nat,
) -> Seq<(Seq<char>, ClaimModel)>
    decreases n,
{
    if n == 0 {
        claims
    } else {
        let i = (n - 1) as nat;
        with_claim(
            with_fields(claims, draws, size, i),
            field_key(i),
            ClaimModel::Text(field_value(draws, size, i)),
        )
    }
}

/// The credential subject `build_vc` makes: `id` is the issuer DID, then
/// either `demo: true` or the generated fields, drawn from the seeded stream.
pub open spec fn subject_claims(did: Seq<char>, config: IssuanceConfig) -> Seq<(Seq<char>, ClaimModel)> {
    let base = with_claim(Seq::empty(), "id"@, ClaimModel::Text(did));
    if config.demo_vc {
        with_claim(base, "demo"@, ClaimModel::Flag(true))
    } else {
        let amount = fields_amount_count(config.fields_amount);
        let size = fields_size_count(config.fields_size);
        with_fields(base, spec_seeded_u32s(config.seed as u64, amount * size), size, amount)
    }
}

/// Setting a claim never empties a set.
pub proof fn lemma_with_claim_nonempty(entries: Seq<(Seq<char>, ClaimModel)>, k: Seq<char>, v: ClaimModel)
    ensures
        with_claim(entries, k, v).len() >= 1,
        with_claim(entries, k, v).len() >= entries.len(),
{
    crate::claims::lemma_insertion_point_bound(entries, k);
}

/// A signature algorithm that credentials can be signed and checked with.
pub trait SignatureAlgorithm {
    /// The JWT `alg` name of the algorithm.
    spec fn spec_algorithm_name(&self) -> Seq<char>;

    /// The proof type a credential signed this way carries.
    spec fn spec_proof_type(&self) -> Seq<char>;

    /// The multicodec code of the algorithm's public keys in a `did:key`.
    spec fn spec_multicodec_prefix(&self) -> u64;

    /// The private keys `sign_data` can sign with.
    spec fn accepts_private_key(&self, private_key: Seq<u8>) -> bool;

    /// `public_key` is the public key that belongs to `private_key`.
    spec fn key_pair(&self, private_key: Seq<u8>, public_key: Seq<u8>) -> bool;

    /// `signature` is one that `sign_data` may give for `data` with `private_key`.
    spec fn signs(&self, private_key: Seq<u8>, data: Seq<u8>, signature: Seq<u8>) -> bool;

    /// What `verify_signature` answers for these bytes.
    spec fn verification(&self, data: Seq<u8>, signature: Seq<u8>, public_key: Seq<u8>) -> Result<
        bool,
        CryptoError,
    >;

    /// Algorithm name for the JWT header.
    fn algorithm_name(&self) -> (name: &'static str)
        ensures
            name@ == self.spec_algorithm_name(),
    ;

    /// Proof type for a VC proof.
    fn proof_type(&self) -> (proof_type: &'static str)
        ensures
            proof_type@ == self.spec_proof_type(),
    ;

    /// Expected multicodec prefix for DIDs.
    fn multicodec_prefix(&self) -> (code: u64)
        ensures
            code == self.spec_multicodec_prefix(),
    ;

    /// Signs data with the given private key: fails exactly on keys the
    /// algorithm does not accept, and the signature is one that
    /// `verify_signature` accepts under the key's public key.
    fn sign_data(&self, data: &[u8], private_key: &[u8]) -> (res: Result<Vec<u8>, CryptoError>)
        ensures
            res is Ok <==> self.accepts_private_key(private_key@),
            res is Err ==> res == Err::<Vec<u8>, CryptoError>(CryptoError::InvalidPrivateKey),
            res matches Ok(sig) ==> self.signs(private_key@, data@, sig@),
            res matches Ok(sig) ==> forall|pk: Seq<u8>|
                #[trigger] self.key_pair(private_key@, pk) ==> self.verification(data@, sig@, pk)
                    == Ok::<bool, CryptoError>(true),
    ;

    /// Verifies a signature with the given public key.
    fn verify_signature(&self, data: &[u8], signature: &[u8], public_key: &[u8]) -> (res: Result<
        bool,
        CryptoError,
    >)
        ensures
            res == self.verification(data@, signature@, public_key@),
    ;
}

/// Generating fields keeps every claim there was.
proof fn lemma_with_fields_len(claims: Seq<(Seq<char>, ClaimModel)>, draws: Seq<u32>, size: nat, n: nat)
    ensures
        with_fields(claims, draws, size, n).len() >= claims.len(),
    decreases n,
{
    if n > 0 {
        let i = (n - 1) as nat;
        lemma_with_fields_len(claims, draws, size, i);
        lemma_with_claim_nonempty(
            with_fields(claims, draws, size, i),
            field_key(i),
            ClaimModel::Text(field_value(draws, size, i)),
        );
    }
}

/// Every credential subject has at least its `id` claim.
pub proof fn lemma_subject_claims_nonempty(did: Seq<char>, config: IssuanceConfig)
    ensures
        subject_claims(did, config).len() >= 1,
{
    let base = with_claim(Seq::empty(), "id"@, ClaimModel::Text(did));
    lemma_with_claim_nonempty(Seq::empty(), "id"@, ClaimModel::Text(did));
    if config.demo_vc {
        lemma_with_claim_nonempty(base, "demo"@, ClaimModel::Flag(true));
    } else {
        let amount = fields_amount_count(config.fields_amount);
        let size = fields_size_count(config.fields_size);
        lemma_with_fields_len(base, spec_seeded_u32s(config.seed as u64, amount * size), size, amount);
    }
}

/// A wallet's round trip: a token that `issue_sd_vc_jwt` wrote for a DID and
/// private key that `generate_did` made is one that `verify_sd_vc_jwt` accepts.
pub proof fn lemma_wallet_token_certified<A: SignatureAlgorithm>(
    alg: A,
    did: Seq<char>,
    private_key: Seq<u8>,
    public_key: Seq<u8>,
    method: Seq<char>,
    config: IssuanceConfig,
    w: IssuedToken,
    id: Seq<char>,
    token: Seq<char>,
    disclosures: Seq<Seq<char>>,
)
    requires
        alg.key_pair(private_key, public_key),
        did == did_key_for(alg.spec_multicodec_prefix(), public_key),
        !did.contains('#'),
        discloses(disclosures, subject_claims(did, config)),
        issued_as(w, alg, vc_context(), id, vc_types(method), did, private_key, token, disclosures),
    ensures
        certifies(IssuedToken { public_key, ..w }, alg, token),
{
    lemma_subject_claims_nonempty(did, config);
    crate::sd_jwt::issuer::lemma_issued_token_certified(
        w,
        alg,
        vc_context(),
        id,
        vc_types(method),
        did,
        private_key,
        public_key,
        token,
        disclosures,
    );
}

proof fn lemma_digits_nonempty(n: nat)
    ensures
        crate::json::decimal_digits(n).len() >= 1,
    decreases n,
{
    if n >= 10 {
        lemma_digits_nonempty(n / 10);
    }
}

/// Different numbers have different decimal digits.
proof fn lemma_digits_injective(a: nat, b: nat)
    requires
        crate::json::decimal_digits(a) == crate::json::decimal_digits(b),
    ensures
        a == b,
    decreases a,
{
    let da = crate::json::decimal_digits(a);
    let db = crate::json::decimal_digits(b);
    if a >= 10 {
        lemma_digits_nonempty(a / 10);
    }
    if b >= 10 {
        lemma_digits_nonempty(b / 10);
    }
    if a >= 10 && b >= 10 {
        assert(da.last() == db.last());
        assert(da.drop_last() =~= crate::json::decimal_digits(a / 10));
        assert(db.drop_last() =~= crate::json::decimal_digits(b / 10));
        lemma_digits_injective(a / 10, b / 10);
    } else if a < 10 && b < 10 {
        assert(da[0] == db[0]);
    } else {
        assert(da.len() != db.len());
    }
}

/// Different field numbers give different keys, and no field key is `id`.
proof fn lemma_field_keys_distinct(i: nat, k: nat)
    ensures
        i != k ==> field_key(i) != field_key(k),
        field_key(i) != "id"@,
{
    reveal_strlit("field");
    reveal_strlit("id");
    let p = "field"@;
    if field_key(i) == field_key(k) {
        assert(crate::json::decimal_text(i + 1int) =~= field_key(i).subrange(5, field_key(i).len() as int));
        assert(crate::json::decimal_text(k + 1int) =~= field_key(k).subrange(5, field_key(k).len() as int));
        lemma_digits_injective((i + 1) as nat, (k + 1) as nat);
    }
    assert(field_key(i)[0] == 'f');
}

/// Setting claim `k` keeps every claim under another key and holds the new one.
proof fn lemma_with_claim_keeps(entries: Seq<(Seq<char>, ClaimModel)>, k: Seq<char>, v: ClaimModel)
    ensures
        with_claim(entries, k, v).contains((k, v)),
        forall|x: (Seq<char>, ClaimModel)|
            #[trigger] entries.contains(x) && x.0 != k ==> with_claim(entries, k, v).contains(x),
{
    crate::claims::lemma_insertion_point_bound(entries, k);
    let p = crate::claims::insertion_point(entries, k);
    let r = with_claim(entries, k, v);
    if p < entries.len() && entries[p].0 == k {
        assert(r[p] == (k, v));
    } else {
        assert(r[p] == (k, v));
    }
    assert forall|x: (Seq<char>, ClaimModel)|
        #[trigger] entries.contains(x) && x.0 != k implies r.contains(x) by {
        let j = choose|j: int| 0 <= j < entries.len() && entries[j] == x;
        if p < entries.len() && entries[p].0 == k {
            assert(j != p);
            assert(r[j] == x);
        } else if j < p {
            assert(r[j] == x);
        } else {
            assert(r[j + 1] == x);
        }
    }
}

/// After generating `n` fields, each of them is held under its key.
proof fn lemma_fields_held(claims: Seq<(Seq<char>, ClaimModel)>, draws: Seq<u32>, size: nat, n: nat)
    ensures
        forall|i: nat|
            i < n ==> #[trigger] with_fields(claims, draws, size, n).contains(
                (field_key(i), ClaimModel::Text(field_value(draws, size, i))),
            ),
    decreases n,
{
    if n > 0 {
        let m = (n - 1) as nat;
        lemma_fields_held(claims, draws, size, m);
        let before = with_fields(claims, draws, size, m);
        lemma_with_claim_keeps(before, field_key(m), ClaimModel::Text(field_value(draws, size, m)));
        assert forall|i: nat| i < n implies #[trigger] with_fields(claims, draws, size, n).contains(
            (field_key(i), ClaimModel::Text(field_value(draws, size, i))),
        ) by {
            if i < m {
                lemma_field_keys_distinct(i, m);
                assert(before.contains((field_key(i), ClaimModel::Text(field_value(draws, size, i)))));
            }
        }
    }
}

/// The generated fields take the seeded stream's draws in turn: field number
/// `n`, under the key `field` and that number, holds `size` letters, and its
/// letter `j` is the letter of draw `(n - 1) * size + j` of the stream seeded
/// with the seed. So the fields are consecutive, disjoint slices of the
/// stream's first `amount * size` draws.
pub proof fn lemma_fields_take_stream_in_turn(did: Seq<char>, config: IssuanceConfig)
    requires
        !config.demo_vc,
    ensures
        ({
            let amount = fields_amount_count(config.fields_amount);
            let size = fields_size_count(config.fields_size);
            let draws = spec_seeded_u32s(config.seed as u64, amount * size);
            let subject = subject_claims(did, config);
            forall|n: int|
                1 <= n <= amount ==> exists|p: int|
                    0 <= p < subject.len() && (#[trigger] subject[p]).0 == "field"@
                        + #[trigger] crate::json::decimal_text(n) && subject[p].1 is Text
                        && subject[p].1->Text_0.len() == size && forall|j: int|
                        0 <= j < size ==> subject[p].1->Text_0[j] == letter_of(
                            #[trigger] draws[(n - 1) * size + j],
                        )
        }),
{
    let amount = fields_amount_count(config.fields_amount);
    let size = fields_size_count(config.fields_size);
    let draws = spec_seeded_u32s(config.seed as u64, amount * size);
    let base = with_claim(Seq::empty(), "id"@, ClaimModel::Text(did));
    lemma_fields_held(base, draws, size, amount);
    let subject = subject_claims(did, config);
    assert forall|n: int| 1 <= n <= amount implies exists|p: int|
        0 <= p < subject.len() && (#[trigger] subject[p]).0 == "field"@ + #[trigger] crate::json::decimal_text(n)
            && subject[p].1 is Text && subject[p].1->Text_0.len() == size && forall|j: int|
            0 <= j < size ==> subject[p].1->Text_0[j] == letter_of(#[trigger] draws[(n - 1) * size + j]) by {
        let i = (n - 1) as nat;
        let e = (field_key(i), ClaimModel::Text(field_value(draws, size, i)));
        assert(subject.contains(e));
        let p = choose|p: int| 0 <= p < subject.len() && subject[p] == e;
        assert(subject[p] == e);
    }
}

/// Every claim has a name and a value of at most `small_bound()` characters.
pub open spec fn claims_small(claims: Seq<(Seq<char>, ClaimModel)>) -> bool {
    forall|i: int|
        0 <= i < claims.len() ==> (#[trigger] claims[i]).0.len() <= small_bound() && claim_text_len(
            claims[i].1,
        ) <= small_bound()
}

proof fn lemma_with_claim_small(entries: Seq<(Seq<char>, ClaimModel)>, k: Seq<char>, v: ClaimModel)
    requires
        claims_small(entries),
        k.len() <= small_bound(),
        claim_text_len(v) <= small_bound(),
    ensures
        claims_small(with_claim(entries, k, v)),
        with_claim(entries, k, v).len() <= entries.len() + 1,
{
    crate::claims::lemma_insertion_point_bound(entries, k);
    let r = with_claim(entries, k, v);
    let p = crate::claims::insertion_point(entries, k);
    assert forall|i: int| 0 <= i < r.len() implies (#[trigger] r[i]).0.len() <= small_bound()
        && claim_text_len(r[i].1) <= small_bound() by {
        if p < entries.len() && entries[p].0 == k {
            if i != p {
                assert(r[i] == entries[i]);
            }
        } else {
            if i < p {
                assert(r[i] == entries[i]);
            } else if i > p {
                assert(r[i] == entries[i - 1]);
            }
        }
    }
}

proof fn lemma_with_fields_small(claims: Seq<(Seq<char>, ClaimModel)>, draws: Seq<u32>, size: nat, n: nat)
    requires
        claims_small(claims),
        size <= small_bound(),
        n <= 1000,
    ensures
        claims_small(with_fields(claims, draws, size, n)),
        with_fields(claims, draws, size, n).len() <= claims.len() + n,
    decreases n,
{
    if n > 0 {
        let i = (n - 1) as nat;
        lemma_with_fields_small(claims, draws, size, i);
        reveal_strlit("field");
        crate::sd_jwt::sizes::lemma_decimal_len(i + 1int);
        lemma_with_claim_small(
            with_fields(claims, draws, size, i),
            field_key(i),
            ClaimModel::Text(field_value(draws, size, i)),
        );
    }
}

/// A wallet's issuance from a DID and a method of at most `small_bound()`
/// characters, by an algorithm with a short name and signatures that fit,
/// builds nothing too large to encode, whatever the credential's UUID: it
/// fails only where the clock reading is unusable or the key is refused.
pub proof fn lemma_wallet_issue_fits<A: SignatureAlgorithm>(
    alg: A,
    method: Seq<char>,
    did: Seq<char>,
    private_key: Seq<u8>,
    config: IssuanceConfig,
    u: Seq<char>,
)
    requires
        alg.spec_algorithm_name().len() <= small_bound(),
        method.len() <= small_bound(),
        did.len() <= small_bound(),
        uuid_v4_text(u),
        forall|d: Seq<u8>, sig: Seq<u8>|
            #[trigger] alg.signs(private_key, d, sig) ==> sig.len() <= usize::MAX / 2,
    ensures
        !issue_oversized(
            alg,
            vc_context(),
            "urn:uuid:"@ + u,
            vc_types(method),
            did,
            private_key,
            subject_claims(did, config),
        ),
{
    reveal_strlit("urn:uuid:");
    reveal_strlit("https://www.w3.org/2018/credentials/v1");
    reveal_strlit("VerifiableCredential");
    reveal_strlit("id");
    reveal_strlit("demo");
    let base = with_claim(Seq::empty(), "id"@, ClaimModel::Text(did));
    lemma_with_claim_small(Seq::empty(), "id"@, ClaimModel::Text(did));
    if config.demo_vc {
        lemma_with_claim_small(base, "demo"@, ClaimModel::Flag(true));
    } else {
        let amount = fields_amount_count(config.fields_amount);
        let size = fields_size_count(config.fields_size);
        lemma_with_fields_small(base, spec_seeded_u32s(config.seed as u64, amount * size), size, amount);
    }
    let claims = subject_claims(did, config);
    let context = vc_context();
    let types = vc_types(method);
    assert forall|i: int| 0 <= i < context.len() implies (#[trigger] context[i]).len()
        <= small_bound() by {}
    assert forall|i: int| 0 <= i < types.len() implies (#[trigger] types[i]).len() <= small_bound() by {}
    crate::sd_jwt::sizes::lemma_small_issue_fits(
        alg,
        context,
        "urn:uuid:"@ + u,
        types,
        did,
        private_key,
        claims,
    );
}

/// Issues the SD-JWT VC of a built credential with an algorithm: the part
/// every wallet's `issue_sd_vc_jwt` shares.
pub fn issue_built_vc<A: SignatureAlgorithm>(
    unsigned: &UnsignedVC,
    params: &IssuanceParams,
    algorithm: &A,
) -> (res: Result<(String, Vec<String>), SdJwtError>)
    requires
        string_views(unsigned.context@) == vc_context(),
        string_views(unsigned.types@) == vc_types(params.method@),
        unsigned.credential_subject@ == subject_claims(params.issuer_did@, params.config),
    ensures
        res matches Ok((jwt, disclosures)) ==> discloses(
            string_views(disclosures@),
            subject_claims(params.issuer_did@, params.config),
        ),
        res matches Ok((jwt, disclosures)) ==> exists|w: IssuedToken, id: Seq<char>|
            #[trigger] issued_as(
                w,
                *algorithm,
                vc_context(),
                id,
                vc_types(params.method@),
                params.issuer_did@,
                params.private_key@,
                jwt@,
                string_views(disclosures@),
            ),
        !algorithm.accepts_private_key(params.private_key@) ==> res is Err,
        res matches Err(e) ==> (e is TooLarge && issue_oversized(
                *algorithm,
                vc_context(),
                unsigned.id@,
                vc_types(params.method@),
                params.issuer_did@,
                params.private_key@,
                subject_claims(params.issuer_did@, params.config),
            )) || e is ClockOutOfRange || (e == SdJwtError::Crypto(CryptoError::InvalidPrivateKey)
            && !algorithm.accepts_private_key(params.private_key@)),
{
    let res = crate::sd_jwt::issuer::SdJwtIssuer::issue(
        unsigned,
        &unsigned.credential_subject,
        params.issuer_did.as_str(),
        params.private_key.as_slice(),
        algorithm,
    );
    proof {
        if res is Ok {
            let (jwt, disclosures) = res.unwrap();
            let w = choose|w: IssuedToken|
                #[trigger] issued_as(
                    w,
                    *algorithm,
                    string_views(unsigned.context@),
                    unsigned.id@,
                    string_views(unsigned.types@),
                    params.issuer_did@,
                    params.private_key@,
                    jwt@,
                    string_views(disclosures@),
                );
            assert(issued_as(
                w,
                *algorithm,
                vc_context(),
                unsigned.id@,
                vc_types(params.method@),
                params.issuer_did@,
                params.private_key@,
                jwt@,
                string_views(disclosures@),
            ));
        }
    }
    let out = res;
    out
}

/// A wallet: makes DIDs and key pairs, and issues and verifies SD-JWT VCs,
/// all with one signature algorithm.
pub trait Wallet {
    /// The signature algorithm of the wallet.
    type Algorithm: SignatureAlgorithm;

    /// The algorithm the wallet signs and verifies with.
    spec fn algorithm(&self) -> Self::Algorithm;

    /// Generates a new key pair and its `did:key` DID.
    fn generate_did(&self) -> (res: Result<(String, DidKeys), CryptoError>)
        ensures
            res matches Ok((did, keys)) ==> self.algorithm().key_pair(keys.priv_key@, keys.pub_key@)
                && did@ == did_key_for(self.algorithm().spec_multicodec_prefix(), keys.pub_key@)
                && !did@.contains('#'),
    ;

    /// Issues a Verifiable Credential in SD-JWT format: the credential that
    /// `build_vc` makes, issued by `params.issuer_did` with `params.private_key`.
    fn issue_sd_vc_jwt(&self, params: IssuanceParams) -> (res: Result<(String, Vec<String>), SdJwtError>)
        ensures
            res matches Ok((jwt, disclosures)) ==> discloses(
                string_views(disclosures@),
                subject_claims(params.issuer_did@, params.config),
            ),
            res matches Ok((jwt, disclosures)) ==> exists|w: IssuedToken, id: Seq<char>|
                #[trigger] issued_as(
                    w,
                    self.algorithm(),
                    vc_context(),
                    id,
                    vc_types(params.method@),
                    params.issuer_did@,
                    params.private_key@,
                    jwt@,
                    string_views(disclosures@),
                ),
            !self.algorithm().accepts_private_key(params.private_key@) ==> res is Err,
            res matches Err(e) ==> (e is TooLarge && exists|u: Seq<char>|
                uuid_v4_text(u) && #[trigger] issue_oversized(
                    self.algorithm(),
                    vc_context(),
                    "urn:uuid:"@ + u,
                    vc_types(params.method@),
                    params.issuer_did@,
                    params.private_key@,
                    subject_claims(params.issuer_did@, params.config),
                )) || e is ClockOutOfRange || (e == SdJwtError::Crypto(CryptoError::InvalidPrivateKey)
                && !self.algorithm().accepts_private_key(params.private_key@)),
    ;

    /// Verifies an SD-JWT VC with the wallet's algorithm.
    fn verify_sd_vc_jwt(&self, token: String) -> (res: Result<bool, SdJwtError>)
        ensures
            result_model(res) == verification_outcome(self.algorithm(), token@),
            forall|w: IssuedToken|
                #[trigger] certifies(w, self.algorithm(), token@) ==> result_model(res) == Ok::<
                    bool,
                    SdJwtErrorModel,
                >(true),
    ;

    /// Builds the unsigned credential of the issuance parameters: its id is a
    /// fresh `urn:uuid`, its types `VerifiableCredential` and the method, its
    /// issuer the issuer DID, its issuance date the current UTC time as RFC 3339
    /// text, and its subject the claims `subject_claims` lists.
    fn build_vc(&self, params: &IssuanceParams) -> (res: Result<UnsignedVC, SdJwtError>)
        ensures
            res is Ok,
            res matches Ok(vc) ==> {
                &&& string_views(vc.context@) == vc_context()
                &&& string_views(vc.types@) == vc_types(params.method@)
                &&& exists|u: Seq<char>| uuid_v4_text(u) && vc.id@ == "urn:uuid:"@ + u
                &&& vc.issuance_date@.len() >= 25
                &&& vc.issuance_date@.subrange(vc.issuance_date@.len() - 6, vc.issuance_date@.len() as int)
                    == "+00:00"@
                &&& vc.issuer@ == params.issuer_did@
                &&& vc.expiration_date is None
                &&& vc.credential_schema is None
                &&& vc.credential_subject@ == subject_claims(params.issuer_did@, params.config)
                &&& vc.credential_subject@.len() >= 1
            },
    {
        let mut context: Vec<String> = Vec::new();
        context.push(String::from_str("https://www.w3.org/2018/credentials/v1"));
        let mut id = String::from_str("urn:uuid:");
        let uuid = new_uuid_v4();
        push_str(&mut id, uuid.as_str());
        let ghost id_view = id@;
        assert(uuid_v4_text(uuid@) && id_view == "urn:uuid:"@ + uuid@);
        let mut types: Vec<String> = Vec::new();
        types.push(String::from_str("VerifiableCredential"));
        types.push(params.method.clone());
        let issuance_date = utc_now_rfc3339();
        let mut subject = ClaimSet::new();
        subject.insert(String::from_str("id"), ClaimValue::Text(params.issuer_did.clone()));
        let ghost base = subject@;
        proof {
            lemma_with_claim_nonempty(Seq::empty(), "id"@, ClaimModel::Text(params.issuer_did@));
        }
        if params.config.demo_vc {
            subject.insert(String::from_str("demo"), ClaimValue::Flag(true));
            proof {
                lemma_with_claim_nonempty(base, "demo"@, ClaimModel::Flag(true));
            }
        } else {
            let amount = params.config.fields_amount.to_usize();
            let size = params.config.fields_size.to_usize();
            assert(amount <= 500 && size <= 640);
            assert(amount * size <= 320_000) by (nonlinear_arith)
                requires
                    amount <= 500,
                    size <= 640,
            ;
            let draws = seeded_u32s(params.config.seed as u64, amount * size);
            for i in 0..amount
                invariant
                    amount == fields_amount_count(params.config.fields_amount),
                    size == fields_size_count(params.config.fields_size),
                    draws@ == spec_seeded_u32s(params.config.seed as u64, (amount * size) as nat),
                    draws@.len() == amount * size,
                    subject@ == with_fields(base, draws@, size as nat, i as nat),
                    subject@.len() >= 1,
            {
                let mut key = String::from_str("field");
                let number = usize_to_decimal(i + 1);
                push_str(&mut key, number.as_str());
                let mut value = String::new();
                for j in 0..size
                    invariant
                        amount == fields_amount_count(params.config.fields_amount),
                        size == fields_size_count(params.config.fields_size),
                        i < amount,
                        draws@.len() == amount * size,
                        value@ =~= Seq::new(j as nat, |t: int| letter_of(draws@[i * size + t])),
                {
                    assert(i * size + j < amount * size) by (nonlinear_arith)
                        requires
                            i < amount,
                            j < size,
                    ;
                    let draw = draws[i * size + j];
                    let c = ((draw % 26) as u8 + 97u8) as char;
                    assert(c == letter_of(draw));
                    push_char(&mut value, c);
                }
                let ghost before = subject@;
                proof {
                    assert(value@ =~= field_value(draws@, size as nat, i as nat));
                    assert(key@ =~= field_key(i as nat));
                    lemma_with_claim_nonempty(before, key@, ClaimModel::Text(value@));
                }
                subject.insert(key, ClaimValue::Text(value));
            }
        }
        Ok(
            UnsignedVC {
                context,
                id,
                types,
                issuer: params.issuer_did.clone(),
                issuance_date,
                expiration_date: None,
                credential_subject: subject,
                credential_schema: None,
            },
        )
    }
}

} // verus!
