//! Issuing SD-JWT verifiable credentials.
use vstd::prelude::*;
use vstd::utf8::encode_utf8;
use vstd::string::StringExecFns;
use crate::claims::{ClaimModel, ClaimSet, ClaimValue, entry_view};
use crate::encoding::{base64url, base64url_encode, sha256_digest, lemma_base64url_has_no_separators};
use crate::entropy::{format_utc_millis, millis_date_pattern, random_salt, spec_format_utc_millis, utc_now_millis};
use crate::error::{CryptoError, SdJwtError};
use crate::json::{raw_disclosure_json, raw_disclosure_text, header_text, payload_text, payload_in_range, flag_disclosure_json, flag_disclosure_text, header_json, payload_json,
    text_disclosure_json, text_disclosure_text, PayloadFields};
use crate::sd_jwt::{compose_token, disclosure_digest, key_id, payload_part, sd_jwt_type,
    sha_256_name, signing_input, IssuedToken};
use crate::sd_jwt::verifying::certifies;
use crate::text::{pieces_free_of, push_str, string_views};
use crate::wallet::{SignatureAlgorithm, UnsignedVC};

verus! {

/// How long an issued credential is valid: five years of 365 days, in seconds.
pub open spec fn validity_seconds() -> int {
    157_680_000
}

/// How long an issued credential is valid, in milliseconds.
pub open spec fn validity_millis() -> int {
    validity_seconds() * 1000
}

/// The clock reading `now` (milliseconds since the epoch) is one a token can
/// be issued at: an `i64` whose expiry is an `i64` too, and both of whose
/// instants chrono writes as dates.
pub open spec fn clock_usable(now: int) -> bool {
    &&& i64::MIN <= now
    &&& now + validity_millis() <= i64::MAX
    &&& spec_format_utc_millis(now, millis_date_pattern()) is Some
    &&& spec_format_utc_millis(now + validity_millis(), millis_date_pattern()) is Some
}

/// The payload's times are those of a token issued at the clock reading `now`:
/// `iat` and `exp` its and its expiry's whole seconds, `validFrom` and
/// `validUntil` their dates.
pub open spec fn timed_by(p: PayloadFields, now: int) -> bool {
    &&& clock_usable(now)
    &&& p.iat == now / 1000
    &&& p.exp == (now + validity_millis()) / 1000
    &&& Some(p.valid_from) == spec_format_utc_millis(now, millis_date_pattern())
    &&& Some(p.valid_until) == spec_format_utc_millis(now + validity_millis(), millis_date_pattern())
}

/// Text whose UTF-8 bytes are too many to write as Base64 here.
pub open spec fn oversized(text: Seq<char>) -> bool {
    encode_utf8(text).len() > usize::MAX / 2
}

/// The disclosure text of some claim, with some 16-byte salt, is oversized.
pub open spec fn claims_oversized(claims: Seq<(Seq<char>, ClaimModel)>) -> bool {
    exists|i: int, salt: Seq<u8>|
        0 <= i < claims.len() && salt.len() == 16 && #[trigger] oversized(
            disclosure_text(base64url(salt), claims[i].0, claims[i].1),
        )
}

/// `f` is a payload this issuance can build: its members are these, it lists
/// `n` digests of 43 characters, its times are `i64` numbers and its dates
/// at most 32 characters long.
pub open spec fn buildable_payload(
    f: PayloadFields,
    context: Seq<Seq<char>>,
    id: Seq<char>,
    types: Seq<Seq<char>>,
    did: Seq<char>,
    n: nat,
) -> bool {
    &&& f.sd_alg == sha_256_name()
    &&& f.context == context
    &&& f.id == id
    &&& f.iss == did
    &&& f.types == types
    &&& f.digests.len() == n
    &&& forall|i: int| 0 <= i < n ==> (#[trigger] f.digests[i]).len() == 43
    &&& payload_in_range(f)
    &&& f.valid_from.len() <= 32
    &&& f.valid_until.len() <= 32
}

/// Some piece of a token issued for these values is too large to encode: a
/// disclosure, the header, a payload this issuance can build, or a signature
/// the algorithm may make with the private key.
pub open spec fn issue_oversized<A: SignatureAlgorithm>(
    alg: A,
    context: Seq<Seq<char>>,
    id: Seq<char>,
    types: Seq<Seq<char>>,
    did: Seq<char>,
    private_key: Seq<u8>,
    claims: Seq<(Seq<char>, ClaimModel)>,
) -> bool {
    ||| claims_oversized(claims)
    ||| oversized(header_text(alg.spec_algorithm_name(), sd_jwt_type(), key_id(did)))
    ||| exists|f: PayloadFields|
        buildable_payload(f, context, id, types, did, claims.len()) && #[trigger] oversized(
            payload_text(f),
        )
    ||| exists|d: Seq<u8>, sig: Seq<u8>|
        #[trigger] alg.signs(private_key, d, sig) && sig.len() > usize::MAX / 2
}

/// The disclosure array of a claim.
pub open spec fn disclosure_text(salt_b64: Seq<char>, name: Seq<char>, value: ClaimModel) -> Seq<char> {
    match value {
        ClaimModel::Text(t) => text_disclosure_text(salt_b64, name, t),
        ClaimModel::Flag(b) => flag_disclosure_text(salt_b64, name, b),
        ClaimModel::Json(t) => raw_disclosure_text(salt_b64, name, t),
    }
}

/// The Base64 disclosure of a claim with a salt.
pub open spec fn encoded_disclosure(salt: Seq<u8>, name: Seq<char>, value: ClaimModel) -> Seq<char> {
    base64url(encode_utf8(disclosure_text(base64url(salt), name, value)))
}

/// The digests of the disclosures.
pub open spec fn digests_of(disclosures: Seq<Seq<char>>) -> Seq<Seq<char>> {
    disclosures.map_values(|d: Seq<char>| disclosure_digest(d))
}

/// `disclosure` discloses `claim`, with some 16-byte salt.
pub open spec fn discloses_claim(disclosure: Seq<char>, claim: (Seq<char>, ClaimModel)) -> bool {
    exists|salt: Seq<u8>|
        salt.len() == 16 && disclosure == #[trigger] encoded_disclosure(salt, claim.0, claim.1)
}

/// Each disclosure discloses the claim at its place.
pub open spec fn discloses(disclosures: Seq<Seq<char>>, claims: Seq<(Seq<char>, ClaimModel)>) -> bool {
    &&& disclosures.len() == claims.len()
    &&& forall|i: int| 0 <= i < disclosures.len() ==> #[trigger] discloses_claim(disclosures[i], claims[i])
}

/// `token` is an SD-JWT that `w` describes, issued for the credential with
/// `context`, `id` and `types` by `did` with `private_key`, disclosing
/// `disclosures`: its payload lists their digests, it is valid for five years
/// from its issue time, its times are those of some clock reading, and its
/// signature is one the algorithm makes with `private_key` and accepts under
/// every public key of `private_key`.
pub open spec fn issued_as<A: SignatureAlgorithm>(
    w: IssuedToken,
    alg: A,
    context: Seq<Seq<char>>,
    id: Seq<char>,
    types: Seq<Seq<char>>,
    did: Seq<char>,
    private_key: Seq<u8>,
    token: Seq<char>,
    disclosures: Seq<Seq<char>>,
) -> bool {
    &&& w.token(alg.spec_algorithm_name()) == token
    &&& w.did == did
    &&& w.typ == sd_jwt_type()
    &&& w.payload.iss == did
    &&& w.payload.sd_alg == sha_256_name()
    &&& w.payload.context == context
    &&& w.payload.id == id
    &&& w.payload.types == types
    &&& w.payload.exp == w.payload.iat + validity_seconds()
    &&& payload_in_range(w.payload)
    &&& exists|now: int| #[trigger] timed_by(w.payload, now)
    &&& alg.signs(
        private_key,
        encode_utf8(signing_input(w.header(alg.spec_algorithm_name()), payload_part(w.payload))),
        w.signature,
    )
    &&& w.disclosures == disclosures
    &&& pieces_free_of(disclosures, '~')
    &&& w.payload.digests == digests_of(disclosures)
    &&& forall|pk: Seq<u8>|
        #[trigger] alg.key_pair(private_key, pk) ==> alg.verification(
            encode_utf8(signing_input(w.header(alg.spec_algorithm_name()), payload_part(w.payload))),
            w.signature,
            pk,
        ) == Ok::<bool, crate::error::CryptoError>(true)
}

/// A token issued with a private key, by the DID of one of its public keys,
/// with at least one disclosure, is one that verification accepts.
pub proof fn lemma_issued_token_certified<A: SignatureAlgorithm>(
    w: IssuedToken,
    alg: A,
    context: Seq<Seq<char>>,
    id: Seq<char>,
    types: Seq<Seq<char>>,
    did: Seq<char>,
    private_key: Seq<u8>,
    public_key: Seq<u8>,
    token: Seq<char>,
    disclosures: Seq<Seq<char>>,
)
    requires
        issued_as(w, alg, context, id, types, did, private_key, token, disclosures),
        alg.key_pair(private_key, public_key),
        did == crate::did::did_key_for(alg.spec_multicodec_prefix(), public_key),
        !did.contains('#'),
        disclosures.len() >= 1,
    ensures
        certifies(IssuedToken { public_key, ..w }, alg, token),
{
    let v = IssuedToken { public_key, ..w };
    assert forall|i: int| 0 <= i < v.disclosures.len() implies v.payload.digests.contains(
        disclosure_digest(#[trigger] v.disclosures[i]),
    ) by {
        assert(v.payload.digests[i] == disclosure_digest(v.disclosures[i]));
    }
    assert(v.token(alg.spec_algorithm_name()) == w.token(alg.spec_algorithm_name()));
}

/// Disclosures are Base64 text, so they hold no `~`.
proof fn lemma_disclosures_free_of_tilde(ds: Seq<Seq<char>>, claims: Seq<(Seq<char>, ClaimModel)>)
    requires
        discloses(ds, claims),
    ensures
        pieces_free_of(ds, '~'),
{
    assert forall|i: int| 0 <= i < ds.len() implies !(#[trigger] ds[i]).contains('~') by {
        assert(discloses_claim(ds[i], claims[i]));
        let c = choose|salt: Seq<u8>|
            salt.len() == 16 && ds[i] == #[trigger] encoded_disclosure(salt, claims[i].0, claims[i].1);
        lemma_base64url_has_no_separators(
            encode_utf8(disclosure_text(base64url(c), claims[i].0, claims[i].1)),
        );
    }
}

/// Issues SD-JWT verifiable credentials.
pub struct SdJwtIssuer;

impl SdJwtIssuer {
    /// The disclosure of one claim with the given salt.
    pub fn disclose(salt: &[u8], name: &str, value: &ClaimValue) -> (res: Result<String, SdJwtError>)
        requires
            salt@.len() == 16,
        ensures
            res matches Ok(d) ==> d@ == encoded_disclosure(salt@, name@, value@),
            res matches Err(e) ==> e is TooLarge,
            res is Err <==> oversized(disclosure_text(base64url(salt@), name@, value@)),
    {
        let salt_b64 = base64url_encode(salt);
        let text = match value {
            ClaimValue::Text(t) => text_disclosure_json(salt_b64.as_str(), name, t.as_str()),
            ClaimValue::Flag(b) => flag_disclosure_json(salt_b64.as_str(), name, *b),
            ClaimValue::Json(t) => raw_disclosure_json(salt_b64.as_str(), name, t.as_str()),
        };
        let bytes = text.as_str().as_bytes();
        if bytes.len() > usize::MAX / 2 {
            return Err(SdJwtError::TooLarge);
        }
        Ok(base64url_encode(bytes))
    }

    /// The digest `_sd` lists for a disclosure.
    pub fn digest_of(disclosure: &str) -> (digest: String)
        ensures
            digest@ == disclosure_digest(disclosure@),
            digest@.len() == 43,
    {
        let hash = sha256_digest(disclosure.as_bytes());
        proof {
            crate::encoding::lemma_base64url_len(hash@);
        }
        base64url_encode(hash.as_slice())
    }

    /// Creates disclosures and digests for SD-JWT: a disclosure with a fresh
    /// random salt for each claim, in key order, and the digest of each.
    pub fn create_disclosures_and_digests(subject: &ClaimSet) -> (res: Result<
        (Vec<String>, Vec<String>),
        SdJwtError,
    >)
        ensures
            res matches Ok((disclosures, digests)) ==> discloses(string_views(disclosures@), subject@)
                && string_views(digests@) == digests_of(string_views(disclosures@)),
            res matches Ok((disclosures, digests)) ==> forall|i: int|
                0 <= i < digests@.len() ==> (#[trigger] digests@[i])@.len() == 43,
            res matches Err(e) ==> e is TooLarge && claims_oversized(subject@),
    {
        let entries = subject.entries();
        let n = entries.len();
        let mut disclosures: Vec<String> = Vec::new();
        let mut digests: Vec<String> = Vec::new();
        for i in 0..n
            invariant
                n == entries@.len(),
                subject@ == entries@.map_values(|e: (String, ClaimValue)| entry_view(e)),
                disclosures@.len() == i,
                digests@.len() == i,
                forall|j: int| 0 <= j < i ==> #[trigger] discloses_claim(disclosures@[j]@, subject@[j]),
                forall|j: int| 0 <= j < i ==> (#[trigger] digests@[j])@ == disclosure_digest(disclosures@[j]@),
                forall|j: int| 0 <= j < i ==> (#[trigger] digests@[j])@.len() == 43,
        {
            let salt = random_salt();
            let d = match Self::disclose(salt.as_slice(), entries[i].0.as_str(), &entries[i].1) {
                Ok(d) => d,
                Err(e) => {
                    proof {
                        assert(subject@[i as int] == entry_view(entries@[i as int]));
                        assert(oversized(
                            disclosure_text(base64url(salt@), subject@[i as int].0, subject@[i as int].1),
                        ));
                    }
                    return Err(e);
                },
            };
            let digest = Self::digest_of(d.as_str());
            proof {
                assert(subject@[i as int] == entry_view(entries@[i as int]));
                assert(d@ == encoded_disclosure(salt@, subject@[i as int].0, subject@[i as int].1));
            }
            disclosures.push(d);
            digests.push(digest);
            proof {
                assert(discloses_claim(disclosures@[i as int]@, subject@[i as int]));
            }
        }
        proof {
            assert(string_views(digests@) =~= digests_of(string_views(disclosures@)));
            assert(string_views(disclosures@).len() == subject@.len());
            assert forall|i: int| 0 <= i < string_views(disclosures@).len() implies #[trigger] discloses_claim(
                string_views(disclosures@)[i],
                subject@[i],
            ) by {
                assert(string_views(disclosures@)[i] == disclosures@[i]@);
                assert(discloses_claim(disclosures@[i]@, subject@[i]));
            }
        }
        Ok((disclosures, digests))
    }

    /// Whole seconds since the epoch of an instant in milliseconds, rounded down.
    fn floor_seconds(millis: i64) -> (seconds: i64)
        ensures
            seconds == millis as int / 1000,
    {
        if millis >= 0 {
            millis / 1000
        } else {
            let m = -(millis + 1);
            assert(0 <= m);
            let q = m / 1000;
            assert(millis as int / 1000 == -(q as int) - 1) by (nonlinear_arith)
                requires
                    m == -(millis + 1),
                    q == m as int / 1000,
                    millis < 0,
            ;
            -q - 1
        }
    }

    /// The issue time and expiry, in whole seconds, of a token issued at the
    /// instant `now` (milliseconds since the epoch), and the dates of the two
    /// instants: fails exactly where the expiry overflows or chrono has no
    /// date for one of the instants.
    pub fn issuance_times_at(now: i64) -> (res: Result<(i64, i64, String, String), SdJwtError>)
        ensures
            res is Ok <==> clock_usable(now as int),
            res matches Ok((iat, exp, f, u)) ==> iat == now as int / 1000 && exp == (now
                + validity_millis()) / 1000 && exp == iat + validity_seconds() && Some(f@)
                == spec_format_utc_millis(now as int, millis_date_pattern()) && Some(u@)
                == spec_format_utc_millis(now + validity_millis(), millis_date_pattern()),
            res matches Ok((iat, exp, f, u)) ==> f@.len() <= 32 && u@.len() <= 32,
            res matches Err(e) ==> e is ClockOutOfRange,
    {
        let later = match now.checked_add(157_680_000_000) {
            Some(t) => t,
            None => {
                return Err(SdJwtError::ClockOutOfRange);
            },
        };
        let iat = Self::floor_seconds(now);
        let exp = Self::floor_seconds(later);
        assert(exp == iat + validity_seconds());
        let pattern = "%Y-%m-%dT%H:%M:%S.%3fZ";
        proof {
            reveal_strlit("%Y-%m-%dT%H:%M:%S.%3fZ");
        }
        let valid_from = match format_utc_millis(now, pattern) {
            Some(t) => t,
            None => {
                return Err(SdJwtError::ClockOutOfRange);
            },
        };
        let valid_until = match format_utc_millis(later, pattern) {
            Some(t) => t,
            None => {
                return Err(SdJwtError::ClockOutOfRange);
            },
        };
        Ok((iat, exp, valid_from, valid_until))
    }

    /// Encodes header and payload and signs them: the Base64 parts, and a
    /// signature that the algorithm accepts under every public key of the
    /// private key.
    fn sign_parts<T: SignatureAlgorithm>(
        header: &str,
        payload: &str,
        private_key: &[u8],
        algorithm: &T,
    ) -> (res: Result<(String, String, Vec<u8>), SdJwtError>)
        ensures
            res matches Ok((h, p, sig)) ==> h@ == base64url(encode_utf8(header@)) && p@ == base64url(
                encode_utf8(payload@),
            ) && sig@.len() <= usize::MAX / 2 && forall|pk: Seq<u8>|
                #[trigger] algorithm.key_pair(private_key@, pk) ==> algorithm.verification(
                    encode_utf8(signing_input(h@, p@)),
                    sig@,
                    pk,
                ) == Ok::<bool, crate::error::CryptoError>(true),
            res matches Ok((h, p, sig)) ==> algorithm.signs(
                private_key@,
                encode_utf8(signing_input(h@, p@)),
                sig@,
            ),
            !algorithm.accepts_private_key(private_key@) ==> res is Err,
            res matches Err(e) ==> (e is TooLarge && (oversized(header@) || oversized(payload@)
                || exists|d: Seq<u8>, sig: Seq<u8>|
                #[trigger] algorithm.signs(private_key@, d, sig) && sig.len() > usize::MAX / 2)) || (e
                == SdJwtError::Crypto(CryptoError::InvalidPrivateKey)
                && !algorithm.accepts_private_key(private_key@)),
    {
        let header_bytes = header.as_bytes();
        let payload_bytes = payload.as_bytes();
        if header_bytes.len() > usize::MAX / 2 || payload_bytes.len() > usize::MAX / 2 {
            return Err(SdJwtError::TooLarge);
        }
        let header_b64 = base64url_encode(header_bytes);
        let payload_b64 = base64url_encode(payload_bytes);
        let mut signing = String::new();
        push_str(&mut signing, header_b64.as_str());
        let dot = ".";
        proof {
            reveal_strlit(".");
        }
        push_str(&mut signing, dot);
        push_str(&mut signing, payload_b64.as_str());
        assert(signing@ =~= signing_input(header_b64@, payload_b64@));
        let signature = match algorithm.sign_data(signing.as_str().as_bytes(), private_key) {
            Ok(s) => s,
            Err(e) => {
                return Err(SdJwtError::Crypto(e));
            },
        };
        if signature.len() > usize::MAX / 2 {
            return Err(SdJwtError::TooLarge);
        }
        Ok((header_b64, payload_b64, signature))
    }

    /// Writes `header.payload.signature~d1~d2...`.
    fn assemble(header: &str, payload: &str, signature: &[u8], disclosures: &Vec<String>) -> (jwt: String)
        requires
            signature@.len() <= usize::MAX / 2,
        ensures
            jwt@ == compose_token(header@, payload@, base64url(signature@), string_views(disclosures@)),
    {
        let sig_b64 = base64url_encode(signature);
        let dot = ".";
        let tilde = "~";
        proof {
            reveal_strlit(".");
            reveal_strlit("~");
        }
        let joined = crate::text::join_strings(disclosures, tilde);
        let mut jwt = String::new();
        push_str(&mut jwt, header);
        push_str(&mut jwt, dot);
        push_str(&mut jwt, payload);
        push_str(&mut jwt, dot);
        push_str(&mut jwt, sig_b64.as_str());
        push_str(&mut jwt, tilde);
        push_str(&mut jwt, joined.as_str());
        assert(jwt@ =~= compose_token(header@, payload@, base64url(signature@), string_views(disclosures@)));
        jwt
    }

    /// Issues an SD-JWT VC for the credential: a disclosure per subject claim,
    /// a header naming the algorithm with the issuer's key id, a payload valid
    /// for five years from now listing the disclosures' digests, signed with
    /// the private key. Fails where the algorithm refuses the private key, the
    /// clock reads a time that cannot be written as a date, or the credential
    /// is too large to encode.
    pub fn issue<T: SignatureAlgorithm>(
        unsigned_vc: &UnsignedVC,
        subject: &ClaimSet,
        issuer_did: &str,
        private_key: &[u8],
        algorithm: &T,
    ) -> (res: Result<(String, Vec<String>), SdJwtError>)
        ensures
            res matches Ok((jwt, disclosures)) ==> discloses(string_views(disclosures@), subject@),
            res matches Ok((jwt, disclosures)) ==> exists|w: IssuedToken|
                #[trigger] issued_as(
                    w,
                    *algorithm,
                    string_views(unsigned_vc.context@),
                    unsigned_vc.id@,
                    string_views(unsigned_vc.types@),
                    issuer_did@,
                    private_key@,
                    jwt@,
                    string_views(disclosures@),
                ),
            !algorithm.accepts_private_key(private_key@) ==> res is Err,
            res matches Err(e) ==> (e is TooLarge && issue_oversized(
                *algorithm,
                string_views(unsigned_vc.context@),
                unsigned_vc.id@,
                string_views(unsigned_vc.types@),
                issuer_did@,
                private_key@,
                subject@,
            )) || e is ClockOutOfRange || (e == SdJwtError::Crypto(CryptoError::InvalidPrivateKey)
                && !algorithm.accepts_private_key(private_key@)),
    {
        let now = utc_now_millis();
        Self::issue_at(unsigned_vc, subject, issuer_did, private_key, algorithm, now)
    }

    /// Issues an SD-JWT VC for the credential at the clock reading `now`
    /// (milliseconds since the epoch): its `iat` and `validFrom` are that
    /// instant, its `exp` and `validUntil` five years later. Fails with
    /// `ClockOutOfRange` only where that reading is unusable.
    pub fn issue_at<T: SignatureAlgorithm>(
        unsigned_vc: &UnsignedVC,
        subject: &ClaimSet,
        issuer_did: &str,
        private_key: &[u8],
        algorithm: &T,
        now: i64,
    ) -> (res: Result<(String, Vec<String>), SdJwtError>)
        ensures
            res matches Ok((jwt, disclosures)) ==> discloses(string_views(disclosures@), subject@),
            res matches Ok((jwt, disclosures)) ==> exists|w: IssuedToken|
                #[trigger] issued_as(
                    w,
                    *algorithm,
                    string_views(unsigned_vc.context@),
                    unsigned_vc.id@,
                    string_views(unsigned_vc.types@),
                    issuer_did@,
                    private_key@,
                    jwt@,
                    string_views(disclosures@),
                ),
            !algorithm.accepts_private_key(private_key@) ==> res is Err,
            res matches Err(e) ==> (e is TooLarge && issue_oversized(
                *algorithm,
                string_views(unsigned_vc.context@),
                unsigned_vc.id@,
                string_views(unsigned_vc.types@),
                issuer_did@,
                private_key@,
                subject@,
            )) || e is ClockOutOfRange || (e == SdJwtError::Crypto(CryptoError::InvalidPrivateKey)
                && !algorithm.accepts_private_key(private_key@)),
            res matches Err(e) ==> (e is ClockOutOfRange ==> !clock_usable(now as int)),
            res matches Ok((jwt, disclosures)) ==> exists|w: IssuedToken|
                #[trigger] issued_as(
                    w,
                    *algorithm,
                    string_views(unsigned_vc.context@),
                    unsigned_vc.id@,
                    string_views(unsigned_vc.types@),
                    issuer_did@,
                    private_key@,
                    jwt@,
                    string_views(disclosures@),
                ) && timed_by(w.payload, now as int),
    {
        let (disclosures, digests) = match Self::create_disclosures_and_digests(subject) {
            Ok(r) => r,
            Err(e) => {
                return Err(e);
            },
        };
        let mut kid = String::from_str(issuer_did);
        let fragment = "#keys-1";
        proof {
            reveal_strlit("#keys-1");
        }
        push_str(&mut kid, fragment);
        assert(kid@ =~= key_id(issuer_did@));
        let typ = "vc+sd-jwt";
        proof {
            reveal_strlit("vc+sd-jwt");
            assert(typ@ =~= sd_jwt_type());
        }
        let header = header_json(algorithm.algorithm_name(), typ, kid.as_str());
        let (iat, exp, valid_from, valid_until) = match Self::issuance_times_at(now) {
            Ok(t) => t,
            Err(e) => {
                return Err(e);
            },
        };
        let sha = "sha-256";
        proof {
            reveal_strlit("sha-256");
            assert(sha@ =~= sha_256_name());
        }
        let payload = payload_json(
            sha,
            &unsigned_vc.context,
            &digests,
            exp,
            iat,
            unsigned_vc.id.as_str(),
            issuer_did,
            &unsigned_vc.types,
            valid_from.as_str(),
            valid_until.as_str(),
        );
        let ghost fields = PayloadFields {
            sd_alg: sha_256_name(),
            context: string_views(unsigned_vc.context@),
            digests: string_views(digests@),
            exp: exp as int,
            iat: iat as int,
            id: unsigned_vc.id@,
            iss: issuer_did@,
            types: string_views(unsigned_vc.types@),
            valid_from: valid_from@,
            valid_until: valid_until@,
        };
        let (header_b64, payload_b64, signature) = match Self::sign_parts(
            header.as_str(),
            payload.as_str(),
            private_key,
            algorithm,
        ) {
            Ok(r) => r,
            Err(e) => {
                proof {
                    if e is TooLarge {
                        assert(fields.digests.len() == subject@.len());
                        assert forall|i: int| 0 <= i < fields.digests.len() implies (
                        #[trigger] fields.digests[i]).len() == 43 by {
                            assert(fields.digests[i] == digests@[i]@);
                        }
                        assert(buildable_payload(
                            fields,
                            string_views(unsigned_vc.context@),
                            unsigned_vc.id@,
                            string_views(unsigned_vc.types@),
                            issuer_did@,
                            subject@.len(),
                        ));
                        if oversized(payload@) {
                            assert(oversized(payload_text(fields)));
                        }
                    }
                }
                return Err(e);
            },
        };
        let jwt = Self::assemble(header_b64.as_str(), payload_b64.as_str(), signature.as_slice(), &disclosures);
        proof {
            assert(timed_by(fields, now as int));
            let w = IssuedToken {
                did: issuer_did@,
                public_key: Seq::<u8>::empty(),
                typ: sd_jwt_type(),
                payload: fields,
                signature: signature@,
                disclosures: string_views(disclosures@),
            };
            lemma_disclosures_free_of_tilde(string_views(disclosures@), subject@);
            assert(header_b64@ == w.header(algorithm.spec_algorithm_name()));
            assert(payload_b64@ == payload_part(fields));
            assert(issued_as(
                w,
                *algorithm,
                string_views(unsigned_vc.context@),
                unsigned_vc.id@,
                string_views(unsigned_vc.types@),
                issuer_did@,
                private_key@,
                jwt@,
                string_views(disclosures@),
            ));
            assert(exists|v: IssuedToken| #[trigger] issued_as(
                v,
                *algorithm,
                string_views(unsigned_vc.context@),
                unsigned_vc.id@,
                string_views(unsigned_vc.types@),
                issuer_did@,
                private_key@,
                jwt@,
                string_views(disclosures@),
            ));
        }
        let res = Ok((jwt, disclosures));
        assert(res matches Ok((j, d)) && j@ == jwt@ && string_views(d@) == string_views(disclosures@));
        res
    }
}

} // verus!
