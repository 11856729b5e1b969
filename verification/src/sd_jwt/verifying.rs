//! Verifying SD-JWT verifiable credentials.
use vstd::prelude::*;
use vstd::utf8::encode_utf8;
use vstd::string::StringExecFns;
use crate::encoding::{base64url, base64url_decoded, base64url_encode, decode_base64url, sha256_digest};
use crate::error::{SdJwtError, SdJwtErrorModel, result_model};
use crate::json::{opt_views, parse_header_claims, parse_payload_claims, spec_json_header_claims,
    spec_json_payload_claims, PayloadClaims, HeaderClaims, header_text, payload_text, PayloadFields,
    all_present, payload_in_range};
use crate::sd_jwt::{disclosure_digest, sha_256_name, header_part, payload_part, key_id, IssuedToken,
    signing_input, lemma_token_layout, lemma_token_jwt};
use crate::wallet::{SignatureAlgorithm, DidKeyResolver, resolve_did_key};
use crate::encoding::lemma_base64url_has_no_separators;
use crate::text::{split_char, split_on, str_views};

verus! {

/// What a JWT payload tells verification: `iss`, `_sd_alg`, `credentialSubject._sd`.
pub type PayloadModel = (Option<Seq<char>>, Option<Seq<char>>, Option<Seq<Option<Seq<char>>>>);

/// The `.`-separated parts of the text before the first `~`, and the
/// `~`-separated parts of the token, where there are three of the former.
pub open spec fn jwt_layout(token: Seq<char>) -> Result<(Seq<Seq<char>>, Seq<Seq<char>>), SdJwtErrorModel> {
    let parts = split_on(token, '~');
    let jwt_parts = split_on(parts[0], '.');
    if jwt_parts.len() == 3 {
        Ok((jwt_parts, parts))
    } else {
        Err(SdJwtErrorModel::InvalidJwtFormat)
    }
}

/// What `verify_jwt_structure` finds in a header and payload part: the
/// payload's claims and the issuer DID, or the first check that fails.
pub open spec fn structure_outcome(header: Seq<char>, payload: Seq<char>, alg: Seq<char>) -> Result<
    (PayloadModel, Seq<char>),
    SdJwtErrorModel,
> {
    match base64url_decoded(header) {
        None => Err(SdJwtErrorModel::HeaderDecode),
        Some(header_bytes) => match spec_json_header_claims(header_bytes) {
            None => Err(SdJwtErrorModel::HeaderParse),
            Some((header_alg, kid)) => if header_alg != Some(alg) {
                Err(SdJwtErrorModel::UnsupportedAlgorithm)
            } else {
                match kid {
                    None => Err(SdJwtErrorModel::MissingKid),
                    Some(kid) => {
                        let did = split_on(kid, '#')[0];
                        match base64url_decoded(payload) {
                            None => Err(SdJwtErrorModel::PayloadDecode),
                            Some(payload_bytes) => match spec_json_payload_claims(payload_bytes) {
                                None => Err(SdJwtErrorModel::PayloadParse),
                                Some(claims) => if claims.0 != Some(did) {
                                    Err(SdJwtErrorModel::IssuerMismatch)
                                } else {
                                    Ok((claims, did))
                                },
                            },
                        }
                    },
                }
            },
        },
    }
}

/// The digest of the first disclosure from `parts[i]` on that `sd` does not list.
pub open spec fn first_unlisted_digest(parts: Seq<Seq<char>>, sd: Seq<Option<Seq<char>>>, i: int) -> Option<
    Seq<char>,
>
    decreases parts.len() - i,
{
    if i < 0 || i >= parts.len() {
        None
    } else if !sd.contains(Some(disclosure_digest(parts[i]))) {
        Some(disclosure_digest(parts[i]))
    } else {
        first_unlisted_digest(parts, sd, i + 1)
    }
}

/// What `verify_disclosures` answers for the `~`-parts of a token.
pub open spec fn disclosures_outcome(parts: Seq<Seq<char>>, payload: PayloadModel) -> Result<
    bool,
    SdJwtErrorModel,
> {
    if parts.len() <= 1 {
        Ok(true)
    } else {
        match payload.1 {
            None => Err(SdJwtErrorModel::MissingSdAlg),
            Some(sd_alg) => if sd_alg != sha_256_name() {
                Err(SdJwtErrorModel::UnsupportedSdAlg(sd_alg))
            } else {
                match payload.2 {
                    None => Err(SdJwtErrorModel::InvalidSdFormat),
                    Some(sd) => match first_unlisted_digest(parts, sd, 1) {
                        Some(d) => Err(SdJwtErrorModel::DigestNotFound(d)),
                        None => Ok(true),
                    },
                }
            },
        }
    }
}

proof fn lemma_first_unlisted_none(parts: Seq<Seq<char>>, sd: Seq<Option<Seq<char>>>, i: int)
    requires
        0 <= i,
        forall|j: int| i <= j < parts.len() ==> sd.contains(Some(disclosure_digest(#[trigger] parts[j]))),
    ensures
        first_unlisted_digest(parts, sd, i) is None,
    decreases parts.len() - i,
{
    if i < parts.len() {
        assert(sd.contains(Some(disclosure_digest(parts[i]))));
        lemma_first_unlisted_none(parts, sd, i + 1);
    }
}

/// Text that is Base64 of some bytes decodes to exactly those bytes.
pub proof fn lemma_base64url_decoded_roundtrip(d: Seq<u8>)
    ensures
        base64url_decoded(base64url(d)) == Some(d),
{
    let t = base64url(d);
    assert(exists|x: Seq<u8>| #[trigger] base64url(x) == t);
    let c = choose|x: Seq<u8>| #[trigger] base64url(x) == t;
    crate::encoding::lemma_base64url_injective(c, d);
}

/// The DID in front of a key identifier.
proof fn lemma_key_id_did(did: Seq<char>)
    requires
        !did.contains('#'),
    ensures
        split_on(key_id(did), '#')[0] == did,
{
    let tail = seq!['k', 'e', 'y', 's', '-', '1'];
    assert(key_id(did) =~= did + seq!['#'] + tail);
    crate::text::lemma_split_after_first(did, tail, '#');
}

proof fn lemma_first_unlisted_prefix(parts: Seq<Seq<char>>, sd: Seq<Option<Seq<char>>>, i: int)
    requires
        1 <= i < parts.len(),
        forall|j: int| 1 <= j < i ==> sd.contains(Some(disclosure_digest(#[trigger] parts[j]))),
        !sd.contains(Some(disclosure_digest(parts[i]))),
    ensures
        first_unlisted_digest(parts, sd, 1) == Some(disclosure_digest(parts[i])),
    decreases i,
{
    if i > 1 {
        lemma_first_unlisted_shift(parts, sd, 1, i);
    }
}

proof fn lemma_first_unlisted_shift(parts: Seq<Seq<char>>, sd: Seq<Option<Seq<char>>>, k: int, i: int)
    requires
        1 <= k <= i < parts.len(),
        forall|j: int| 1 <= j < i ==> sd.contains(Some(disclosure_digest(#[trigger] parts[j]))),
        !sd.contains(Some(disclosure_digest(parts[i]))),
    ensures
        first_unlisted_digest(parts, sd, k) == Some(disclosure_digest(parts[i])),
    decreases i - k,
{
    if k < i {
        assert(sd.contains(Some(disclosure_digest(parts[k]))));
        lemma_first_unlisted_shift(parts, sd, k + 1, i);
    }
}

/// What the signature check of `verify` answers for the three JWT parts:
/// whether the signature is valid, and the payload's claims.
pub open spec fn signature_outcome<A: SignatureAlgorithm>(
    alg: A,
    header: Seq<char>,
    payload: Seq<char>,
    signature: Seq<char>,
) -> Result<(bool, PayloadModel), SdJwtErrorModel> {
    match structure_outcome(header, payload, alg.spec_algorithm_name()) {
        Err(e) => Err(e),
        Ok((claims, did)) => match base64url_decoded(signature) {
            None => Err(SdJwtErrorModel::SignatureDecode),
            Some(signature) => match resolve_did_key(did, alg.spec_multicodec_prefix()) {
                Err(e) => Err(SdJwtErrorModel::Did(e)),
                Ok(public_key) => match alg.verification(
                    encode_utf8(signing_input(header, payload)),
                    signature,
                    public_key,
                ) {
                    Err(e) => Err(SdJwtErrorModel::Crypto(e)),
                    Ok(valid) => Ok((valid, claims)),
                },
            },
        },
    }
}

/// What `verify` answers for a token.
pub open spec fn verification_outcome<A: SignatureAlgorithm>(alg: A, token: Seq<char>) -> Result<
    bool,
    SdJwtErrorModel,
> {
    match jwt_layout(token) {
        Err(e) => Err(e),
        Ok((jwt_parts, parts)) => match signature_outcome(alg, jwt_parts[0], jwt_parts[1], jwt_parts[2]) {
            Err(e) => Err(e),
            Ok((valid, claims)) => if parts.len() > 1 {
                match disclosures_outcome(parts, claims) {
                    Err(e) => Err(e),
                    Ok(listed) => if listed {
                        Ok(valid)
                    } else {
                        Ok(false)
                    },
                }
            } else {
                Ok(valid)
            },
        },
    }
}

/// `w` describes `token` as issued for `alg`, with a signature the algorithm
/// accepts under the issuer's public key.
pub open spec fn certifies<A: SignatureAlgorithm>(w: IssuedToken, alg: A, token: Seq<char>) -> bool {
    &&& w.well_formed(alg.spec_multicodec_prefix())
    &&& w.token(alg.spec_algorithm_name()) == token
    &&& alg.verification(
        encode_utf8(signing_input(w.header(alg.spec_algorithm_name()), payload_part(w.payload))),
        w.signature,
        w.public_key,
    ) == Ok::<bool, crate::error::CryptoError>(true)
}

/// A holder may withhold disclosures or reorder them: a token that
/// verification accepts stays accepted when presented with any non-empty
/// selection of its disclosures, in any order, repeats allowed.
pub proof fn lemma_presentation_certified<A: SignatureAlgorithm>(
    w: IssuedToken,
    alg: A,
    token: Seq<char>,
    shown: Seq<Seq<char>>,
)
    requires
        certifies(w, alg, token),
        shown.len() >= 1,
        forall|i: int| 0 <= i < shown.len() ==> w.disclosures.contains(#[trigger] shown[i]),
    ensures
        certifies(
            IssuedToken { disclosures: shown, ..w },
            alg,
            IssuedToken { disclosures: shown, ..w }.token(alg.spec_algorithm_name()),
        ),
{
    let v = IssuedToken { disclosures: shown, ..w };
    assert forall|i: int| 0 <= i < shown.len() implies !(#[trigger] shown[i]).contains('~')
        && w.payload.digests.contains(disclosure_digest(shown[i])) by {
        let j = choose|j: int| 0 <= j < w.disclosures.len() && w.disclosures[j] == shown[i];
        assert(!w.disclosures[j].contains('~'));
        assert(w.payload.digests.contains(disclosure_digest(w.disclosures[j])));
    }
    assert(v.well_formed(alg.spec_multicodec_prefix()));
}

/// A token that verification accepts is signed: its JWT has three parts, its
/// header and payload name the algorithm and an issuer DID, its signature part
/// decodes to a signature, the DID gives a public key of the algorithm, and the
/// algorithm accepts the signature over `header.payload` under that key.
pub proof fn lemma_accepted_token_signed<A: SignatureAlgorithm>(alg: A, token: Seq<char>)
    requires
        verification_outcome(alg, token) == Ok::<bool, SdJwtErrorModel>(true),
    ensures
        jwt_layout(token) matches Ok((jp, _ps)) && structure_outcome(
            jp[0],
            jp[1],
            alg.spec_algorithm_name(),
        ) matches Ok((_claims, did)) && base64url_decoded(jp[2]) matches Some(signature)
            && resolve_did_key(did, alg.spec_multicodec_prefix()) matches Ok(public_key)
            && alg.verification(encode_utf8(signing_input(jp[0], jp[1])), signature, public_key) == Ok::<
            bool,
            crate::error::CryptoError,
        >(true),
{
}

/// Withholding every disclosure: where verification accepts a token, it
/// accepts the token's JWT alone, with no `~` part.
pub proof fn lemma_bare_presentation_accepted<A: SignatureAlgorithm>(w: IssuedToken, alg: A)
    requires
        verification_outcome(alg, w.token(alg.spec_algorithm_name())) == Ok::<bool, SdJwtErrorModel>(
            true,
        ),
    ensures
        verification_outcome(
            alg,
            w.header(alg.spec_algorithm_name()) + seq!['.'] + payload_part(w.payload) + seq!['.']
                + base64url(w.signature),
        ) == Ok::<bool, SdJwtErrorModel>(true),
{
    let name = alg.spec_algorithm_name();
    let h = w.header(name);
    let p = payload_part(w.payload);
    let s = base64url(w.signature);
    lemma_base64url_has_no_separators(encode_utf8(crate::json::header_text(name, w.typ, key_id(w.did))));
    lemma_base64url_has_no_separators(encode_utf8(payload_text(w.payload)));
    lemma_base64url_has_no_separators(w.signature);
    lemma_token_jwt(h, p, s, w.disclosures);
    let jws = h + seq!['.'] + p + seq!['.'] + s;
    crate::text::lemma_split_without_sep(jws, '~');
    crate::text::lemma_split_nonempty(w.token(name), '~');
}

impl SdJwtVerifier {
    /// Parses a JWT token into its components: the three `.`-separated parts
    /// before the first `~`, and all `~`-separated parts.
    pub fn parse_jwt<'a>(token: &'a str) -> (res: Result<(Vec<&'a str>, Vec<&'a str>), SdJwtError>)
        ensures
            result_model(res) matches Ok((jwt_parts, parts)) ==> jwt_layout(token@) == Ok::<
                (Seq<Seq<char>>, Seq<Seq<char>>),
                SdJwtErrorModel,
            >((str_views(jwt_parts@), str_views(parts@))),
            res is Err ==> jwt_layout(token@) == Err::<(Seq<Seq<char>>, Seq<Seq<char>>), SdJwtErrorModel>(
                SdJwtErrorModel::InvalidJwtFormat,
            ) && result_model(res) == Err::<(Vec<&'a str>, Vec<&'a str>), SdJwtErrorModel>(
                SdJwtErrorModel::InvalidJwtFormat,
            ),
    {
        let parts = split_char(token, '~');
        proof {
            crate::text::lemma_split_nonempty(token@, '~');
        }
        let jwt_parts = split_char(parts[0], '.');
        if jwt_parts.len() != 3 {
            return Err(SdJwtError::InvalidJwtFormat);
        }
        Ok((jwt_parts, parts))
    }

    /// Verifies the JWT structure: the header names `expected_alg` and a key
    /// id, and the payload's `iss` is the DID in front of the key id's `#`.
    /// A header and payload written for a `#`-free DID are accepted.
    pub fn verify_jwt_structure(jwt_parts: &[&str], expected_alg: &str) -> (res: Result<
        (HeaderClaims, PayloadClaims, String),
        SdJwtError,
    >)
        requires
            jwt_parts@.len() >= 2,
        ensures
            res matches Ok((header, payload, did)) ==> structure_outcome(
                jwt_parts@[0]@,
                jwt_parts@[1]@,
                expected_alg@,
            ) == Ok::<(PayloadModel, Seq<char>), SdJwtErrorModel>((payload.model(), did@))
                && header.model().0 == Some(expected_alg@),
            res matches Err(e) ==> structure_outcome(jwt_parts@[0]@, jwt_parts@[1]@, expected_alg@)
                == Err::<(PayloadModel, Seq<char>), SdJwtErrorModel>(e@),
            forall|typ: Seq<char>, did: Seq<char>, f: PayloadFields|
                #![trigger header_part(expected_alg@, typ, did), payload_part(f)]
                jwt_parts@[0]@ == header_part(expected_alg@, typ, did) && jwt_parts@[1]@
                    == payload_part(f) && !did.contains('#') && f.iss == did && payload_in_range(f)
                    ==> res is Ok
                    && res.unwrap().2@ == did && res.unwrap().1.model() == (
                    Some(did),
                    Some(f.sd_alg),
                    Some(all_present(f.digests)),
                ),
            forall|a: Seq<char>, typ: Seq<char>, did: Seq<char>|
                #[trigger] header_part(a, typ, did) == jwt_parts@[0]@ && a != expected_alg@ ==> (res is Err
                    && res->Err_0 is UnsupportedAlgorithm),
    {
        let ghost h = jwt_parts@[0]@;
        let ghost p = jwt_parts@[1]@;
        let header_bytes = match decode_base64url(jwt_parts[0]) {
            Some(b) => b,
            None => {
                proof {
                    assert forall|a: Seq<char>, typ: Seq<char>, did: Seq<char>| #[trigger] header_part(
                        a,
                        typ,
                        did,
                    ) != h by {
                        if header_part(a, typ, did) == h {
                            lemma_base64url_decoded_roundtrip(encode_utf8(header_text(a, typ, key_id(did))));
                        }
                    }
                }
                return Err(SdJwtError::HeaderDecode);
            },
        };
        proof {
            assert forall|a: Seq<char>, typ: Seq<char>, did: Seq<char>|
                #[trigger] header_part(a, typ, did) == h implies header_bytes@ == encode_utf8(
                    header_text(a, typ, key_id(did)),
                ) by {
                lemma_base64url_decoded_roundtrip(encode_utf8(header_text(a, typ, key_id(did))));
            }
        }
        let header = match parse_header_claims(header_bytes.as_slice()) {
            Some(c) => c,
            None => {
                return Err(SdJwtError::HeaderParse);
            },
        };
        let expected = String::from_str(expected_alg);
        let alg_ok = match &header.alg {
            Some(a) => *a == expected,
            None => false,
        };
        if !alg_ok {
            return Err(SdJwtError::UnsupportedAlgorithm);
        }
        let kid = match &header.kid {
            Some(k) => k,
            None => {
                return Err(SdJwtError::MissingKid);
            },
        };
        let kid_pieces = split_char(kid.as_str(), '#');
        proof {
            crate::text::lemma_split_nonempty(kid@, '#');
        }
        let did = kid_pieces[0].to_owned();
        proof {
            assert forall|typ: Seq<char>, d: Seq<char>|
                #[trigger] header_part(expected_alg@, typ, d) == h && !d.contains('#') implies did@
                == d by {
                lemma_key_id_did(d);
            }
        }
        let payload_bytes = match decode_base64url(jwt_parts[1]) {
            Some(b) => b,
            None => {
                proof {
                    assert forall|f: PayloadFields| #[trigger] payload_part(f) != p by {
                        if payload_part(f) == p {
                            lemma_base64url_decoded_roundtrip(encode_utf8(payload_text(f)));
                        }
                    }
                }
                return Err(SdJwtError::PayloadDecode);
            },
        };
        proof {
            assert forall|f: PayloadFields| #[trigger] payload_part(f) == p implies payload_bytes@
                == encode_utf8(payload_text(f)) by {
                lemma_base64url_decoded_roundtrip(encode_utf8(payload_text(f)));
            }
        }
        let payload = match parse_payload_claims(payload_bytes.as_slice()) {
            Some(c) => c,
            None => {
                return Err(SdJwtError::PayloadParse);
            },
        };
        let iss_ok = match &payload.iss {
            Some(i) => *i == did,
            None => false,
        };
        if !iss_ok {
            return Err(SdJwtError::IssuerMismatch);
        }
        Ok((header, payload, did))
    }

    /// Verifies the disclosures after the first `~`-part: `_sd_alg` must be
    /// `sha-256`, and the digest of each disclosure must be listed in
    /// `credentialSubject._sd`; with no disclosures there is nothing to check.
    pub fn verify_disclosures(parts: &[&str], payload: &PayloadClaims) -> (res: Result<bool, SdJwtError>)
        ensures
            result_model(res) == disclosures_outcome(str_views(parts@), payload.model()),
    {
        let ghost views = str_views(parts@);
        if parts.len() <= 1 {
            return Ok(true);
        }
        let sd_alg = match &payload.sd_alg {
            Some(a) => a,
            None => {
                return Err(SdJwtError::MissingSdAlg);
            },
        };
        let sha = "sha-256";
        proof {
            reveal_strlit("sha-256");
            assert(sha@ =~= sha_256_name());
        }
        if *sd_alg != String::from_str(sha) {
            return Err(SdJwtError::UnsupportedSdAlg(sd_alg.clone()));
        }
        let sd = match &payload.sd_digests {
            Some(v) => v,
            None => {
                return Err(SdJwtError::InvalidSdFormat);
            },
        };
        let ghost listed = opt_views(sd@);
        let n = parts.len();
        let mut i: usize = 1;
        while i < n
            invariant
                1 <= i <= n,
                n == parts@.len(),
                views == str_views(parts@),
                listed == opt_views(sd@),
                payload.model().2 == Some(listed),
                payload.model().1 == Some(sha_256_name()),
                forall|j: int| 1 <= j < i ==> listed.contains(Some(disclosure_digest(#[trigger] views[j]))),
            decreases n - i,
        {
            let hash = sha256_digest(parts[i].as_bytes());
            let digest = base64url_encode(hash.as_slice());
            assert(digest@ == disclosure_digest(views[i as int]));
            let mut found = false;
            let m = sd.len();
            let mut j: usize = 0;
            while j < m && !found
                invariant
                    0 <= j <= m,
                    m == sd@.len(),
                    listed == opt_views(sd@),
                    found ==> listed.contains(Some(digest@)),
                    !found ==> forall|k: int| 0 <= k < j ==> listed[k] != Some(digest@),
                decreases m - j + (if found { 0int } else { 1int }),
            {
                match &sd[j] {
                    Some(entry) => {
                        if *entry == digest {
                            assert(listed[j as int] == Some(digest@));
                            found = true;
                        }
                    },
                    None => {},
                }
                j = j + 1;
            }
            if !found {
                proof {
                    assert(!listed.contains(Some(digest@)));
                    lemma_first_unlisted_prefix(views, listed, i as int);
                }
                return Err(SdJwtError::DigestNotFound(digest));
            }
            i = i + 1;
        }
        proof {
            lemma_first_unlisted_none(views, listed, 1);
        }
        Ok(true)
    }

    /// Checks the header and payload parts and the signature part of a token.
    fn check_signature<T: SignatureAlgorithm>(jwt_parts: &[&str], algorithm: &T) -> (res: Result<
        (bool, PayloadClaims),
        SdJwtError,
    >)
        requires
            jwt_parts@.len() == 3,
        ensures
            res matches Ok((valid, claims)) ==> signature_outcome(
                *algorithm,
                jwt_parts@[0]@,
                jwt_parts@[1]@,
                jwt_parts@[2]@,
            ) == Ok::<(bool, PayloadModel), SdJwtErrorModel>((valid, claims.model())),
            res matches Err(e) ==> signature_outcome(
                *algorithm,
                jwt_parts@[0]@,
                jwt_parts@[1]@,
                jwt_parts@[2]@,
            ) == Err::<(bool, PayloadModel), SdJwtErrorModel>(e@),
            forall|w: IssuedToken|
                #![trigger w.header(algorithm.spec_algorithm_name()), payload_part(w.payload), base64url(w.signature)]
                w.well_formed(algorithm.spec_multicodec_prefix()) && jwt_parts@[0]@ == w.header(
                    algorithm.spec_algorithm_name(),
                ) && jwt_parts@[1]@ == payload_part(w.payload) && jwt_parts@[2]@ == base64url(
                    w.signature,
                ) && algorithm.verification(
                    encode_utf8(signing_input(jwt_parts@[0]@, jwt_parts@[1]@)),
                    w.signature,
                    w.public_key,
                ) == Ok::<bool, crate::error::CryptoError>(true) ==> res is Ok && res.unwrap().0
                    && res.unwrap().1.model() == (
                    Some(w.did),
                    Some(sha_256_name()),
                    Some(all_present(w.payload.digests)),
                ),
            forall|a: Seq<char>, typ: Seq<char>, did: Seq<char>|
                #[trigger] header_part(a, typ, did) == jwt_parts@[0]@ && a != algorithm.spec_algorithm_name()
                    ==> (res is Err && res->Err_0 is UnsupportedAlgorithm),
    {
        let ghost name = algorithm.spec_algorithm_name();
        let ghost code = algorithm.spec_multicodec_prefix();
        let alg_name = algorithm.algorithm_name();
        let (_header, payload, did) = match Self::verify_jwt_structure(jwt_parts, alg_name) {
            Ok(r) => r,
            Err(e) => {
                return Err(e);
            },
        };
        let signature = match decode_base64url(jwt_parts[2]) {
            Some(sig) => sig,
            None => {
                proof {
                    assert forall|w: IssuedToken| base64url(w.signature) != jwt_parts@[2]@ by {
                        lemma_base64url_decoded_roundtrip(w.signature);
                    }
                }
                return Err(SdJwtError::SignatureDecode);
            },
        };
        proof {
            assert forall|w: IssuedToken| base64url(w.signature) == jwt_parts@[2]@ implies signature@
                == w.signature by {
                lemma_base64url_decoded_roundtrip(w.signature);
            }
        }
        let code = algorithm.multicodec_prefix();
        let public_key = match DidKeyResolver::extract_pubkey_from_did(did.as_str(), code) {
            Ok(k) => k,
            Err(e) => {
                return Err(SdJwtError::Did(e));
            },
        };
        let mut message = String::new();
        crate::text::push_str(&mut message, jwt_parts[0]);
        let dot = ".";
        proof {
            reveal_strlit(".");
        }
        crate::text::push_str(&mut message, dot);
        crate::text::push_str(&mut message, jwt_parts[1]);
        assert(message@ =~= signing_input(jwt_parts@[0]@, jwt_parts@[1]@));
        let valid = match algorithm.verify_signature(
            message.as_str().as_bytes(),
            signature.as_slice(),
            public_key.as_slice(),
        ) {
            Ok(v) => v,
            Err(e) => {
                return Err(SdJwtError::Crypto(e));
            },
        };
        Ok((valid, payload))
    }

    /// Verifies an SD-JWT: its structure, its signature under the public key
    /// of the issuer DID, and its disclosures. A token that `SdJwtIssuer::issue`
    /// wrote with the private key of that DID is accepted; one whose header
    /// names another algorithm is refused as unsupported.
    #[verifier::spinoff_prover]
    #[verifier::rlimit(100)]
    pub fn verify<T: SignatureAlgorithm>(token: &str, algorithm: &T) -> (res: Result<bool, SdJwtError>)
        ensures
            result_model(res) == verification_outcome(*algorithm, token@),
            forall|w: IssuedToken|
                #[trigger] certifies(w, *algorithm, token@) ==> result_model(res) == Ok::<
                    bool,
                    SdJwtErrorModel,
                >(true),
            forall|w: IssuedToken, a: Seq<char>|
                #[trigger] w.token(a) == token@ && a != algorithm.spec_algorithm_name() ==> result_model(res)
                    == Err::<bool, SdJwtErrorModel>(SdJwtErrorModel::UnsupportedAlgorithm),
    {
        let ghost name = algorithm.spec_algorithm_name();
        let ghost other: Option<(IssuedToken, Seq<char>)> = if exists|w: IssuedToken, a: Seq<char>|
            #[trigger] w.token(a) == token@ && a != name {
            Some(choose|w: IssuedToken, a: Seq<char>| #[trigger] w.token(a) == token@ && a != name)
        } else {
            None
        };
        proof {
            if other is Some {
                Self::lemma_token_header(other.unwrap().0, other.unwrap().1);
            }
        }
        let ghost wit: Option<IssuedToken> = if exists|w: IssuedToken| #[trigger] certifies(w, *algorithm, token@) {
            Some(choose|w: IssuedToken| #[trigger] certifies(w, *algorithm, token@))
        } else {
            None
        };
        let ghost h = if wit is Some { wit.unwrap().header(name) } else { Seq::<char>::empty() };
        let ghost p = if wit is Some { payload_part(wit.unwrap().payload) } else { Seq::<char>::empty() };
        let ghost s = if wit is Some { base64url(wit.unwrap().signature) } else { Seq::<char>::empty() };
        proof {
            if wit is Some {
                let w = wit.unwrap();
                lemma_base64url_has_no_separators(encode_utf8(crate::json::header_text(name, w.typ, key_id(w.did))));
                lemma_base64url_has_no_separators(encode_utf8(payload_text(w.payload)));
                lemma_base64url_has_no_separators(w.signature);
                lemma_token_layout(h, p, s, w.disclosures);
            }
        }
        let (jwt_parts, parts) = match Self::parse_jwt(token) {
            Ok(r) => r,
            Err(e) => {
                return Err(e);
            },
        };
        proof {
            if wit is Some {
                assert(str_views(jwt_parts@)[0] == h);
                assert(str_views(jwt_parts@)[1] == p);
                assert(str_views(jwt_parts@)[2] == s);
                assert(jwt_parts@[0]@ == h);
                assert(jwt_parts@[1]@ == p);
                assert(jwt_parts@[2]@ == s);
            }
            if other is Some {
                assert(jwt_parts@[0]@ == str_views(jwt_parts@)[0]);
            }
        }
        let (valid, payload) = match Self::check_signature(jwt_parts.as_slice(), algorithm) {
            Ok(r) => r,
            Err(e) => {
                return Err(e);
            },
        };
        if parts.len() > 1 {
            let listed = match Self::verify_disclosures(parts.as_slice(), &payload) {
                Ok(b) => b,
                Err(e) => {
                    proof {
                        if wit is Some {
                            Self::lemma_issued_disclosures_listed(wit.unwrap(), str_views(parts@), h + seq!['.'] + p + seq!['.'] + s);
                        }
                    }
                    return Err(e);
                },
            };
            if !listed {
                proof {
                    if wit is Some {
                        Self::lemma_issued_disclosures_listed(wit.unwrap(), str_views(parts@), h + seq!['.'] + p + seq!['.'] + s);
                    }
                }
                return Ok(false);
            }
        }
        Ok(valid)
    }

    /// The first JWT part of a token is its header.
    proof fn lemma_token_header(w: IssuedToken, a: Seq<char>)
        ensures
            jwt_layout(w.token(a)) matches Ok((jwt_parts, _parts)) && jwt_parts[0] == header_part(
                a,
                w.typ,
                w.did,
            ),
    {
        lemma_base64url_has_no_separators(encode_utf8(crate::json::header_text(a, w.typ, key_id(w.did))));
        lemma_base64url_has_no_separators(encode_utf8(payload_text(w.payload)));
        lemma_base64url_has_no_separators(w.signature);
        lemma_token_jwt(w.header(a), payload_part(w.payload), base64url(w.signature), w.disclosures);
    }

    /// The disclosures of an issued token are all listed in its payload.
    proof fn lemma_issued_disclosures_listed(w: IssuedToken, parts: Seq<Seq<char>>, s: Seq<char>)
        requires
            w.disclosures.len() >= 1,
            forall|i: int|
                0 <= i < w.disclosures.len() ==> w.payload.digests.contains(
                    disclosure_digest(#[trigger] w.disclosures[i]),
                ),
            parts == seq![s] + w.disclosures,
        ensures
            disclosures_outcome(
                parts,
                (Some(w.payload.iss), Some(sha_256_name()), Some(all_present(w.payload.digests))),
            ) == Ok::<bool, SdJwtErrorModel>(true),
    {
        let listed = all_present(w.payload.digests);
        assert forall|j: int| 1 <= j < parts.len() implies listed.contains(
            Some(disclosure_digest(#[trigger] parts[j])),
        ) by {
            assert(parts[j] == w.disclosures[j - 1]);
            let x = disclosure_digest(w.disclosures[j - 1]);
            assert(w.payload.digests.contains(x));
            let k = choose|k: int| 0 <= k < w.payload.digests.len() && w.payload.digests[k] == x;
            assert(listed[k] == Some(x));
        }
        lemma_first_unlisted_none(parts, listed, 1);
    }
}

/// Verifies SD-JWT verifiable credentials.
pub struct SdJwtVerifier;

} // verus!
