//! Bounds on the sizes of the texts an issuance builds: issuing inputs of
//! moderate size never build a piece too large to encode.
use vstd::prelude::*;
use vstd::utf8::encode_utf8;
use crate::claims::ClaimModel;
use crate::encoding::{base64url, lemma_base64url_len};
use crate::json::{
    decimal_digits, decimal_text, header_text, json_escape, json_escaped, json_string_array,
    payload_text, spec_json_string, PayloadFields,
};
use crate::sd_jwt::issuer::{buildable_payload, disclosure_text, issue_oversized, oversized};
use crate::sd_jwt::{key_id, sd_jwt_type};
use crate::text::join_on;
use crate::wallet::SignatureAlgorithm;

verus! {

/// The most pieces, and the most characters in a piece, that the bounds here
/// cover.
pub open spec fn small_bound() -> int {
    1024
}

/// The characters of a claim value's JSON text, before escaping.
pub open spec fn claim_text_len(value: ClaimModel) -> int {
    match value {
        ClaimModel::Text(t) => t.len() as int,
        ClaimModel::Flag(_) => 5,
        ClaimModel::Json(t) => t.len() as int,
    }
}

/// Ten to the `k`.
pub open spec fn pow10(k: nat) -> nat
    decreases k,
{
    if k == 0 {
        1
    } else {
        10 * pow10((k - 1) as nat)
    }
}

proof fn lemma_utf8_len(s: Seq<char>)
    ensures
        encode_utf8(s).len() <= 4 * s.len(),
    decreases s.len(),
{
    if s.len() > 0 {
        lemma_utf8_len(s.drop_first());
    }
}

/// Text of at most 2^28 characters is not oversized.
proof fn lemma_not_oversized(t: Seq<char>)
    requires
        t.len() <= 0x1000_0000,
    ensures
        !oversized(t),
{
    lemma_utf8_len(t);
}

proof fn lemma_json_escaped_len(s: Seq<char>)
    ensures
        json_escaped(s).len() <= 6 * s.len(),
    decreases s.len(),
{
    if s.len() > 0 {
        lemma_json_escaped_len(s.drop_last());
        assert(json_escape(s.last()).len() <= 6);
    }
}

proof fn lemma_json_string_len(s: Seq<char>)
    ensures
        spec_json_string(s).len() <= 6 * s.len() + 2,
{
    lemma_json_escaped_len(s);
}

proof fn lemma_join_len(ps: Seq<Seq<char>>, sep: char, m: int)
    requires
        0 <= m,
        forall|i: int| 0 <= i < ps.len() ==> (#[trigger] ps[i]).len() <= m,
    ensures
        join_on(ps, sep).len() <= ps.len() * (m + 1),
    decreases ps.len(),
{
    if ps.len() > 1 {
        assert forall|i: int| 0 <= i < ps.drop_first().len() implies (
        #[trigger] ps.drop_first()[i]).len() <= m by {
            assert(ps.drop_first()[i] == ps[i + 1]);
        }
        lemma_join_len(ps.drop_first(), sep, m);
        assert(ps[0].len() <= m);
        assert((ps.len() - 1) * (m + 1) + m + 1 == ps.len() * (m + 1)) by (nonlinear_arith);
    }
}

/// The JSON array of at most `small_bound()` strings of at most `m` characters.
proof fn lemma_json_array_len(items: Seq<Seq<char>>, m: int)
    requires
        0 <= m <= small_bound(),
        items.len() <= small_bound(),
        forall|i: int| 0 <= i < items.len() ==> (#[trigger] items[i]).len() <= m,
    ensures
        json_string_array(items).len() <= 2 + 1024 * (6 * 1024 + 3),
{
    reveal_strlit("[");
    reveal_strlit("]");
    let quoted = items.map_values(|s: Seq<char>| spec_json_string(s));
    assert forall|i: int| 0 <= i < quoted.len() implies (#[trigger] quoted[i]).len() <= 6 * m + 2 by {
        lemma_json_string_len(items[i]);
    }
    lemma_join_len(quoted, ',', 6 * m + 2);
    assert(quoted.len() * (6 * m + 3) <= 1024 * (6 * 1024 + 3)) by (nonlinear_arith)
        requires
            quoted.len() <= 1024,
            0 <= m <= 1024,
    ;
}

proof fn lemma_digits_len(n: nat, k: nat)
    requires
        n < pow10(k),
        k >= 1,
    ensures
        decimal_digits(n).len() <= k,
    decreases k,
{
    if n >= 10 {
        assert(k >= 2) by {
            if k == 1 {
                assert(pow10(1) == 10) by {
                    reveal_with_fuel(pow10, 2);
                }
            }
        }
        lemma_digits_len(n / 10, (k - 1) as nat);
    }
}

/// An `i64` is written in at most 20 characters.
pub proof fn lemma_decimal_len(n: int)
    requires
        i64::MIN <= n <= i64::MAX,
    ensures
        decimal_text(n).len() <= 20,
{
    assert(pow10(19) == 10_000_000_000_000_000_000) by {
        reveal_with_fuel(pow10, 20);
    }
    if n < 0 {
        lemma_digits_len((-n) as nat, 19);
    } else {
        lemma_digits_len(n as nat, 19);
    }
}

/// A payload this issuance can build, from small members, is not oversized.
proof fn lemma_payload_fits(f: PayloadFields, context: Seq<Seq<char>>, id: Seq<char>, types: Seq<
    Seq<char>,
>, did: Seq<char>, n: nat)
    requires
        buildable_payload(f, context, id, types, did, n),
        n <= small_bound(),
        context.len() <= small_bound(),
        forall|i: int| 0 <= i < context.len() ==> (#[trigger] context[i]).len() <= small_bound(),
        types.len() <= small_bound(),
        forall|i: int| 0 <= i < types.len() ==> (#[trigger] types[i]).len() <= small_bound(),
        id.len() <= small_bound(),
        did.len() <= small_bound(),
    ensures
        !oversized(payload_text(f)),
{
    reveal_strlit("{\"@context\":");
    reveal_strlit(",\"_sd_alg\":");
    reveal_strlit(",\"credentialSubject\":{\"_sd\":");
    reveal_strlit("},\"exp\":");
    reveal_strlit(",\"iat\":");
    reveal_strlit(",\"id\":");
    reveal_strlit(",\"iss\":");
    reveal_strlit(",\"issuer\":{\"id\":");
    reveal_strlit("},\"sub\":");
    reveal_strlit(",\"type\":");
    reveal_strlit(",\"validFrom\":");
    reveal_strlit(",\"validUntil\":");
    reveal_strlit("}");
    lemma_json_array_len(f.context, small_bound());
    lemma_json_array_len(f.digests, 43);
    lemma_json_array_len(f.types, small_bound());
    lemma_json_string_len(f.sd_alg);
    lemma_json_string_len(f.id);
    lemma_json_string_len(f.iss);
    lemma_json_string_len(f.valid_from);
    lemma_json_string_len(f.valid_until);
    lemma_decimal_len(f.exp);
    lemma_decimal_len(f.iat);
    lemma_not_oversized(payload_text(f));
}

/// The disclosure of a small claim, with a 16-byte salt, is not oversized.
proof fn lemma_disclosure_fits(salt: Seq<u8>, name: Seq<char>, value: ClaimModel)
    requires
        salt.len() == 16,
        name.len() <= small_bound(),
        claim_text_len(value) <= small_bound(),
    ensures
        !oversized(disclosure_text(base64url(salt), name, value)),
{
    reveal_strlit("[");
    reveal_strlit(",");
    reveal_strlit("]");
    reveal_strlit("true");
    reveal_strlit("false");
    lemma_base64url_len(salt);
    lemma_json_string_len(base64url(salt));
    lemma_json_string_len(name);
    match value {
        ClaimModel::Text(t) => lemma_json_string_len(t),
        _ => {},
    }
    lemma_not_oversized(disclosure_text(base64url(salt), name, value));
}

/// Issuing from moderate inputs builds nothing too large to encode: with at
/// most 1024 context entries, types and claims, each and the id, the DID, the
/// algorithm's name and every claim's name and value of at most 1024
/// characters, and signatures that fit, `issue_oversized` does not hold, so
/// issuing fails only where the clock reading is unusable or the algorithm
/// refuses the private key.
pub proof fn lemma_small_issue_fits<A: SignatureAlgorithm>(
    alg: A,
    context: Seq<Seq<char>>,
    id: Seq<char>,
    types: Seq<Seq<char>>,
    did: Seq<char>,
    private_key: Seq<u8>,
    claims: Seq<(Seq<char>, ClaimModel)>,
)
    requires
        alg.spec_algorithm_name().len() <= small_bound(),
        context.len() <= small_bound(),
        forall|i: int| 0 <= i < context.len() ==> (#[trigger] context[i]).len() <= small_bound(),
        types.len() <= small_bound(),
        forall|i: int| 0 <= i < types.len() ==> (#[trigger] types[i]).len() <= small_bound(),
        id.len() <= small_bound(),
        did.len() <= small_bound(),
        claims.len() <= small_bound(),
        forall|i: int|
            0 <= i < claims.len() ==> (#[trigger] claims[i]).0.len() <= small_bound()
                && claim_text_len(claims[i].1) <= small_bound(),
        forall|d: Seq<u8>, sig: Seq<u8>|
            #[trigger] alg.signs(private_key, d, sig) ==> sig.len() <= usize::MAX / 2,
    ensures
        !issue_oversized(alg, context, id, types, did, private_key, claims),
{
    assert forall|i: int, salt: Seq<u8>|
        0 <= i < claims.len() && salt.len() == 16 implies !#[trigger] oversized(
            disclosure_text(base64url(salt), claims[i].0, claims[i].1),
        ) by {
        lemma_disclosure_fits(salt, claims[i].0, claims[i].1);
    }
    reveal_strlit("{\"alg\":");
    reveal_strlit(",\"kid\":");
    reveal_strlit(",\"typ\":");
    reveal_strlit("}");
    lemma_json_string_len(alg.spec_algorithm_name());
    lemma_json_string_len(key_id(did));
    lemma_json_string_len(sd_jwt_type());
    lemma_not_oversized(header_text(alg.spec_algorithm_name(), sd_jwt_type(), key_id(did)));
    assert forall|f: PayloadFields|
        buildable_payload(f, context, id, types, did, claims.len()) implies !#[trigger] oversized(
            payload_text(f),
        ) by {
        lemma_payload_fits(f, context, id, types, did, claims.len());
    }
}

} // verus!
