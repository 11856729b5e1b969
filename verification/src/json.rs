//! The JSON texts of an SD-JWT: the header and payload objects the issuer
//! writes and the verifier reads back, and the disclosure arrays. String
//! literals and integers are written by `serde_json`; the objects are written
//! here, compact and with their members in key order, as `serde_json` writes a
//! `Value::Object`. Reading goes through `serde_json`, keeping only the members
//! the verification reads.
use vstd::prelude::*;
use vstd::utf8::encode_utf8;
use crate::text::{join_on, string_views};

verus! {

// ---------------------------------------------------------------------------
// Writing
// ---------------------------------------------------------------------------

/// The lower-case hexadecimal digit of a value below 16.
pub open spec fn hex_digit(v: int) -> char {
    if v < 10 {
        ('0' as int + v) as char
    } else {
        ('a' as int + (v - 10)) as char
    }
}

/// How a character stands in a JSON string literal: `"` and `\` behind a
/// backslash, the control characters below U+0020 as `\b`, `\t`, `\n`,
/// `\f`, `\r` or `\u00XX`, and every other character as itself.
pub open spec fn json_escape(c: char) -> Seq<char> {
    if c == '"' {
        seq!['\\', '"']
    } else if c == '\\' {
        seq!['\\', '\\']
    } else if c == '\u{8}' {
        seq!['\\', 'b']
    } else if c == '\t' {
        seq!['\\', 't']
    } else if c == '\n' {
        seq!['\\', 'n']
    } else if c == '\u{c}' {
        seq!['\\', 'f']
    } else if c == '\r' {
        seq!['\\', 'r']
    } else if (c as int) < 0x20 {
        seq!['\\', 'u', '0', '0', hex_digit(c as int / 16), hex_digit(c as int % 16)]
    } else {
        seq![c]
    }
}

/// The characters of `s`, each as it stands in a JSON string literal.
pub open spec fn json_escaped(s: Seq<char>) -> Seq<char>
    decreases s.len(),
{
    if s.len() == 0 {
        Seq::<char>::empty()
    } else {
        json_escaped(s.drop_last()) + json_escape(s.last())
    }
}

/// The JSON string literal of `s`, in quotes and with escapes.
pub open spec fn spec_json_string(s: Seq<char>) -> Seq<char> {
    seq!['"'] + json_escaped(s) + seq!['"']
}

/// `serde_json::Value::from(&str).to_string()`: the JSON string literal, as
/// serde_json's compact writer escapes it.
#[verifier::external_body]
pub fn json_string_literal(s: &str) -> (res: String)
    ensures
        res@ == spec_json_string(s@),
{
    serde_json::Value::from(s).to_string()
}

/// The decimal digits of `n`.
pub open spec fn decimal_digits(n: nat) -> Seq<char>
    decreases n,
{
    if n < 10 {
        seq![('0' as int + n) as char]
    } else {
        decimal_digits(n / 10) + seq![('0' as int + n % 10) as char]
    }
}

/// The decimal text of `n`, with a leading `-` when it is negative.
pub open spec fn decimal_text(n: int) -> Seq<char> {
    if n < 0 {
        seq!['-'] + decimal_digits((-n) as nat)
    } else {
        decimal_digits(n as nat)
    }
}

/// `serde_json::Value::from(i64).to_string()`: the decimal text of the number.
#[verifier::external_body]
pub fn json_integer(n: i64) -> (res: String)
    ensures
        res@ == decimal_text(n as int),
{
    serde_json::Value::from(n).to_string()
}

/// The JSON array of the strings.
pub open spec fn json_string_array(items: Seq<Seq<char>>) -> Seq<char> {
    "["@ + join_on(items.map_values(|s: Seq<char>| spec_json_string(s)), ',') + "]"@
}

/// The header object `{"alg", "kid", "typ"}`.
pub open spec fn header_text(alg: Seq<char>, typ: Seq<char>, kid: Seq<char>) -> Seq<char> {
    "{\"alg\":"@ + spec_json_string(alg) + ",\"kid\":"@ + spec_json_string(kid) + ",\"typ\":"@
        + spec_json_string(typ) + "}"@
}

/// The members of an SD-JWT VC payload.
pub struct PayloadFields {
    pub sd_alg: Seq<char>,
    pub context: Seq<Seq<char>>,
    pub digests: Seq<Seq<char>>,
    pub exp: int,
    pub iat: int,
    pub id: Seq<char>,
    pub iss: Seq<char>,
    pub types: Seq<Seq<char>>,
    pub valid_from: Seq<char>,
    pub valid_until: Seq<char>,
}

/// The payload's `exp` and `iat` are `i64` numbers, as JSON readers hold
/// integers exactly only in that range.
pub open spec fn payload_in_range(f: PayloadFields) -> bool {
    &&& i64::MIN <= f.exp <= i64::MAX
    &&& i64::MIN <= f.iat <= i64::MAX
}

/// The payload object: `@context`, `_sd_alg`, `credentialSubject: {_sd}`,
/// `exp`, `iat`, `id`, `iss`, `issuer: {id: iss}`, `sub: id`, `type`,
/// `validFrom`, `validUntil`.
pub open spec fn payload_text(f: PayloadFields) -> Seq<char> {
    "{\"@context\":"@ + json_string_array(f.context) + ",\"_sd_alg\":"@ + spec_json_string(f.sd_alg)
        + ",\"credentialSubject\":{\"_sd\":"@ + json_string_array(f.digests) + "},\"exp\":"@
        + decimal_text(f.exp) + ",\"iat\":"@ + decimal_text(f.iat) + ",\"id\":"@ + spec_json_string(
        f.id,
    ) + ",\"iss\":"@ + spec_json_string(f.iss) + ",\"issuer\":{\"id\":"@ + spec_json_string(f.iss)
        + "},\"sub\":"@ + spec_json_string(f.id) + ",\"type\":"@ + json_string_array(f.types)
        + ",\"validFrom\":"@ + spec_json_string(f.valid_from) + ",\"validUntil\":"@
        + spec_json_string(f.valid_until) + "}"@
}

/// The disclosure array `[salt, name, value]` of a string claim.
pub open spec fn text_disclosure_text(salt: Seq<char>, name: Seq<char>, value: Seq<char>) -> Seq<char> {
    "["@ + spec_json_string(salt) + ","@ + spec_json_string(name) + ","@ + spec_json_string(value)
        + "]"@
}

/// The disclosure array `[salt, name, value]` of a boolean claim.
pub open spec fn flag_disclosure_text(salt: Seq<char>, name: Seq<char>, value: bool) -> Seq<char> {
    "["@ + spec_json_string(salt) + ","@ + spec_json_string(name) + ","@ + (if value {
        "true"@
    } else {
        "false"@
    }) + "]"@
}

/// The disclosure array `[salt, name, value]` of a claim whose value is the
/// JSON text `value`.
pub open spec fn raw_disclosure_text(salt: Seq<char>, name: Seq<char>, value: Seq<char>) -> Seq<char> {
    "["@ + spec_json_string(salt) + ","@ + spec_json_string(name) + ","@ + value + "]"@
}

fn push_lit(out: &mut String, piece: &str)
    ensures
        final(out)@ == old(out)@ + piece@,
{
    crate::text::push_str(out, piece);
}

fn push_json_string(out: &mut String, s: &str)
    ensures
        final(out)@ == old(out)@ + spec_json_string(s@),
{
    let lit = json_string_literal(s);
    crate::text::push_str(out, lit.as_str());
}

/// Appends the JSON array of the strings.
pub fn push_json_string_array(out: &mut String, items: &Vec<String>)
    ensures
        final(out)@ == old(out)@ + json_string_array(string_views(items@)),
{
    let ghost quoted = string_views(items@).map_values(|s: Seq<char>| spec_json_string(s));
    let mut parts: Vec<String> = Vec::new();
    let n = items.len();
    for i in 0..n
        invariant
            n == items@.len(),
            quoted == string_views(items@).map_values(|s: Seq<char>| spec_json_string(s)),
            parts@.len() == i,
            forall|j: int| 0 <= j < i ==> (#[trigger] parts@[j])@ == quoted[j],
    {
        parts.push(json_string_literal(items[i].as_str()));
    }
    assert(string_views(parts@) =~= quoted);
    let comma = ",";
    proof {
        reveal_strlit(",");
    }
    let joined = crate::text::join_strings(&parts, comma);
    push_lit(out, "[");
    push_lit(out, joined.as_str());
    push_lit(out, "]");
    proof {
        assert(final(out)@ =~= old(out)@ + json_string_array(string_views(items@)));
    }
}

/// Writes the header object.
pub fn header_json(alg: &str, typ: &str, kid: &str) -> (res: String)
    ensures
        res@ == header_text(alg@, typ@, kid@),
{
    let mut out = String::new();
    push_lit(&mut out, "{\"alg\":");
    push_json_string(&mut out, alg);
    push_lit(&mut out, ",\"kid\":");
    push_json_string(&mut out, kid);
    push_lit(&mut out, ",\"typ\":");
    push_json_string(&mut out, typ);
    push_lit(&mut out, "}");
    assert(out@ =~= header_text(alg@, typ@, kid@));
    out
}

/// Writes the payload object.
pub fn payload_json(
    sd_alg: &str,
    context: &Vec<String>,
    digests: &Vec<String>,
    exp: i64,
    iat: i64,
    id: &str,
    iss: &str,
    types: &Vec<String>,
    valid_from: &str,
    valid_until: &str,
) -> (res: String)
    ensures
        res@ == payload_text(
            PayloadFields {
                sd_alg: sd_alg@,
                context: string_views(context@),
                digests: string_views(digests@),
                exp: exp as int,
                iat: iat as int,
                id: id@,
                iss: iss@,
                types: string_views(types@),
                valid_from: valid_from@,
                valid_until: valid_until@,
            },
        ),
{
    let mut out = String::new();
    push_lit(&mut out, "{\"@context\":");
    push_json_string_array(&mut out, context);
    push_lit(&mut out, ",\"_sd_alg\":");
    push_json_string(&mut out, sd_alg);
    push_lit(&mut out, ",\"credentialSubject\":{\"_sd\":");
    push_json_string_array(&mut out, digests);
    push_lit(&mut out, "},\"exp\":");
    let e = json_integer(exp);
    push_lit(&mut out, e.as_str());
    push_lit(&mut out, ",\"iat\":");
    let t = json_integer(iat);
    push_lit(&mut out, t.as_str());
    push_lit(&mut out, ",\"id\":");
    push_json_string(&mut out, id);
    push_lit(&mut out, ",\"iss\":");
    push_json_string(&mut out, iss);
    push_lit(&mut out, ",\"issuer\":{\"id\":");
    push_json_string(&mut out, iss);
    push_lit(&mut out, "},\"sub\":");
    push_json_string(&mut out, id);
    push_lit(&mut out, ",\"type\":");
    push_json_string_array(&mut out, types);
    push_lit(&mut out, ",\"validFrom\":");
    push_json_string(&mut out, valid_from);
    push_lit(&mut out, ",\"validUntil\":");
    push_json_string(&mut out, valid_until);
    push_lit(&mut out, "}");
    out
}

/// Writes the disclosure array of a string claim.
pub fn text_disclosure_json(salt: &str, name: &str, value: &str) -> (res: String)
    ensures
        res@ == text_disclosure_text(salt@, name@, value@),
{
    let mut out = String::new();
    push_lit(&mut out, "[");
    push_json_string(&mut out, salt);
    push_lit(&mut out, ",");
    push_json_string(&mut out, name);
    push_lit(&mut out, ",");
    push_json_string(&mut out, value);
    push_lit(&mut out, "]");
    out
}

/// Writes the disclosure array of a boolean claim.
pub fn flag_disclosure_json(salt: &str, name: &str, value: bool) -> (res: String)
    ensures
        res@ == flag_disclosure_text(salt@, name@, value),
{
    let mut out = String::new();
    push_lit(&mut out, "[");
    push_json_string(&mut out, salt);
    push_lit(&mut out, ",");
    push_json_string(&mut out, name);
    push_lit(&mut out, ",");
    if value {
        push_lit(&mut out, "true");
    } else {
        push_lit(&mut out, "false");
    }
    push_lit(&mut out, "]");
    out
}

/// Writes the disclosure array of a claim whose value is the JSON text `value`.
pub fn raw_disclosure_json(salt: &str, name: &str, value: &str) -> (res: String)
    ensures
        res@ == raw_disclosure_text(salt@, name@, value@),
{
    let mut out = String::new();
    push_lit(&mut out, "[");
    push_json_string(&mut out, salt);
    push_lit(&mut out, ",");
    push_json_string(&mut out, name);
    push_lit(&mut out, ",");
    push_lit(&mut out, value);
    push_lit(&mut out, "]");
    out
}

// ---------------------------------------------------------------------------
// Reading
// ---------------------------------------------------------------------------

/// The view of an optional string.
pub open spec fn opt_view(o: Option<String>) -> Option<Seq<char>> {
    match o {
        Some(s) => Some(s@),
        None => None,
    }
}

/// The views of a sequence of optional strings.
pub open spec fn opt_views(v: Seq<Option<String>>) -> Seq<Option<Seq<char>>> {
    v.map_values(|o: Option<String>| opt_view(o))
}

/// Each text, as a present string.
pub open spec fn all_present(v: Seq<Seq<char>>) -> Seq<Option<Seq<char>>> {
    v.map_values(|s: Seq<char>| Some(s))
}

/// The members of a JWT header that verification reads: the string values of
/// `alg` and `kid`, where they are strings.
pub struct HeaderClaims {
    pub alg: Option<String>,
    pub kid: Option<String>,
}

/// The members of a JWT payload that verification reads: the string values of
/// `iss` and `_sd_alg`, and the entries of the array `credentialSubject._sd`
/// (each its string value, where it is a string), where it is an array.
pub struct PayloadClaims {
    pub iss: Option<String>,
    pub sd_alg: Option<String>,
    pub sd_digests: Option<Vec<Option<String>>>,
}

impl HeaderClaims {
    pub open spec fn model(&self) -> (Option<Seq<char>>, Option<Seq<char>>) {
        (opt_view(self.alg), opt_view(self.kid))
    }
}

impl PayloadClaims {
    pub open spec fn model(&self) -> (Option<Seq<char>>, Option<Seq<char>>, Option<Seq<Option<Seq<char>>>>) {
        (
            opt_view(self.iss),
            opt_view(self.sd_alg),
            match self.sd_digests {
                Some(v) => Some(opt_views(v@)),
                None => None,
            },
        )
    }
}

/// What reading a header gives: `None` where the bytes are not JSON.
pub uninterp spec fn spec_json_header_claims(doc: Seq<u8>) -> Option<(Option<Seq<char>>, Option<Seq<char>>)>;

/// What reading a payload gives: `None` where the bytes are not JSON.
pub uninterp spec fn spec_json_payload_claims(doc: Seq<u8>) -> Option<
    (Option<Seq<char>>, Option<Seq<char>>, Option<Seq<Option<Seq<char>>>>),
>;

/// `serde_json::from_slice::<Value>`, then `get("alg")` and `get("kid")`, each
/// `as_str`. A header written by `header_json` reads back its `alg` and `kid`.
#[verifier::external_body]
pub fn parse_header_claims(doc: &[u8]) -> (res: Option<HeaderClaims>)
    ensures
        res matches Some(c) ==> spec_json_header_claims(doc@) == Some(c.model()),
        res is None ==> spec_json_header_claims(doc@) is None,
        forall|alg: Seq<char>, typ: Seq<char>, kid: Seq<char>|
            doc@ == encode_utf8(#[trigger] header_text(alg, typ, kid)) ==> res is Some
                && res.unwrap().model() == (Some(alg), Some(kid)),
{
    let v: serde_json::Value = serde_json::from_slice(doc).ok()?;
    let text = |key: &str| v.get(key).and_then(|x| x.as_str()).map(|x| x.to_string());
    Some(HeaderClaims { alg: text("alg"), kid: text("kid") })
}

/// `serde_json::from_slice::<Value>`, then `get("iss")` and `get("_sd_alg")`
/// `as_str`, and `credentialSubject._sd` `as_array`, each entry `as_str`. A
/// payload written by `payload_json` with `exp` and `iat` in the `i64` range
/// reads back its `iss`, `_sd_alg` and digests.
#[verifier::external_body]
pub fn parse_payload_claims(doc: &[u8]) -> (res: Option<PayloadClaims>)
    ensures
        res matches Some(c) ==> spec_json_payload_claims(doc@) == Some(c.model()),
        res is None ==> spec_json_payload_claims(doc@) is None,
        forall|f: PayloadFields|
            doc@ == encode_utf8(#[trigger] payload_text(f)) && payload_in_range(f) ==> res is Some && res.unwrap().model()
                == (Some(f.iss), Some(f.sd_alg), Some(all_present(f.digests))),
{
    let v: serde_json::Value = serde_json::from_slice(doc).ok()?;
    let text = |key: &str| v.get(key).and_then(|x| x.as_str()).map(|x| x.to_string());
    let sd = v.get("credentialSubject").and_then(|c| c.get("_sd")).and_then(|a| a.as_array());
    let sd_digests = sd.map(|a| a.iter().map(|d| d.as_str().map(|x| x.to_string())).collect());
    Some(PayloadClaims { iss: text("iss"), sd_alg: text("_sd_alg"), sd_digests })
}

} // verus!
