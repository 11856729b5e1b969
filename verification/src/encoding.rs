//! Byte encodings the credentials are built from: unpadded URL-safe Base64,
//! SHA-256 digests, unsigned varints (multicodec prefixes) and multibase text.
use vstd::prelude::*;
use base64::Engine as _;
use sha2::Digest as _;

verus! {

// ---------------------------------------------------------------------------
// Base64 (RFC 4648 section 5 alphabet, no padding)
// ---------------------------------------------------------------------------

/// The character of the URL-safe alphabet for a 6-bit value.
pub open spec fn b64_char(v: int) -> char {
    if v < 26 {
        ('A' as int + v) as char
    } else if v < 52 {
        ('a' as int + (v - 26)) as char
    } else if v < 62 {
        ('0' as int + (v - 52)) as char
    } else if v == 62 {
        '-'
    } else {
        '_'
    }
}

/// Unpadded URL-safe Base64 text of `d`.
pub open spec fn base64url(d: Seq<u8>) -> Seq<char>
    decreases d.len(),
{
    if d.len() == 0 {
        Seq::<char>::empty()
    } else if d.len() == 1 {
        seq![b64_char((d[0] as int) / 4), b64_char(((d[0] as int) % 4) * 16)]
    } else if d.len() == 2 {
        seq![
            b64_char((d[0] as int) / 4),
            b64_char(((d[0] as int) % 4) * 16 + (d[1] as int) / 16),
            b64_char(((d[1] as int) % 16) * 4),
        ]
    } else {
        seq![
            b64_char((d[0] as int) / 4),
            b64_char(((d[0] as int) % 4) * 16 + (d[1] as int) / 16),
            b64_char(((d[1] as int) % 16) * 4 + (d[2] as int) / 64),
            b64_char((d[2] as int) % 64),
        ] + base64url(d.skip(3))
    }
}

/// A character of the URL-safe Base64 alphabet.
pub open spec fn is_b64url_char(c: char) -> bool {
    ('A' <= c && c <= 'Z') || ('a' <= c && c <= 'z') || ('0' <= c && c <= '9') || c == '-'
        || c == '_'
}

proof fn lemma_b64_char_in_alphabet(v: int)
    requires
        0 <= v < 64,
    ensures
        is_b64url_char(b64_char(v)),
{
}

/// Every character of an unpadded URL-safe Base64 text is of its alphabet.
pub proof fn lemma_base64url_alphabet(d: Seq<u8>)
    ensures
        forall|i: int| 0 <= i < base64url(d).len() ==> is_b64url_char(#[trigger] base64url(d)[i]),
    decreases d.len(),
{
    if d.len() >= 1 {
        lemma_b64_char_in_alphabet((d[0] as int) / 4);
        lemma_b64_char_in_alphabet(((d[0] as int) % 4) * 16);
    }
    if d.len() >= 2 {
        lemma_b64_char_in_alphabet(((d[0] as int) % 4) * 16 + (d[1] as int) / 16);
        lemma_b64_char_in_alphabet(((d[1] as int) % 16) * 4);
    }
    if d.len() >= 3 {
        lemma_b64_char_in_alphabet(((d[1] as int) % 16) * 4 + (d[2] as int) / 64);
        lemma_b64_char_in_alphabet((d[2] as int) % 64);
        lemma_base64url_alphabet(d.skip(3));
        let head = seq![
            b64_char((d[0] as int) / 4),
            b64_char(((d[0] as int) % 4) * 16 + (d[1] as int) / 16),
            b64_char(((d[1] as int) % 16) * 4 + (d[2] as int) / 64),
            b64_char((d[2] as int) % 64),
        ];
        assert forall|i: int| 0 <= i < base64url(d).len() implies is_b64url_char(
            #[trigger] base64url(d)[i],
        ) by {
            if i >= 4 {
                assert(base64url(d)[i] == base64url(d.skip(3))[i - 4]);
            }
        }
    }
}

/// Base64 text holds neither of the separators `.` and `~` of an SD-JWT.
pub proof fn lemma_base64url_has_no_separators(d: Seq<u8>)
    ensures
        !base64url(d).contains('.'),
        !base64url(d).contains('~'),
{
    lemma_base64url_alphabet(d);
    if base64url(d).contains('.') {
        let i = choose|i: int| 0 <= i < base64url(d).len() && base64url(d)[i] == '.';
        assert(is_b64url_char(base64url(d)[i]));
    }
    if base64url(d).contains('~') {
        let i = choose|i: int| 0 <= i < base64url(d).len() && base64url(d)[i] == '~';
        assert(is_b64url_char(base64url(d)[i]));
    }
}

proof fn lemma_b64_char_injective(v: int, w: int)
    requires
        0 <= v < 64,
        0 <= w < 64,
        b64_char(v) == b64_char(w),
    ensures
        v == w,
{
    assert(b64_char(v) as int == b64_char(w) as int);
}

/// The length of unpadded Base64 text: four characters per three bytes, and
/// one more character than bytes for the last one or two.
pub proof fn lemma_base64url_len(d: Seq<u8>)
    ensures
        base64url(d).len() == if d.len() % 3 == 0 {
            d.len() / 3 * 4
        } else {
            d.len() / 3 * 4 + d.len() % 3 + 1
        },
    decreases d.len(),
{
    if d.len() >= 3 {
        lemma_base64url_len(d.skip(3));
    }
}

/// Different bytes have different Base64 texts.
pub proof fn lemma_base64url_injective(d1: Seq<u8>, d2: Seq<u8>)
    requires
        base64url(d1) == base64url(d2),
    ensures
        d1 == d2,
    decreases d1.len(),
{
    lemma_base64url_len(d1);
    lemma_base64url_len(d2);
    assert(d1.len() == d2.len());
    let t = base64url(d1);
    if d1.len() >= 1 {
        assert(t[0] == base64url(d2)[0]);
        assert(t[1] == base64url(d2)[1]);
        assert(t[0] == b64_char((d1[0] as int) / 4));
        assert(base64url(d2)[0] == b64_char((d2[0] as int) / 4));
        lemma_b64_char_injective((d1[0] as int) / 4, (d2[0] as int) / 4);
    }
    if d1.len() == 1 {
        lemma_b64_char_injective(((d1[0] as int) % 4) * 16, ((d2[0] as int) % 4) * 16);
        assert(d1[0] == d2[0]);
        assert(d1 =~= d2);
    } else if d1.len() == 2 {
        lemma_b64_char_injective(
            ((d1[0] as int) % 4) * 16 + (d1[1] as int) / 16,
            ((d2[0] as int) % 4) * 16 + (d2[1] as int) / 16,
        );
        assert(t[2] == base64url(d2)[2]);
        lemma_b64_char_injective(((d1[1] as int) % 16) * 4, ((d2[1] as int) % 16) * 4);
        assert(d1[0] == d2[0]);
        assert(d1[1] == d2[1]);
        assert(d1 =~= d2);
    } else if d1.len() >= 3 {
        lemma_b64_char_injective(
            ((d1[0] as int) % 4) * 16 + (d1[1] as int) / 16,
            ((d2[0] as int) % 4) * 16 + (d2[1] as int) / 16,
        );
        assert(t[2] == base64url(d2)[2]);
        assert(t[3] == base64url(d2)[3]);
        lemma_b64_char_injective(
            ((d1[1] as int) % 16) * 4 + (d1[2] as int) / 64,
            ((d2[1] as int) % 16) * 4 + (d2[2] as int) / 64,
        );
        lemma_b64_char_injective((d1[2] as int) % 64, (d2[2] as int) % 64);
        assert(d1[0] == d2[0]);
        assert(d1[1] == d2[1]);
        assert(d1[2] == d2[2]);
        assert(base64url(d1.skip(3)) =~= t.skip(4));
        assert(base64url(d2.skip(3)) =~= base64url(d2).skip(4));
        lemma_base64url_injective(d1.skip(3), d2.skip(3));
        assert(d1 =~= d2) by {
            assert forall|i: int| 0 <= i < d1.len() implies d1[i] == d2[i] by {
                if i >= 3 {
                    assert(d1[i] == d1.skip(3)[i - 3]);
                    assert(d2[i] == d2.skip(3)[i - 3]);
                }
            }
        }
    } else {
        assert(d1 =~= d2);
    }
}

/// The bytes whose unpadded URL-safe Base64 text `text` is, if any.
pub open spec fn base64url_decoded(text: Seq<char>) -> Option<Seq<u8>> {
    if exists|d: Seq<u8>| #[trigger] base64url(d) == text {
        Some(choose|d: Seq<u8>| #[trigger] base64url(d) == text)
    } else {
        None
    }
}

/// Decodes unpadded URL-safe Base64 text.
pub fn decode_base64url(text: &str) -> (res: Option<Vec<u8>>)
    ensures
        res is Some <==> base64url_decoded(text@) is Some,
        res matches Some(d) ==> base64url_decoded(text@) == Some(d@),
{
    let res = base64url_decode(text);
    proof {
        if exists|d: Seq<u8>| #[trigger] base64url(d) == text@ {
            let d = choose|d: Seq<u8>| #[trigger] base64url(d) == text@;
            assert(res is Some);
            lemma_base64url_injective(res.unwrap()@, d);
        }
    }
    res
}

/// `base64::engine::general_purpose::URL_SAFE_NO_PAD.encode`: the unpadded
/// URL-safe Base64 text of the bytes.
#[verifier::external_body]
pub fn base64url_encode(data: &[u8]) -> (res: String)
    requires
        data@.len() <= usize::MAX / 2,
    ensures
        res@ == base64url(data@),
{
    base64::engine::general_purpose::URL_SAFE_NO_PAD.encode(data)
}

/// `base64::engine::general_purpose::URL_SAFE_NO_PAD.decode`: succeeds exactly
/// on the canonical unpadded encodings (no padding, no stray trailing bits),
/// and then gives back the bytes that were encoded.
#[verifier::external_body]
pub fn base64url_decode(text: &str) -> (res: Option<Vec<u8>>)
    ensures
        res matches Some(d) ==> base64url(d@) == text@,
        forall|d: Seq<u8>| #[trigger] base64url(d) == text@ ==> res is Some && res.unwrap()@ == d,
{
    base64::engine::general_purpose::URL_SAFE_NO_PAD.decode(text).ok()
}

// ---------------------------------------------------------------------------
// SHA-256
// ---------------------------------------------------------------------------

/// The SHA-256 digest of the bytes.
pub uninterp spec fn spec_sha256(data: Seq<u8>) -> Seq<u8>;

/// `sha2::Sha256` (`new`, `update`, `finalize`): the 32-byte digest of the bytes.
#[verifier::external_body]
pub fn sha256_digest(data: &[u8]) -> (res: Vec<u8>)
    ensures
        res@ == spec_sha256(data@),
        res@.len() == 32,
{
    let mut hasher = sha2::Sha256::new();
    hasher.update(data);
    hasher.finalize().to_vec()
}

// ---------------------------------------------------------------------------
// Unsigned varints (LEB128), as multicodec prefixes are written
// ---------------------------------------------------------------------------

/// The unsigned-varint bytes of `n`: seven bits per byte, least significant
/// first, the high bit set on every byte but the last.
pub open spec fn varint_encoding(n: nat) -> Seq<u8>
    decreases n,
{
    if n < 128 {
        seq![n as u8]
    } else {
        seq![(n % 128 + 128) as u8] + varint_encoding(n / 128)
    }
}

/// Index of the first byte with its high bit clear.
pub open spec fn varint_end(buf: Seq<u8>) -> Option<nat>
    decreases buf.len(),
{
    if buf.len() == 0 {
        None
    } else if buf[0] < 128 {
        Some(0)
    } else {
        match varint_end(buf.drop_first()) {
            Some(i) => Some(i + 1),
            None => None,
        }
    }
}

/// The number that the low seven bits of each byte spell, least significant first.
pub open spec fn varint_digits(bytes: Seq<u8>) -> nat
    decreases bytes.len(),
{
    if bytes.len() == 0 {
        0
    } else {
        (bytes[0] % 128) as nat + 128 * varint_digits(bytes.drop_first())
    }
}

/// What `unsigned_varint::decode::u64` reads at the front of `buf`: the value
/// (truncated to 64 bits) and the number of bytes it takes, or `None` where it
/// fails (input ends first, more than ten bytes, or a trailing zero byte).
pub open spec fn varint_decoding(buf: Seq<u8>) -> Option<(nat, nat)> {
    match varint_end(buf) {
        Some(t) => if t <= 9 && !(buf[t as int] == 0 && t > 0) {
            Some(
                (
                    varint_digits(buf.take(t + 1 as int)) % 0x1_0000_0000_0000_0000,
                    (t + 1) as nat,
                ),
            )
        } else {
            None
        },
        None => None,
    }
}

/// `128` to the power `k`.
pub open spec fn pow128(k: nat) -> nat
    decreases k,
{
    if k == 0 {
        1
    } else {
        128 * pow128((k - 1) as nat)
    }
}

proof fn lemma_varint_end_of_encoding(n: nat, r: Seq<u8>)
    ensures
        varint_end(varint_encoding(n) + r) == Some((varint_encoding(n).len() - 1) as nat),
    decreases n,
{
    let e = varint_encoding(n);
    if n >= 128 {
        lemma_varint_end_of_encoding(n / 128, r);
        assert((e + r).drop_first() =~= varint_encoding(n / 128) + r);
    }
}

proof fn lemma_varint_digits_of_encoding(n: nat)
    ensures
        varint_digits(varint_encoding(n)) == n,
    decreases n,
{
    if n >= 128 {
        lemma_varint_digits_of_encoding(n / 128);
        assert(varint_encoding(n).drop_first() =~= varint_encoding(n / 128));
        let b = (n % 128 + 128) as u8;
        assert(b as int == n % 128 + 128);
        assert(varint_encoding(n)[0] == b);
        assert((b as int) % 128 == n % 128);
        assert(varint_digits(varint_encoding(n)) == (b % 128) as nat + 128 * varint_digits(
            varint_encoding(n / 128),
        ));
    } else {
        assert(varint_encoding(n).drop_first() =~= Seq::<u8>::empty());
        assert(varint_digits(varint_encoding(n)) == (n as u8 % 128) as nat + 128 * varint_digits(
            Seq::<u8>::empty(),
        ));
    }
}

proof fn lemma_varint_encoding_len(n: nat, k: nat)
    requires
        k >= 1,
        n < pow128(k),
    ensures
        1 <= varint_encoding(n).len() <= k,
    decreases n,
{
    if n >= 128 {
        assert(k >= 2) by {
            if k == 1 {
                assert(pow128(1) == 128 * pow128(0));
            }
        }
        assert(pow128(k) == 128 * pow128((k - 1) as nat));
        assert(n / 128 < pow128((k - 1) as nat));
        lemma_varint_encoding_len(n / 128, (k - 1) as nat);
    }
}

proof fn lemma_varint_last_nonzero(n: nat)
    requires
        n >= 1,
    ensures
        varint_encoding(n).last() != 0,
    decreases n,
{
    if n >= 128 {
        lemma_varint_last_nonzero(n / 128);
        lemma_pow128_grows(n / 128 + 1);
        lemma_varint_encoding_len(n / 128, n / 128 + 1);
        assert(varint_encoding(n).last() == varint_encoding(n / 128).last());
    }
}

proof fn lemma_pow128_grows(k: nat)
    ensures
        pow128(k) > k,
    decreases k,
{
    if k > 0 {
        lemma_pow128_grows((k - 1) as nat);
    }
}

/// Decoding reads back the number of an encoding, whatever follows it.
pub proof fn lemma_varint_roundtrip(n: u64, r: Seq<u8>)
    ensures
        varint_decoding(varint_encoding(n as nat) + r) == Some(
            (n as nat, varint_encoding(n as nat).len()),
        ),
{
    let e = varint_encoding(n as nat);
    assert(pow128(10) == 0x40_0000_0000_0000_0000) by {
        assert(pow128(0) == 1);
        assert(pow128(1) == 0x80);
        assert(pow128(2) == 0x4000);
        assert(pow128(3) == 0x20_0000);
        assert(pow128(4) == 0x1000_0000);
        assert(pow128(5) == 0x8_0000_0000);
        assert(pow128(6) == 0x400_0000_0000);
        assert(pow128(7) == 0x2_0000_0000_0000);
        assert(pow128(8) == 0x100_0000_0000_0000);
        assert(pow128(9) == 0x8000_0000_0000_0000);
    }
    lemma_varint_encoding_len(n as nat, 10);
    lemma_varint_end_of_encoding(n as nat, r);
    lemma_varint_digits_of_encoding(n as nat);
    let t = (e.len() - 1) as nat;
    assert((e + r).take(t + 1 as int) =~= e);
    if t > 0 {
        lemma_varint_last_nonzero(n as nat);
        assert((e + r)[t as int] == e.last());
    }
}

/// `unsigned_varint::encode::u64`: the varint bytes of the number.
#[verifier::external_body]
pub fn varint_encode_u64(n: u64) -> (res: Vec<u8>)
    ensures
        res@ == varint_encoding(n as nat),
{
    let mut buf = unsigned_varint::encode::u64_buffer();
    unsigned_varint::encode::u64(n, &mut buf).to_vec()
}

/// `unsigned_varint::decode::u64`: the number at the front of the bytes and
/// what follows it, as `varint_decoding` describes the crate's loop.
#[verifier::external_body]
pub fn varint_decode_u64(buf: &[u8]) -> (res: Option<(u64, Vec<u8>)>)
    ensures
        res is Some <==> varint_decoding(buf@) is Some,
        res matches Some((v, rest)) ==> (varint_decoding(buf@) matches Some((w, k)) && v == w
            && rest@ == buf@.skip(k as int)),
{
    match unsigned_varint::decode::u64(buf) {
        Ok((v, rest)) => Some((v, rest.to_vec())),
        Err(_) => None,
    }
}

// ---------------------------------------------------------------------------
// Multibase
// ---------------------------------------------------------------------------

/// The base58 (Bitcoin alphabet) text of the bytes.
pub uninterp spec fn spec_base58btc(data: Seq<u8>) -> Seq<char>;

/// The bytes that a multibase text decodes to, in whichever base its first
/// character names, or `None` where it does not decode.
pub uninterp spec fn spec_multibase_decode(text: Seq<char>) -> Option<Seq<u8>>;

/// A character of the Bitcoin base58 alphabet.
pub open spec fn is_base58btc_char(c: char) -> bool {
    ('1' <= c && c <= '9') || ('A' <= c && c <= 'H') || ('J' <= c && c <= 'N') || ('P' <= c
        && c <= 'Z') || ('a' <= c && c <= 'k') || ('m' <= c && c <= 'z')
}

/// `multibase::encode(Base::Base58Btc, ..)`: the code `z` followed by the base58
/// text of the bytes, every character of which is of the base58 alphabet.
#[verifier::external_body]
pub fn multibase_base58btc_encode(data: &[u8]) -> (res: String)
    ensures
        res@ == seq!['z'] + spec_base58btc(data@),
        forall|i: int| 1 <= i < res@.len() ==> is_base58btc_char(#[trigger] res@[i]),
{
    multibase::encode(multibase::Base::Base58Btc, data)
}

/// `multibase::decode`, keeping the bytes: its result is named by
/// `spec_multibase_decode`; a `z` text that `multibase::encode` wrote decodes to
/// the bytes it was written from.
#[verifier::external_body]
pub fn multibase_decode(text: &str) -> (res: Option<Vec<u8>>)
    ensures
        res matches Some(d) ==> spec_multibase_decode(text@) == Some(d@),
        res is None ==> spec_multibase_decode(text@) is None,
        forall|d: Seq<u8>|
            text@ == seq!['z'] + #[trigger] spec_base58btc(d) ==> res is Some && res.unwrap()@ == d,
{
    match multibase::decode(text) {
        Ok((_base, data)) => Some(data),
        Err(_) => None,
    }
}

} // verus!
