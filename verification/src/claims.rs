//! The claims of a credential subject: string keys in byte order (as a JSON
//! object keeps them), each with a string, a boolean, or another JSON value
//! held as its compact JSON text.
use vstd::prelude::*;
use vstd::utf8::{encode_utf8, encode_utf8_decode_utf8};

verus! {

/// The value of a claim.
pub enum ClaimValue {
    Text(String),
    Flag(bool),
    /// A number, array, object or `null`, as its compact JSON text; it is
    /// written into a disclosure as it stands.
    Json(String),
}

/// The model of a claim value.
pub enum ClaimModel {
    Text(Seq<char>),
    Flag(bool),
    Json(Seq<char>),
}

impl View for ClaimValue {
    type V = ClaimModel;

    open spec fn view(&self) -> ClaimModel {
        match self {
            ClaimValue::Text(s) => ClaimModel::Text(s@),
            ClaimValue::Flag(b) => ClaimModel::Flag(*b),
            ClaimValue::Json(t) => ClaimModel::Json(t@),
        }
    }
}

/// `a` comes before `b` in byte order (shorter first on a common prefix).
pub open spec fn bytes_before(a: Seq<u8>, b: Seq<u8>) -> bool
    decreases a.len(),
{
    if a.len() == 0 {
        b.len() > 0
    } else if b.len() == 0 {
        false
    } else if a[0] != b[0] {
        a[0] < b[0]
    } else {
        bytes_before(a.drop_first(), b.drop_first())
    }
}

/// `a` comes before `b` in the order of their UTF-8 bytes.
pub open spec fn key_before(a: Seq<char>, b: Seq<char>) -> bool {
    bytes_before(encode_utf8(a), encode_utf8(b))
}

pub proof fn lemma_bytes_before_trichotomy(a: Seq<u8>, b: Seq<u8>)
    ensures
        a == b || bytes_before(a, b) || bytes_before(b, a),
        !(bytes_before(a, b) && bytes_before(b, a)),
        !bytes_before(a, a),
    decreases a.len(),
{
    if a.len() > 0 && b.len() > 0 {
        lemma_bytes_before_trichotomy(a.drop_first(), b.drop_first());
        if a[0] == b[0] && a.drop_first() == b.drop_first() {
            assert(a =~= seq![a[0]] + a.drop_first());
            assert(b =~= seq![b[0]] + b.drop_first());
        }
    } else if a.len() == 0 && b.len() == 0 {
        assert(a =~= b);
    }
    if a.len() > 0 {
        lemma_bytes_before_trichotomy(a.drop_first(), a.drop_first());
    }
}

pub proof fn lemma_bytes_before_transitive(a: Seq<u8>, b: Seq<u8>, c: Seq<u8>)
    requires
        bytes_before(a, b),
        bytes_before(b, c),
    ensures
        bytes_before(a, c),
    decreases a.len(),
{
    if a.len() > 0 && b.len() > 0 && c.len() > 0 && a[0] == b[0] && b[0] == c[0] {
        lemma_bytes_before_transitive(a.drop_first(), b.drop_first(), c.drop_first());
    }
}

/// The keys of `entries` strictly increase.
pub open spec fn keys_increasing(entries: Seq<(Seq<char>, ClaimModel)>) -> bool {
    forall|i: int, j: int|
        0 <= i < j < entries.len() ==> key_before(#[trigger] entries[i].0, #[trigger] entries[j].0)
}

/// Where a claim with key `k` goes: after every key that comes before it.
pub open spec fn insertion_point(entries: Seq<(Seq<char>, ClaimModel)>, k: Seq<char>) -> int
    decreases entries.len(),
{
    if entries.len() == 0 {
        0
    } else if key_before(entries[0].0, k) {
        1 + insertion_point(entries.drop_first(), k)
    } else {
        0
    }
}

/// The entries after setting claim `k` to `v`: the value of an equal key is
/// replaced, otherwise the claim is inserted where its key belongs.
pub open spec fn with_claim(entries: Seq<(Seq<char>, ClaimModel)>, k: Seq<char>, v: ClaimModel) -> Seq<
    (Seq<char>, ClaimModel),
> {
    let p = insertion_point(entries, k);
    if p < entries.len() && entries[p].0 == k {
        entries.update(p, (k, v))
    } else {
        entries.insert(p, (k, v))
    }
}

/// The view of an entry.
pub open spec fn entry_view(e: (String, ClaimValue)) -> (Seq<char>, ClaimModel) {
    (e.0@, e.1@)
}

/// A set of claims, one per key, kept in key order.
pub struct ClaimSet {
    entries: Vec<(String, ClaimValue)>,
}

impl View for ClaimSet {
    type V = Seq<(Seq<char>, ClaimModel)>;

    closed spec fn view(&self) -> Seq<(Seq<char>, ClaimModel)> {
        self.entries@.map_values(|e: (String, ClaimValue)| entry_view(e))
    }
}

impl ClaimSet {
    #[verifier::type_invariant]
    spec fn ordered(&self) -> bool {
        keys_increasing(self@)
    }

    /// The entries, in key order.
    pub closed spec fn items(&self) -> Seq<(String, ClaimValue)> {
        self.entries@
    }

    /// No claims.
    pub fn new() -> (set: ClaimSet)
        ensures
            set@ == Seq::<(Seq<char>, ClaimModel)>::empty(),
    {
        let set = ClaimSet { entries: Vec::new() };
        assert(set@ =~= Seq::<(Seq<char>, ClaimModel)>::empty());
        set
    }

    /// The number of claims.
    pub fn len(&self) -> (n: usize)
        ensures
            n == self@.len(),
    {
        self.entries.len()
    }

    /// The claims in key order.
    pub fn entries(&self) -> (entries: &Vec<(String, ClaimValue)>)
        ensures
            entries@ == self.items(),
            self@ == entries@.map_values(|e: (String, ClaimValue)| entry_view(e)),
            keys_increasing(self@),
    {
        proof {
            use_type_invariant(self);
        }
        &self.entries
    }

    /// Sets claim `key` to `value`, as `serde_json::Map::insert` does.
    pub fn insert(&mut self, key: String, value: ClaimValue)
        ensures
            final(self)@ == with_claim(old(self)@, key@, value@),
    {
        proof {
            use_type_invariant(&*self);
        }
        let ghost before = self@;
        let mut entries: Vec<(String, ClaimValue)> = Vec::new();
        std::mem::swap(&mut entries, &mut self.entries);
        let ghost old_entries = entries@;
        assert(before == old_entries.map_values(|e: (String, ClaimValue)| entry_view(e)));
        let n = entries.len();
        let kb = key.as_str().as_bytes();
        let mut p: usize = 0;
        assert(before.skip(0) =~= before);
        while p < n && bytes_less(entries[p].0.as_str().as_bytes(), kb)
            invariant
                0 <= p <= n,
                n == entries@.len(),
                entries@ == old_entries,
                kb@ == encode_utf8(key@),
                keys_increasing(before),
                before == old_entries.map_values(|e: (String, ClaimValue)| entry_view(e)),
                insertion_point(before, key@) == p + insertion_point(before.skip(p as int), key@),
            decreases n - p,
        {
            proof {
                assert(before.skip(p as int)[0] == before[p as int]);
                assert(before.skip(p as int).drop_first() =~= before.skip(p + 1));
            }
            p = p + 1;
        }
        proof {
            if p < n {
                assert(before.skip(p as int)[0] == before[p as int]);
            } else {
                assert(before.skip(p as int) =~= Seq::<(Seq<char>, ClaimModel)>::empty());
            }
            assert(insertion_point(before, key@) == p);
        }
        let same = p < n && bytes_equal(entries[p].0.as_str().as_bytes(), kb);
        proof {
            if p < n {
                encode_utf8_decode_utf8(before[p as int].0);
                encode_utf8_decode_utf8(key@);
                lemma_bytes_before_trichotomy(encode_utf8(before[p as int].0), encode_utf8(key@));
            }
        }
        let ghost v = value@;
        let ghost k = key@;
        if same {
            entries.set(p, (key, value));
            proof {
                assert(entries@.map_values(|e: (String, ClaimValue)| entry_view(e)) =~= before.update(
                    p as int,
                    (k, v),
                ));
            }
        } else {
            entries.insert(p, (key, value));
            proof {
                let after = before.insert(p as int, (k, v));
                assert(entries@.map_values(|e: (String, ClaimValue)| entry_view(e)) =~= after);
                assert forall|i: int, j: int|
                    0 <= i < j < after.len() implies key_before(#[trigger] after[i].0, #[trigger] after[j].0) by {
                    if j == p {
                        lemma_key_before_point(before, k, i);
                    } else if i == p {
                        if j - 1 > p {
                            lemma_bytes_before_transitive(
                                encode_utf8(k),
                                encode_utf8(before[p as int].0),
                                encode_utf8(before[j - 1].0),
                            );
                        }
                    } else if i < p && j > p {
                        assert(key_before(before[i].0, before[j - 1].0));
                    } else if j < p {
                    } else {
                        assert(key_before(before[i - 1].0, before[j - 1].0));
                    }
                }
            }
        }
        self.entries = entries;
    }
}

/// Every key in front of the insertion point comes before the new key.
proof fn lemma_key_before_point(entries: Seq<(Seq<char>, ClaimModel)>, k: Seq<char>, i: int)
    requires
        0 <= i < insertion_point(entries, k),
    ensures
        key_before(entries[i].0, k),
    decreases entries.len(),
{
    lemma_insertion_point_bound(entries, k);
    if i > 0 {
        lemma_key_before_point(entries.drop_first(), k, i - 1);
        assert(entries.drop_first()[i - 1] == entries[i]);
    }
}

pub proof fn lemma_insertion_point_bound(entries: Seq<(Seq<char>, ClaimModel)>, k: Seq<char>)
    ensures
        0 <= insertion_point(entries, k) <= entries.len(),
    decreases entries.len(),
{
    if entries.len() > 0 {
        lemma_insertion_point_bound(entries.drop_first(), k);
    }
}

/// Compares two byte strings in byte order.
pub fn bytes_less(a: &[u8], b: &[u8]) -> (less: bool)
    ensures
        less == bytes_before(a@, b@),
{
    let n = a.len();
    let m = b.len();
    let mut i: usize = 0;
    assert(a@.skip(0) =~= a@);
    assert(b@.skip(0) =~= b@);
    while i < n && i < m
        invariant
            0 <= i <= n,
            i <= m,
            n == a@.len(),
            m == b@.len(),
            bytes_before(a@, b@) == bytes_before(a@.skip(i as int), b@.skip(i as int)),
        decreases n - i,
    {
        assert(a@.skip(i as int)[0] == a@[i as int]);
        assert(b@.skip(i as int)[0] == b@[i as int]);
        if a[i] != b[i] {
            return a[i] < b[i];
        }
        assert(a@.skip(i as int).drop_first() =~= a@.skip(i + 1));
        assert(b@.skip(i as int).drop_first() =~= b@.skip(i + 1));
        i = i + 1;
    }
    i == n && i < m
}

/// Compares two byte strings for equality.
pub fn bytes_equal(a: &[u8], b: &[u8]) -> (same: bool)
    ensures
        same == (a@ == b@),
{
    if a.len() != b.len() {
        return false;
    }
    let n = a.len();
    for i in 0..n
        invariant
            n == a@.len(),
            n == b@.len(),
            forall|j: int| 0 <= j < i ==> a@[j] == b@[j],
    {
        if a[i] != b[i] {
            return false;
        }
    }
    assert(a@ =~= b@);
    true
}

} // verus!
