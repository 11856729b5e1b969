//! Character-level helpers: splitting on a separator and joining with one.
use vstd::prelude::*;
use vstd::string::StrSliceExecFns;
use vstd::string::StringExecFns;
use vstd::utf8::encode_utf8;

verus! {

/// The pieces of `s` between occurrences of `sep`, as `str::split` yields them:
/// always at least one piece, and `k` separators give `k + 1` pieces.
pub open spec fn split_on(s: Seq<char>, sep: char) -> Seq<Seq<char>>
    decreases s.len(),
{
    if s.len() == 0 {
        seq![Seq::<char>::empty()]
    } else {
        let rest = split_on(s.drop_first(), sep);
        if s[0] == sep {
            seq![Seq::<char>::empty()] + rest
        } else {
            rest.update(0, seq![s[0]] + rest[0])
        }
    }
}

/// `q` with `x` put in front of its first piece.
pub open spec fn prepend_first(x: Seq<char>, q: Seq<Seq<char>>) -> Seq<Seq<char>> {
    q.update(0, x + q[0])
}

/// The views of a sequence of string slices.
pub open spec fn str_views(v: Seq<&str>) -> Seq<Seq<char>> {
    v.map_values(|p: &str| p@)
}

pub proof fn lemma_split_nonempty(s: Seq<char>, sep: char)
    ensures
        split_on(s, sep).len() >= 1,
    decreases s.len(),
{
    if s.len() > 0 {
        lemma_split_nonempty(s.drop_first(), sep);
    }
}

/// A UTF-8 encoding has at least one byte per character.
pub proof fn lemma_utf8_len_bound(c: Seq<char>)
    ensures
        encode_utf8(c).len() >= c.len(),
    decreases c.len(),
{
    if c.len() > 0 {
        lemma_utf8_len_bound(c.drop_first());
    }
}

/// One step of splitting, seen from position `pos`.
proof fn lemma_split_step(s: Seq<char>, sep: char, pos: int)
    requires
        0 <= pos < s.len(),
    ensures
        s[pos] == sep ==> split_on(s.skip(pos), sep) == seq![Seq::<char>::empty()] + split_on(
            s.skip(pos + 1),
            sep,
        ),
        s[pos] != sep ==> split_on(s.skip(pos), sep) == prepend_first(
            seq![s[pos]],
            split_on(s.skip(pos + 1), sep),
        ),
{
    assert(s.skip(pos).drop_first() =~= s.skip(pos + 1));
}

/// Splits `s` at every occurrence of `sep`.
pub fn split_char<'a>(s: &'a str, sep: char) -> (pieces: Vec<&'a str>)
    ensures
        str_views(pieces@) == split_on(s@, sep),
{
    let bytes = s.as_bytes();
    let nbytes = bytes.len();
    proof {
        lemma_utf8_len_bound(s@);
    }
    let mut pieces: Vec<&'a str> = Vec::new();
    let mut start: usize = 0;
    let mut pos: usize = 0;
    let ghost whole = split_on(s@, sep);
    assert(s@.skip(0) =~= s@);
    proof {
        lemma_split_nonempty(s@, sep);
        assert(prepend_first(s@.subrange(0, 0), whole) =~= whole);
    }
    for c in it: s.chars()
        invariant
            it.seq() == s@,
            pos == it.index(),
            s@.len() <= nbytes,
            start <= pos <= s@.len(),
            str_views(pieces@) + prepend_first(s@.subrange(start as int, pos as int), split_on(s@.skip(pos as int), sep))
                == whole,
    {
        proof {
            lemma_split_step(s@, sep, pos as int);
            lemma_split_nonempty(s@.skip(pos + 1), sep);
        }
        let ghost rest = split_on(s@.skip(pos + 1), sep);
        let ghost x = s@.subrange(start as int, pos as int);
        if c == sep {
            let piece = s.substring_char(start, pos);
            proof {
                assert(prepend_first(x, seq![Seq::<char>::empty()] + rest) =~= seq![x] + rest);
                assert(prepend_first(s@.subrange(pos + 1, pos + 1), rest) =~= rest);
                assert(str_views(pieces@.push(piece)) =~= str_views(pieces@) + seq![x]);
            }
            pieces.push(piece);
            start = pos + 1;
        } else {
            proof {
                assert(c == s@[pos as int]);
                assert(x + seq![c] =~= s@.subrange(start as int, pos + 1));
                assert(x + (seq![c] + rest[0]) =~= s@.subrange(start as int, pos + 1) + rest[0]);
                assert(prepend_first(x, prepend_first(seq![c], rest)) =~= prepend_first(
                    s@.subrange(start as int, pos + 1),
                    rest,
                ));
            }
        }
        pos = pos + 1;
    }
    let last = s.substring_char(start, pos);
    proof {
        assert(s@.skip(pos as int) =~= Seq::<char>::empty());
        assert(str_views(pieces@.push(last)) =~= str_views(pieces@) + seq![last@]);
    }
    pieces.push(last);
    pieces
}


/// The pieces of `ps` with `sep` between each two neighbours (`[T]::join`).
pub open spec fn join_on(ps: Seq<Seq<char>>, sep: char) -> Seq<char>
    decreases ps.len(),
{
    if ps.len() == 0 {
        Seq::<char>::empty()
    } else if ps.len() == 1 {
        ps[0]
    } else {
        ps[0] + seq![sep] + join_on(ps.drop_first(), sep)
    }
}

/// The views of a sequence of owned strings.
pub open spec fn string_views(v: Seq<String>) -> Seq<Seq<char>> {
    v.map_values(|p: String| p@)
}

/// No piece of `ps` holds `c`.
pub open spec fn pieces_free_of(ps: Seq<Seq<char>>, c: char) -> bool {
    forall|i: int| 0 <= i < ps.len() ==> !(#[trigger] ps[i]).contains(c)
}

/// A text with no separator is a single piece.
pub proof fn lemma_split_without_sep(x: Seq<char>, sep: char)
    requires
        !x.contains(sep),
    ensures
        split_on(x, sep) == seq![x],
    decreases x.len(),
{
    if x.len() > 0 {
        assert(!x.drop_first().contains(sep)) by {
            if x.drop_first().contains(sep) {
                let i = choose|i: int| 0 <= i < x.drop_first().len() && x.drop_first()[i] == sep;
                assert(x[i + 1] == sep);
            }
        }
        lemma_split_without_sep(x.drop_first(), sep);
        assert(x[0] != sep) by {
            assert(x[0] == x[0]);
        }
        assert(seq![x[0]] + x.drop_first() =~= x);
        assert(split_on(x, sep) =~= seq![x]);
    } else {
        assert(x =~= Seq::<char>::empty());
    }
}

/// Splitting `x + [sep] + y` cuts off `x` when `x` holds no separator.
pub proof fn lemma_split_after_first(x: Seq<char>, y: Seq<char>, sep: char)
    requires
        !x.contains(sep),
    ensures
        split_on(x + seq![sep] + y, sep) == seq![x] + split_on(y, sep),
    decreases x.len(),
{
    let s = x + seq![sep] + y;
    if x.len() == 0 {
        assert(s.drop_first() =~= y);
        assert(x =~= Seq::<char>::empty());
    } else {
        assert(!x.drop_first().contains(sep)) by {
            if x.drop_first().contains(sep) {
                let i = choose|i: int| 0 <= i < x.drop_first().len() && x.drop_first()[i] == sep;
                assert(x[i + 1] == sep);
            }
        }
        lemma_split_after_first(x.drop_first(), y, sep);
        assert(s.drop_first() =~= x.drop_first() + seq![sep] + y);
        assert(s[0] == x[0]);
        assert(x[0] != sep) by {
            assert(x[0] == x[0]);
        }
        assert(seq![x[0]] + x.drop_first() =~= x);
        assert(split_on(s, sep) =~= seq![x] + split_on(y, sep));
    }
}

/// Splitting undoes joining, when no piece holds the separator.
pub proof fn lemma_split_join(ps: Seq<Seq<char>>, sep: char)
    requires
        ps.len() >= 1,
        pieces_free_of(ps, sep),
    ensures
        split_on(join_on(ps, sep), sep) == ps,
    decreases ps.len(),
{
    assert(!ps[0].contains(sep));
    if ps.len() == 1 {
        lemma_split_without_sep(ps[0], sep);
        assert(seq![ps[0]] =~= ps);
    } else {
        let rest = ps.drop_first();
        assert(pieces_free_of(rest, sep)) by {
            assert forall|i: int| 0 <= i < rest.len() implies !(#[trigger] rest[i]).contains(sep) by {
                assert(rest[i] == ps[i + 1]);
            }
        }
        lemma_split_join(rest, sep);
        lemma_split_after_first(ps[0], join_on(rest, sep), sep);
        assert(seq![ps[0]] + rest =~= ps);
    }
}

/// Appends `tail` to `s`.
pub fn push_str(s: &mut String, tail: &str)
    ensures
        final(s)@ == old(s)@ + tail@,
{
    s.append(tail);
}

/// Joins the strings of `ps`, with `sep` between each two neighbours.
pub fn join_strings(ps: &Vec<String>, sep: &str) -> (res: String)
    requires
        sep@.len() == 1,
    ensures
        res@ == join_on(string_views(ps@), sep@[0]),
{
    let mut res = String::new();
    let n = ps.len();
    if n == 0 {
        return res;
    }
    let ghost views = string_views(ps@);
    let mut i: usize = n;
    // Build from the back: res holds join_on(views.skip(i)).
    res.append(ps[n - 1].as_str());
    i = n - 1;
    proof {
        assert(views.skip(i as int) =~= seq![views[i as int]]);
    }
    while i > 0
        invariant
            0 <= i < n,
            n == ps@.len(),
            views == string_views(ps@),
            sep@.len() == 1,
            res@ == join_on(views.skip(i as int), sep@[0]),
        decreases i,
    {
        let mut next = String::new();
        next.append(ps[i - 1].as_str());
        next.append(sep);
        next.append(res.as_str());
        proof {
            let tail = views.skip(i as int);
            assert(views.skip(i - 1).drop_first() =~= tail);
            assert(views.skip(i - 1)[0] == views[i - 1]);
            assert(sep@ =~= seq![sep@[0]]);
        }
        res = next;
        i = i - 1;
    }
    assert(views.skip(0) =~= views);
    res
}

} // verus!
