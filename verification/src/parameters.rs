//! A key–value view over configuration strings of the form `a=b;c=d|e;f=g`:
//! pairs separated by `;`, key and value separated by the first `=`, multiple
//! values of one key separated by `|`.

use vstd::prelude::*;
use rand::Rng;

verus! {

/// Separates one key–value pair from the next.
pub const LIST_SEPARATOR: char = ';';

/// Separates a key from its value.
pub const FIELD_SEPARATOR: char = '=';

/// Separates the values of a multi-valued key.
pub const VALUE_SEPARATOR: char = '|';

/// Position of the first occurrence of `c` in `s`; the length of `s` when
/// `c` does not occur.
pub open spec fn find_char(s: Seq<char>, c: char) -> nat
    decreases s.len(),
{
    if s.len() == 0 {
        0
    } else if s[0] == c {
        0
    } else {
        1 + find_char(s.drop_first(), c)
    }
}

/// `find_char` points at the first occurrence: nothing before it is `c`,
/// and it is `c` itself unless it is the length.
pub proof fn lemma_find_char(s: Seq<char>, c: char)
    ensures
        find_char(s, c) <= s.len(),
        forall|i: int| 0 <= i < find_char(s, c) ==> s[i] != c,
        find_char(s, c) < s.len() ==> s[find_char(s, c) as int] == c,
    decreases s.len(),
{
    if s.len() > 0 && s[0] != c {
        let s2 = s.drop_first();
        let f = find_char(s, c);
        lemma_find_char(s2, c);
        assert forall|i: int| 0 <= i < f implies s[i] != c by {
            if i > 0 {
                assert(s[i] == s2[i - 1]);
            }
        }
        if f < s.len() {
            assert(s[f as int] == s2[f as int - 1]);
        }
    }
}

/// `find_char` is the unique position with those properties.
pub proof fn lemma_find_char_is(s: Seq<char>, c: char, i: int)
    requires
        0 <= i <= s.len(),
        forall|k: int| 0 <= k < i ==> s[k] != c,
        i < s.len() ==> s[i] == c,
    ensures
        find_char(s, c) == i,
    decreases s.len(),
{
    if s.len() == 0 {
    } else if s[0] == c {
        assert(i == 0);
    } else {
        let s2 = s.drop_first();
        assert(i >= 1);
        assert forall|k: int| 0 <= k < i - 1 implies s2[k] != c by {
            assert(s2[k] == s[k + 1]);
        }
        if i - 1 < s2.len() {
            assert(s2[i - 1] == s[i]);
        }
        lemma_find_char_is(s2, c, i - 1);
    }
}

/// The two halves of `s` around the first occurrence of `c`: what is before
/// it, and what is after it (everything when `c` does not occur, then
/// nothing).
pub open spec fn split_once_spec(s: Seq<char>, c: char) -> (Seq<char>, Seq<char>) {
    let f = find_char(s, c);
    (
        s.take(f as int),
        if f < s.len() {
            s.skip(f as int + 1)
        } else {
            Seq::empty()
        },
    )
}

/// Position of the first occurrence of `c` in `s`, or the length of `s`.
fn find_in_str(s: &str, c: char) -> (i: usize)
    ensures
        i == find_char(s@, c),
{
    let n = s.unicode_len();
    let mut i: usize = 0;
    while i < n
        invariant
            i <= n,
            n == s@.len(),
            forall|k: int| 0 <= k < i ==> s@[k] != c,
        decreases n - i,
    {
        if s.get_char(i) == c {
            proof {
                lemma_find_char_is(s@, c, i as int);
            }
            return i;
        }
        i = i + 1;
    }
    proof {
        lemma_find_char_is(s@, c, n as int);
    }
    n
}

/// Splits `s` at the first occurrence of `c`: the part before it, and the
/// part after it.  Without an occurrence, all of `s` and the empty string.
fn split_once<'a>(s: &'a str, c: char) -> (res: (&'a str, &'a str))
    ensures
        res.0@ == split_once_spec(s@, c).0,
        res.1@ == split_once_spec(s@, c).1,
{
    let n = s.unicode_len();
    let i = find_in_str(s, c);
    proof {
        lemma_find_char(s@, c);
    }
    if i < n {
        let l = s.substring_char(0, i);
        let r = s.substring_char(i + 1, n);
        proof {
            assert(l@ =~= s@.take(i as int));
            assert(r@ =~= s@.skip(i as int + 1));
        }
        (l, r)
    } else {
        let r = s.substring_char(n, n);
        proof {
            assert(r@ =~= Seq::<char>::empty());
        }
        let l = s.substring_char(0, n);
        proof {
            assert(l@ =~= s@.take(i as int));
        }
        (l, r)
    }
}

/// The key–value pairs encoded in `s`: chunks between list separators,
/// empty chunks skipped, each split at its first field separator.
pub open spec fn pairs_of(s: Seq<char>) -> Seq<(Seq<char>, Seq<char>)>
    decreases s.len(),
{
    let f = find_char(s, LIST_SEPARATOR);
    if f >= s.len() {
        if s.len() == 0 {
            Seq::empty()
        } else {
            seq![split_once_spec(s, FIELD_SEPARATOR)]
        }
    } else {
        let chunk = s.take(f as int);
        let rest = s.skip(f as int + 1);
        if chunk.len() == 0 {
            pairs_of(rest)
        } else {
            seq![split_once_spec(chunk, FIELD_SEPARATOR)] + pairs_of(rest)
        }
    }
}

/// The views of a vector of key–value pairs.
pub open spec fn kv_view(ps: Seq<(String, String)>) -> Seq<(Seq<char>, Seq<char>)> {
    ps.map_values(|p: (String, String)| (p.0@, p.1@))
}

/// The value of the first pair whose key is `k`, if any.
pub open spec fn first_value(ps: Seq<(Seq<char>, Seq<char>)>, k: Seq<char>) -> Option<Seq<char>>
    decreases ps.len(),
{
    if ps.len() == 0 {
        None
    } else if ps[0].0 == k {
        Some(ps[0].1)
    } else {
        first_value(ps.drop_first(), k)
    }
}

/// The chunks of `s` between value separators; an empty `s` is one empty
/// chunk, as nothing is skipped here.
pub open spec fn split_values(s: Seq<char>) -> Seq<Seq<char>>
    decreases s.len(),
{
    let f = find_char(s, VALUE_SEPARATOR);
    if f >= s.len() {
        seq![s]
    } else {
        seq![s.take(f as int)] + split_values(s.skip(f as int + 1))
    }
}

/// The views of a vector of strings.
pub open spec fn strs_view(ps: Seq<String>) -> Seq<Seq<char>> {
    ps.map_values(|p: String| p@)
}

/// Whether two string slices hold the same characters.
fn str_eq(a: &str, b: &str) -> (r: bool)
    ensures
        r == (a@ == b@),
{
    let na = a.unicode_len();
    let nb = b.unicode_len();
    if na != nb {
        return false;
    }
    let mut i: usize = 0;
    while i < na
        invariant
            i <= na,
            na == a@.len(),
            na == b@.len(),
            forall|k: int| 0 <= k < i ==> a@[k] == b@[k],
        decreases na - i,
    {
        if a.get_char(i) != b.get_char(i) {
            return false;
        }
        i = i + 1;
    }
    proof {
        assert(a@ =~= b@);
    }
    true
}

/// What one pair contributes to a rendered string: its key, then a field
/// separator and the value when the value is non-empty.
pub open spec fn render_pair(p: (Seq<char>, Seq<char>)) -> Seq<char> {
    if p.1.len() == 0 {
        p.0
    } else {
        p.0 + seq![FIELD_SEPARATOR] + p.1
    }
}

/// Rendered pairs joined with list separators, no separator at either end.
pub open spec fn joined(ps: Seq<(Seq<char>, Seq<char>)>) -> Seq<char>
    decreases ps.len(),
{
    if ps.len() == 0 {
        Seq::empty()
    } else if ps.len() == 1 {
        render_pair(ps[0])
    } else {
        render_pair(ps[0]) + seq![LIST_SEPARATOR] + joined(ps.drop_first())
    }
}

/// Keeps the pairs whose key is non-empty.
pub open spec fn with_keys(ps: Seq<(Seq<char>, Seq<char>)>) -> Seq<(Seq<char>, Seq<char>)> {
    ps.filter(|p: (Seq<char>, Seq<char>)| p.0.len() > 0)
}

/// The string that renders a pair list: pairs with empty keys skipped, the
/// rest joined with list separators.
pub open spec fn concat_spec(ps: Seq<(Seq<char>, Seq<char>)>) -> Seq<char> {
    joined(with_keys(ps))
}

/// Joining one more pair appends a separator (unless nothing came before)
/// and the pair's rendering.
proof fn lemma_joined_push(ps: Seq<(Seq<char>, Seq<char>)>, p: (Seq<char>, Seq<char>))
    ensures
        joined(ps.push(p)) == if ps.len() == 0 {
            render_pair(p)
        } else {
            joined(ps) + seq![LIST_SEPARATOR] + render_pair(p)
        },
    decreases ps.len(),
{
    let ps2 = ps.push(p);
    if ps.len() == 0 {
        assert(ps2.len() == 1);
        assert(ps2[0] == p);
    } else {
        assert(ps2[0] == ps[0]);
        assert(ps2.drop_first() =~= ps.drop_first().push(p));
        lemma_joined_push(ps.drop_first(), p);
        if ps.len() == 1 {
            assert(joined(ps2) =~= joined(ps) + seq![LIST_SEPARATOR] + render_pair(p));
        } else {
            assert(joined(ps2) =~= joined(ps) + seq![LIST_SEPARATOR] + render_pair(p));
        }
    }
}

/// Filtering one more element keeps the filtered prefix and appends the
/// element exactly when it passes.
proof fn lemma_with_keys_push(ps: Seq<(Seq<char>, Seq<char>)>, p: (Seq<char>, Seq<char>))
    ensures
        with_keys(ps.push(p)) == if p.0.len() > 0 {
            with_keys(ps).push(p)
        } else {
            with_keys(ps)
        },
{
    reveal(Seq::filter);
    assert(ps.push(p).drop_last() =~= ps);
    assert(ps.push(p).last() == p);
    if p.0.len() > 0 {
        assert(with_keys(ps.push(p)) =~= with_keys(ps).push(p));
    } else {
        assert(with_keys(ps.push(p)) =~= with_keys(ps));
    }
}

/// Lexicographic order on character sequences, by code point.
pub open spec fn lex_le(a: Seq<char>, b: Seq<char>) -> bool
    decreases a.len(),
{
    if a.len() == 0 {
        true
    } else if b.len() == 0 {
        false
    } else if a[0] == b[0] {
        lex_le(a.drop_first(), b.drop_first())
    } else {
        (a[0] as u32) < (b[0] as u32)
    }
}

/// Whether `a` precedes `b` (or equals it) in lexicographic order.
fn str_lex_le(a: &str, b: &str) -> (r: bool)
    ensures
        r == lex_le(a@, b@),
{
    let na = a.unicode_len();
    let nb = b.unicode_len();
    let mut i: usize = 0;
    proof {
        assert(a@.skip(0) =~= a@);
        assert(b@.skip(0) =~= b@);
    }
    loop
        invariant
            i <= na,
            i <= nb,
            na == a@.len(),
            nb == b@.len(),
            lex_le(a@, b@) == lex_le(a@.skip(i as int), b@.skip(i as int)),
        decreases na - i,
    {
        if i == na {
            return true;
        }
        if i == nb {
            return false;
        }
        let ca = a.get_char(i);
        let cb = b.get_char(i);
        proof {
            assert(a@.skip(i as int)[0] == a@[i as int]);
            assert(b@.skip(i as int)[0] == b@[i as int]);
        }
        if ca == cb {
            proof {
                assert(a@.skip(i as int).drop_first() =~= a@.skip(i as int + 1));
                assert(b@.skip(i as int).drop_first() =~= b@.skip(i as int + 1));
            }
            i = i + 1;
        } else {
            return (ca as u32) < (cb as u32);
        }
    }
}

/// `p` inserted into `s` from the right, after every pair whose key does
/// not come after `p`'s; on a key-sorted `s` this keeps the order, and
/// pairs with equal keys keep their relative order.
pub open spec fn insert_kv(
    s: Seq<(Seq<char>, Seq<char>)>,
    p: (Seq<char>, Seq<char>),
) -> Seq<(Seq<char>, Seq<char>)>
    decreases s.len(),
{
    if s.len() == 0 {
        seq![p]
    } else if lex_le(s.last().0, p.0) {
        s.push(p)
    } else {
        insert_kv(s.drop_last(), p).push(s.last())
    }
}

/// The pairs reordered by key, stably, via repeated insertion.
pub open spec fn sort_kv(s: Seq<(Seq<char>, Seq<char>)>) -> Seq<(Seq<char>, Seq<char>)>
    decreases s.len(),
{
    if s.len() == 0 {
        Seq::empty()
    } else {
        insert_kv(sort_kv(s.drop_last()), s.last())
    }
}

/// The pairs whose key is not `k`.
pub open spec fn remove_kv(
    ps: Seq<(Seq<char>, Seq<char>)>,
    k: Seq<char>,
) -> Seq<(Seq<char>, Seq<char>)> {
    ps.filter(|p: (Seq<char>, Seq<char>)| p.0 != k)
}

/// The pairs after the first one keyed `k`; none at all when no pair
/// carries that key.
pub open spec fn after_first_match(
    ps: Seq<(Seq<char>, Seq<char>)>,
    k: Seq<char>,
) -> Seq<(Seq<char>, Seq<char>)>
    decreases ps.len(),
{
    if ps.len() == 0 {
        Seq::empty()
    } else if ps[0].0 == k {
        ps.drop_first()
    } else {
        after_first_match(ps.drop_first(), k)
    }
}

/// Without an occurrence of the key, the search consumes everything.
proof fn lemma_after_first_match_none(ps: Seq<(Seq<char>, Seq<char>)>, k: Seq<char>)
    requires
        forall|j: int| 0 <= j < ps.len() ==> (#[trigger] ps[j]).0 != k,
    ensures
        after_first_match(ps, k) =~= Seq::<(Seq<char>, Seq<char>)>::empty(),
    decreases ps.len(),
{
    if ps.len() > 0 {
        let ps2 = ps.drop_first();
        assert forall|j: int| 0 <= j < ps2.len() implies (#[trigger] ps2[j]).0 != k by {
            assert(ps2[j] == ps[j + 1]);
        }
        lemma_after_first_match_none(ps2, k);
    }
}

/// With the first occurrence at position `i`, what remains is the suffix
/// after it.
proof fn lemma_after_first_match_at(ps: Seq<(Seq<char>, Seq<char>)>, k: Seq<char>, i: int)
    requires
        0 <= i < ps.len(),
        forall|j: int| 0 <= j < i ==> (#[trigger] ps[j]).0 != k,
        ps[i].0 == k,
    ensures
        after_first_match(ps, k) =~= ps.skip(i + 1),
    decreases ps.len(),
{
    if i == 0 {
        assert(ps.drop_first() =~= ps.skip(1));
    } else {
        let ps2 = ps.drop_first();
        assert forall|j: int| 0 <= j < i - 1 implies (#[trigger] ps2[j]).0 != k by {
            assert(ps2[j] == ps[j + 1]);
        }
        assert(ps2[i - 1] == ps[i]);
        lemma_after_first_match_at(ps2, k, i - 1);
        assert(ps2.skip(i) =~= ps.skip(i + 1));
    }
}

/// `v` with `p` inserted as `insert_kv` places it.
fn insert_kv_exec(v: Vec<(String, String)>, p: (String, String)) -> (r: Vec<(String, String)>)
    ensures
        kv_view(r@) == insert_kv(kv_view(v@), (p.0@, p.1@)),
    decreases v@.len(),
{
    let mut v = v;
    let ghost ps = kv_view(v@);
    if v.len() == 0 {
        let mut out: Vec<(String, String)> = Vec::new();
        out.push(p);
        proof {
            assert(kv_view(out@) =~~= insert_kv(ps, (p.0@, p.1@)));
        }
        out
    } else if str_lex_le(v[v.len() - 1].0.as_str(), p.0.as_str()) {
        proof {
            assert(ps.last() == (v@.last().0@, v@.last().1@));
        }
        v.push(p);
        proof {
            assert(kv_view(v@) =~~= insert_kv(ps, (p.0@, p.1@)));
        }
        v
    } else {
        proof {
            assert(ps.last() == (v@.last().0@, v@.last().1@));
        }
        let last = v.pop().unwrap();
        proof {
            assert(kv_view(v@) =~~= ps.drop_last());
        }
        let mut r = insert_kv_exec(v, p);
        r.push(last);
        proof {
            assert(kv_view(r@) =~~= insert_kv(ps, (p.0@, p.1@)));
        }
        r
    }
}

/// A copy of the pairs reordered by key, as `sort_kv` states.
fn sort_kv_exec(pairs: &Vec<(String, String)>) -> (r: Vec<(String, String)>)
    ensures
        kv_view(r@) == sort_kv(kv_view(pairs@)),
{
    let ghost ps = kv_view(pairs@);
    let mut out: Vec<(String, String)> = Vec::new();
    let mut i: usize = 0;
    proof {
        assert(ps.take(0) =~= Seq::<(Seq<char>, Seq<char>)>::empty());
        assert(kv_view(out@) =~~= sort_kv(ps.take(0)));
    }
    while i < pairs.len()
        invariant
            i <= pairs@.len(),
            ps == kv_view(pairs@),
            kv_view(out@) == sort_kv(ps.take(i as int)),
        decreases pairs@.len() - i,
    {
        let p = (pairs[i].0.clone(), pairs[i].1.clone());
        proof {
            assert(ps[i as int] == (pairs@[i as int].0@, pairs@[i as int].1@));
            assert(ps.take(i as int + 1).drop_last() =~= ps.take(i as int));
            assert(ps.take(i as int + 1).last() == ps[i as int]);
        }
        out = insert_kv_exec(out, p);
        i = i + 1;
    }
    proof {
        assert(ps.take(i as int) =~= ps);
    }
    out
}

/// A key–value view over a `&str` of the form `a=b;c=d|e;f=g`.
pub struct Parameters;

impl Parameters {
    /// All key–value pairs of `s`, in order of appearance.
    pub fn iter(s: &str) -> (r: Vec<(String, String)>)
        ensures
            kv_view(r@) == pairs_of(s@),
        decreases s@.len(),
    {
        let n = s.unicode_len();
        if n == 0 {
            let out: Vec<(String, String)> = Vec::new();
            proof {
                assert(kv_view(out@) =~~= pairs_of(s@));
            }
            return out;
        }
        let f = find_in_str(s, LIST_SEPARATOR);
        proof {
            lemma_find_char(s@, LIST_SEPARATOR);
        }
        if f >= n {
            let (k, v) = split_once(s, FIELD_SEPARATOR);
            let mut out: Vec<(String, String)> = Vec::new();
            out.push((String::from_str(k), String::from_str(v)));
            proof {
                assert(kv_view(out@) =~~= pairs_of(s@));
            }
            out
        } else {
            let chunk = s.substring_char(0, f);
            let rest = s.substring_char(f + 1, n);
            proof {
                assert(chunk@ =~= s@.take(f as int));
                assert(rest@ =~= s@.skip(f as int + 1));
            }
            let mut out = Self::iter(rest);
            if chunk.unicode_len() > 0 {
                let (k, v) = split_once(chunk, FIELD_SEPARATOR);
                out.insert(0, (String::from_str(k), String::from_str(v)));
            }
            proof {
                assert(kv_view(out@) =~~= pairs_of(s@));
            }
            out
        }
    }

    /// Append the rendering of the pairs to `into`: pairs with empty keys
    /// skipped, the rest joined with list separators, a field separator and
    /// value only where the value is non-empty.
    fn concat_into(pairs: &Vec<(String, String)>, into: &mut String)
        ensures
            final(into)@ == old(into)@ + concat_spec(kv_view(pairs@)),
    {
        let ghost ps = kv_view(pairs@);
        let mut first: bool = true;
        let mut i: usize = 0;
        proof {
            reveal(Seq::filter);
            assert(ps.take(0) =~= Seq::<(Seq<char>, Seq<char>)>::empty());
            assert(with_keys(ps.take(0)) =~= Seq::<(Seq<char>, Seq<char>)>::empty());
        }
        while i < pairs.len()
            invariant
                i <= pairs@.len(),
                ps == kv_view(pairs@),
                into@ == old(into)@ + joined(with_keys(ps.take(i as int))),
                first <==> with_keys(ps.take(i as int)).len() == 0,
            decreases pairs@.len() - i,
        {
            let ghost p = ps[i as int];
            let ghost pre = with_keys(ps.take(i as int));
            proof {
                assert(p == (pairs@[i as int].0@, pairs@[i as int].1@));
                assert(ps.take(i as int + 1) =~= ps.take(i as int).push(p));
                lemma_with_keys_push(ps.take(i as int), p);
            }
            let k = &pairs[i].0;
            let v = &pairs[i].1;
            if k.as_str().unicode_len() > 0 {
                proof {
                    lemma_joined_push(pre, p);
                }
                if !first {
                    into.append(";");
                    proof {
                        reveal_strlit(";");
                        assert(";"@ =~= seq![LIST_SEPARATOR]);
                    }
                }
                into.append(k.as_str());
                if v.as_str().unicode_len() > 0 {
                    into.append("=");
                    proof {
                        reveal_strlit("=");
                        assert("="@ =~= seq![FIELD_SEPARATOR]);
                    }
                    into.append(v.as_str());
                    proof {
                        assert(render_pair(p) =~= p.0 + seq![FIELD_SEPARATOR] + p.1);
                        assert(into@ =~= old(into)@ + joined(with_keys(ps.take(i as int + 1))));
                    }
                } else {
                    proof {
                        assert(render_pair(p) =~= p.0);
                        assert(into@ =~= old(into)@ + joined(with_keys(ps.take(i as int + 1))));
                    }
                }
                first = false;
            }
            i = i + 1;
        }
        proof {
            assert(ps.take(i as int) =~= ps);
        }
    }

    /// The rendering of the pairs as one string, in their given order.
    fn concat(pairs: &Vec<(String, String)>) -> (r: String)
        ensures
            r@ == concat_spec(kv_view(pairs@)),
    {
        let mut into = String::new();
        Self::concat_into(pairs, &mut into);
        into
    }

    /// Whether the keys appear in lexicographic order (adjacent pairs
    /// compare correctly; equal neighbouring keys count as ordered).
    pub fn is_sorted(pairs: &Vec<(String, String)>) -> (r: bool)
        ensures
            r == forall|i: int|
                0 < i < pairs@.len() ==> lex_le(
                    #[trigger] kv_view(pairs@)[i - 1].0,
                    kv_view(pairs@)[i].0,
                ),
    {
        let ghost ps = kv_view(pairs@);
        let mut i: usize = 1;
        if pairs.len() == 0 {
            return true;
        }
        while i < pairs.len()
            invariant
                1 <= i,
                pairs@.len() > 0,
                i <= pairs@.len(),
                ps == kv_view(pairs@),
                forall|j: int| 0 < j < i ==> lex_le(#[trigger] ps[j - 1].0, ps[j].0),
            decreases pairs@.len() - i,
        {
            proof {
                assert(ps[i as int] == (pairs@[i as int].0@, pairs@[i as int].1@));
                assert(ps[i as int - 1] == (pairs@[i as int - 1].0@, pairs@[i as int - 1].1@));
            }
            if !str_lex_le(pairs[i - 1].0.as_str(), pairs[i].0.as_str()) {
                proof {
                    assert(!lex_le(kv_view(pairs@)[i as int - 1].0, kv_view(pairs@)[i as int].0));
                }
                return false;
            }
            i = i + 1;
        }
        true
    }

    /// Render the pairs sorted by key into a fresh string.
    pub fn from_iter(pairs: &Vec<(String, String)>) -> (r: String)
        ensures
            r@ == concat_spec(sort_kv(kv_view(pairs@))),
    {
        let mut into = String::new();
        Self::from_iter_into(pairs, &mut into);
        into
    }

    /// Append the rendering of the pairs, sorted by key, to `into`.
    pub fn from_iter_into(pairs: &Vec<(String, String)>, into: &mut String)
        ensures
            final(into)@ == old(into)@ + concat_spec(sort_kv(kv_view(pairs@))),
    {
        let sorted = sort_kv_exec(pairs);
        Self::concat_into(&sorted, into);
    }

    /// Sort the pairs by key in place and render them into a fresh string.
    pub fn from_slice_mut(slice: &mut Vec<(String, String)>) -> (r: String)
        ensures
            kv_view(final(slice)@) == sort_kv(kv_view(old(slice)@)),
            r@ == concat_spec(sort_kv(kv_view(old(slice)@))),
    {
        let mut into = String::new();
        Self::from_slice_mut_into(slice, &mut into);
        into
    }

    /// Sort the pairs by key in place and append their rendering to `into`.
    pub fn from_slice_mut_into(slice: &mut Vec<(String, String)>, into: &mut String)
        ensures
            kv_view(final(slice)@) == sort_kv(kv_view(old(slice)@)),
            final(into)@ == old(into)@ + concat_spec(sort_kv(kv_view(old(slice)@))),
    {
        let sorted = sort_kv_exec(slice);
        *slice = sorted;
        Self::concat_into(slice, into);
    }

    /// The value of the first of the given pairs whose key is `k`, if any.
    fn lookup(pairs: &Vec<(String, String)>, k: &str) -> (r: Option<String>)
        ensures
            r is Some <==> first_value(kv_view(pairs@), k@) is Some,
            r is Some ==> r->0@ == first_value(kv_view(pairs@), k@)->0,
    {
        let ghost ps = kv_view(pairs@);
        proof {
            assert(ps.skip(0) =~= ps);
        }
        let mut i: usize = 0;
        while i < pairs.len()
            invariant
                i <= pairs@.len(),
                ps == kv_view(pairs@),
                first_value(ps, k@) == first_value(ps.skip(i as int), k@),
            decreases pairs@.len() - i,
        {
            proof {
                assert(ps[i as int] == (pairs@[i as int].0@, pairs@[i as int].1@));
                assert(ps.skip(i as int)[0] == ps[i as int]);
                assert(ps.skip(i as int).drop_first() =~= ps.skip(i as int + 1));
            }
            if str_eq(pairs[i].0.as_str(), k) {
                let v = pairs[i].1.clone();
                return Some(v);
            }
            i = i + 1;
        }
        proof {
            assert(ps.skip(i as int) =~= Seq::<(Seq<char>, Seq<char>)>::empty());
        }
        None
    }

    /// A copy of the pairs without those whose key is `k`.
    fn filter_out_key(pairs: &Vec<(String, String)>, k: &str) -> (r: Vec<(String, String)>)
        ensures
            kv_view(r@) == remove_kv(kv_view(pairs@), k@),
    {
        let ghost ps = kv_view(pairs@);
        let mut out: Vec<(String, String)> = Vec::new();
        let mut i: usize = 0;
        proof {
            reveal(Seq::filter);
            assert(ps.take(0) =~= Seq::<(Seq<char>, Seq<char>)>::empty());
            assert(kv_view(out@) =~~= remove_kv(ps.take(0), k@));
        }
        while i < pairs.len()
            invariant
                i <= pairs@.len(),
                ps == kv_view(pairs@),
                kv_view(out@) == remove_kv(ps.take(i as int), k@),
            decreases pairs@.len() - i,
        {
            let ghost p = ps[i as int];
            proof {
                reveal(Seq::filter);
                assert(p == (pairs@[i as int].0@, pairs@[i as int].1@));
                assert(ps.take(i as int + 1).drop_last() =~= ps.take(i as int));
                assert(ps.take(i as int + 1).last() == p);
            }
            if !str_eq(pairs[i].0.as_str(), k) {
                let q = (pairs[i].0.clone(), pairs[i].1.clone());
                out.push(q);
                proof {
                    assert(kv_view(out@) =~~= remove_kv(ps.take(i as int + 1), k@));
                }
            } else {
                proof {
                    assert(kv_view(out@) =~~= remove_kv(ps.take(i as int + 1), k@));
                }
            }
            i = i + 1;
        }
        proof {
            assert(ps.take(i as int) =~= ps);
        }
        out
    }

    /// The string that renders the pairs with `(k, v)` in place of every
    /// pair keyed `k`, sorted by key; beside it the value `k` had in the
    /// first pair that carried it, if any.
    pub fn insert(pairs: &Vec<(String, String)>, k: &str, v: &str) -> (r: (String, Option<String>))
        ensures
            r.0@ == concat_spec(sort_kv(remove_kv(kv_view(pairs@), k@).push((k@, v@)))),
            r.1 is Some <==> first_value(kv_view(pairs@), k@) is Some,
            r.1 is Some ==> r.1->0@ == first_value(kv_view(pairs@), k@)->0,
    {
        let item = Self::lookup(pairs, k);
        let mut kept = Self::filter_out_key(pairs, k);
        kept.push((String::from_str(k), String::from_str(v)));
        proof {
            assert(kv_view(kept@) =~~= remove_kv(kv_view(pairs@), k@).push((k@, v@)));
        }
        let rendered = Self::from_iter(&kept);
        (rendered, item)
    }

    /// The search for `k` consumes every pair up to and including its first
    /// occurrence; what it leaves behind is rendered in order, pairs keyed
    /// `k` filtered out, beside the value of the consumed pair.  When no
    /// pair carries the key, the search consumes everything and nothing is
    /// rendered.
    pub fn remove(pairs: &Vec<(String, String)>, k: &str) -> (r: (String, Option<String>))
        ensures
            r.0@ == concat_spec(remove_kv(after_first_match(kv_view(pairs@), k@), k@)),
            r.1 is Some <==> first_value(kv_view(pairs@), k@) is Some,
            r.1 is Some ==> r.1->0@ == first_value(kv_view(pairs@), k@)->0,
    {
        let ghost ps = kv_view(pairs@);
        let item = Self::lookup(pairs, k);
        let mut i: usize = 0;
        while i < pairs.len()
            invariant
                i <= pairs@.len(),
                ps == kv_view(pairs@),
                forall|j: int| 0 <= j < i ==> (#[trigger] ps[j]).0 != k@,
                item is Some <==> first_value(ps, k@) is Some,
                item is Some ==> item->0@ == first_value(ps, k@)->0,
            decreases pairs@.len() - i,
        {
            proof {
                assert(ps[i as int] == (pairs@[i as int].0@, pairs@[i as int].1@));
            }
            if str_eq(pairs[i].0.as_str(), k) {
                proof {
                    lemma_after_first_match_at(ps, k@, i as int);
                }
                let mut tail: Vec<(String, String)> = Vec::new();
                let mut j: usize = i + 1;
                proof {
                    assert(ps.skip(i as int + 1).take(0) =~= Seq::<(
                        Seq<char>,
                        Seq<char>,
                    )>::empty());
                    assert(kv_view(tail@) =~~= ps.skip(i as int + 1).take(0));
                }
                while j < pairs.len()
                    invariant
                        i < j <= pairs@.len(),
                        ps == kv_view(pairs@),
                        kv_view(tail@) == ps.skip(i as int + 1).take(j - i - 1),
                        after_first_match(ps, k@) == ps.skip(i as int + 1),
                        item is Some <==> first_value(ps, k@) is Some,
                        item is Some ==> item->0@ == first_value(ps, k@)->0,
                    decreases pairs@.len() - j,
                {
                    let q = (pairs[j].0.clone(), pairs[j].1.clone());
                    let ghost prev = tail@;
                    tail.push(q);
                    proof {
                        assert(kv_view(prev).len() == prev.len());
                        assert(prev.len() == j - i - 1);
                        assert(tail@ == prev.push(q));
                        assert forall|t: int| 0 <= t <= j - i - 1 implies kv_view(tail@)[t]
                            == ps.skip(i as int + 1).take(j - i)[t] by {
                            assert(kv_view(tail@)[t] == (tail@[t].0@, tail@[t].1@));
                            if t < j - i - 1 {
                                assert(tail@[t] == prev[t]);
                                assert(kv_view(prev)[t] == (prev[t].0@, prev[t].1@));
                            } else {
                                assert(tail@[t] == q);
                                assert(ps[j as int] == (pairs@[j as int].0@, pairs@[j as int].1@));
                                assert(ps.skip(i as int + 1)[t] == ps[j as int]);
                            }
                        }
                        assert(kv_view(tail@) =~~= ps.skip(i as int + 1).take(j - i));
                    }
                    j = j + 1;
                }
                proof {
                    assert(ps.skip(i as int + 1).take(j - i - 1) =~= ps.skip(i as int + 1));
                }
                let kept = Self::filter_out_key(&tail, k);
                let rendered = Self::concat(&kept);
                return (rendered, item);
            }
            i = i + 1;
        }
        proof {
            reveal(Seq::filter);
            lemma_after_first_match_none(ps, k@);
            assert(remove_kv(after_first_match(ps, k@), k@) =~= Seq::<(
                Seq<char>,
                Seq<char>,
            )>::empty());
        }
        (String::new(), item)
    }

    /// Render `current` followed by `new`, sorted by key, into a fresh
    /// string; with the sort stable, a key present in both keeps `new`'s
    /// pair after `current`'s.
    pub fn extend(current: &Vec<(String, String)>, new: &Vec<(String, String)>) -> (r: String)
        ensures
            r@ == concat_spec(sort_kv(kv_view(current@) + kv_view(new@))),
    {
        let mut into = String::new();
        Self::extend_into(current, new, &mut into);
        into
    }

    /// Append the rendering of `current` followed by `new`, sorted by key,
    /// to `into`.
    pub fn extend_into(
        current: &Vec<(String, String)>,
        new: &Vec<(String, String)>,
        into: &mut String,
    )
        ensures
            final(into)@ == old(into)@ + concat_spec(
                sort_kv(kv_view(current@) + kv_view(new@)),
            ),
    {
        let mut all: Vec<(String, String)> = Vec::new();
        let mut i: usize = 0;
        while i < current.len()
            invariant
                i <= current@.len(),
                kv_view(all@) == kv_view(current@).take(i as int),
            decreases current@.len() - i,
        {
            let q = (current[i].0.clone(), current[i].1.clone());
            let ghost prev = all@;
            all.push(q);
            proof {
                assert(kv_view(prev).len() == prev.len());
                assert(prev.len() == i as int);
                assert(all@ == prev.push(q));
                assert forall|t: int| 0 <= t <= i implies kv_view(all@)[t] == kv_view(
                    current@,
                ).take(i as int + 1)[t] by {
                    assert(kv_view(all@)[t] == (all@[t].0@, all@[t].1@));
                    assert(kv_view(current@)[t] == (current@[t].0@, current@[t].1@));
                    if t < i {
                        assert(all@[t] == prev[t]);
                        assert(kv_view(prev)[t] == (prev[t].0@, prev[t].1@));
                    } else {
                        assert(all@[t] == q);
                    }
                }
                assert(kv_view(all@) =~~= kv_view(current@).take(i as int + 1));
            }
            i = i + 1;
        }
        let mut j: usize = 0;
        while j < new.len()
            invariant
                j <= new@.len(),
                kv_view(all@) == kv_view(current@).take(current@.len() as int) + kv_view(
                    new@,
                ).take(j as int),
            decreases new@.len() - j,
        {
            let q = (new[j].0.clone(), new[j].1.clone());
            let ghost prev = all@;
            let ghost cn = current@.len() as int;
            all.push(q);
            proof {
                assert(kv_view(prev).len() == prev.len());
                assert(prev.len() == cn + j);
                assert(all@ == prev.push(q));
                assert forall|t: int| 0 <= t < cn + j + 1 implies kv_view(all@)[t] == (kv_view(
                    current@,
                ).take(cn) + kv_view(new@).take(j as int + 1))[t] by {
                    assert(kv_view(all@)[t] == (all@[t].0@, all@[t].1@));
                    if t < cn + j {
                        assert(all@[t] == prev[t]);
                        assert(kv_view(prev)[t] == (prev[t].0@, prev[t].1@));
                    } else {
                        assert(all@[t] == q);
                        assert(kv_view(new@)[j as int] == (new@[j as int].0@, new@[j as int].1@));
                    }
                }
                assert(kv_view(all@) =~~= kv_view(current@).take(cn) + kv_view(new@).take(
                    j as int + 1,
                ));
            }
            j = j + 1;
        }
        proof {
            assert(kv_view(all@) =~~= kv_view(current@) + kv_view(new@));
        }
        Self::from_iter_into(&all, into);
    }

    /// Append a randomly drawn parameter string to `into`, leaving what was
    /// there: two to seven pairs, each an alphanumeric key and an
    /// alphanumeric value of two to seven characters, rendered `key=value`
    /// and joined with list separators.
    pub fn rand(into: &mut String)
        ensures
            old(into)@.is_prefix_of(final(into)@),
            exists|ps: Seq<(Seq<char>, Seq<char>)>|
                #![trigger joined(ps)]
                {
                    &&& 2 <= ps.len() <= 7
                    &&& forall|t: int|
                        0 <= t < ps.len() ==> {
                            &&& 2 <= (#[trigger] ps[t]).0.len() <= 7
                            &&& 2 <= ps[t].1.len() <= 7
                            &&& alnum_seq(ps[t].0)
                            &&& alnum_seq(ps[t].1)
                        }
                    &&& final(into)@ == old(into)@ + joined(ps)
                },
    {
        let num = rand_range(2, 8);
        let ghost mut acc: Seq<(Seq<char>, Seq<char>)> = Seq::empty();
        let mut i: usize = 0;
        while i < num
            invariant
                i <= num,
                2 <= num < 8,
                acc.len() == i,
                forall|t: int|
                    0 <= t < acc.len() ==> {
                        &&& 2 <= (#[trigger] acc[t]).0.len() <= 7
                        &&& 2 <= acc[t].1.len() <= 7
                        &&& alnum_seq(acc[t].0)
                        &&& alnum_seq(acc[t].1)
                    },
                into@ == old(into)@ + joined(acc),
            decreases num - i,
        {
            if i != 0 {
                into.append(";");
                proof {
                    reveal_strlit(";");
                    assert(";"@ =~= seq![LIST_SEPARATOR]);
                }
            }
            let klen = rand_range(2, 8);
            let key = rand_alphanumeric(klen);
            into.append(key.as_str());
            into.append("=");
            proof {
                reveal_strlit("=");
                assert("="@ =~= seq![FIELD_SEPARATOR]);
            }
            let vlen = rand_range(2, 8);
            let value = rand_alphanumeric(vlen);
            into.append(value.as_str());
            proof {
                let p = (key@, value@);
                lemma_joined_push(acc, p);
                assert(render_pair(p) =~= key@ + seq![FIELD_SEPARATOR] + value@);
                assert(into@ =~= old(into)@ + joined(acc.push(p)));
                acc = acc.push(p);
            }
            i = i + 1;
        }
        proof {
            assert(into@.subrange(0, old(into)@.len() as int) =~= old(into)@);
        }
    }

    /// The value of the first pair of `s` whose key is `k`, if any.
    pub fn get(s: &str, k: &str) -> (r: Option<String>)
        ensures
            r is Some <==> first_value(pairs_of(s@), k@) is Some,
            r is Some ==> r->0@ == first_value(pairs_of(s@), k@)->0,
    {
        let pairs = Self::iter(s);
        let ghost ps = kv_view(pairs@);
        proof {
            assert(ps.skip(0) =~= ps);
        }
        let mut i: usize = 0;
        while i < pairs.len()
            invariant
                i <= pairs@.len(),
                ps == kv_view(pairs@),
                ps == pairs_of(s@),
                first_value(ps, k@) == first_value(ps.skip(i as int), k@),
            decreases pairs@.len() - i,
        {
            proof {
                assert(ps[i as int] == (pairs@[i as int].0@, pairs@[i as int].1@));
                assert(ps.skip(i as int)[0] == ps[i as int]);
                assert(ps.skip(i as int).drop_first() =~= ps.skip(i as int + 1));
            }
            if str_eq(pairs[i].0.as_str(), k) {
                proof {
                    assert(first_value(ps.skip(i as int), k@) == Some(ps[i as int].1));
                }
                let v = pairs[i].1.clone();
                return Some(v);
            }
            i = i + 1;
        }
        proof {
            assert(ps.skip(i as int) =~= Seq::<(Seq<char>, Seq<char>)>::empty());
        }
        None
    }

    /// The values of the first pair of `s` whose key is `k`, split at value
    /// separators; none when the key is absent.
    pub fn values(s: &str, k: &str) -> (r: Vec<String>)
        ensures
            first_value(pairs_of(s@), k@) is None ==> r@.len() == 0,
            first_value(pairs_of(s@), k@) is Some ==> strs_view(r@) == split_values(
                first_value(pairs_of(s@), k@)->0,
            ),
    {
        match Self::get(s, k) {
            Some(v) => split_values_exec(v.as_str()),
            None => Vec::new(),
        }
    }
}

/// An ASCII letter or digit.
pub open spec fn is_alnum_char(c: char) -> bool {
    ||| 48 <= c as u32 <= 57
    ||| 65 <= c as u32 <= 90
    ||| 97 <= c as u32 <= 122
}

/// Every character is an ASCII letter or digit.
pub open spec fn alnum_seq(s: Seq<char>) -> bool {
    forall|i: int| 0 <= i < s.len() ==> is_alnum_char(#[trigger] s[i])
}

/// Relies on rand's `Rng::gen_range` over `thread_rng`: a number drawn from
/// the half-open range, which panics when the range is empty, so the range
/// must not be.
#[verifier::external_body]
fn rand_range(lo: usize, hi: usize) -> (r: usize)
    requires
        lo < hi,
    ensures
        lo <= r < hi,
{
    rand::thread_rng().gen_range(lo..hi)
}

/// Relies on rand's `Alphanumeric` distribution sampled through
/// `DistString::sample_string`: exactly `len` characters, each an ASCII
/// letter or digit.
#[verifier::external_body]
fn rand_alphanumeric(len: usize) -> (r: String)
    ensures
        r@.len() == len,
        forall|i: int| 0 <= i < r@.len() ==> is_alnum_char(#[trigger] r@[i]),
{
    rand::distributions::DistString::sample_string(
        &rand::distributions::Alphanumeric,
        &mut rand::thread_rng(),
        len,
    )
}

/// The chunks of `s` between value separators, as `split_values` states.
fn split_values_exec(s: &str) -> (r: Vec<String>)
    ensures
        strs_view(r@) == split_values(s@),
    decreases s@.len(),
{
    let n = s.unicode_len();
    let f = find_in_str(s, VALUE_SEPARATOR);
    proof {
        lemma_find_char(s@, VALUE_SEPARATOR);
    }
    if f >= n {
        let mut out: Vec<String> = Vec::new();
        out.push(String::from_str(s));
        proof {
            assert(strs_view(out@) =~~= split_values(s@));
        }
        out
    } else {
        let chunk = s.substring_char(0, f);
        let rest = s.substring_char(f + 1, n);
        proof {
            assert(chunk@ =~= s@.take(f as int));
            assert(rest@ =~= s@.skip(f as int + 1));
        }
        let mut out = split_values_exec(rest);
        out.insert(0, String::from_str(chunk));
        proof {
            assert(strs_view(out@) =~~= split_values(s@));
        }
        out
    }
}

} // verus!
