//! Character-level helpers on file names: prefix and suffix tests and a
//! lexicographic order.
use vstd::prelude::*;

verus! {

/// `s` begins with `p`.
pub open spec fn has_prefix(s: Seq<char>, p: Seq<char>) -> bool {
    p.len() <= s.len() && s.subrange(0, p.len() as int) == p
}

/// `s` ends with `p`.
pub open spec fn has_suffix(s: Seq<char>, p: Seq<char>) -> bool {
    p.len() <= s.len() && s.subrange(s.len() - p.len(), s.len() as int) == p
}

/// Whether `s` begins with `p`.
pub fn starts_with(s: &str, p: &str) -> (r: bool)
    ensures
        r == has_prefix(s@, p@),
{
    let n = s.unicode_len();
    let m = p.unicode_len();
    if m > n {
        return false;
    }
    let mut i: usize = 0;
    while i < m
        invariant
            m <= n,
            n == s@.len(),
            m == p@.len(),
            i <= m,
            forall|j: int| 0 <= j < i ==> s@[j] == p@[j],
        decreases m - i,
    {
        if s.get_char(i) != p.get_char(i) {
            assert(s@.subrange(0, m as int)[i as int] != p@[i as int]);
            return false;
        }
        i = i + 1;
    }
    assert(s@.subrange(0, m as int) =~= p@);
    true
}

/// Whether `a` and `b` are the same text.
pub fn same_text(a: &str, b: &str) -> (r: bool)
    ensures
        r == (a@ == b@),
{
    if a.unicode_len() != b.unicode_len() {
        return false;
    }
    let r = starts_with(a, b);
    if r {
        assert(a@.subrange(0, b@.len() as int) == b@);
        assert(a@ =~= a@.subrange(0, b@.len() as int));
    } else {
        assert(a@.subrange(0, a@.len() as int) =~= a@);
    }
    r
}

/// Whether `s` ends with `p`.
pub fn ends_with(s: &str, p: &str) -> (r: bool)
    ensures
        r == has_suffix(s@, p@),
{
    let n = s.unicode_len();
    let m = p.unicode_len();
    if m > n {
        return false;
    }
    let off = n - m;
    let mut i: usize = 0;
    while i < m
        invariant
            m <= n,
            off == n - m,
            n == s@.len(),
            m == p@.len(),
            i <= m,
            forall|j: int| 0 <= j < i ==> s@[off + j] == p@[j],
        decreases m - i,
    {
        if s.get_char(off + i) != p.get_char(i) {
            assert(s@.subrange(off as int, n as int)[i as int] != p@[i as int]);
            return false;
        }
        i = i + 1;
    }
    assert(s@.subrange(off as int, n as int) =~= p@);
    true
}


/// The characters of each string, in order.
pub open spec fn texts(v: Seq<String>) -> Seq<Seq<char>> {
    v.map_values(|s: String| s@)
}

/// Lexicographic order on character sequences, characters compared by
/// their code points (the order of the UTF-8 bytes of two file names).
pub open spec fn lex_le(a: Seq<char>, b: Seq<char>) -> bool
    decreases a.len(),
{
    if a.len() == 0 {
        true
    } else if b.len() == 0 {
        false
    } else if a[0] != b[0] {
        (a[0] as u32) < (b[0] as u32)
    } else {
        lex_le(a.drop_first(), b.drop_first())
    }
}

/// Every element is at most every later one.
pub open spec fn is_sorted(s: Seq<Seq<char>>) -> bool {
    forall|i: int, j: int| 0 <= i < j < s.len() ==> lex_le(#[trigger] s[i], #[trigger] s[j])
}

/// Any two sequences are comparable.
pub proof fn lemma_lex_total(a: Seq<char>, b: Seq<char>)
    ensures
        lex_le(a, b) || lex_le(b, a),
    decreases a.len(),
{
    if a.len() > 0 && b.len() > 0 {
        if a[0] == b[0] {
            lemma_lex_total(a.drop_first(), b.drop_first());
        } else {
            vstd::utf8::char_u32_cast(a[0], a[0] as u32);
            vstd::utf8::char_u32_cast(b[0], b[0] as u32);
        }
    }
}

/// The order is transitive.
pub proof fn lemma_lex_trans(a: Seq<char>, b: Seq<char>, c: Seq<char>)
    requires
        lex_le(a, b),
        lex_le(b, c),
    ensures
        lex_le(a, c),
    decreases a.len(),
{
    if a.len() > 0 && b.len() > 0 && c.len() > 0 && a[0] == b[0] && b[0] == c[0] {
        lemma_lex_trans(a.drop_first(), b.drop_first(), c.drop_first());
    }
}

/// Whether `a` comes before `b`, or equals it.
pub fn name_le(a: &str, b: &str) -> (r: bool)
    ensures
        r == lex_le(a@, b@),
{
    let n = a.unicode_len();
    let m = b.unicode_len();
    let mut i: usize = 0;
    assert(a@.skip(0) =~= a@);
    assert(b@.skip(0) =~= b@);
    while i < n && i < m
        invariant
            n == a@.len(),
            m == b@.len(),
            i <= n,
            i <= m,
            lex_le(a@, b@) == lex_le(a@.skip(i as int), b@.skip(i as int)),
        decreases n - i,
    {
        let x = a.get_char(i);
        let y = b.get_char(i);
        assert(a@.skip(i as int)[0] == x);
        assert(b@.skip(i as int)[0] == y);
        if x != y {
            return (x as u32) < (y as u32);
        }
        assert(a@.skip(i as int).drop_first() =~= a@.skip(i + 1));
        assert(b@.skip(i as int).drop_first() =~= b@.skip(i + 1));
        i = i + 1;
    }
    i == n
}

/// The strings of `v` in ascending lexicographic order.
pub fn sort_names(v: Vec<String>) -> (r: Vec<String>)
    ensures
        is_sorted(texts(r@)),
        texts(r@).to_multiset() == texts(v@).to_multiset(),
{
    broadcast use vstd::seq_lib::to_multiset_build, vstd::seq_lib::to_multiset_insert;

    let mut r: Vec<String> = Vec::new();
    let mut i: usize = 0;
    let n = v.len();
    assert(texts(r@) =~= Seq::<Seq<char>>::empty());
    assert(texts(v@).take(0) =~= Seq::<Seq<char>>::empty());
    while i < n
        invariant
            n == v.len(),
            i <= n,
            is_sorted(texts(r@)),
            texts(r@).to_multiset() == texts(v@).take(i as int).to_multiset(),
        decreases n - i,
    {
        let x = v[i].clone();
        let ghost xs = x@;
        let ghost before = texts(r@);
        let mut k: usize = 0;
        while k < r.len() && !name_le(x.as_str(), r[k].as_str())
            invariant
                k <= r.len(),
                before == texts(r@),
                xs == x@,
                forall|j: int| 0 <= j < k ==> !lex_le(xs, #[trigger] before[j]),
            decreases r.len() - k,
        {
            k = k + 1;
        }
        proof {
            assert forall|j: int| 0 <= j < k implies lex_le(#[trigger] before[j], xs) by {
                lemma_lex_total(xs, before[j]);
            }
            if k < before.len() {
                assert forall|j: int| k <= j < before.len() implies lex_le(xs, #[trigger] before[j]) by {
                    if j > k {
                        lemma_lex_trans(xs, before[k as int], before[j]);
                    }
                }
            }
        }
        r.insert(k, x);
        proof {
            let after = texts(r@);
            assert(after =~= before.insert(k as int, xs));
            before.insert_ensures(k as int, xs);
            vstd::seq_lib::to_multiset_insert(before, k as int, xs);
            assert forall|a: int, b: int| 0 <= a < b < after.len() implies lex_le(
                #[trigger] after[a],
                #[trigger] after[b],
            ) by {
                if a < k && b == k {
                } else if a == k {
                } else if a < k && b < k {
                } else if a < k {
                    let bb = b - 1;
                    assert(after[bb + 1] == before[bb]);
                } else {
                    let aa = a - 1;
                    let bb = b - 1;
                    assert(after[aa + 1] == before[aa]);
                    assert(after[bb + 1] == before[bb]);
                }
            }
            assert(texts(v@).take(i + 1) =~= texts(v@).take(i as int).push(xs));
            vstd::seq_lib::to_multiset_build(texts(v@).take(i as int), xs);
        }
        i = i + 1;
    }
    assert(texts(v@).take(n as int) =~= texts(v@));
    r
}

} // verus!
