//! Character-level operations on strings, stated over their views.

use vstd::prelude::*;

verus! {

/// `true` when `a` and `b` hold the same characters.
pub fn same_text(a: &str, b: &str) -> (r: bool)
    ensures
        r == (a@ == b@),
{
    let n = a.unicode_len();
    let m = b.unicode_len();
    if n != m {
        return false;
    }
    let mut i: usize = 0;
    while i < n
        invariant
            n == a@.len(),
            m == b@.len(),
            n == m,
            i <= n,
            forall|j: int| 0 <= j < i ==> a@[j] == b@[j],
        decreases n - i,
    {
        if a.get_char(i) != b.get_char(i) {
            return false;
        }
        i = i + 1;
    }
    assert(a@ =~= b@);
    true
}

/// Lexicographic order on character sequences, comparing code points; the
/// same order in which `str`'s comparison puts UTF-8 strings.
pub open spec fn text_le(a: Seq<char>, b: Seq<char>) -> bool
    decreases a.len(),
{
    if a.len() == 0 {
        true
    } else if b.len() == 0 {
        false
    } else if a[0] != b[0] {
        (a[0] as u32) < (b[0] as u32)
    } else {
        text_le(a.drop_first(), b.drop_first())
    }
}

/// Distinct characters have distinct code points.
pub proof fn lemma_distinct_code_points(x: char, y: char)
    requires
        x != y,
    ensures
        (x as u32) != (y as u32),
{
    broadcast use vstd::utf8::char_u32_cast;

}

/// Any two sequences are ordered one way or the other.
pub proof fn lemma_text_le_total(a: Seq<char>, b: Seq<char>)
    ensures
        text_le(a, b) || text_le(b, a),
    decreases a.len(),
{
    if a.len() > 0 && b.len() > 0 {
        if a[0] == b[0] {
            lemma_text_le_total(a.drop_first(), b.drop_first());
        } else {
            lemma_distinct_code_points(a[0], b[0]);
        }
    }
}

/// The order is transitive.
pub proof fn lemma_text_le_transitive(a: Seq<char>, b: Seq<char>, c: Seq<char>)
    requires
        text_le(a, b),
        text_le(b, c),
    ensures
        text_le(a, c),
    decreases a.len(),
{
    if a.len() > 0 && b.len() > 0 && c.len() > 0 && a[0] == b[0] && b[0] == c[0] {
        lemma_text_le_transitive(a.drop_first(), b.drop_first(), c.drop_first());
    }
}

/// The order is antisymmetric.
pub proof fn lemma_text_le_antisymmetric(a: Seq<char>, b: Seq<char>)
    requires
        text_le(a, b),
        text_le(b, a),
    ensures
        a == b,
    decreases a.len(),
{
    if a.len() > 0 && b.len() > 0 {
        if a[0] == b[0] {
            lemma_text_le_antisymmetric(a.drop_first(), b.drop_first());
            assert(a =~= seq![a[0]] + a.drop_first());
            assert(b =~= seq![b[0]] + b.drop_first());
        } else {
            lemma_distinct_code_points(a[0], b[0]);
        }
    } else {
        assert(a =~= b);
    }
}

/// `true` when `a` comes no later than `b` in the order [`text_le`].
pub fn text_less_or_equal(a: &str, b: &str) -> (r: bool)
    ensures
        r == text_le(a@, b@),
{
    let n = a.unicode_len();
    let m = b.unicode_len();
    let mut i: usize = 0;
    assert(a@.subrange(0, n as int) =~= a@);
    assert(b@.subrange(0, m as int) =~= b@);
    while i < n && i < m
        invariant
            n == a@.len(),
            m == b@.len(),
            i <= n,
            i <= m,
            text_le(a@, b@) == text_le(a@.subrange(i as int, n as int), b@.subrange(i as int, m as int)),
        decreases n - i,
    {
        let x = a.get_char(i);
        let y = b.get_char(i);
        proof {
            let sa = a@.subrange(i as int, n as int);
            let sb = b@.subrange(i as int, m as int);
            assert(sa.drop_first() =~= a@.subrange(i + 1, n as int));
            assert(sb.drop_first() =~= b@.subrange(i + 1, m as int));
        }
        if x != y {
            return (x as u32) < (y as u32);
        }
        i = i + 1;
    }
    i == n
}

/// `true` when `p` is a prefix of `s`.
pub fn has_prefix(s: &str, p: &str) -> (r: bool)
    ensures
        r == p@.is_prefix_of(s@),
{
    let n = s.unicode_len();
    let k = p.unicode_len();
    if k > n {
        return false;
    }
    let mut i: usize = 0;
    while i < k
        invariant
            n == s@.len(),
            k == p@.len(),
            k <= n,
            i <= k,
            forall|j: int| 0 <= j < i ==> p@[j] == s@[j],
        decreases k - i,
    {
        if s.get_char(i) != p.get_char(i) {
            return false;
        }
        i = i + 1;
    }
    assert(p@ =~= s@.subrange(0, k as int));
    true
}

} // verus!
