//! Character-level operations on names: substring search and name order.

use vstd::prelude::*;
use unicode_width::UnicodeWidthStr;

verus! {

/// `p` occurs in `s` at position `i`.
pub open spec fn occurs_at(p: Seq<char>, s: Seq<char>, i: int) -> bool {
    0 <= i && i + p.len() <= s.len() && s.subrange(i, i + p.len()) == p
}

/// `p` occurs somewhere in `s`.
pub open spec fn is_substring(p: Seq<char>, s: Seq<char>) -> bool {
    exists|i: int| #[trigger] occurs_at(p, s, i)
}

/// Lexicographic order on character sequences, a prefix first.
pub open spec fn lex_le(a: Seq<char>, b: Seq<char>) -> bool
    decreases a.len(),
{
    if a.len() == 0 {
        true
    } else if b.len() == 0 {
        false
    } else if a[0] != b[0] {
        a[0] < b[0]
    } else {
        lex_le(a.drop_first(), b.drop_first())
    }
}

pub proof fn lemma_lex_total(a: Seq<char>, b: Seq<char>)
    ensures
        lex_le(a, b) || lex_le(b, a),
    decreases a.len(),
{
    if a.len() > 0 && b.len() > 0 && a[0] == b[0] {
        lemma_lex_total(a.drop_first(), b.drop_first());
    }
}

proof fn lemma_lex_skip(a: Seq<char>, b: Seq<char>, i: int)
    requires
        0 <= i < a.len(),
        i < b.len(),
        a[i] == b[i],
    ensures
        lex_le(a.skip(i), b.skip(i)) == lex_le(a.skip(i + 1), b.skip(i + 1)),
{
    assert(a.skip(i).drop_first() =~= a.skip(i + 1));
    assert(b.skip(i).drop_first() =~= b.skip(i + 1));
}

/// Whether `a` comes no later than `b` in name order.
pub fn name_le(a: &str, b: &str) -> (r: bool)
    ensures
        r == lex_le(a@, b@),
{
    let n: usize = a.unicode_len();
    let m: usize = b.unicode_len();
    let mut i: usize = 0;
    assert(a@.skip(0) =~= a@);
    assert(b@.skip(0) =~= b@);
    while i < n && i < m
        invariant
            n == a@.len(),
            m == b@.len(),
            i <= n,
            i <= m,
            lex_le(a@, b@) == lex_le(a@.skip(i as int), b@.skip(i as int)),
        decreases n - i,
    {
        let x = a.get_char(i);
        let y = b.get_char(i);
        if x != y {
            return x < y;
        }
        proof {
            lemma_lex_skip(a@, b@, i as int);
        }
        i = i + 1;
    }
    i == n
}

fn occurs_here(p: &str, s: &str, i: usize, m: usize, n: usize) -> (r: bool)
    requires
        m == p@.len(),
        n == s@.len(),
        i + m <= n,
    ensures
        r == occurs_at(p@, s@, i as int),
{
    let mut j: usize = 0;
    while j < m
        invariant
            m == p@.len(),
            n == s@.len(),
            i + m <= n,
            j <= m,
            forall|k: int| 0 <= k < j ==> s@[i + k] == p@[k],
        decreases m - j,
    {
        if s.get_char(i + j) != p.get_char(j) {
            assert(s@.subrange(i as int, i + m)[j as int] != p@[j as int]);
            return false;
        }
        j = j + 1;
    }
    assert(s@.subrange(i as int, i + m) =~= p@);
    true
}

/// Whether `pattern` occurs in `text`.
pub fn contains_str(text: &str, pattern: &str) -> (r: bool)
    ensures
        r == is_substring(pattern@, text@),
{
    let n: usize = text.unicode_len();
    let m: usize = pattern.unicode_len();
    if m > n {
        return false;
    }
    let mut i: usize = 0;
    loop
        invariant
            m == pattern@.len(),
            n == text@.len(),
            m <= n,
            i <= n - m,
            forall|k: int| 0 <= k < i ==> !occurs_at(pattern@, text@, k),
        decreases n - m - i,
    {
        if occurs_here(pattern, text, i, m, n) {
            return true;
        }
        if i == n - m {
            return false;
        }
        i = i + 1;
    }
}

/// The columns `unicode_width` gives a string, ambiguous characters wide.
pub uninterp spec fn cjk_width_of(s: Seq<char>) -> usize;

/// Relies on `unicode_width::UnicodeWidthStr::width_cjk`: the displayed
/// width depends on the characters alone.
#[verifier::external_body]
fn cjk_width(s: &str) -> (r: usize)
    ensures
        r == cjk_width_of(s@),
{
    s.width_cjk()
}

/// `text` cut after the longest run of leading characters, taken one by
/// one, that fits in `width` columns.
pub fn sized_string(text: &str, width: usize) -> (r: String)
    ensures
        r@.len() <= text@.len(),
        r@ == text@.subrange(0, r@.len() as int),
        forall|j: int| 0 < j <= r@.len() ==> cjk_width_of(#[trigger] text@.subrange(0, j)) <= width,
        r@.len() < text@.len() ==> cjk_width_of(text@.subrange(0, r@.len() + 1 as int)) > width,
{
    let n: usize = text.unicode_len();
    let mut k: usize = 0;
    loop
        invariant
            n == text@.len(),
            k <= n,
            forall|j: int| 0 < j <= k ==> cjk_width_of(#[trigger] text@.subrange(0, j)) <= width,
        ensures
            k <= n,
            forall|j: int| 0 < j <= k ==> cjk_width_of(#[trigger] text@.subrange(0, j)) <= width,
            k < n ==> cjk_width_of(text@.subrange(0, k + 1)) > width,
        decreases n - k,
    {
        if k == n {
            break;
        }
        let longer = text.substring_char(0, k + 1);
        if cjk_width(longer) > width {
            break;
        }
        k = k + 1;
    }
    text.substring_char(0, k).to_owned()
}

} // verus!
