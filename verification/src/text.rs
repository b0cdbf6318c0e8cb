//! Character-level helpers on strings, and the lexicographic order that
//! sorting uses.
use vstd::prelude::*;

verus! {

/// An ASCII decimal digit.
pub open spec fn is_digit(c: char) -> bool {
    '0' <= c && c <= '9'
}

/// Executable test for [`is_digit`].
pub fn char_is_digit(c: char) -> (r: bool)
    ensures
        r == is_digit(c),
{
    '0' <= c && c <= '9'
}

/// The characters of `s`, in order.
pub fn chars_of(s: &str) -> (v: Vec<char>)
    ensures
        v@ == s@,
{
    let mut v: Vec<char> = Vec::new();
    for c in it: s.chars()
        invariant
            v@ == it.seq().take(it.index() as int),
            it.seq() == s@,
    {
        v.push(c);
    }
    v
}

/// Appends the characters of `s` to `out`.
pub fn push_text(out: &mut Vec<char>, s: &str)
    ensures
        final(out)@ == old(out)@ + s@,
{
    let chars = chars_of(s);
    let ghost before = out@;
    let mut i: usize = 0;
    while i < chars.len()
        invariant
            i <= chars.len(),
            chars@ == s@,
            out@ == before + chars@.take(i as int),
        decreases chars.len() - i,
    {
        out.push(chars[i]);
        proof {
            assert(chars@.take(i + 1) =~= chars@.take(i as int).push(chars@[i as int]));
        }
        i = i + 1;
    }
    proof {
        assert(chars@.take(chars.len() as int) =~= chars@);
    }
}

/// Collects characters into a `String` (std's `FromIterator<char>`).
#[verifier::external_body]
pub(crate) fn string_from_chars(v: &Vec<char>) -> (s: String)
    ensures
        s@ == v@,
{
    v.iter().collect()
}

/// Strict lexicographic order on integer sequences: the first differing
/// element decides, and a proper prefix comes first.
pub open spec fn lex_lt(a: Seq<int>, b: Seq<int>) -> bool
    decreases a.len(),
{
    if b.len() == 0 {
        false
    } else if a.len() == 0 {
        true
    } else if a[0] != b[0] {
        a[0] < b[0]
    } else {
        lex_lt(a.drop_first(), b.drop_first())
    }
}

/// Code points of a character sequence. Comparing these lexicographically is
/// the same as comparing the UTF-8 bytes, which is how `str` orders.
pub open spec fn code_points(s: Seq<char>) -> Seq<int> {
    s.map_values(|c: char| c as int)
}

/// `str` ordering of two texts.
pub open spec fn text_lt(a: Seq<char>, b: Seq<char>) -> bool {
    lex_lt(code_points(a), code_points(b))
}

pub proof fn lemma_lex_lt_irreflexive(a: Seq<int>)
    ensures
        !lex_lt(a, a),
    decreases a.len(),
{
    if a.len() > 0 {
        lemma_lex_lt_irreflexive(a.drop_first());
    }
}

pub proof fn lemma_lex_lt_transitive(a: Seq<int>, b: Seq<int>, c: Seq<int>)
    requires
        lex_lt(a, b),
        lex_lt(b, c),
    ensures
        lex_lt(a, c),
    decreases a.len(),
{
    if a.len() > 0 && b.len() > 0 && c.len() > 0 && a[0] == b[0] && b[0] == c[0] {
        lemma_lex_lt_transitive(a.drop_first(), b.drop_first(), c.drop_first());
    }
}

pub proof fn lemma_lex_lt_trichotomy(a: Seq<int>, b: Seq<int>)
    ensures
        lex_lt(a, b) || a == b || lex_lt(b, a),
    decreases a.len(),
{
    if a.len() > 0 && b.len() > 0 && a[0] == b[0] {
        lemma_lex_lt_trichotomy(a.drop_first(), b.drop_first());
        if a.drop_first() == b.drop_first() {
            assert(a =~= seq![a[0]] + a.drop_first());
            assert(b =~= seq![b[0]] + b.drop_first());
        }
    } else if a.len() == 0 && b.len() == 0 {
        assert(a =~= b);
    }
}

/// Lexicographic comparison of two character vectors by code point.
pub fn chars_lt(a: &Vec<char>, b: &Vec<char>) -> (r: bool)
    ensures
        r == text_lt(a@, b@),
{
    let mut i: usize = 0;
    while i < a.len() && i < b.len() && a[i] == b[i]
        invariant
            i <= a.len(),
            i <= b.len(),
            forall|k: int| 0 <= k < i ==> a@[k] == b@[k],
        decreases a.len() - i,
    {
        i = i + 1;
    }
    proof {
        lemma_lex_lt_suffix(code_points(a@), code_points(b@), i as int);
        assert(code_points(a@).skip(i as int) =~= code_points(a@.skip(i as int)));
        assert(code_points(b@).skip(i as int) =~= code_points(b@.skip(i as int)));
    }
    if i < a.len() && i < b.len() {
        a[i] < b[i]
    } else {
        i < b.len()
    }
}

/// Comparing two sequences that agree on their first `n` elements is the
/// same as comparing what follows.
pub proof fn lemma_lex_lt_suffix(a: Seq<int>, b: Seq<int>, n: int)
    requires
        0 <= n <= a.len(),
        n <= b.len(),
        forall|k: int| 0 <= k < n ==> a[k] == b[k],
    ensures
        lex_lt(a, b) == lex_lt(a.skip(n), b.skip(n)),
    decreases n,
{
    if n > 0 {
        lemma_lex_lt_suffix(a.drop_first(), b.drop_first(), n - 1);
        assert(a.drop_first().skip(n - 1) =~= a.skip(n));
        assert(b.drop_first().skip(n - 1) =~= b.skip(n));
    } else {
        assert(a.skip(0) =~= a);
        assert(b.skip(0) =~= b);
    }
}

/// Values of a sequence of `u64`, as integers.
pub open spec fn u64_values(s: Seq<u64>) -> Seq<int> {
    s.map_values(|v: u64| v as int)
}

/// Lexicographic comparison of two `u64` vectors, as `Vec<u64>` orders.
pub fn u64s_lt(a: &Vec<u64>, b: &Vec<u64>) -> (r: bool)
    ensures
        r == lex_lt(u64_values(a@), u64_values(b@)),
{
    let mut i: usize = 0;
    while i < a.len() && i < b.len() && a[i] == b[i]
        invariant
            i <= a.len(),
            i <= b.len(),
            forall|k: int| 0 <= k < i ==> a@[k] == b@[k],
        decreases a.len() - i,
    {
        i = i + 1;
    }
    proof {
        lemma_lex_lt_suffix(u64_values(a@), u64_values(b@), i as int);
        assert(u64_values(a@).skip(i as int) =~= u64_values(a@.skip(i as int)));
        assert(u64_values(b@).skip(i as int) =~= u64_values(b@.skip(i as int)));
    }
    if i < a.len() && i < b.len() {
        a[i] < b[i]
    } else {
        i < b.len()
    }
}

/// Strict order on optional texts (as code points): absent first, then
/// lexicographic, as `Option<String>` orders.
pub open spec fn opt_lex_lt(a: Option<Seq<int>>, b: Option<Seq<int>>) -> bool {
    match (a, b) {
        (None, Some(_)) => true,
        (Some(x), Some(y)) => lex_lt(x, y),
        _ => false,
    }
}

/// Code points of an optional text.
pub open spec fn opt_code_points(s: Option<Seq<char>>) -> Option<Seq<int>> {
    match s {
        Some(t) => Some(code_points(t)),
        None => None,
    }
}

pub proof fn lemma_opt_lex_lt_order(a: Option<Seq<int>>, b: Option<Seq<int>>, c: Option<Seq<int>>)
    ensures
        !opt_lex_lt(a, a),
        opt_lex_lt(a, b) && opt_lex_lt(b, c) ==> opt_lex_lt(a, c),
        opt_lex_lt(a, b) || a == b || opt_lex_lt(b, a),
{
    match (a, b, c) {
        (Some(x), Some(y), Some(z)) => {
            lemma_lex_lt_irreflexive(x);
            lemma_lex_lt_trichotomy(x, y);
            if lex_lt(x, y) && lex_lt(y, z) {
                lemma_lex_lt_transitive(x, y, z);
            }
        },
        (Some(x), _, _) => {
            lemma_lex_lt_irreflexive(x);
            if let Some(y) = b {
                lemma_lex_lt_trichotomy(x, y);
            }
        },
        _ => {},
    }
}

/// Lexicographic comparison of two optional texts (absent first), as
/// `Option<String>` orders.
pub fn opt_text_lt(a: &Option<String>, b: &Option<String>) -> (r: bool)
    ensures
        r == opt_lex_lt(opt_code_points(a.deep_view()), opt_code_points(b.deep_view())),
{
    match (a, b) {
        (None, Some(_)) => true,
        (Some(x), Some(y)) => chars_lt(&chars_of(x.as_str()), &chars_of(y.as_str())),
        _ => false,
    }
}

/// Equal code points mean equal text.
pub proof fn lemma_code_points_injective(a: Seq<char>, b: Seq<char>)
    requires
        code_points(a) == code_points(b),
    ensures
        a == b,
{
    assert(a.len() == code_points(a).len());
    assert(b.len() == code_points(b).len());
    assert forall|k: int| 0 <= k < a.len() implies a[k] == b[k] by {
        assert(code_points(a)[k] == a[k] as int);
        assert(code_points(b)[k] == b[k] as int);
    }
    assert(a =~= b);
}

} // verus!
