//! Text as sequences of chars: search, replacement, trimming, and the char-level facts
//! they rest on.
use vstd::prelude::*;
use vstd::string::*;

verus! {

broadcast use vstd::string::group_string_axioms;

/// `String::push`. Claimed: afterwards the string is the old one with `c` appended.
#[verifier::external_body]
pub(crate) fn push_char(s: &mut String, c: char)
    ensures
        final(s)@ == old(s)@.push(c),
{
    s.push(c)
}

/// The chars of a string slice, in order.
pub fn chars_of(s: &str) -> (v: Vec<char>)
    ensures
        v@ == s@,
{
    let mut v: Vec<char> = Vec::new();
    for c in it: s.chars()
        invariant
            v@ == it.seq().take(it.index() as int),
    {
        v.push(c);
    }
    v
}

/// Whether `pat` stands in `s` at index `i`.
pub open spec fn occurs_at(s: Seq<char>, pat: Seq<char>, i: int) -> bool {
    &&& 0 <= i
    &&& i + pat.len() <= s.len()
    &&& s.subrange(i, i + pat.len()) == pat
}

/// The first index at or after `i` where `pat` stands in `s`.
pub open spec fn first_match_from(s: Seq<char>, pat: Seq<char>, i: int) -> Option<int>
    decreases s.len() - i,
{
    if i < 0 || i + pat.len() > s.len() {
        None
    } else if occurs_at(s, pat, i) {
        Some(i)
    } else if i >= s.len() {
        None
    } else {
        first_match_from(s, pat, i + 1)
    }
}

/// The first index where `pat` stands in `s`.
pub open spec fn first_match(s: Seq<char>, pat: Seq<char>) -> Option<int> {
    first_match_from(s, pat, 0)
}

/// `s` from index `i` on, with each occurrence of `pat` replaced by `rep`:
/// occurrences are taken leftmost first and do not overlap; an empty `pat`
/// matches before every char and at the end.
pub open spec fn replaced_from(s: Seq<char>, pat: Seq<char>, rep: Seq<char>, i: int) -> Seq<char>
    decreases s.len() - i,
{
    if i < 0 || i > s.len() {
        Seq::empty()
    } else if pat.len() == 0 {
        if i == s.len() {
            rep
        } else {
            rep + seq![s[i]] + replaced_from(s, pat, rep, i + 1)
        }
    } else if i == s.len() {
        Seq::empty()
    } else if occurs_at(s, pat, i) {
        rep + replaced_from(s, pat, rep, i + pat.len())
    } else {
        seq![s[i]] + replaced_from(s, pat, rep, i + 1)
    }
}

/// `s` with every occurrence of `pat` replaced by `rep` (what `str::replace` returns).
pub open spec fn replaced(s: Seq<char>, pat: Seq<char>, rep: Seq<char>) -> Seq<char> {
    replaced_from(s, pat, rep, 0)
}

/// Whether `pat` stands in `v` at index `i`.
pub fn matches_at(v: &Vec<char>, pat: &Vec<char>, i: usize) -> (b: bool)
    requires
        i <= v.len(),
    ensures
        b == occurs_at(v@, pat@, i as int),
{
    if pat.len() > v.len() - i {
        return false;
    }
    let mut k: usize = 0;
    while k < pat.len()
        invariant
            k <= pat.len(),
            i + pat.len() <= v.len(),
            forall|j: int| 0 <= j < k ==> v@[i + j] == pat@[j],
        decreases pat.len() - k,
    {
        if v[i + k] != pat[k] {
            assert(v@.subrange(i as int, i + pat.len())[k as int] != pat@[k as int]);
            return false;
        }
        k += 1;
    }
    assert(v@.subrange(i as int, i + pat.len()) =~= pat@);
    true
}

/// The first index at or after `start` where `pat` stands in `v`.
pub fn find_from(v: &Vec<char>, pat: &Vec<char>, start: usize) -> (r: Option<usize>)
    requires
        start <= v.len(),
    ensures
        match r {
            Some(j) => first_match_from(v@, pat@, start as int) == Some(j as int),
            None => first_match_from(v@, pat@, start as int) is None,
        },
{
    let mut i = start;
    while i <= v.len()
        invariant
            start <= i,
            first_match_from(v@, pat@, i as int) == first_match_from(v@, pat@, start as int),
        decreases v.len() + 1 - i,
    {
        if pat.len() > v.len() - i {
            return None;
        }
        if matches_at(v, pat, i) {
            return Some(i);
        }
        if i == v.len() {
            return None;
        }
        i += 1;
    }
    None
}

/// `s` with every occurrence of `pat` replaced by `rep`, as `str::replace` does.
pub fn replace_all(s: &str, pat: &str, rep: &str) -> (r: String)
    ensures
        r@ == replaced(s@, pat@, rep@),
{
    let sv = chars_of(s);
    let pv = chars_of(pat);
    let mut out = String::new();
    let mut i: usize = 0;
    if pv.len() == 0 {
        while i < sv.len()
            invariant
                i <= sv.len(),
                pv@.len() == 0,
                out@ + replaced_from(sv@, pv@, rep@, i as int) == replaced(sv@, pv@, rep@),
            decreases sv.len() - i,
        {
            let ghost before = out@;
            out.append(rep);
            push_char(&mut out, sv[i]);
            assert(before + (rep@ + seq![sv@[i as int]] + replaced_from(sv@, pv@, rep@, i + 1))
                =~= out@ + replaced_from(sv@, pv@, rep@, i + 1));
            i += 1;
        }
        out.append(rep);
    } else {
        while i < sv.len()
            invariant
                i <= sv.len(),
                pv@.len() > 0,
                out@ + replaced_from(sv@, pv@, rep@, i as int) == replaced(sv@, pv@, rep@),
            decreases sv.len() - i,
        {
            let ghost before = out@;
            if matches_at(&sv, &pv, i) {
                out.append(rep);
                assert(before + (rep@ + replaced_from(sv@, pv@, rep@, i + pv@.len()))
                    =~= out@ + replaced_from(sv@, pv@, rep@, i + pv@.len()));
                i += pv.len();
            } else {
                push_char(&mut out, sv[i]);
                assert(before + (seq![sv@[i as int]] + replaced_from(sv@, pv@, rep@, i + 1))
                    =~= out@ + replaced_from(sv@, pv@, rep@, i + 1));
                i += 1;
            }
        }
        assert(out@ + Seq::<char>::empty() =~= out@);
    }
    out
}


/// Whether `c` has the Unicode `White_Space` property (what `char::is_whitespace` answers):
/// `'\t'` to `'\r'`, the space, U+0085, U+00A0, U+1680, U+2000 to U+200A, U+2028, U+2029,
/// U+202F, U+205F and U+3000.
pub open spec fn is_white_space(c: char) -> bool {
    ||| ('\t' <= c && c <= '\r')
    ||| c == ' '
    ||| c == '\u{85}'
    ||| c == '\u{a0}'
    ||| c == '\u{1680}'
    ||| ('\u{2000}' <= c && c <= '\u{200a}')
    ||| c == '\u{2028}'
    ||| c == '\u{2029}'
    ||| c == '\u{202f}'
    ||| c == '\u{205f}'
    ||| c == '\u{3000}'
}

/// What `char::to_uppercase` yields for a char, as a sequence of chars.
pub uninterp spec fn upper_case_of(c: char) -> Seq<char>;

/// Whether `c` is white space.
pub fn char_is_white_space(c: char) -> (b: bool)
    ensures
        b == is_white_space(c),
{
    ('\t' <= c && c <= '\r') || c == ' ' || c == '\u{85}' || c == '\u{a0}' || c == '\u{1680}'
        || ('\u{2000}' <= c && c <= '\u{200a}') || c == '\u{2028}' || c == '\u{2029}' || c
        == '\u{202f}' || c == '\u{205f}' || c == '\u{3000}'
}

/// `char::to_uppercase`, collected into a `String`. Claimed: the chars are the named
/// `upper_case_of`; an ASCII lower-case letter maps to its upper-case letter, and every
/// other ASCII char maps to itself.
#[verifier::external_body]
pub(crate) fn char_to_upper_case(c: char) -> (r: String)
    ensures
        r@ == upper_case_of(c),
        ('a' <= c && c <= 'z') ==> r@ == seq![((c as int) - 32) as char],
        (c <= '\x7f' && !('a' <= c && c <= 'z')) ==> r@ == seq![c],
{
    c.to_uppercase().collect()
}

/// What `{:?}` formats the path `s` as (`Debug` for `std::path::Path`).
pub uninterp spec fn path_debug_text(s: Seq<char>) -> Seq<char>;

/// `format!("{:?}", Path::new(s))`. Claimed: the result is the named `path_debug_text`.
#[verifier::external_body]
pub(crate) fn path_debug_format(s: &str) -> (r: String)
    ensures
        r@ == path_debug_text(s@),
{
    format!("{:?}", std::path::Path::new(s))
}

/// `s` without its leading white space (what `str::trim_start` returns).
pub open spec fn trimmed_start(s: Seq<char>) -> Seq<char>
    decreases s.len(),
{
    if s.len() > 0 && is_white_space(s[0]) {
        trimmed_start(s.drop_first())
    } else {
        s
    }
}

/// Whether `s` ends with `suffix`.
pub open spec fn ends_with(s: Seq<char>, suffix: Seq<char>) -> bool {
    suffix.len() <= s.len() && s.skip(s.len() - suffix.len()) == suffix
}

/// A suffix of a suffix is a suffix.
pub proof fn lemma_ends_with_transitive(a: Seq<char>, b: Seq<char>, c: Seq<char>)
    requires
        ends_with(a, b),
        ends_with(b, c),
    ensures
        ends_with(a, c),
{
    assert(a.skip(a.len() - c.len()) =~= b.skip(b.len() - c.len()));
}

/// Every text ends with itself trimmed at the start.
pub proof fn lemma_trimmed_start_is_suffix(s: Seq<char>)
    ensures
        ends_with(s, trimmed_start(s)),
    decreases s.len(),
{
    if s.len() > 0 && is_white_space(s[0]) {
        lemma_trimmed_start_is_suffix(s.drop_first());
        assert(ends_with(s, s.drop_first())) by {
            assert(s.skip(s.len() - s.drop_first().len()) =~= s.drop_first());
        }
        lemma_ends_with_transitive(s, s.drop_first(), trimmed_start(s));
    } else {
        assert(s.skip(0) =~= s);
    }
}

/// The index of the first char at or after `from` that is not white space.
pub fn skip_white_space(v: &Vec<char>, from: usize) -> (k: usize)
    requires
        from <= v.len(),
    ensures
        from <= k <= v.len(),
        trimmed_start(v@.skip(from as int)) == v@.skip(k as int),
{
    let mut k = from;
    while k < v.len() && char_is_white_space(v[k])
        invariant
            from <= k <= v.len(),
            trimmed_start(v@.skip(from as int)) == trimmed_start(v@.skip(k as int)),
        decreases v.len() - k,
    {
        assert(v@.skip(k as int).drop_first() =~= v@.skip(k + 1));
        k += 1;
    }
    k
}

/// A `pat` standing in `s.skip(i)` at `d` stands in `s` at `i + d`, and the first such
/// index moves by `i` with it.
pub proof fn lemma_first_match_shift(s: Seq<char>, pat: Seq<char>, i: int, d: int)
    requires
        0 <= i <= s.len(),
        0 <= d,
    ensures
        first_match_from(s.skip(i), pat, d) == match first_match_from(s, pat, i + d) {
            Some(j) => Some(j - i),
            None => None,
        },
    decreases s.len() - i - d,
{
    let t = s.skip(i);
    if d + pat.len() <= t.len() {
        assert(t.subrange(d, d + pat.len()) =~= s.subrange(i + d, i + d + pat.len()));
        if !occurs_at(t, pat, d) && d < t.len() {
            lemma_first_match_shift(s, pat, i, d + 1);
        }
    }
}

/// With no occurrence of a non-empty `pat` at or after `i`, replacing leaves `s` from `i`
/// on unchanged.
proof fn lemma_replaced_from_without_match(s: Seq<char>, pat: Seq<char>, rep: Seq<char>, i: int)
    requires
        pat.len() > 0,
        0 <= i <= s.len(),
        forall|k: int| i <= k ==> !occurs_at(s, pat, k),
    ensures
        replaced_from(s, pat, rep, i) == s.skip(i),
    decreases s.len() - i,
{
    if i < s.len() {
        lemma_replaced_from_without_match(s, pat, rep, i + 1);
        assert(seq![s[i]] + s.skip(i + 1) =~= s.skip(i));
    } else {
        assert(s.skip(i) =~= Seq::<char>::empty());
    }
}

/// Replacing a non-empty pattern that does not occur in a text leaves the text unchanged.
pub proof fn lemma_replace_absent_pattern(s: Seq<char>, pat: Seq<char>, rep: Seq<char>)
    requires
        pat.len() > 0,
        forall|k: int| !occurs_at(s, pat, k),
    ensures
        replaced(s, pat, rep) == s,
{
    lemma_replaced_from_without_match(s, pat, rep, 0);
    assert(s.skip(0) =~= s);
}

/// Replacing a pattern by itself leaves the text unchanged.
pub proof fn lemma_replace_with_itself(s: Seq<char>, pat: Seq<char>)
    ensures
        replaced(s, pat, pat) == s,
{
    lemma_replaced_from_itself(s, pat, 0);
    assert(s.skip(0) =~= s);
}

proof fn lemma_replaced_from_itself(s: Seq<char>, pat: Seq<char>, i: int)
    requires
        0 <= i <= s.len(),
    ensures
        replaced_from(s, pat, pat, i) == s.skip(i),
    decreases s.len() - i,
{
    if pat.len() == 0 {
        if i < s.len() {
            lemma_replaced_from_itself(s, pat, i + 1);
            assert(pat + seq![s[i]] + s.skip(i + 1) =~= s.skip(i));
        } else {
            assert(s.skip(i) =~= pat);
        }
    } else if i == s.len() {
        assert(s.skip(i) =~= Seq::<char>::empty());
    } else if occurs_at(s, pat, i) {
        lemma_replaced_from_itself(s, pat, i + pat.len());
        assert(pat + s.skip(i + pat.len()) =~= s.skip(i));
    } else {
        lemma_replaced_from_itself(s, pat, i + 1);
        assert(seq![s[i]] + s.skip(i + 1) =~= s.skip(i));
    }
}

proof fn lemma_replaced_from_single(
    a: Seq<char>,
    pat: Seq<char>,
    b: Seq<char>,
    rep: Seq<char>,
    i: int,
)
    requires
        pat.len() > 0,
        0 <= i <= a.len(),
        forall|k: int| occurs_at(a + pat + b, pat, k) ==> k == a.len(),
    ensures
        replaced_from(a + pat + b, pat, rep, i) == a.skip(i) + rep + b,
    decreases a.len() - i,
{
    let s = a + pat + b;
    if i == a.len() {
        assert(s.subrange(i, i + pat.len()) =~= pat);
        lemma_replaced_from_without_match(s, pat, rep, i + pat.len());
        assert(s.skip(i + pat.len()) =~= b);
        assert(a.skip(i) =~= Seq::<char>::empty());
        assert(rep + b =~= a.skip(i) + rep + b);
    } else {
        lemma_replaced_from_single(a, pat, b, rep, i + 1);
        assert(s[i] == a[i]);
        assert(seq![s[i]] + (a.skip(i + 1) + rep + b) =~= a.skip(i) + rep + b);
    }
}

/// A text holding a non-empty pattern exactly once gets the replacement in its place and
/// is otherwise unchanged.
pub proof fn lemma_replace_single_occurrence(
    a: Seq<char>,
    pat: Seq<char>,
    b: Seq<char>,
    rep: Seq<char>,
)
    requires
        pat.len() > 0,
        forall|k: int| occurs_at(a + pat + b, pat, k) ==> k == a.len(),
    ensures
        replaced(a + pat + b, pat, rep) == a + rep + b,
{
    lemma_replaced_from_single(a, pat, b, rep, 0);
    assert(a.skip(0) =~= a);
}

/// Scanning from `j` in `c + b` is scanning `b` from `j - c.len()`: what comes before
/// has no say.
proof fn lemma_replaced_from_suffix(c: Seq<char>, b: Seq<char>, pat: Seq<char>, rep: Seq<char>, j: int)
    requires
        pat.len() > 0,
        0 <= j <= b.len(),
    ensures
        replaced_from(c + b, pat, rep, c.len() + j) == replaced_from(b, pat, rep, j),
    decreases b.len() - j,
{
    let s = c + b;
    let i = c.len() + j;
    if j < b.len() {
        if j + pat.len() <= b.len() {
            assert(s.subrange(i, i + pat.len()) =~= b.subrange(j, j + pat.len()));
        }
        assert(occurs_at(s, pat, i) == occurs_at(b, pat, j));
        assert(s[i] == b[j]);
        if occurs_at(b, pat, j) {
            lemma_replaced_from_suffix(c, b, pat, rep, j + pat.len());
        } else {
            lemma_replaced_from_suffix(c, b, pat, rep, j + 1);
        }
    }
}

/// Scanning `a + t` from `i` up to `a.len()` is scanning `a` alone, where no occurrence in
/// `a + t` starts in `a` and runs past it.
proof fn lemma_replaced_from_prefix(a: Seq<char>, t: Seq<char>, pat: Seq<char>, rep: Seq<char>, i: int)
    requires
        pat.len() > 0,
        0 <= i <= a.len(),
        forall|k: int| 0 <= k < a.len() && occurs_at(a + t, pat, k) ==> k + pat.len() <= a.len(),
    ensures
        replaced_from(a + t, pat, rep, i) == replaced_from(a, pat, rep, i) + replaced_from(
            a + t,
            pat,
            rep,
            a.len() as int,
        ),
    decreases a.len() - i,
{
    let s = a + t;
    if i < a.len() {
        if i + pat.len() <= a.len() {
            assert(s.subrange(i, i + pat.len()) =~= a.subrange(i, i + pat.len()));
        }
        assert(occurs_at(s, pat, i) == occurs_at(a, pat, i));
        assert(s[i] == a[i]);
        if occurs_at(a, pat, i) {
            lemma_replaced_from_prefix(a, t, pat, rep, i + pat.len());
            assert(rep + replaced_from(a, pat, rep, i + pat.len()) + replaced_from(s, pat, rep, a.len() as int)
                =~= rep + (replaced_from(a, pat, rep, i + pat.len()) + replaced_from(s, pat, rep, a.len() as int)));
        } else {
            lemma_replaced_from_prefix(a, t, pat, rep, i + 1);
            assert(seq![s[i]] + replaced_from(a, pat, rep, i + 1) + replaced_from(s, pat, rep, a.len() as int)
                =~= seq![s[i]] + (replaced_from(a, pat, rep, i + 1) + replaced_from(s, pat, rep, a.len() as int)));
        }
    } else {
        assert(replaced_from(a, pat, rep, i) =~= Seq::<char>::empty());
        assert(Seq::<char>::empty() + replaced_from(s, pat, rep, i) =~= replaced_from(s, pat, rep, i));
    }
}

/// Every occurrence is replaced: a text made of `a`, the pattern, then `b` becomes `a` with
/// its occurrences replaced, the replacement, then `b` with its occurrences replaced — as
/// long as no occurrence runs from `a` into the pattern that follows it.
pub proof fn lemma_replace_splits_at_occurrence(
    a: Seq<char>,
    pat: Seq<char>,
    b: Seq<char>,
    rep: Seq<char>,
)
    requires
        pat.len() > 0,
        forall|k: int|
            0 <= k < a.len() && occurs_at(a + pat + b, pat, k) ==> k + pat.len() <= a.len(),
    ensures
        replaced(a + pat + b, pat, rep) == replaced(a, pat, rep) + rep + replaced(b, pat, rep),
{
    let s = a + pat + b;
    assert(s =~= a + (pat + b));
    lemma_replaced_from_prefix(a, pat + b, pat, rep, 0);
    let i = a.len() as int;
    assert(s.subrange(i, i + pat.len()) =~= pat);
    assert(occurs_at(s, pat, i));
    assert(s =~= (a + pat) + b);
    lemma_replaced_from_suffix(a + pat, b, pat, rep, 0);
    assert(replaced_from(s, pat, rep, i) == rep + replaced_from(b, pat, rep, 0));
    assert(replaced(a, pat, rep) + (rep + replaced(b, pat, rep)) =~= replaced(a, pat, rep) + rep
        + replaced(b, pat, rep));
}

/// The first match at or after `i` is a match, at or after `i`, with none before it.
pub proof fn lemma_first_match_found(s: Seq<char>, pat: Seq<char>, i: int)
    requires
        0 <= i,
    ensures
        match first_match_from(s, pat, i) {
            Some(j) => i <= j && occurs_at(s, pat, j) && forall|k: int|
                i <= k < j ==> !occurs_at(s, pat, k),
            None => forall|k: int| i <= k ==> !occurs_at(s, pat, k),
        },
    decreases s.len() - i,
{
    if i + pat.len() > s.len() {
    } else if occurs_at(s, pat, i) {
    } else if i >= s.len() {
    } else {
        lemma_first_match_found(s, pat, i + 1);
    }
}

/// Whether two string slices hold the same chars.
pub fn same_text(a: &str, b: &str) -> (r: bool)
    ensures
        r == (a@ == b@),
{
    let av = chars_of(a);
    let bv = chars_of(b);
    if av.len() != bv.len() {
        return false;
    }
    let mut i: usize = 0;
    while i < av.len()
        invariant
            i <= av.len(),
            av@ == a@,
            bv@ == b@,
            av@.len() == bv@.len(),
            forall|j: int| 0 <= j < i ==> av@[j] == bv@[j],
        decreases av.len() - i,
    {
        if av[i] != bv[i] {
            assert(a@[i as int] != b@[i as int]);
            return false;
        }
        i += 1;
    }
    assert(av@ =~= bv@);
    true
}

} // verus!
