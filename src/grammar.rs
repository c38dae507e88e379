//! The refname grammar: text predicates used by the contracts, and the
//! validator of `git-ref-format` behind a trusted wrapper.
use vstd::prelude::*;

verus! {

/// How a candidate refname violates the grammar.
#[derive(Clone, Copy, Debug, PartialEq, Eq, Structural)]
pub enum GrammarError {
    /// The candidate is empty.
    Empty,
    /// Some component breaks a rule (bad character, `..`, `@{`, `.lock`,
    /// empty component, leading or trailing dot).
    InvalidComponent,
    /// More than one `*`, where a single wildcard is allowed.
    MultiplePatterns,
    /// A single component, where at least one `/` is required.
    OneLevelNotAllowed,
    /// Longer than `MAX_NAME_BYTES` bytes.
    TooLong,
}

/// The longest refname accepted, in bytes.
pub const MAX_NAME_BYTES: usize = 1024;

/// `s` begins with `p`.
pub open spec fn starts_with(s: Seq<char>, p: Seq<char>) -> bool {
    p.len() <= s.len() && s.subrange(0, p.len() as int) == p
}

/// `s` ends with `p`.
pub open spec fn ends_with(s: Seq<char>, p: Seq<char>) -> bool {
    p.len() <= s.len() && s.subrange(s.len() - p.len(), s.len() as int) == p
}

/// The suffix `.lock`, which no component may carry.
pub open spec fn lock_suffix() -> Seq<char> {
    seq!['.', 'l', 'o', 'c', 'k']
}

/// `a` immediately followed by `b` occurs somewhere in `s`.
pub open spec fn has_pair(s: Seq<char>, a: char, b: char) -> bool {
    exists|i: int| 0 <= i && i + 1 < s.len() && #[trigger] s[i] == a && s[i + 1] == b
}

/// Number of occurrences of `c` in `s`.
pub open spec fn count_char(s: Seq<char>, c: char) -> nat
    decreases s.len(),
{
    if s.len() == 0 {
        0
    } else {
        count_char(s.drop_last(), c) + if s.last() == c {
            1nat
        } else {
            0nat
        }
    }
}

/// Non-empty, `/`-separated, with no empty component.
pub open spec fn segmented(s: Seq<char>) -> bool {
    &&& s.len() > 0
    &&& s[0] != '/'
    &&& s.last() != '/'
    &&& !has_pair(s, '/', '/')
}

/// Shape of a single name: segmented, without wildcard.
pub open spec fn single_shape(s: Seq<char>) -> bool {
    segmented(s) && count_char(s, '*') == 0
}

/// Shape of a pattern: segmented, with at most one wildcard.
pub open spec fn pattern_shape(s: Seq<char>) -> bool {
    segmented(s) && count_char(s, '*') <= 1
}

/// `a`, a slash, then `b`.
pub open spec fn slash_join(a: Seq<char>, b: Seq<char>) -> Seq<char> {
    a + seq!['/'] + b
}

/// Length in bytes of the UTF-8 encoding of `s`.
pub open spec fn utf8_len(s: Seq<char>) -> nat {
    vstd::utf8::encode_utf8(s).len()
}

/// Index of the first `c` in `s` at or after `i`, or -1 when there is none.
pub open spec fn index_from(s: Seq<char>, c: char, i: int) -> int
    decreases s.len() - i,
{
    if i < 0 || i >= s.len() {
        -1
    } else if s[i] == c {
        i
    } else {
        index_from(s, c, i + 1)
    }
}

/// `index_from` finds the first occurrence.
pub proof fn lemma_index_from_found(s: Seq<char>, c: char, i: int, k: int)
    requires
        0 <= i <= k < s.len(),
        s[k] == c,
        forall|j: int| i <= j < k ==> s[j] != c,
    ensures
        index_from(s, c, i) == k,
    decreases k - i,
{
    if i < k {
        lemma_index_from_found(s, c, i + 1, k);
    }
}

/// `index_from` is -1 when `c` does not occur from `i` on.
pub proof fn lemma_index_from_absent(s: Seq<char>, c: char, i: int)
    requires
        0 <= i,
        forall|j: int| i <= j < s.len() ==> s[j] != c,
    ensures
        index_from(s, c, i) == -1,
    decreases s.len() - i,
{
    if i < s.len() {
        lemma_index_from_absent(s, c, i + 1);
    }
}

/// Finds the first `c` in `s` at or after `from`.
pub(crate) fn find_char(s: &str, c: char, from: usize) -> (r: Option<usize>)
    requires
        from <= s@.len(),
    ensures
        r matches Some(k) ==> from <= k < s@.len() && s@[k as int] == c && index_from(
            s@,
            c,
            from as int,
        ) == k,
        r is None ==> index_from(s@, c, from as int) == -1,
{
    let n = s.unicode_len();
    let mut i = from;
    while i < n
        invariant
            from <= i <= n,
            n == s@.len(),
            forall|j: int| from <= j < i ==> s@[j] != c,
        decreases n - i,
    {
        if s.get_char(i) == c {
            proof {
                lemma_index_from_found(s@, c, from as int, i as int);
            }
            return Some(i);
        }
        i += 1;
    }
    proof {
        lemma_index_from_absent(s@, c, from as int);
    }
    None
}

/// Whether `s` begins with `p`.
pub(crate) fn has_prefix(s: &str, p: &str) -> (r: bool)
    ensures
        r == starts_with(s@, p@),
{
    let n = s.unicode_len();
    let m = p.unicode_len();
    if m > n {
        return false;
    }
    let mut i: usize = 0;
    while i < m
        invariant
            i <= m <= n,
            n == s@.len(),
            m == p@.len(),
            forall|j: int| 0 <= j < i ==> s@[j] == p@[j],
        decreases m - i,
    {
        if s.get_char(i) != p.get_char(i) {
            assert(s@.subrange(0, m as int)[i as int] != p@[i as int]);
            return false;
        }
        i += 1;
    }
    assert(s@.subrange(0, m as int) =~= p@);
    true
}

/// Occurrences add up over a concatenation.
pub proof fn lemma_count_concat(a: Seq<char>, b: Seq<char>, c: char)
    ensures
        count_char(a + b, c) == count_char(a, c) + count_char(b, c),
    decreases b.len(),
{
    if b.len() == 0 {
        assert(a + b =~= a);
    } else {
        lemma_count_concat(a, b.drop_last(), c);
        assert((a + b).drop_last() =~= a + b.drop_last());
    }
}

/// A character that does not occur is counted zero times.
pub proof fn lemma_count_absent(s: Seq<char>, c: char)
    requires
        forall|i: int| 0 <= i < s.len() ==> s[i] != c,
    ensures
        count_char(s, c) == 0,
    decreases s.len(),
{
    if s.len() > 0 {
        lemma_count_absent(s.drop_last(), c);
    }
}

/// A non-empty text without slash or wildcard has the shape of a single name.
pub proof fn lemma_component_shape(s: Seq<char>)
    requires
        s.len() > 0,
        forall|i: int| 0 <= i < s.len() ==> s[i] != '/' && s[i] != '*',
    ensures
        single_shape(s),
{
    lemma_count_absent(s, '*');
    assert(s[0] != '/');
    assert(s[s.len() - 1] != '/');
}

/// Joining two segmented texts with a slash gives a segmented text whose
/// wildcards are those of both parts.
pub proof fn lemma_join_shape(a: Seq<char>, b: Seq<char>)
    requires
        segmented(a),
        segmented(b),
    ensures
        segmented(slash_join(a, b)),
        count_char(slash_join(a, b), '*') == count_char(a, '*') + count_char(b, '*'),
{
    let j = slash_join(a, b);
    let n = a.len() as int;
    assert(j[0] == a[0]);
    assert(j.last() == b.last());
    if has_pair(j, '/', '/') {
        let i = choose|i: int| 0 <= i && i + 1 < j.len() && #[trigger] j[i] == '/' && j[i + 1] == '/';
        if i + 1 < n {
            assert(a[i] == '/' && a[i + 1] == '/');
        } else if i + 1 == n {
            assert(a.last() == '/');
        } else if i == n {
            assert(b[0] == '/');
        } else {
            assert(b[i - n - 1] == '/' && b[i - n] == '/');
        }
    }
    lemma_count_concat(a + seq!['/'], b, '*');
    lemma_count_concat(a, seq!['/'], '*');
    assert(seq!['/'].drop_last() =~= Seq::<char>::empty());
    assert(count_char(Seq::<char>::empty(), '*') == 0);
    assert(count_char(seq!['/'], '*') == 0);
}

/// The text after a slash of a segmented text is segmented, with no more
/// wildcards than the whole.
pub proof fn lemma_suffix_shape(s: Seq<char>, k: int)
    requires
        segmented(s),
        0 <= k < s.len(),
        s[k] == '/',
    ensures
        segmented(s.subrange(k + 1, s.len() as int)),
        count_char(s.subrange(k + 1, s.len() as int), '*') <= count_char(s, '*'),
{
    let t = s.subrange(k + 1, s.len() as int);
    if k + 1 == s.len() {
        assert(s.last() == '/');
    }
    assert(t[0] == s[k + 1]);
    if has_pair(t, '/', '/') {
        let i = choose|i: int| 0 <= i && i + 1 < t.len() && #[trigger] t[i] == '/' && t[i + 1] == '/';
        assert(s[k + 1 + i] == '/' && s[k + 1 + i + 1] == '/');
    }
    lemma_count_concat(s.subrange(0, k + 1), t, '*');
    assert(s.subrange(0, k + 1) + t =~= s);
}

/// The text before a slash of a segmented text is segmented, with no more
/// wildcards than the whole.
pub proof fn lemma_prefix_shape(s: Seq<char>, k: int)
    requires
        segmented(s),
        0 <= k < s.len(),
        s[k] == '/',
    ensures
        segmented(s.subrange(0, k)),
        count_char(s.subrange(0, k), '*') <= count_char(s, '*'),
{
    let t = s.subrange(0, k);
    if k == 0 {
        assert(s[0] == '/');
    }
    if k >= 1 && s[k - 1] == '/' {
        assert(s[k - 1] == '/' && s[k] == '/');
    }
    if has_pair(t, '/', '/') {
        let i = choose|i: int| 0 <= i && i + 1 < t.len() && #[trigger] t[i] == '/' && t[i + 1] == '/';
        assert(s[i] == '/' && s[i + 1] == '/');
    }
    lemma_count_concat(t, s.subrange(k, s.len() as int), '*');
    assert(t + s.subrange(k, s.len() as int) =~= s);
}

/// `s` with each `*` replaced by the letter `a`.
pub open spec fn stars_replaced(s: Seq<char>) -> Seq<char> {
    s.map_values(|c: char| if c == '*' { 'a' } else { c })
}

/// What `git_ref_format::check_ref_format` reports for a candidate under the
/// two options, mapped onto `GrammarError`.
pub uninterp spec fn ref_format_verdict(
    s: Seq<char>,
    allow_onelevel: bool,
    allow_pattern: bool,
) -> Result<(), GrammarError>;

/// Relies on `git_ref_format::check_ref_format`, the refname validator.
/// Each fact stated beside the verdict is read off its source: an empty input
/// is `Empty`; an empty component, `..`, `@{` or a `.lock` suffix is refused;
/// every `*` is counted, and at most one (none without `allow_pattern`) passes;
/// without wildcards the verdict does not depend on `allow_pattern`; with
/// wildcards allowed, a text that passes once each `*` is read as a letter
/// fails only for having more than one `*`.
#[verifier::external_body]
pub(crate) fn check_ref_format(s: &str, onelevel: bool, pattern: bool) -> (r: Result<(), GrammarError>)
    ensures
        r == ref_format_verdict(s@, onelevel, pattern),
        s@.len() == 0 ==> r matches Err(GrammarError::Empty),
        r is Ok ==> segmented(s@),
        r is Ok ==> !has_pair(s@, '.', '.') && !has_pair(s@, '@', '{'),
        r is Ok ==> !ends_with(s@, lock_suffix()),
        r is Ok ==> count_char(s@, '*') <= 1,
        r is Ok && !pattern ==> count_char(s@, '*') == 0,
        r is Ok && !onelevel ==> s@.contains('/'),
        count_char(s@, '*') == 0 ==> r == ref_format_verdict(s@, onelevel, !pattern),
        pattern && count_char(s@, '*') > 1 && ref_format_verdict(stars_replaced(s@), onelevel, pattern)
            is Ok ==> r matches Err(GrammarError::MultiplePatterns),
{
    let opts = git_ref_format::Options { allow_onelevel: onelevel, allow_pattern: pattern };
    match git_ref_format::check_ref_format(opts, s) {
        Ok(()) => Ok(()),
        Err(git_ref_format::Error::Empty) => Err(GrammarError::Empty),
        Err(git_ref_format::Error::Pattern) => Err(GrammarError::MultiplePatterns),
        Err(git_ref_format::Error::OneLevel) => Err(GrammarError::OneLevelNotAllowed),
        Err(_) => Err(GrammarError::InvalidComponent),
    }
}

} // verus!
