//! Validated name types: single names, collapsed names, qualified names and
//! wildcard patterns, with the conversions between them.
use vstd::prelude::*;
use vstd::utf8::{decode_utf8, valid_utf8};

use crate::grammar::{
    check_ref_format, count_char, ends_with, find_char, has_pair, has_prefix, index_from,
    lemma_component_shape, lemma_index_from_found, lemma_join_shape, lemma_prefix_shape,
    lemma_suffix_shape, lock_suffix, pattern_shape, ref_format_verdict, single_shape,
    slash_join, stars_replaced, starts_with, utf8_len, GrammarError, MAX_NAME_BYTES,
};
use crate::percent::{encode_path, path_encoded};

verus! {

/// Why a text is not a valid name or pattern.
#[derive(Clone, Copy, Debug, PartialEq, Eq, Structural)]
pub enum Error {
    /// The bytes are not UTF-8.
    Utf8,
    /// The text breaks the refname grammar.
    RefFormat(GrammarError),
}

impl Error {
    /// The error for an empty candidate.
    pub fn empty() -> (r: Self)
        ensures
            r == Error::RefFormat(GrammarError::Empty),
    {
        Error::RefFormat(GrammarError::Empty)
    }
}

/// Why `RefLike::strip_prefix` failed.
#[derive(Clone, Copy, Debug, PartialEq, Eq, Structural)]
pub enum StripPrefixError {
    /// The prefix is the whole name.
    ImproperPrefix,
    /// The name does not begin with the given components.
    NotPrefix,
}

/// The outcome of validating `s`: the grammar (one-level names allowed, a
/// single wildcard allowed only when `pattern`), then the length limit.
pub open spec fn name_verdict(s: Seq<char>, pattern: bool) -> Result<(), Error> {
    match ref_format_verdict(s, true, pattern) {
        Err(e) => Err(Error::RefFormat(e)),
        Ok(_) => if utf8_len(s) > MAX_NAME_BYTES {
            Err(Error::RefFormat(GrammarError::TooLong))
        } else {
            Ok(())
        },
    }
}

/// The parts joined with slashes between them.
pub open spec fn slash_joined(parts: Seq<Seq<char>>) -> Seq<char>
    decreases parts.len(),
{
    if parts.len() == 0 {
        Seq::empty()
    } else if parts.len() == 1 {
        parts[0]
    } else {
        slash_join(slash_joined(parts.drop_last()), parts.last())
    }
}

/// The texts of a list of strings.
pub open spec fn texts(parts: Seq<String>) -> Seq<Seq<char>> {
    parts.map_values(|p: String| p@)
}

/// `base` without one trailing slash, if it has one.
pub open spec fn strip_slash(base: Seq<char>) -> Seq<char> {
    if base.len() > 0 && base.last() == '/' {
        base.drop_last()
    } else {
        base
    }
}

/// What is left of `s` once the components of `base` are taken off its front.
pub open spec fn stripped(s: Seq<char>, base: Seq<char>) -> Result<Seq<char>, StripPrefixError> {
    let stem = strip_slash(base);
    if s == stem {
        Err(StripPrefixError::ImproperPrefix)
    } else if starts_with(s, stem + seq!['/']) {
        if s.len() == stem.len() + 1 {
            Err(StripPrefixError::ImproperPrefix)
        } else {
            Ok(s.subrange((stem.len() + 1) as int, s.len() as int))
        }
    } else {
        Err(StripPrefixError::NotPrefix)
    }
}

/// The literal `refs/`.
pub open spec fn refs_prefix() -> Seq<char> {
    seq!['r', 'e', 'f', 's', '/']
}

/// The literal `refs/heads/`.
pub open spec fn heads_prefix() -> Seq<char> {
    seq!['r', 'e', 'f', 's', '/', 'h', 'e', 'a', 'd', 's', '/']
}

/// `s` without its leading `refs/`.
pub open spec fn after_refs(s: Seq<char>) -> Seq<char> {
    s.subrange(5, s.len() as int)
}

/// The collapsed form: a name that starts with `refs/` and has at least three
/// components loses its first two; any other name is kept.
pub open spec fn collapse(s: Seq<char>) -> Seq<char> {
    if starts_with(s, refs_prefix()) && index_from(after_refs(s), '/', 0) >= 0 {
        after_refs(s).subrange(index_from(after_refs(s), '/', 0) + 1, after_refs(s).len() as int)
    } else {
        s
    }
}

/// The qualified form: kept when it starts with `refs/`, else put under
/// `refs/heads/`.
pub open spec fn qualify(s: Seq<char>) -> Seq<char> {
    if starts_with(s, refs_prefix()) {
        s
    } else {
        heads_prefix() + s
    }
}

/// A qualified name split into its collapsed name and, when at least one more
/// component follows it, the component after `refs/` as its category.
pub open spec fn split_qualified(q: Seq<char>) -> (Seq<char>, Option<Seq<char>>) {
    let rest = after_refs(q);
    let k = index_from(rest, '/', 0);
    if k >= 0 {
        (rest.subrange(k + 1, rest.len() as int), Some(rest.subrange(0, k)))
    } else {
        (rest, None)
    }
}

/// Relies on `std::str::from_utf8`: it succeeds exactly on valid UTF-8, and
/// the text then holds the decoded characters.
#[verifier::external_body]
fn str_from_utf8(b: &[u8]) -> (r: Option<&str>)
    ensures
        r is Some <==> valid_utf8(b@),
        r matches Some(t) ==> t@ == decode_utf8(b@),
{
    std::str::from_utf8(b).ok()
}

/// A valid refname without wildcard: one or more `/`-separated components.
#[derive(Debug, PartialEq, Eq, PartialOrd, Ord, Hash)]
pub struct RefLike(String);

impl Clone for RefLike {
    fn clone(&self) -> (r: Self)
        ensures
            r@ == self@,
    {
        proof {
            use_type_invariant(self);
        }
        RefLike(self.0.clone())
    }
}

impl View for RefLike {
    type V = Seq<char>;

    closed spec fn view(&self) -> Seq<char> {
        self.0@
    }
}

impl RefLike {
    #[verifier::type_invariant]
    spec fn inv(self) -> bool {
        single_shape(self.0@)
    }

    /// Validates `s` as a single name.
    pub fn try_from_str(s: &str) -> (r: Result<RefLike, Error>)
        ensures
            r is Ok <==> name_verdict(s@, false) is Ok,
            r matches Ok(n) ==> n@ == s@,
            r matches Err(e) ==> name_verdict(s@, false) == Err::<(), Error>(e),
            s@.len() == 0 ==> r == Err::<RefLike, Error>(Error::RefFormat(GrammarError::Empty)),
            has_pair(s@, '.', '.') || has_pair(s@, '@', '{') || ends_with(s@, lock_suffix())
                ==> r is Err,
            count_char(s@, '*') > 0 ==> r is Err,
    {
        match check_ref_format(s, true, false) {
            Err(e) => Err(Error::RefFormat(e)),
            Ok(()) => {
                if s.as_bytes().len() > MAX_NAME_BYTES {
                    Err(Error::RefFormat(GrammarError::TooLong))
                } else {
                    Ok(RefLike(s.to_owned()))
                }
            },
        }
    }

    /// Joins the components of a path with slashes, then validates the text
    /// as a single name.
    pub fn try_from_components(parts: &Vec<String>) -> (r: Result<RefLike, Error>)
        ensures
            r is Ok <==> name_verdict(slash_joined(texts(parts@)), false) is Ok,
            r matches Ok(n) ==> n@ == slash_joined(texts(parts@)),
            r matches Err(e) ==> name_verdict(slash_joined(texts(parts@)), false) == Err::<(), Error>(e),
    {
        let ghost views = texts(parts@);
        let mut text = String::new();
        let mut i: usize = 0;
        while i < parts.len()
            invariant
                i <= parts@.len(),
                views == texts(parts@),
                text@ == slash_joined(views.subrange(0, i as int)),
            decreases parts@.len() - i,
        {
            proof {
                reveal_strlit("/");
                assert(views.subrange(0, i + 1).drop_last() =~= views.subrange(0, i as int));
                assert(views.subrange(0, i + 1).last() == parts@[i as int]@);
            }
            if i > 0 {
                text.append("/");
            }
            text.append(parts[i].as_str());
            proof {
                if i == 0 {
                    assert(text@ =~= slash_joined(views.subrange(0, 1)));
                } else {
                    assert(text@ =~= slash_joined(views.subrange(0, i + 1)));
                }
            }
            i += 1;
        }
        assert(views.subrange(0, i as int) =~= views);
        RefLike::try_from_str(text.as_str())
    }

    /// Decodes `bytes` as UTF-8, then validates the text as a single name.
    pub fn try_from_bytes(bytes: &[u8]) -> (r: Result<RefLike, Error>)
        ensures
            !valid_utf8(bytes@) ==> r == Err::<RefLike, Error>(Error::Utf8),
            valid_utf8(bytes@) ==> (r is Ok <==> name_verdict(decode_utf8(bytes@), false) is Ok),
            r matches Ok(n) ==> n@ == decode_utf8(bytes@),
            valid_utf8(bytes@) ==> (r matches Err(e) ==> name_verdict(decode_utf8(bytes@), false)
                == Err::<(), Error>(e)),
    {
        match str_from_utf8(bytes) {
            None => Err(Error::Utf8),
            Some(s) => RefLike::try_from_str(s),
        }
    }

    /// The name as text.
    pub fn as_str(&self) -> (r: &str)
        ensures
            r@ == self@,
            single_shape(self@),
    {
        proof {
            use_type_invariant(self);
        }
        self.0.as_str()
    }

    /// A name whose text is known to have the right shape (a literal).
    pub(crate) fn from_component(s: &str) -> (r: RefLike)
        requires
            single_shape(s@),
        ensures
            r@ == s@,
    {
        RefLike(s.to_owned())
    }

    /// The name percent-encoded for a URL path or fragment.
    pub fn percent_encode(&self) -> (r: String)
        ensures
            r@ == path_encoded(self@),
    {
        encode_path(self.0.as_str())
    }

    /// The name as an owned string.
    pub fn into_string(self) -> (r: String)
        ensures
            r@ == self@,
    {
        self.0
    }

    /// `self`, a slash, then `other`.
    pub fn join(&self, other: &RefLike) -> (r: RefLike)
        ensures
            r@ == slash_join(self@, other@),
    {
        proof {
            use_type_invariant(self);
            use_type_invariant(other);
            lemma_join_shape(self@, other@);
            reveal_strlit("/");
        }
        let s = self.0.clone().concat("/").concat(other.0.as_str());
        proof {
            assert(s@ =~= slash_join(self@, other@));
        }
        RefLike(s)
    }

    /// `self`, a slash, then the pattern `suf`.
    pub fn with_pattern_suffix(&self, suf: &RefspecPattern) -> (r: RefspecPattern)
        ensures
            r@ == slash_join(self@, suf@),
    {
        proof {
            use_type_invariant(self);
            use_type_invariant(suf);
            lemma_join_shape(self@, suf@);
            reveal_strlit("/");
        }
        let s = self.0.clone().concat("/").concat(suf.0.as_str());
        proof {
            assert(s@ =~= slash_join(self@, suf@));
        }
        RefspecPattern(s)
    }
}

impl RefLike {
    /// The name that, joined onto `base`, gives `self`.
    pub fn strip_prefix(&self, base: &str) -> (r: Result<RefLike, StripPrefixError>)
        ensures
            match stripped(self@, base@) {
                Ok(t) => r matches Ok(x) && x@ == t,
                Err(e) => r == Err::<RefLike, StripPrefixError>(e),
            },
    {
        proof {
            use_type_invariant(self);
        }
        let bl = base.unicode_len();
        let stem: &str = if bl > 0 && base.get_char(bl - 1) == '/' {
            base.substring_char(0, bl - 1)
        } else {
            base
        };
        assert(stem@ =~= strip_slash(base@));
        let me = self.0.as_str();
        let n = me.unicode_len();
        let k = stem.unicode_len();
        if self.0 == String::from_str(stem) {
            return Err(StripPrefixError::ImproperPrefix);
        }
        let sep = k < n && me.get_char(k) == '/' && has_prefix(me, stem);
        proof {
            let p = stem@ + seq!['/'];
            if sep {
                assert(me@.subrange(0, p.len() as int) =~= p);
            }
            if starts_with(me@, p) {
                assert(me@.subrange(0, p.len() as int) == p);
                assert(me@[k as int] == me@.subrange(0, p.len() as int)[k as int]);
                assert(p[k as int] == '/');
                assert(me@.subrange(0, k as int) =~= p.subrange(0, k as int));
                assert(p.subrange(0, k as int) =~= stem@);
            }
        }
        if !sep {
            return Err(StripPrefixError::NotPrefix);
        }
        if n == k + 1 {
            return Err(StripPrefixError::ImproperPrefix);
        }
        proof {
            lemma_suffix_shape(me@, k as int);
        }
        Ok(RefLike(String::from_str(me.substring_char(k + 1, n))))
    }
}

/// A `RefLike` without its `refs/<category>/` front.
#[derive(Debug, PartialEq, Eq, PartialOrd, Ord, Hash)]
pub struct OneLevel(String);

impl Clone for OneLevel {
    fn clone(&self) -> (r: Self)
        ensures
            r@ == self@,
    {
        proof {
            use_type_invariant(self);
        }
        OneLevel(self.0.clone())
    }
}

impl View for OneLevel {
    type V = Seq<char>;

    closed spec fn view(&self) -> Seq<char> {
        self.0@
    }
}

impl OneLevel {
    /// The name as an owned string.
    pub fn into_string(self) -> (r: String)
        ensures
            r@ == self@,
    {
        self.0
    }

    #[verifier::type_invariant]
    spec fn inv(self) -> bool {
        single_shape(self.0@)
    }

    /// The name as text.
    pub fn as_str(&self) -> (r: &str)
        ensures
            r@ == self@,
            single_shape(self@),
    {
        proof {
            use_type_invariant(self);
        }
        self.0.as_str()
    }

    /// Collapses `r`: drops `refs/<category>/` from its front.
    pub fn from_ref_like(r: RefLike) -> (o: OneLevel)
        ensures
            o@ == collapse(r@),
    {
        proof {
            use_type_invariant(&r);
        }
        proof {
            reveal_strlit("refs/");
            assert("refs/"@ =~= refs_prefix());
        }
        let s = r.0.as_str();
        let n = s.unicode_len();
        if n > 5 && has_prefix(s, "refs/") {
            proof {
                assert(s@[4] == s@.subrange(0, 5)[4]);
                lemma_suffix_shape(s@, 4);
            }
            let rest = s.substring_char(5, n);
            assert(rest@ =~= after_refs(s@));
            if let Some(k) = find_char(rest, '/', 0) {
                proof {
                    lemma_suffix_shape(rest@, k as int);
                }
                return OneLevel(String::from_str(rest.substring_char(k + 1, n - 5)));
            }
        }
        OneLevel(r.0)
    }

    /// Splits a qualified name into its collapsed name and its category, the
    /// latter only when at least one more component follows it
    /// (`refs/tags/v1` gives `v1` and `tags`; `refs/HEAD` gives `HEAD` alone).
    pub fn from_qualified(q: Qualified) -> (r: (OneLevel, Option<RefLike>))
        ensures
            r.0@ == split_qualified(q@).0,
            match split_qualified(q@).1 {
                Some(c) => r.1 matches Some(x) && x@ == c,
                None => r.1 is None,
            },
    {
        proof {
            use_type_invariant(&q);
        }
        let s = q.0.as_str();
        let n = s.unicode_len();
        proof {
            assert(s@[4] == s@.subrange(0, 5)[4]);
            lemma_suffix_shape(s@, 4);
        }
        let rest = s.substring_char(5, n);
        assert(rest@ =~= after_refs(s@));
        match find_char(rest, '/', 0) {
            Some(k) => {
                proof {
                    lemma_suffix_shape(rest@, k as int);
                    lemma_prefix_shape(rest@, k as int);
                }
                let name = OneLevel(String::from_str(rest.substring_char(k + 1, n - 5)));
                let category = RefLike(String::from_str(rest.substring_char(0, k)));
                (name, Some(category))
            },
            None => (OneLevel(String::from_str(rest)), None),
        }
    }

    /// `refs/`, the category, a slash, then `self`.
    pub fn into_qualified(self, category: RefLike) -> (q: Qualified)
        ensures
            q@ == refs_prefix() + slash_join(category@, self@),
    {
        proof {
            use_type_invariant(&self);
        }
        let c = category.join(&RefLike(self.0));
        proof {
            use_type_invariant(&c);
            reveal_strlit("refs/");
            assert("refs/"@ =~= refs_prefix());
            lemma_component_shape(refs_prefix().drop_last());
            lemma_join_shape(refs_prefix().drop_last(), c@);
            assert(refs_prefix() + c@ =~= slash_join(refs_prefix().drop_last(), c@));
            assert(refs_prefix() + c@ =~= refs_prefix() + slash_join(category@, self@));
            assert((refs_prefix() + c@).subrange(0, 5) =~= refs_prefix());
        }
        let s = String::from_str("refs/").concat(c.as_str());
        Qualified(s)
    }

    /// Validates `s` as a name and collapses it: the collapsed and the
    /// qualified spelling are both accepted.
    pub fn try_from_str(s: &str) -> (r: Result<OneLevel, Error>)
        ensures
            r is Ok <==> name_verdict(s@, false) is Ok,
            r matches Ok(o) ==> o@ == collapse(s@),
            r matches Err(e) ==> name_verdict(s@, false) == Err::<(), Error>(e),
    {
        match RefLike::try_from_str(s) {
            Ok(n) => Ok(OneLevel::from_ref_like(n)),
            Err(e) => Err(e),
        }
    }

    /// Collapses a qualified name.
    pub fn from_qualified_name(q: Qualified) -> (o: OneLevel)
        ensures
            o@ == collapse(q@),
    {
        OneLevel::from_ref_like(q.into_ref_like())
    }

    /// The same text as a `RefLike`.
    pub fn into_ref_like(self) -> (r: RefLike)
        ensures
            r@ == self@,
    {
        proof {
            use_type_invariant(&self);
        }
        RefLike(self.0)
    }
}

/// A `RefLike` that starts with `refs/`.
#[derive(Debug, PartialEq, Eq, PartialOrd, Ord, Hash)]
pub struct Qualified(String);

impl Clone for Qualified {
    fn clone(&self) -> (r: Self)
        ensures
            r@ == self@,
    {
        proof {
            use_type_invariant(self);
        }
        Qualified(self.0.clone())
    }
}

impl View for Qualified {
    type V = Seq<char>;

    closed spec fn view(&self) -> Seq<char> {
        self.0@
    }
}

impl Qualified {
    /// The name as an owned string.
    pub fn into_string(self) -> (r: String)
        ensures
            r@ == self@,
    {
        self.0
    }

    #[verifier::type_invariant]
    spec fn inv(self) -> bool {
        single_shape(self.0@) && starts_with(self.0@, refs_prefix())
    }

    /// The name as text.
    pub fn as_str(&self) -> (r: &str)
        ensures
            r@ == self@,
            single_shape(self@),
            starts_with(self@, refs_prefix()),
    {
        proof {
            use_type_invariant(self);
        }
        self.0.as_str()
    }

    /// Qualifies `r`: kept when it starts with `refs/`, else put under
    /// `refs/heads/`.
    pub fn from_ref_like(r: RefLike) -> (q: Qualified)
        ensures
            q@ == qualify(r@),
    {
        proof {
            use_type_invariant(&r);
            reveal_strlit("refs/");
            reveal_strlit("refs/heads/");
            assert("refs/"@ =~= refs_prefix());
            assert("refs/heads/"@ =~= heads_prefix());
        }
        if has_prefix(r.0.as_str(), "refs/") {
            Qualified(r.0)
        } else {
            let j = String::from_str("refs/heads/").concat(r.0.as_str());
            proof {
                let h = heads_prefix().drop_last();
                lemma_component_shape(h.subrange(0, 4));
                lemma_component_shape(h.subrange(5, 10));
                lemma_join_shape(h.subrange(0, 4), h.subrange(5, 10));
                assert(slash_join(h.subrange(0, 4), h.subrange(5, 10)) =~= h);
                lemma_join_shape(h, r@);
                assert(j@ =~= slash_join(h, r@));
                assert(j@.subrange(0, 5) =~= refs_prefix());
            }
            Qualified(j)
        }
    }

    /// Validates `s` as a name and qualifies it: the qualified and the
    /// collapsed spelling are both accepted.
    pub fn try_from_str(s: &str) -> (r: Result<Qualified, Error>)
        ensures
            r is Ok <==> name_verdict(s@, false) is Ok,
            r matches Ok(q) ==> q@ == qualify(s@),
            r matches Err(e) ==> name_verdict(s@, false) == Err::<(), Error>(e),
    {
        match RefLike::try_from_str(s) {
            Ok(n) => Ok(Qualified::from_ref_like(n)),
            Err(e) => Err(e),
        }
    }

    /// Qualifies a collapsed name.
    pub fn from_one_level(o: OneLevel) -> (q: Qualified)
        ensures
            q@ == qualify(o@),
    {
        Qualified::from_ref_like(o.into_ref_like())
    }

    /// The same text as a `RefLike`.
    pub fn into_ref_like(self) -> (r: RefLike)
        ensures
            r@ == self@,
    {
        proof {
            use_type_invariant(&self);
        }
        RefLike(self.0)
    }
}

/// A valid refspec pattern: like `RefLike`, but with at most one `*`.
#[derive(Debug, PartialEq, Eq, PartialOrd, Ord, Hash)]
pub struct RefspecPattern(String);

impl std::str::FromStr for RefLike {
    type Err = Error;

    fn from_str(s: &str) -> Result<RefLike, Error> {
        RefLike::try_from_str(s)
    }
}

impl std::str::FromStr for RefspecPattern {
    type Err = Error;

    fn from_str(s: &str) -> Result<RefspecPattern, Error> {
        RefspecPattern::try_from_str(s)
    }
}

impl Clone for RefspecPattern {
    fn clone(&self) -> (r: Self)
        ensures
            r@ == self@,
    {
        proof {
            use_type_invariant(self);
        }
        RefspecPattern(self.0.clone())
    }
}

impl View for RefspecPattern {
    type V = Seq<char>;

    closed spec fn view(&self) -> Seq<char> {
        self.0@
    }
}

impl RefspecPattern {
    #[verifier::type_invariant]
    spec fn inv(self) -> bool {
        pattern_shape(self.0@)
    }

    /// The pattern as text.
    pub fn as_str(&self) -> (r: &str)
        ensures
            r@ == self@,
            pattern_shape(self@),
    {
        proof {
            use_type_invariant(self);
        }
        self.0.as_str()
    }

    /// A pattern whose text is known to have the right shape (a literal).
    pub(crate) fn from_pattern_text(s: &str) -> (r: RefspecPattern)
        requires
            pattern_shape(s@),
        ensures
            r@ == s@,
    {
        RefspecPattern(s.to_owned())
    }

    /// The pattern as an owned string.
    pub fn into_string(self) -> (r: String)
        ensures
            r@ == self@,
    {
        self.0
    }

    /// Validates `s` as a pattern: a name in which a single `*` may stand.
    pub fn try_from_str(s: &str) -> (r: Result<RefspecPattern, Error>)
        ensures
            r is Ok <==> name_verdict(s@, true) is Ok,
            r matches Ok(n) ==> n@ == s@,
            r matches Err(e) ==> name_verdict(s@, true) == Err::<(), Error>(e),
            s@.len() == 0 ==> r == Err::<RefspecPattern, Error>(Error::RefFormat(GrammarError::Empty)),
            has_pair(s@, '.', '.') || has_pair(s@, '@', '{') || ends_with(s@, lock_suffix())
                ==> r is Err,
            count_char(s@, '*') > 1 ==> r is Err,
            count_char(s@, '*') > 1 && ref_format_verdict(stars_replaced(s@), true, true) is Ok
                ==> r == Err::<RefspecPattern, Error>(Error::RefFormat(GrammarError::MultiplePatterns)),
            count_char(s@, '*') == 0 ==> (r is Ok <==> name_verdict(s@, false) is Ok),
    {
        match check_ref_format(s, true, true) {
            Err(e) => Err(Error::RefFormat(e)),
            Ok(()) => {
                if s.as_bytes().len() > MAX_NAME_BYTES {
                    Err(Error::RefFormat(GrammarError::TooLong))
                } else {
                    Ok(RefspecPattern(s.to_owned()))
                }
            },
        }
    }

    /// Decodes `bytes` as UTF-8, then validates the text as a pattern.
    pub fn try_from_bytes(bytes: &[u8]) -> (r: Result<RefspecPattern, Error>)
        ensures
            !valid_utf8(bytes@) ==> r == Err::<RefspecPattern, Error>(Error::Utf8),
            valid_utf8(bytes@) ==> (r is Ok <==> name_verdict(decode_utf8(bytes@), true) is Ok),
            r matches Ok(n) ==> n@ == decode_utf8(bytes@),
            valid_utf8(bytes@) ==> (r matches Err(e) ==> name_verdict(decode_utf8(bytes@), true)
                == Err::<(), Error>(e)),
    {
        match str_from_utf8(bytes) {
            None => Err(Error::Utf8),
            Some(s) => RefspecPattern::try_from_str(s),
        }
    }

    /// `self`, a slash, then `r`; the wildcard may so stand before the end
    /// (`refs/remotes/*/main`).
    pub fn append(&self, r: &RefLike) -> (p: RefspecPattern)
        ensures
            p@ == slash_join(self@, r@),
    {
        proof {
            use_type_invariant(self);
            use_type_invariant(r);
            lemma_join_shape(self@, r@);
            reveal_strlit("/");
        }
        let s = self.0.clone().concat("/").concat(r.0.as_str());
        proof {
            assert(s@ =~= slash_join(self@, r@));
        }
        RefspecPattern(s)
    }

    /// A name, as a pattern without wildcard.
    pub fn from_ref_like(r: RefLike) -> (p: RefspecPattern)
        ensures
            p@ == r@,
    {
        proof {
            use_type_invariant(&r);
        }
        RefspecPattern(r.0)
    }

    /// A collapsed name, as a pattern without wildcard.
    pub fn from_one_level(o: OneLevel) -> (p: RefspecPattern)
        ensures
            p@ == o@,
    {
        RefspecPattern::from_ref_like(o.into_ref_like())
    }

    /// A qualified name, as a pattern without wildcard.
    pub fn from_qualified(q: Qualified) -> (p: RefspecPattern)
        ensures
            p@ == q@,
    {
        RefspecPattern::from_ref_like(q.into_ref_like())
    }
}

} // verus!

verus! {

/// Collapsing the qualified form of a name gives the collapsed name itself:
/// qualification only ever adds a `refs/heads/` that collapsing removes.
pub proof fn lemma_collapse_qualify(s: Seq<char>)
    requires
        single_shape(s),
    ensures
        collapse(qualify(s)) == collapse(s),
{
    if !starts_with(s, refs_prefix()) {
        let q = heads_prefix() + s;
        assert(q.subrange(0, 5) =~= refs_prefix());
        let rest = after_refs(q);
        assert(rest[5] == '/');
        assert forall|j: int| 0 <= j < 5 implies rest[j] != '/' by {
            assert(rest[j] == heads_prefix()[j + 5]);
        }
        lemma_index_from_found(rest, '/', 0, 5);
        assert(rest.subrange(6, rest.len() as int) =~= s);
    }
}

/// Stripping a base off a name joined onto it gives back the joined name.
pub proof fn lemma_strip_joined(base: Seq<char>, s: Seq<char>)
    requires
        single_shape(base),
        single_shape(s),
    ensures
        stripped(slash_join(base, s), base) == Ok::<Seq<char>, StripPrefixError>(s),
{
    let j = slash_join(base, s);
    assert(strip_slash(base) == base);
    assert(j.len() > base.len());
    assert(j.subrange(0, (base.len() + 1) as int) =~= base + seq!['/']);
    assert(j.subrange((base.len() + 1) as int, j.len() as int) =~= s);
}

/// A name is no proper prefix of itself.
pub proof fn lemma_strip_self(s: Seq<char>)
    requires
        single_shape(s),
    ensures
        stripped(s, s) == Err::<Seq<char>, StripPrefixError>(StripPrefixError::ImproperPrefix),
{
}

} // verus!
