//! Categories of references, and references scoped by namespace, remote and
//! category, for one name or for a pattern.
use vstd::prelude::*;

use crate::grammar::{count_char, lemma_component_shape, lemma_join_shape, single_shape, slash_join};
use crate::name::{collapse, name_verdict, Error, RefLike, RefspecPattern};

verus! {

/// The literal `heads`.
pub open spec fn heads_text() -> Seq<char> {
    seq!['h', 'e', 'a', 'd', 's']
}

/// The literal `rad`.
pub open spec fn rad_text() -> Seq<char> {
    seq!['r', 'a', 'd']
}

/// The literal `tags`.
pub open spec fn tags_text() -> Seq<char> {
    seq!['t', 'a', 'g', 's']
}

/// The literal `notes`.
pub open spec fn notes_text() -> Seq<char> {
    seq!['n', 'o', 't', 'e', 's']
}

/// The literal `cobs`.
pub open spec fn cobs_text() -> Seq<char> {
    seq!['c', 'o', 'b', 's']
}

/// The five category names with a variant of their own.
pub open spec fn is_reserved(s: Seq<char>) -> bool {
    s == heads_text() || s == rad_text() || s == tags_text() || s == notes_text() || s
        == cobs_text()
}

/// Where a reference falls under: `heads`, `tags` and so on.
#[derive(Clone, Debug, PartialEq, Eq)]
pub enum RefsCategory {
    Heads,
    Rad,
    Tags,
    Notes,
    /// Collaborative objects.
    Cobs,
    Unknown(RefLike),
}

/// The text of a category.
pub open spec fn category_text(c: RefsCategory) -> Seq<char> {
    match c {
        RefsCategory::Heads => heads_text(),
        RefsCategory::Rad => rad_text(),
        RefsCategory::Tags => tags_text(),
        RefsCategory::Notes => notes_text(),
        RefsCategory::Cobs => cobs_text(),
        RefsCategory::Unknown(r) => r@,
    }
}

/// Whether two texts are equal.
fn text_eq(a: &str, b: &str) -> (r: bool)
    ensures
        r == (a@ == b@),
{
    String::from_str(a) == String::from_str(b)
}

impl RefsCategory {
    /// The categories present in a freshly created repository.
    pub fn default_categories() -> (r: [RefsCategory; 3])
        ensures
            r@ == seq![RefsCategory::Heads, RefsCategory::Tags, RefsCategory::Notes],
    {
        let r = [RefsCategory::Heads, RefsCategory::Tags, RefsCategory::Notes];
        assert(r@ =~= seq![RefsCategory::Heads, RefsCategory::Tags, RefsCategory::Notes]);
        r
    }

    /// Parses a category: one of the five reserved names, or else any valid
    /// name as `Unknown`.
    pub fn from_str(s: &str) -> (r: Result<RefsCategory, Error>)
        ensures
            r matches Ok(c) ==> category_text(c) == s@,
            is_reserved(s@) ==> r is Ok && !(r matches Ok(RefsCategory::Unknown(_))),
            !is_reserved(s@) ==> (r is Ok <==> name_verdict(s@, false) is Ok),
            !is_reserved(s@) ==> (r matches Err(e) ==> name_verdict(s@, false) == Err::<(), Error>(e)),
    {
        proof {
            lemma_category_literals();
        }
        if text_eq(s, "heads") {
            Ok(RefsCategory::Heads)
        } else if text_eq(s, "rad") {
            Ok(RefsCategory::Rad)
        } else if text_eq(s, "tags") {
            Ok(RefsCategory::Tags)
        } else if text_eq(s, "notes") {
            Ok(RefsCategory::Notes)
        } else if text_eq(s, "cobs") {
            Ok(RefsCategory::Cobs)
        } else {
            match RefLike::try_from_str(s) {
                Ok(r) => Ok(RefsCategory::Unknown(r)),
                Err(e) => Err(e),
            }
        }
    }

    /// The category of a name: the variant whose text it is, else `Unknown`.
    pub fn from_ref_like(r: &RefLike) -> (c: RefsCategory)
        ensures
            category_text(c) == r@,
            is_reserved(r@) <==> !(c matches RefsCategory::Unknown(_)),
    {
        proof {
            lemma_category_literals();
        }
        let s = r.as_str();
        if text_eq(s, "heads") {
            RefsCategory::Heads
        } else if text_eq(s, "rad") {
            RefsCategory::Rad
        } else if text_eq(s, "tags") {
            RefsCategory::Tags
        } else if text_eq(s, "notes") {
            RefsCategory::Notes
        } else if text_eq(s, "cobs") {
            RefsCategory::Cobs
        } else {
            RefsCategory::Unknown(r.clone())
        }
    }

    /// The category as a name.
    pub fn to_ref_like(&self) -> (r: RefLike)
        ensures
            r@ == category_text(*self),
    {
        proof {
            lemma_category_shapes();
            lemma_category_literals();
        }
        match self {
            RefsCategory::Heads => RefLike::from_component("heads"),
            RefsCategory::Rad => RefLike::from_component("rad"),
            RefsCategory::Tags => RefLike::from_component("tags"),
            RefsCategory::Notes => RefLike::from_component("notes"),
            RefsCategory::Cobs => RefLike::from_component("cobs"),
            RefsCategory::Unknown(r) => r.clone(),
        }
    }
}

impl std::str::FromStr for RefsCategory {
    type Err = Error;

    fn from_str(s: &str) -> Result<RefsCategory, Error> {
        RefsCategory::from_str(s)
    }
}

/// The literals of the reserved category names hold their texts.
proof fn lemma_category_literals()
    ensures
        "heads"@ == heads_text(),
        "rad"@ == rad_text(),
        "tags"@ == tags_text(),
        "notes"@ == notes_text(),
        "cobs"@ == cobs_text(),
{
    reveal_strlit("heads");
    reveal_strlit("rad");
    reveal_strlit("tags");
    reveal_strlit("notes");
    reveal_strlit("cobs");
    assert("heads"@ =~= heads_text());
    assert("rad"@ =~= rad_text());
    assert("tags"@ =~= tags_text());
    assert("notes"@ =~= notes_text());
    assert("cobs"@ =~= cobs_text());
}

/// The reserved category names have the shape of a name.
proof fn lemma_category_shapes()
    ensures
        single_shape(heads_text()),
        single_shape(rad_text()),
        single_shape(tags_text()),
        single_shape(notes_text()),
        single_shape(cobs_text()),
{
    lemma_component_shape(heads_text());
    lemma_component_shape(rad_text());
    lemma_component_shape(tags_text());
    lemma_component_shape(notes_text());
    lemma_component_shape(cobs_text());
}

} // verus!

verus! {

/// Whether an existing reference may be overwritten.
#[derive(Clone, Copy, Debug, PartialEq, Eq, Structural)]
pub enum Force {
    True,
    False,
}

impl Force {
    /// `true` for `Force::True`.
    pub fn as_bool(&self) -> (r: bool)
        ensures
            r == (*self == Force::True),
    {
        match self {
            Force::True => true,
            Force::False => false,
        }
    }
}

/// A value that can stand as the namespace of a reference.
pub trait AsNamespace {
    /// The namespace's text.
    spec fn namespace_text(&self) -> Seq<char>;

    /// The namespace as a name.
    fn as_namespace(&self) -> (r: RefLike)
        ensures
            r@ == self.namespace_text(),
    ;
}

/// A value that can stand as the remote of a reference.
pub trait AsRemote {
    /// The remote's text.
    spec fn remote_text(&self) -> Seq<char>;

    /// The remote as a name.
    fn as_remote(&self) -> (r: RefLike)
        ensures
            r@ == self.remote_text(),
    ;
}

impl AsNamespace for RefLike {
    open spec fn namespace_text(&self) -> Seq<char> {
        self@
    }

    fn as_namespace(&self) -> (r: RefLike) {
        self.clone()
    }
}

impl AsRemote for RefLike {
    open spec fn remote_text(&self) -> Seq<char> {
        self@
    }

    fn as_remote(&self) -> (r: RefLike) {
        self.clone()
    }
}

/// The literal `refs`.
pub open spec fn refs_text() -> Seq<char> {
    seq!['r', 'e', 'f', 's']
}

/// The literal `namespaces`.
pub open spec fn namespaces_text() -> Seq<char> {
    seq!['n', 'a', 'm', 'e', 's', 'p', 'a', 'c', 'e', 's']
}

/// The literal `remotes`.
pub open spec fn remotes_text() -> Seq<char> {
    seq!['r', 'e', 'm', 'o', 't', 'e', 's']
}

/// `refs`, then `namespaces/<ns>/refs` when a namespace is given, then
/// `remotes/<remote>` when a remote is given, then the category.
pub open spec fn scope_text(
    ns: Option<Seq<char>>,
    remote: Option<Seq<char>>,
    category: Seq<char>,
) -> Seq<char> {
    let base = match ns {
        Some(n) => slash_join(slash_join(slash_join(refs_text(), namespaces_text()), n), refs_text()),
        None => refs_text(),
    };
    let scoped = match remote {
        Some(r) => slash_join(slash_join(base, remotes_text()), r),
        None => base,
    };
    slash_join(scoped, category)
}

/// A reference scoped by an optional namespace, an optional remote and a
/// category. `C` is `RefLike` for one reference, `RefspecPattern` for many.
#[derive(Clone, Debug, PartialEq, Eq)]
pub struct Reference<N, R, C> {
    /// The remote portion of this reference.
    pub remote: Option<R>,
    /// Where this reference falls under, i.e. `heads`, `tags`, `cobs` or `rad`.
    pub category: RefsCategory,
    /// The path of the reference, e.g. `feature/123`, `dev`, `*`.
    pub name: C,
    /// The namespace of this reference.
    pub namespace: Option<N>,
}

impl<N: AsNamespace, R: AsRemote, C> Reference<N, R, C> {
    /// The namespace's text, if any.
    pub open spec fn namespace_view(&self) -> Option<Seq<char>> {
        match self.namespace {
            Some(n) => Some(n.namespace_text()),
            None => None,
        }
    }

    /// The remote's text, if any.
    pub open spec fn remote_view(&self) -> Option<Seq<char>> {
        match self.remote {
            Some(r) => Some(r.remote_text()),
            None => None,
        }
    }

    /// Everything of the rendered reference before the name.
    pub open spec fn scope_view(&self) -> Seq<char> {
        scope_text(self.namespace_view(), self.remote_view(), category_text(self.category))
    }

    /// The rendered reference up to and including the category.
    fn scope(&self) -> (r: RefLike)
        ensures
            r@ == self.scope_view(),
    {
        proof {
            lemma_component_shape(refs_text());
            lemma_component_shape(namespaces_text());
            lemma_component_shape(remotes_text());
            reveal_strlit("refs");
            reveal_strlit("namespaces");
            reveal_strlit("remotes");
            assert("refs"@ =~= refs_text());
            assert("namespaces"@ =~= namespaces_text());
            assert("remotes"@ =~= remotes_text());
        }
        let mut refl = RefLike::from_component("refs");
        match &self.namespace {
            Some(ns) => {
                refl = refl.join(&RefLike::from_component("namespaces")).join(
                    &ns.as_namespace(),
                ).join(&RefLike::from_component("refs"));
            },
            None => {},
        }
        match &self.remote {
            Some(remote) => {
                refl = refl.join(&RefLike::from_component("remotes")).join(&remote.as_remote());
            },
            None => {},
        }
        refl.join(&self.category.to_ref_like())
    }
}

impl<N, R, C> Reference<N, R, C> {
    /// The same reference with another remote.
    pub fn with_remote(self, remote: Option<R>) -> (r: Self)
        ensures
            r == (Reference { remote, ..self }),
    {
        Reference { remote, ..self }
    }

    /// Sets the remote.
    pub fn set_remote(&mut self, remote: Option<R>)
        ensures
            *final(self) == (Reference { remote, ..*old(self) }),
    {
        self.remote = remote;
    }

    /// Sets the remote, for chaining.
    pub fn remote(&mut self, remote: Option<R>) -> (r: &mut Self)
        ensures
            *r == (Reference { remote, ..*old(self) }),
            *final(self) == *final(r),
    {
        self.set_remote(remote);
        self
    }

    /// The same reference in another namespace, possibly of another type.
    pub fn with_namespace<Other>(self, namespace: Option<Other>) -> (r: Reference<Other, R, C>)
        ensures
            r.namespace == namespace,
            r.remote == self.remote,
            r.category == self.category,
            r.name == self.name,
    {
        Reference {
            name: self.name,
            remote: self.remote,
            category: self.category,
            namespace,
        }
    }

    /// The same reference with another name.
    pub fn with_name(self, name: C) -> (r: Self)
        ensures
            r == (Reference { name, ..self }),
    {
        Reference { name, ..self }
    }

    /// Sets the name.
    pub fn set_name(&mut self, name: C)
        ensures
            *final(self) == (Reference { name, ..*old(self) }),
    {
        self.name = name;
    }

    /// Sets the name, for chaining.
    pub fn name(&mut self, name: C) -> (r: &mut Self)
        ensures
            *r == (Reference { name, ..*old(self) }),
            *final(self) == *final(r),
    {
        self.set_name(name);
        self
    }
}

} // verus!

verus! {

/// The literal `id`.
pub open spec fn id_text() -> Seq<char> {
    seq!['i', 'd']
}

/// The literal `signed_refs`.
pub open spec fn signed_refs_text() -> Seq<char> {
    seq!['s', 'i', 'g', 'n', 'e', 'd', '_', 'r', 'e', 'f', 's']
}

/// The literal `self`.
pub open spec fn self_text() -> Seq<char> {
    seq!['s', 'e', 'l', 'f']
}

/// The pattern `*`.
pub open spec fn star_text() -> Seq<char> {
    seq!['*']
}

/// The pattern `ids/*`.
pub open spec fn ids_star_text() -> Seq<char> {
    seq!['i', 'd', 's', '/', '*']
}

/// A reference with the given parts.
pub open spec fn scoped<N, R, C>(
    namespace: Option<N>,
    remote: Option<R>,
    category: RefsCategory,
    name: C,
) -> Reference<N, R, C> {
    Reference { remote, category, name, namespace }
}

impl<N: AsNamespace, R: AsRemote> Reference<N, R, RefLike> {
    /// The rendered single reference: the scope, then the collapsed name, so
    /// that a name that carries its own `refs/<category>/` is not qualified
    /// twice.
    pub fn to_ref_like(&self) -> (r: RefLike)
        ensures
            r@ == slash_join(self.scope_view(), collapse(self.name@)),
    {
        let name = crate::name::OneLevel::from_ref_like(self.name.clone()).into_ref_like();
        self.scope().join(&name)
    }

    /// The rendered single reference, as a pattern without wildcard.
    pub fn to_pattern(&self) -> (r: RefspecPattern)
        ensures
            r@ == slash_join(self.scope_view(), collapse(self.name@)),
    {
        RefspecPattern::from_ref_like(self.to_ref_like())
    }

    /// The descriptor of a symbolic reference from `source` to `self`.
    pub fn symbolic_ref<SN, SR>(self, source: Reference<SN, SR, RefLike>, force: Force) -> (r:
        SymbolicRef<Reference<SN, SR, RefLike>, Self>)
        ensures
            r == (SymbolicRef { source, target: self, force }),
    {
        SymbolicRef { source, target: self, force }
    }

    /// `refs[/namespaces/<namespace>/refs]/rad/id`.
    pub fn rad_id(namespace: Option<N>) -> (r: Self)
        ensures
            r.namespace == namespace,
            r.remote is None,
            r.category == RefsCategory::Rad,
            r.name@ == id_text(),
    {
        proof {
            lemma_component_shape(id_text());
            reveal_strlit("id");
            assert("id"@ =~= id_text());
        }
        Reference {
            remote: None,
            category: RefsCategory::Rad,
            name: RefLike::from_component("id"),
            namespace,
        }
    }

    /// `refs[/namespaces/<namespace>/refs][/remotes/<remote>]/rad/signed_refs`.
    pub fn rad_signed_refs(namespace: Option<N>, remote: Option<R>) -> (r: Self)
        ensures
            r.namespace == namespace,
            r.remote == remote,
            r.category == RefsCategory::Rad,
            r.name@ == signed_refs_text(),
    {
        proof {
            lemma_component_shape(signed_refs_text());
            reveal_strlit("signed_refs");
            assert("signed_refs"@ =~= signed_refs_text());
        }
        Reference {
            remote,
            category: RefsCategory::Rad,
            name: RefLike::from_component("signed_refs"),
            namespace,
        }
    }

    /// `refs[/namespaces/<namespace>/refs][/remotes/<remote>]/rad/self`.
    pub fn rad_self(namespace: Option<N>, remote: Option<R>) -> (r: Self)
        ensures
            r.namespace == namespace,
            r.remote == remote,
            r.category == RefsCategory::Rad,
            r.name@ == self_text(),
    {
        proof {
            lemma_component_shape(self_text());
            reveal_strlit("self");
            assert("self"@ =~= self_text());
        }
        Reference {
            remote,
            category: RefsCategory::Rad,
            name: RefLike::from_component("self"),
            namespace,
        }
    }

    /// `refs[/namespaces/<namespace>/refs][/remotes/<remote>]/heads/<name>`.
    pub fn head(namespace: Option<N>, remote: Option<R>, name: RefLike) -> (r: Self)
        ensures
            r == scoped(namespace, remote, RefsCategory::Heads, name),
    {
        Reference { remote, category: RefsCategory::Heads, name, namespace }
    }

    /// `refs[/namespaces/<namespace>/refs][/remotes/<remote>]/tags/<name>`.
    pub fn tag(namespace: Option<N>, remote: Option<R>, name: RefLike) -> (r: Self)
        ensures
            r == scoped(namespace, remote, RefsCategory::Tags, name),
    {
        Reference { remote, category: RefsCategory::Tags, name, namespace }
    }
}

impl<N: AsNamespace, R: AsRemote> Reference<N, R, RefspecPattern> {
    /// The rendered pattern: the scope, then the pattern as it is.
    pub fn to_pattern(&self) -> (r: RefspecPattern)
        ensures
            r@ == slash_join(self.scope_view(), self.name@),
    {
        self.scope().with_pattern_suffix(&self.name)
    }

    /// A reference of the given category whose name is the pattern `*`.
    fn all_of(namespace: Option<N>, remote: Option<R>, category: RefsCategory) -> (r: Self)
        ensures
            r.namespace == namespace,
            r.remote == remote,
            r.category == category,
            r.name@ == star_text(),
    {
        proof {
            reveal_strlit("*");
            assert("*"@ =~= star_text());
            assert(star_text().drop_last() =~= Seq::<char>::empty());
            assert(count_char(Seq::<char>::empty(), '*') == 0);
            assert(count_char(star_text(), '*') == 1);
        }
        Reference { remote, category, name: RefspecPattern::from_pattern_text("*"), namespace }
    }

    /// `refs[/namespaces/<namespace>/refs]/rad/ids/*`.
    pub fn rad_ids_glob(namespace: Option<N>) -> (r: Self)
        ensures
            r.namespace == namespace,
            r.remote is None,
            r.category == RefsCategory::Rad,
            r.name@ == ids_star_text(),
    {
        proof {
            reveal_strlit("ids/*");
            assert("ids/*"@ =~= ids_star_text());
            let ids = seq!['i', 'd', 's'];
            lemma_component_shape(ids);
            assert(star_text().drop_last() =~= Seq::<char>::empty());
            assert(count_char(Seq::<char>::empty(), '*') == 0);
            assert(count_char(star_text(), '*') == 1);
            assert(star_text()[0] == '*');
            lemma_join_shape(ids, star_text());
            assert(slash_join(ids, star_text()) =~= ids_star_text());
        }
        Reference {
            remote: None,
            category: RefsCategory::Rad,
            name: RefspecPattern::from_pattern_text("ids/*"),
            namespace,
        }
    }

    /// `refs[/namespaces/<namespace>/refs][/remotes/<remote>]/heads/*`.
    pub fn heads(namespace: Option<N>, remote: Option<R>) -> (r: Self)
        ensures
            r.namespace == namespace,
            r.remote == remote,
            r.category == RefsCategory::Heads,
            r.name@ == star_text(),
    {
        Self::all_of(namespace, remote, RefsCategory::Heads)
    }

    /// `refs[/namespaces/<namespace>/refs][/remotes/<remote>]/rad/*`.
    pub fn rads(namespace: Option<N>, remote: Option<R>) -> (r: Self)
        ensures
            r.namespace == namespace,
            r.remote == remote,
            r.category == RefsCategory::Rad,
            r.name@ == star_text(),
    {
        Self::all_of(namespace, remote, RefsCategory::Rad)
    }

    /// `refs[/namespaces/<namespace>/refs][/remotes/<remote>]/tags/*`.
    pub fn tags(namespace: Option<N>, remote: Option<R>) -> (r: Self)
        ensures
            r.namespace == namespace,
            r.remote == remote,
            r.category == RefsCategory::Tags,
            r.name@ == star_text(),
    {
        Self::all_of(namespace, remote, RefsCategory::Tags)
    }

    /// `refs[/namespaces/<namespace>/refs][/remotes/<remote>]/notes/*`.
    pub fn notes(namespace: Option<N>, remote: Option<R>) -> (r: Self)
        ensures
            r.namespace == namespace,
            r.remote == remote,
            r.category == RefsCategory::Notes,
            r.name@ == star_text(),
    {
        Self::all_of(namespace, remote, RefsCategory::Notes)
    }

    /// `refs[/namespaces/<namespace>/refs][/remotes/<remote>]/cobs/*`.
    pub fn cob(namespace: Option<N>, remote: Option<R>) -> (r: Self)
        ensures
            r.namespace == namespace,
            r.remote == remote,
            r.category == RefsCategory::Cobs,
            r.name@ == star_text(),
    {
        Self::all_of(namespace, remote, RefsCategory::Cobs)
    }
}

/// What is needed to create a symbolic reference `source` that points to
/// `target`.
pub struct SymbolicRef<S, T> {
    /// The new symbolic reference.
    pub source: S,
    /// The existing reference that `source` will point to.
    pub target: T,
    /// Whether a pre-existing `source` may be overwritten.
    pub force: Force,
}

/// The reflog message recorded when a symbolic reference is created.
pub open spec fn symbolic_message(source: Seq<char>, target: Seq<char>) -> Seq<char> {
    seq!['c', 'r', 'e', 'a', 't', 'i', 'n', 'g', ' ', 's', 'y', 'm', 'b', 'o', 'l', 'i', 'c', ' ', 'r', 'e', 'f', ' ']
        + source + seq![' ', '-', '>', ' '] + target
}

impl<SN: AsNamespace, SR: AsRemote, TN: AsNamespace, TR: AsRemote> SymbolicRef<
    Reference<SN, SR, RefLike>,
    Reference<TN, TR, RefLike>,
> {
    /// The rendered name of the new symbolic reference.
    pub fn source_name(&self) -> (r: RefLike)
        ensures
            r@ == slash_join(self.source.scope_view(), collapse(self.source.name@)),
    {
        self.source.to_ref_like()
    }

    /// The rendered name of the reference pointed to.
    pub fn target_name(&self) -> (r: RefLike)
        ensures
            r@ == slash_join(self.target.scope_view(), collapse(self.target.name@)),
    {
        self.target.to_ref_like()
    }

    /// The reflog message that names both references.
    pub fn reflog_message(&self) -> (r: String)
        ensures
            r@ == symbolic_message(self.source_name_view(), self.target_name_view()),
    {
        proof {
            reveal_strlit("creating symbolic ref ");
            reveal_strlit(" -> ");
        }
        let source = self.source_name();
        let target = self.target_name();
        let r = String::from_str("creating symbolic ref ").concat(source.as_str()).concat(" -> ").concat(
            target.as_str(),
        );
        proof {
            assert(r@ =~= symbolic_message(self.source_name_view(), self.target_name_view()));
        }
        r
    }

    /// The rendered name of the new symbolic reference.
    pub open spec fn source_name_view(&self) -> Seq<char> {
        slash_join(self.source.scope_view(), collapse(self.source.name@))
    }

    /// The rendered name of the reference pointed to.
    pub open spec fn target_name_view(&self) -> Seq<char> {
        slash_join(self.target.scope_view(), collapse(self.target.name@))
    }
}

} // verus!
