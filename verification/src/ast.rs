use vstd::prelude::*;

verus! {

/// A position in the annotated source text, carried through to diagnostics.
#[derive(Clone, Copy, PartialEq, Eq, Structural, Debug)]
pub struct Span {
    pub lo: usize,
    pub hi: usize,
}

/// A named type reference: its path segments, and the textual form of the
/// generic arguments of its last segment (empty when there are none).
///
/// Two references are the same key exactly when their full textual forms
/// match; matching a payload against a generic parameter of the enclosing
/// type goes by the segments alone and ignores the arguments.  The model
/// keeps no more than this: generic arguments of segments other than the
/// last, and a leading path qualifier, are not represented, so references
/// differing only there fall together.
#[derive(Debug, PartialEq, Eq)]
pub struct TypeRef {
    pub segments: Vec<String>,
    pub args: String,
}

#[verifier::ext_equal]
pub ghost struct TypeRefV {
    pub segments: Seq<Seq<char>>,
    pub args: Seq<char>,
}

impl View for TypeRef {
    type V = TypeRefV;

    open spec fn view(&self) -> TypeRefV {
        TypeRefV { segments: self.segments.deep_view(), args: self.args@ }
    }
}

impl DeepView for TypeRef {
    type V = TypeRefV;

    open spec fn deep_view(&self) -> TypeRefV {
        self.view()
    }
}

/// Clones a vector of strings, keeping its contents.
pub fn clone_strings(v: &Vec<String>) -> (r: Vec<String>)
    ensures
        r.deep_view() == v.deep_view(),
{
    let mut r: Vec<String> = Vec::new();
    let mut i: usize = 0;
    while i < v.len()
        invariant
            i <= v.len(),
            r.deep_view() =~= v.deep_view().take(i as int),
        decreases v.len() - i,
    {
        let ghost prev = r.deep_view();
        let s = v[i].clone();
        assert(s@ == v.deep_view()[i as int]);
        r.push(s);
        proof {
            assert(r.deep_view() =~= prev.push(s@));
            assert(r.deep_view() =~= v.deep_view().take(i as int + 1));
        }
        i = i + 1;
    }
    proof {
        assert(r.deep_view() =~= v.deep_view());
    }
    r
}

/// Compares two vectors of strings by their contents.
pub fn vec_str_eq(a: &Vec<String>, b: &Vec<String>) -> (r: bool)
    ensures
        r == (a.deep_view() == b.deep_view()),
{
    if a.len() != b.len() {
        proof {
            assert(a.deep_view().len() != b.deep_view().len());
        }
        return false;
    }
    let mut i: usize = 0;
    while i < a.len()
        invariant
            i <= a.len(),
            a.len() == b.len(),
            forall|j: int| 0 <= j < i ==> a.deep_view()[j] == b.deep_view()[j],
        decreases a.len() - i,
    {
        if !(a[i] == b[i]) {
            proof {
                assert(a.deep_view()[i as int] != b.deep_view()[i as int]);
            }
            return false;
        }
        i = i + 1;
    }
    proof {
        assert(a.deep_view() =~= b.deep_view());
    }
    true
}

/// Whether `x` occurs in `v`, by contents.
pub fn contains_string(v: &Vec<String>, x: &String) -> (r: bool)
    ensures
        r == v.deep_view().contains(x@),
{
    let mut i: usize = 0;
    while i < v.len()
        invariant
            i <= v.len(),
            forall|j: int| 0 <= j < i ==> v.deep_view()[j] != x@,
        decreases v.len() - i,
    {
        if v[i] == *x {
            proof {
                assert(v.deep_view()[i as int] == v@[i as int]@);
                assert(v.deep_view()[i as int] == x@);
                assert(v.deep_view().contains(x@));
            }
            return true;
        }
        i = i + 1;
    }
    false
}

impl Clone for TypeRef {
    fn clone(&self) -> (res: Self)
        ensures
            res@ == self@,
    {
        let res = TypeRef { segments: clone_strings(&self.segments), args: self.args.clone() };
        proof {
            assert(res@ =~= self@);
        }
        res
    }
}

impl TypeRef {
    /// Compares two references by their full textual form.
    pub fn same_as(&self, other: &TypeRef) -> (r: bool)
        ensures
            r == (self@ == other@),
    {
        if !vec_str_eq(&self.segments, &other.segments) {
            return false;
        }
        if !(self.args == other.args) {
            return false;
        }
        proof {
            assert(self@ =~= other@);
        }
        true
    }
}

/// The single identifier a reference consists of, when it is a plain
/// one-segment path without generic arguments.
pub open spec fn spec_ident_of(t: TypeRef) -> Option<Seq<char>> {
    if t@.segments.len() == 1 && t@.args.len() == 0 {
        Some(t@.segments[0])
    } else {
        None
    }
}

/// The executable form of [`spec_ident_of`].
pub fn get_ident(t: &TypeRef) -> (r: Option<&String>)
    ensures
        match r {
            Some(s) => spec_ident_of(*t) == Some(s@),
            None => spec_ident_of(*t) is None,
        },
{
    if t.segments.len() == 1 && t.args.as_str().is_empty() {
        Some(&t.segments[0])
    } else {
        None
    }
}

/// How an `inline_from` target was written: as a bare path, or as a string
/// literal that itself parses as a type reference.  A literal target can carry
/// the enclosing type's own generic parameter.  The spelling is kept for
/// diagnostics and rendering only: grouping keys compare the full textual
/// form alone, so the two spellings of one text are one key.
#[derive(Debug, PartialEq, Eq)]
pub enum PathOrLit {
    Path(TypeRef),
    Lit(TypeRef),
}

#[verifier::ext_equal]
pub ghost enum PathOrLitV {
    Path(TypeRefV),
    Lit(TypeRefV),
}

impl View for PathOrLit {
    type V = PathOrLitV;

    open spec fn view(&self) -> PathOrLitV {
        match self {
            PathOrLit::Path(t) => PathOrLitV::Path(t@),
            PathOrLit::Lit(t) => PathOrLitV::Lit(t@),
        }
    }
}

impl DeepView for PathOrLit {
    type V = PathOrLitV;

    open spec fn deep_view(&self) -> PathOrLitV {
        self.view()
    }
}

impl Clone for PathOrLit {
    fn clone(&self) -> (res: Self)
        ensures
            res@ == self@,
    {
        match self {
            PathOrLit::Path(t) => PathOrLit::Path(t.clone()),
            PathOrLit::Lit(t) => PathOrLit::Lit(t.clone()),
        }
    }
}

/// The referenced path of either spelling, with the generic arguments of its
/// last segment erased.
pub open spec fn spec_erased_path(p: PathOrLitV) -> TypeRefV {
    match p {
        PathOrLitV::Path(t) => TypeRefV { segments: t.segments, args: Seq::empty() },
        PathOrLitV::Lit(t) => TypeRefV { segments: t.segments, args: Seq::empty() },
    }
}

impl PathOrLit {
    /// The executable form of [`spec_erased_path`].
    pub fn path(&self) -> (r: TypeRef)
        ensures
            r@ == spec_erased_path(self@),
    {
        let inner = match self {
            PathOrLit::Path(t) => t,
            PathOrLit::Lit(t) => t,
        };
        let r = TypeRef { segments: clone_strings(&inner.segments), args: String::new() };
        proof {
            assert(r@ =~= spec_erased_path(self@));
        }
        r
    }

}

/// The parts joined by the separator.
pub open spec fn spec_join_tail(parts: Seq<Seq<char>>, sep: Seq<char>) -> Seq<char>
    decreases parts.len(),
{
    if parts.len() == 0 {
        Seq::empty()
    } else {
        sep + parts[0] + spec_join_tail(parts.skip(1), sep)
    }
}

/// The parts joined by the separator, nothing for no parts.
pub open spec fn spec_join(parts: Seq<Seq<char>>, sep: Seq<char>) -> Seq<char> {
    if parts.len() == 0 {
        Seq::empty()
    } else {
        parts[0] + spec_join_tail(parts.skip(1), sep)
    }
}

/// The path text of a reference: its segments joined by `::`.
pub open spec fn spec_path_text(t: TypeRefV) -> Seq<char> {
    spec_join(t.segments, "::"@)
}

/// The full text of a reference: its path followed by the printed generic
/// arguments of its last segment.
pub open spec fn spec_full_text(t: TypeRefV) -> Seq<char> {
    spec_path_text(t) + t.args
}

/// The text an `inline_from` target was written as, in either spelling.
pub open spec fn spec_target_text(p: PathOrLitV) -> Seq<char> {
    match p {
        PathOrLitV::Path(t) => spec_full_text(t),
        PathOrLitV::Lit(t) => spec_full_text(t),
    }
}

/// Joins parts with a separator.
fn join(parts: &Vec<String>, sep: &str) -> (r: String)
    ensures
        r@ == spec_join(parts.deep_view(), sep@),
{
    let ghost dv = parts.deep_view();
    if parts.len() == 0 {
        let r = String::new();
        proof {
            assert(r@ =~= spec_join(dv, sep@));
        }
        return r;
    }
    let mut out = parts[0].clone();
    let mut i: usize = 1;
    proof {
        assert(dv.skip(0) =~= dv);
    }
    while i < parts.len()
        invariant
            1 <= i <= parts.len(),
            spec_join(dv, sep@) == out@ + spec_join_tail(dv.skip(i as int), sep@),
        decreases parts.len() - i,
    {
        proof {
            assert(dv.skip(i as int)[0] == dv[i as int]);
            assert(dv.skip(i as int).skip(1) =~= dv.skip(i as int + 1));
            assert(dv[i as int] == parts@[i as int]@);
        }
        let ghost before = out@;
        out.append(sep);
        out.append(parts[i].as_str());
        proof {
            assert(before + (sep@ + dv[i as int] + spec_join_tail(dv.skip(i as int + 1), sep@))
                =~= out@ + spec_join_tail(dv.skip(i as int + 1), sep@));
        }
        i = i + 1;
    }
    proof {
        assert(dv.skip(parts@.len() as int) =~= Seq::<Seq<char>>::empty());
        assert(out@ + Seq::<char>::empty() =~= out@);
    }
    out
}

/// Prints a reference's full text.
pub fn render_full(t: &TypeRef) -> (r: String)
    ensures
        r@ == spec_full_text(t@),
{
    let mut out = join(&t.segments, "::");
    out.append(t.args.as_str());
    out
}

/// Prints the text an `inline_from` target was written as.
pub fn render_target(p: &PathOrLit) -> (r: String)
    ensures
        r@ == spec_target_text(p@),
{
    match p {
        PathOrLit::Path(t) => render_full(t),
        PathOrLit::Lit(t) => render_full(t),
    }
}

/// A literal that stands inside an annotation: a string, or any other kind.
#[derive(Debug, PartialEq, Eq)]
pub enum LitKind {
    Str(String),
    Other,
}

/// One parsed entry inside a directive's argument list.
#[derive(Debug, PartialEq, Eq)]
pub enum ArgItem {
    /// A bare path or type reference.
    Path(TypeRef, Span),
    /// A string literal.
    Str(String, Span),
    /// A literal of any other kind.
    OtherLit(Span),
    /// A further nested list or key-value entry; no recognized directive
    /// accepts one, so only its position is kept.
    Nested(Span),
}

#[verifier::ext_equal]
pub ghost enum ArgItemV {
    Path(TypeRefV, Span),
    Str(Seq<char>, Span),
    OtherLit(Span),
    Nested(Span),
}

impl View for ArgItem {
    type V = ArgItemV;

    open spec fn view(&self) -> ArgItemV {
        match self {
            ArgItem::Path(t, sp) => ArgItemV::Path(t@, *sp),
            ArgItem::Str(s, sp) => ArgItemV::Str(s@, *sp),
            ArgItem::OtherLit(sp) => ArgItemV::OtherLit(*sp),
            ArgItem::Nested(sp) => ArgItemV::Nested(*sp),
        }
    }
}

impl DeepView for ArgItem {
    type V = ArgItemV;

    open spec fn deep_view(&self) -> ArgItemV {
        self.view()
    }
}

impl Clone for ArgItem {
    fn clone(&self) -> (res: Self)
        ensures
            res@ == self@,
    {
        match self {
            ArgItem::Path(t, sp) => ArgItem::Path(t.clone(), *sp),
            ArgItem::Str(s, sp) => ArgItem::Str(s.clone(), *sp),
            ArgItem::OtherLit(sp) => ArgItem::OtherLit(*sp),
            ArgItem::Nested(sp) => ArgItem::Nested(*sp),
        }
    }
}

/// Clones a directive argument list, keeping its contents.
pub fn clone_arg_items(v: &Vec<ArgItem>) -> (r: Vec<ArgItem>)
    ensures
        r.deep_view() == v.deep_view(),
{
    let mut r: Vec<ArgItem> = Vec::new();
    let mut i: usize = 0;
    while i < v.len()
        invariant
            i <= v.len(),
            r.deep_view() =~= v.deep_view().take(i as int),
        decreases v.len() - i,
    {
        let ghost prev = r.deep_view();
        let s = v[i].clone();
        assert(s@ == v.deep_view()[i as int]);
        r.push(s);
        proof {
            assert(r.deep_view() =~= prev.push(s@));
            assert(r.deep_view() =~= v.deep_view().take(i as int + 1));
        }
        i = i + 1;
    }
    proof {
        assert(r.deep_view() =~= v.deep_view());
    }
    r
}

/// One entry inside the parenthesized list of a `compound_error` annotation:
/// a bare key, a key with a string value, a key with a further list, or a
/// plain literal (which no position accepts).
#[derive(Debug, PartialEq, Eq)]
pub enum DirectiveEntry {
    /// `key` — the key's path and its position.
    Bare(TypeRef, Span),
    /// `key = <literal>` — the key, its position, the literal, its position.
    WithValue(TypeRef, Span, LitKind, Span),
    /// `key(<entries>)` — the key, its position, and the argument list.
    WithList(TypeRef, Span, Vec<ArgItem>),
    /// A literal standing directly in the annotation list.
    Literal(Span),
}

/// What one attached annotation parses to, as the host parser hands it over.
#[derive(Debug, PartialEq, Eq)]
pub enum AttrPayload {
    /// The annotation is a bare path: it carries no directives.
    Bare,
    /// The annotation is a key-value pair, which is not an accepted shape;
    /// the span points at it.
    Value(Span),
    /// The annotation is a parenthesized list of entries.
    Entries(Vec<DirectiveEntry>),
    /// The annotation could not be parsed into any of the three shapes.
    Unparsed,
}

/// One raw annotation attached to the type or to a variant.
#[derive(Debug, PartialEq, Eq)]
pub struct RawAttr {
    /// The annotation's group path (annotations of other groups are skipped).
    pub group: TypeRef,
    /// Its parsed payload.
    pub payload: AttrPayload,
    /// The position of the whole annotation.
    pub span: Span,
}

/// The fields of one tagged-union variant.  Each unnamed field carries its
/// type reference when that type is a plain named type, and `None` otherwise.
#[derive(Debug, PartialEq, Eq)]
pub enum VariantFields {
    Unnamed(Vec<Option<TypeRef>>),
    Named,
    Unit,
}

/// One variant of a tagged-union definition.
#[derive(Debug, PartialEq, Eq)]
pub struct VariantDef {
    pub ident: String,
    pub fields: VariantFields,
    pub attrs: Vec<RawAttr>,
}

/// The structural shape of the annotated type.
#[derive(Debug, PartialEq, Eq)]
pub enum TypeShape {
    /// A record: no variants.
    Record,
    /// A tagged union with its ordered variants.
    TaggedUnion(Vec<VariantDef>),
    /// Any other shape, which the generator rejects.
    Other,
}

/// A parsed type definition, as the host parser hands it over.
#[derive(Debug, PartialEq, Eq)]
pub struct TypeDef {
    /// The type's own name.
    pub ident: String,
    /// The names of its generic type parameters, for matching a payload
    /// against them.
    pub type_params: Vec<String>,
    /// The printed form of the whole generic-parameter list as an `impl`
    /// introduces it — lifetimes, bounds and const parameters included —
    /// empty when the type takes none.
    pub generics_impl: String,
    /// The printed form of the generic arguments as the type's name takes
    /// them; empty when the type takes none.
    pub generics_type: String,
    /// The printed `where` clause, empty when there is none.
    pub generics_where: String,
    /// The annotations attached to the type itself.
    pub attrs: Vec<RawAttr>,
    /// Its structural shape.
    pub shape: TypeShape,
    /// The position of the whole definition.
    pub span: Span,
}

} // verus!
