use vstd::prelude::*;
use vstd::pervasive::VecAdditionalExecFns;

use crate::ast::ArgItem;
use crate::ast::ArgItemV;
use crate::ast::AttrPayload;
use crate::ast::DirectiveEntry;
use crate::ast::LitKind;
use crate::ast::RawAttr;
use crate::ast::Span;
use crate::ast::TypeRef;
use crate::ast::TypeRefV;
use crate::ast::clone_arg_items;
use crate::ast::clone_strings;
use crate::ast::get_ident;
use crate::ast::spec_ident_of;

verus! {

/// A single failure message bound to a source position, mirroring a
/// compiler error.
#[derive(Debug, PartialEq, Eq)]
pub struct Diagnostic {
    pub span: Span,
    pub message: String,
}

#[verifier::ext_equal]
pub ghost struct DiagnosticV {
    pub span: Span,
    pub message: Seq<char>,
}

impl View for Diagnostic {
    type V = DiagnosticV;

    open spec fn view(&self) -> DiagnosticV {
        DiagnosticV { span: self.span, message: self.message@ }
    }
}

/// Builds the diagnostic for a failure at `span`.
pub fn error(span: Span, message: &str) -> (d: Diagnostic)
    ensures
        d@ == (DiagnosticV { span, message: message@ }),
{
    Diagnostic { span, message: message.to_owned() }
}

/// The ways a raw annotation list can be malformed.
#[derive(Clone, Copy, PartialEq, Eq, Structural, Debug)]
pub enum AttrArgsError {
    /// A key outside the allow-list for this position.
    InvalidArg(Span),
    /// A literal standing directly in the annotation list.
    LitArg(Span),
    /// A key that appeared twice for the same position.
    DuplicateArg(Span),
    /// An annotation that does not parse into any accepted shape.
    NoMeta(Span),
    /// An annotation written as a key-value pair.
    NoNestedMeta(Span),
}

/// The diagnostic each parse failure explains itself as.
pub open spec fn spec_explain(e: AttrArgsError) -> DiagnosticV {
    match e {
        AttrArgsError::InvalidArg(sp) => DiagnosticV { span: sp, message: "Invalid argument."@ },
        AttrArgsError::LitArg(sp) => DiagnosticV {
            span: sp,
            message: "Invalid first-level literal."@,
        },
        AttrArgsError::DuplicateArg(sp) => DiagnosticV {
            span: sp,
            message: "Duplicate argument."@,
        },
        AttrArgsError::NoMeta(sp) => DiagnosticV { span: sp, message: "Must be of 'meta' type."@ },
        AttrArgsError::NoNestedMeta(sp) => DiagnosticV {
            span: sp,
            message: "Invalid name-value pair. Expected path or list."@,
        },
    }
}

impl AttrArgsError {
    /// Turns the failure into its diagnostic.
    pub fn explain(self) -> (d: Diagnostic)
        ensures
            d@ == spec_explain(self),
    {
        match self {
            AttrArgsError::InvalidArg(sp) => error(sp, "Invalid argument."),
            AttrArgsError::LitArg(sp) => error(sp, "Invalid first-level literal."),
            AttrArgsError::DuplicateArg(sp) => error(sp, "Duplicate argument."),
            AttrArgsError::NoMeta(sp) => error(sp, "Must be of 'meta' type."),
            AttrArgsError::NoNestedMeta(sp) => error(
                sp,
                "Invalid name-value pair. Expected path or list.",
            ),
        }
    }
}

/// One recognized directive: its key path, the key's position, and its
/// ordered argument list.
#[derive(Debug, PartialEq, Eq)]
pub struct AttrArg {
    pub path: TypeRef,
    pub span: Span,
    pub values: Vec<ArgItem>,
}

#[verifier::ext_equal]
pub ghost struct AttrArgV {
    pub path: TypeRefV,
    pub span: Span,
    pub values: Seq<ArgItemV>,
}

impl View for AttrArg {
    type V = AttrArgV;

    open spec fn view(&self) -> AttrArgV {
        AttrArgV { path: self.path@, span: self.span, values: self.values.deep_view() }
    }
}

impl DeepView for AttrArg {
    type V = AttrArgV;

    open spec fn deep_view(&self) -> AttrArgV {
        self.view()
    }
}

impl Clone for AttrArg {
    fn clone(&self) -> (res: Self)
        ensures
            res@ == self@,
    {
        let res = AttrArg {
            path: self.path.clone(),
            span: self.span,
            values: clone_arg_items(&self.values),
        };
        proof {
            assert(res@ =~= self@);
        }
        res
    }
}

impl AttrArg {
    /// Bundles a directive's key, position and argument list.
    pub fn new(path: TypeRef, span: Span, values: Vec<ArgItem>) -> (r: Self)
        ensures
            r@ == (AttrArgV { path: path@, span, values: values.deep_view() }),
    {
        AttrArg { path, span, values }
    }
}

/// The index of the first occurrence of `x` in `s`, or `-1` when it does not
/// occur.
pub open spec fn first_index<T>(s: Seq<T>, x: T) -> int
    decreases s.len(),
{
    if s.len() == 0 {
        -1
    } else if s[0] == x {
        0
    } else {
        let r = first_index(s.skip(1), x);
        if r < 0 {
            -1
        } else {
            r + 1
        }
    }
}

pub proof fn lemma_first_index<T>(s: Seq<T>, x: T)
    ensures
        -1 <= first_index(s, x) < s.len(),
        first_index(s, x) >= 0 ==> s[first_index(s, x)] == x,
        first_index(s, x) == -1 <==> (forall|j: int| 0 <= j < s.len() ==> s[j] != x),
    decreases s.len(),
{
    if s.len() != 0 && s[0] != x {
        lemma_first_index(s.skip(1), x);
        if first_index(s, x) == -1 {
            assert forall|j: int| 0 <= j < s.len() implies s[j] != x by {
                if j > 0 {
                    assert(s.skip(1)[j - 1] == s[j]);
                }
            }
        }
        if forall|j: int| 0 <= j < s.len() ==> s[j] != x {
            assert forall|j: int| 0 <= j < s.skip(1).len() implies s.skip(1)[j] != x by {
                assert(s.skip(1)[j] == s[j + 1]);
            }
        }
    }
}

pub proof fn lemma_first_index_at<T>(s: Seq<T>, x: T, i: int)
    requires
        0 <= i < s.len(),
        s[i] == x,
        forall|j: int| 0 <= j < i ==> s[j] != x,
    ensures
        first_index(s, x) == i,
    decreases i,
{
    if i > 0 {
        lemma_first_index_at(s.skip(1), x, i - 1);
    }
}

/// Finds the index of `k` in `keys`.
fn find_key(keys: &Vec<String>, k: &String) -> (r: Option<usize>)
    ensures
        match r {
            Some(i) => i < keys.len() && first_index(keys.deep_view(), k@) == i,
            None => first_index(keys.deep_view(), k@) == -1,
        },
{
    let mut i: usize = 0;
    while i < keys.len()
        invariant
            i <= keys.len(),
            forall|j: int| 0 <= j < i ==> keys.deep_view()[j] != k@,
        decreases keys.len() - i,
    {
        if keys[i] == *k {
            proof {
                lemma_first_index_at(keys.deep_view(), k@, i as int);
            }
            return Some(i);
        }
        i = i + 1;
    }
    proof {
        lemma_first_index(keys.deep_view(), k@);
    }
    None
}

/// The validated outcome of directive parsing for one position: for each key
/// of the allow-list, in allow-list order, the directive given under it, if
/// any.  No key can be present twice, and no key outside the list is held.
#[derive(Debug, PartialEq, Eq)]
pub struct DirectiveSet {
    pub keys: Vec<String>,
    pub entries: Vec<Option<AttrArg>>,
}

/// The entry recorded under `k` in a parsed column pair, or `None` when `k`
/// is absent or outside the allow-list.
pub open spec fn lookup(
    es: Seq<Option<AttrArgV>>,
    keys: Seq<Seq<char>>,
    k: Seq<char>,
) -> Option<AttrArgV> {
    let i = first_index(keys, k);
    if 0 <= i < es.len() {
        es[i]
    } else {
        None
    }
}

/// Whether the bare directive `k` is present in a parsed column pair; a
/// directive under that key that carries arguments is refused, with the key's
/// position.
pub open spec fn flag_of(
    es: Seq<Option<AttrArgV>>,
    keys: Seq<Seq<char>>,
    k: Seq<char>,
) -> Result<bool, Span> {
    match lookup(es, keys, k) {
        None => Ok(false),
        Some(a) => if a.values.len() != 0 {
            Err(a.span)
        } else {
            Ok(true)
        },
    }
}

impl DirectiveSet {
    /// The two columns line up.
    pub open spec fn wf(self) -> bool {
        self.keys.len() == self.entries.len()
    }

    /// The entry recorded under `k`, or `None` when `k` is absent or outside
    /// the allow-list.
    pub open spec fn spec_get(self, k: Seq<char>) -> Option<AttrArgV> {
        lookup(self.entries.deep_view(), self.keys.deep_view(), k)
    }

    /// The entry recorded under `key`, if any.
    pub fn get(&self, key: &String) -> (r: Option<&AttrArg>)
        requires
            self.wf(),
        ensures
            match r {
                Some(a) => self.spec_get(key@) == Some(a@),
                None => self.spec_get(key@) is None,
            },
    {
        match find_key(&self.keys, key) {
            None => None,
            Some(i) => match &self.entries[i] {
                None => None,
                Some(a) => Some(a),
            },
        }
    }
}

/// Whether the bare directive `key` is present.  A directive under that key
/// that carries arguments is refused, with the key's position.
pub open spec fn spec_flag(ds: DirectiveSet, k: Seq<char>) -> Result<bool, Span> {
    flag_of(ds.entries.deep_view(), ds.keys.deep_view(), k)
}

/// The executable form of [`spec_flag`].
pub fn flag(args: &DirectiveSet, key: &String) -> (r: Result<bool, Span>)
    requires
        args.wf(),
    ensures
        r == spec_flag(*args, key@),
{
    match find_key(&args.keys, key) {
        None => Ok(false),
        Some(i) => match &args.entries[i] {
            None => Ok(false),
            Some(a) => if a.values.len() != 0 {
                Err(a.span)
            } else {
                Ok(true)
            },
        },
    }
}

/// The argument list a recognized entry carries.
pub open spec fn spec_entry_values(e: DirectiveEntry) -> Seq<ArgItemV> {
    match e {
        DirectiveEntry::Bare(_p, _sp) => Seq::empty(),
        DirectiveEntry::WithValue(_p, _sp, lit, lsp) => match lit {
            LitKind::Str(s) => seq![ArgItemV::Str(s@, lsp)],
            LitKind::Other => seq![ArgItemV::OtherLit(lsp)],
        },
        DirectiveEntry::WithList(_p, _sp, items) => items.deep_view(),
        DirectiveEntry::Literal(_sp) => Seq::empty(),
    }
}

/// One step of directive parsing: fold a single list entry into the set.
pub open spec fn step_entry(
    cur: Seq<Option<AttrArgV>>,
    keys: Seq<Seq<char>>,
    e: DirectiveEntry,
) -> Result<Seq<Option<AttrArgV>>, AttrArgsError> {
    match e {
        DirectiveEntry::Literal(sp) => Err(AttrArgsError::LitArg(sp)),
        _ => {
            let (p, sp) = match e {
                DirectiveEntry::Bare(p, sp) => (p, sp),
                DirectiveEntry::WithValue(p, sp, _lit, _lsp) => (p, sp),
                DirectiveEntry::WithList(p, sp, _items) => (p, sp),
                DirectiveEntry::Literal(_sp) => arbitrary(),
            };
            match spec_ident_of(p) {
                None => Err(AttrArgsError::InvalidArg(sp)),
                Some(k) => {
                    let i = first_index(keys, k);
                    if i < 0 {
                        Err(AttrArgsError::InvalidArg(sp))
                    } else if cur[i] is Some {
                        Err(AttrArgsError::DuplicateArg(sp))
                    } else {
                        Ok(
                            cur.update(
                                i,
                                Some(
                                    AttrArgV {
                                        path: p@,
                                        span: sp,
                                        values: spec_entry_values(e),
                                    },
                                ),
                            ),
                        )
                    }
                },
            }
        },
    }
}

/// Folds a whole entry list into the set, left to right.
pub open spec fn parse_entries(
    cur: Seq<Option<AttrArgV>>,
    keys: Seq<Seq<char>>,
    entries: Seq<DirectiveEntry>,
) -> Result<Seq<Option<AttrArgV>>, AttrArgsError>
    decreases entries.len(),
{
    if entries.len() == 0 {
        Ok(cur)
    } else {
        match step_entry(cur, keys, entries[0]) {
            Err(e) => Err(e),
            Ok(next) => parse_entries(next, keys, entries.skip(1)),
        }
    }
}

/// Folds a whole annotation list into the set, left to right.  Annotations
/// of another group are skipped; a bare annotation of the right group
/// contributes nothing.
pub open spec fn parse_attrs(
    cur: Seq<Option<AttrArgV>>,
    required_key: Seq<char>,
    keys: Seq<Seq<char>>,
    attrs: Seq<RawAttr>,
) -> Result<Seq<Option<AttrArgV>>, AttrArgsError>
    decreases attrs.len(),
{
    if attrs.len() == 0 {
        Ok(cur)
    } else {
        let a = attrs[0];
        let rest = attrs.skip(1);
        if spec_ident_of(a.group) != Some(required_key) {
            parse_attrs(cur, required_key, keys, rest)
        } else {
            match a.payload {
                AttrPayload::Unparsed => Err(AttrArgsError::NoMeta(a.span)),
                AttrPayload::Value(sp) => Err(AttrArgsError::NoNestedMeta(sp)),
                AttrPayload::Bare => parse_attrs(cur, required_key, keys, rest),
                AttrPayload::Entries(es) => match parse_entries(cur, keys, es@) {
                    Err(e) => Err(e),
                    Ok(next) => parse_attrs(next, required_key, keys, rest),
                },
            }
        }
    }
}

/// What parsing the raw annotations of one position yields: a fresh set, or
/// the first failure.
pub open spec fn attr_args_spec(
    attrs: Seq<RawAttr>,
    required_key: Seq<char>,
    keys: Seq<Seq<char>>,
) -> Result<Seq<Option<AttrArgV>>, AttrArgsError> {
    parse_attrs(Seq::new(keys.len(), |i: int| None::<AttrArgV>), required_key, keys, attrs)
}

/// Validates the raw annotation list of one position (the type itself, or a
/// single variant) against the ordered allow-list of recognized keys, and
/// returns the mapping from each recognized key to the directive given under
/// it, or the first failure found.
pub fn attr_args(attrs: &Vec<RawAttr>, required_key: &String, known_arg_keys: &Vec<String>) -> (r:
    Result<DirectiveSet, AttrArgsError>)
    ensures
        ({
            let s = attr_args_spec(attrs@, required_key@, known_arg_keys.deep_view());
            match r {
                Ok(ds) => ds.wf() && ds.keys.deep_view() == known_arg_keys.deep_view() && s
                    == Ok::<_, AttrArgsError>(ds.entries.deep_view()),
                Err(e) => s == Err::<Seq<Option<AttrArgV>>, _>(e),
            }
        }),
{
    let ghost keys_dv = known_arg_keys.deep_view();
    let ghost goal = attr_args_spec(attrs@, required_key@, keys_dv);
    let mut entries: Vec<Option<AttrArg>> = Vec::new();
    let mut i: usize = 0;
    while i < known_arg_keys.len()
        invariant
            i <= known_arg_keys.len(),
            entries.deep_view() =~= Seq::new(i as nat, |j: int| None::<AttrArgV>),
        decreases known_arg_keys.len() - i,
    {
        let ghost prev = entries.deep_view();
        entries.push(None);
        proof {
            assert(entries.deep_view() =~= prev.push(None::<AttrArgV>));
            assert(entries.deep_view() =~= Seq::new(i as nat + 1, |j: int| None::<AttrArgV>));
        }
        i = i + 1;
    }
    proof {
        assert(entries.deep_view() =~= Seq::new(keys_dv.len(), |j: int| None::<AttrArgV>));
        assert(attrs@.skip(0) =~= attrs@);
    }
    let mut ai: usize = 0;
    while ai < attrs.len()
        invariant
            ai <= attrs.len(),
            entries.len() == known_arg_keys.len(),
            parse_attrs(entries.deep_view(), required_key@, keys_dv, attrs@.skip(ai as int))
                == goal,
        decreases attrs.len() - ai,
    {
        let a = &attrs[ai];
        let ghost pre_dv = entries.deep_view();
        proof {
            assert(attrs@.skip(ai as int)[0] == attrs@[ai as int]);
            assert(attrs@.skip(ai as int).skip(1) =~= attrs@.skip(ai as int + 1));
        }
        let group_matches = match get_ident(&a.group) {
            Some(g) => *g == *required_key,
            None => false,
        };
        proof {
            assert(group_matches == (spec_ident_of(a.group) == Some(required_key@)));
        }
        if group_matches {
            match &a.payload {
                AttrPayload::Unparsed => {
                    proof {
                        assert(parse_attrs(pre_dv, required_key@, keys_dv, attrs@.skip(ai as int))
                            == Err::<Seq<Option<AttrArgV>>, _>(AttrArgsError::NoMeta(a.span)));
                    }
                    return Err(AttrArgsError::NoMeta(a.span));
                },
                AttrPayload::Value(sp) => {
                    proof {
                        assert(parse_attrs(pre_dv, required_key@, keys_dv, attrs@.skip(ai as int))
                            == Err::<Seq<Option<AttrArgV>>, _>(AttrArgsError::NoNestedMeta(*sp)));
                    }
                    return Err(AttrArgsError::NoNestedMeta(*sp));
                },
                AttrPayload::Bare => {},
                AttrPayload::Entries(es) => {
                    let ghost inner_goal = parse_entries(pre_dv, keys_dv, es@);
                    proof {
                        assert(es@.skip(0) =~= es@);
                    }
                    let mut j: usize = 0;
                    while j < es.len()
                        invariant
                            j <= es.len(),
                            entries.len() == known_arg_keys.len(),
                            parse_entries(entries.deep_view(), keys_dv, es@.skip(j as int))
                                == inner_goal,
                        decreases es.len() - j,
                    {
                        let e = &es[j];
                        let ghost pre_step = entries.deep_view();
                        proof {
                            assert(es@.skip(j as int)[0] == es@[j as int]);
                            assert(es@.skip(j as int).skip(1) =~= es@.skip(j as int + 1));
                        }
                        let step = step_one(&mut entries, known_arg_keys, e);
                        match step {
                            Err(err) => {
                                proof {
                                    assert(parse_entries(pre_step, keys_dv, es@.skip(j as int))
                                        == Err::<Seq<Option<AttrArgV>>, _>(err));
                                    assert(inner_goal == Err::<Seq<Option<AttrArgV>>, _>(err));
                                    assert(parse_attrs(
                                        pre_dv,
                                        required_key@,
                                        keys_dv,
                                        attrs@.skip(ai as int),
                                    ) == Err::<Seq<Option<AttrArgV>>, _>(err));
                                }
                                return Err(err);
                            },
                            Ok(()) => {
                                proof {
                                    assert(step_entry(pre_step, keys_dv, *e)
                                        == Ok::<_, AttrArgsError>(entries.deep_view()));
                                    assert(parse_entries(pre_step, keys_dv, es@.skip(j as int))
                                        == parse_entries(
                                        entries.deep_view(),
                                        keys_dv,
                                        es@.skip(j as int + 1),
                                    ));
                                }
                            },
                        }
                        j = j + 1;
                    }
                    proof {
                        assert(es@.skip(es@.len() as int) =~= Seq::<DirectiveEntry>::empty());
                        assert(parse_entries(entries.deep_view(), keys_dv, es@.skip(es@.len() as int))
                            == Ok::<_, AttrArgsError>(entries.deep_view()));
                        assert(inner_goal == Ok::<_, AttrArgsError>(entries.deep_view()));
                        assert(parse_attrs(pre_dv, required_key@, keys_dv, attrs@.skip(ai as int))
                            == parse_attrs(
                            entries.deep_view(),
                            required_key@,
                            keys_dv,
                            attrs@.skip(ai as int + 1),
                        ));
                    }
                },
            }
        }
        ai = ai + 1;
    }
    proof {
        assert(attrs@.skip(attrs@.len() as int) =~= Seq::<RawAttr>::empty());
        assert(goal == Ok::<_, AttrArgsError>(entries.deep_view()));
    }
    let keys = clone_strings(known_arg_keys);
    proof {
        assert(keys.deep_view().len() == keys_dv.len());
        assert(keys.len() == entries.len());
    }
    let ds = DirectiveSet { keys, entries };
    Ok(ds)
}

/// Directive parsing is deterministic: parsing the same annotation list
/// against the same allow-list twice yields equal directive sets.
pub proof fn lemma_attr_args_deterministic(
    d1: DirectiveSet,
    d2: DirectiveSet,
    attrs: Seq<RawAttr>,
    required_key: Seq<char>,
    keys: Seq<Seq<char>>,
)
    requires
        d1.keys.deep_view() == keys,
        d2.keys.deep_view() == keys,
        attr_args_spec(attrs, required_key, keys) == Ok::<Seq<Option<AttrArgV>>, AttrArgsError>(
            d1.entries.deep_view(),
        ),
        attr_args_spec(attrs, required_key, keys) == Ok::<Seq<Option<AttrArgV>>, AttrArgsError>(
            d2.entries.deep_view(),
        ),
    ensures
        d1.entries.deep_view() == d2.entries.deep_view(),
        forall|k: Seq<char>| d1.spec_get(k) == d2.spec_get(k),
{
}

/// Folds one recognized entry into the running set.
fn step_one(entries: &mut Vec<Option<AttrArg>>, known_arg_keys: &Vec<String>, e: &DirectiveEntry)
    -> (r: Result<(), AttrArgsError>)
    requires
        old(entries).len() == known_arg_keys.len(),
    ensures
        final(entries).len() == old(entries).len(),
        match r {
            Ok(()) => step_entry(old(entries).deep_view(), known_arg_keys.deep_view(), *e)
                == Ok::<_, AttrArgsError>(final(entries).deep_view()),
            Err(err) => step_entry(old(entries).deep_view(), known_arg_keys.deep_view(), *e)
                == Err::<Seq<Option<AttrArgV>>, _>(err) && *final(entries) == *old(entries),
        },
{
    match e {
        DirectiveEntry::Literal(sp) => Err(AttrArgsError::LitArg(*sp)),
        DirectiveEntry::Bare(p, sp) => {
            let values: Vec<ArgItem> = Vec::new();
            proof {
                assert(values.deep_view() =~= spec_entry_values(*e));
            }
            step_insert(entries, known_arg_keys, e, p, *sp, values)
        },
        DirectiveEntry::WithValue(p, sp, lit, lsp) => {
            let mut values: Vec<ArgItem> = Vec::new();
            match lit {
                LitKind::Str(s) => values.push(ArgItem::Str(s.clone(), *lsp)),
                LitKind::Other => values.push(ArgItem::OtherLit(*lsp)),
            }
            proof {
                assert(values.deep_view() =~= spec_entry_values(*e));
            }
            step_insert(entries, known_arg_keys, e, p, *sp, values)
        },
        DirectiveEntry::WithList(p, sp, items) => {
            let values = clone_arg_items(items);
            proof {
                assert(values.deep_view() =~= spec_entry_values(*e));
            }
            step_insert(entries, known_arg_keys, e, p, *sp, values)
        },
    }
}

/// The shared tail of [`step_one`] for the three recognized entry shapes.
fn step_insert(
    entries: &mut Vec<Option<AttrArg>>,
    known_arg_keys: &Vec<String>,
    e: &DirectiveEntry,
    p: &TypeRef,
    sp: Span,
    values: Vec<ArgItem>,
) -> (r: Result<(), AttrArgsError>)
    requires
        old(entries).len() == known_arg_keys.len(),
        !(e is Literal),
        match e {
            DirectiveEntry::Bare(q, qs) => q == p && qs == sp,
            DirectiveEntry::WithValue(q, qs, _l, _ls) => q == p && qs == sp,
            DirectiveEntry::WithList(q, qs, _items) => q == p && qs == sp,
            DirectiveEntry::Literal(_qs) => false,
        },
        values.deep_view() == spec_entry_values(*e),
    ensures
        final(entries).len() == old(entries).len(),
        match r {
            Ok(()) => step_entry(old(entries).deep_view(), known_arg_keys.deep_view(), *e)
                == Ok::<_, AttrArgsError>(final(entries).deep_view()),
            Err(err) => step_entry(old(entries).deep_view(), known_arg_keys.deep_view(), *e)
                == Err::<Seq<Option<AttrArgV>>, _>(err) && *final(entries) == *old(entries),
        },
{
    match get_ident(p) {
        None => Err(AttrArgsError::InvalidArg(sp)),
        Some(g) => {
            match find_key(known_arg_keys, g) {
                None => Err(AttrArgsError::InvalidArg(sp)),
                Some(ix) => {
                    if entries[ix].is_some() {
                        Err(AttrArgsError::DuplicateArg(sp))
                    } else {
                        let arg = AttrArg::new(p.clone(), sp, values);
                        entries.set(ix, Some(arg));
                        proof {
                            assert(entries.deep_view() =~= old(entries).deep_view().update(
                                ix as int,
                                Some(
                                    AttrArgV {
                                        path: p@,
                                        span: sp,
                                        values: spec_entry_values(*e),
                                    },
                                ),
                            ));
                        }
                        Ok(())
                    }
                },
            }
        },
    }
}

} // verus!
