use vstd::prelude::*;

use crate::ast::ArgItem;
use crate::ast::ArgItemV;
use crate::ast::PathOrLit;
use crate::ast::PathOrLitV;
use crate::ast::Span;
use crate::ast::TypeDef;
use crate::ast::TypeRef;
use crate::ast::TypeRefV;
use crate::ast::TypeShape;
use crate::ast::VariantDef;
use crate::ast::VariantFields;
use crate::ast::clone_strings;
use crate::ast::contains_string;
use crate::ast::render_target;
use crate::ast::spec_target_text;
use crate::typeparse::parse_type_ref;
use crate::util::AttrArg;
use crate::util::AttrArgV;
use crate::util::Diagnostic;
use crate::util::DiagnosticV;
use crate::util::attr_args;
use crate::util::attr_args_spec;
use crate::util::error;
use crate::util::flag;
use crate::util::flag_of;
use crate::util::lookup;
use crate::util::spec_explain;

verus! {

/// The structural kind of a composite error type.
#[derive(Clone, Copy, PartialEq, Eq, Structural, Debug)]
pub enum SchemaKind {
    Record,
    TaggedUnion,
}

/// One tagged-union variant with its payload and its resolved options.
#[derive(Debug, PartialEq, Eq)]
pub struct VariantSchema {
    /// The variant's name.
    pub name: String,
    /// The type reference of its single payload.
    pub payload: TypeRef,
    /// Other composite types whose variants flatten into this one.
    pub inline_from: Vec<PathOrLit>,
    /// Do not generate the single-value conversion for this variant.
    pub skip_single_from: bool,
    /// The causal-chain accessor returns nothing for this variant.
    pub no_source: bool,
    /// A transformation applied to the payload before it is returned as the
    /// cause.
    pub convert_source: Option<TypeRef>,
    /// Forward rendering and chain access to the payload without framing.
    pub transparent: bool,
}

#[verifier::ext_equal]
pub ghost struct VariantSchemaV {
    pub name: Seq<char>,
    pub payload: TypeRefV,
    pub inline_from: Seq<PathOrLitV>,
    pub skip_single_from: bool,
    pub no_source: bool,
    pub convert_source: Option<TypeRefV>,
    pub transparent: bool,
}

impl View for VariantSchema {
    type V = VariantSchemaV;

    open spec fn view(&self) -> VariantSchemaV {
        VariantSchemaV {
            name: self.name@,
            payload: self.payload@,
            inline_from: self.inline_from.deep_view(),
            skip_single_from: self.skip_single_from,
            no_source: self.no_source,
            convert_source: match self.convert_source {
                Some(t) => Some(t@),
                None => None,
            },
            transparent: self.transparent,
        }
    }
}

impl DeepView for VariantSchema {
    type V = VariantSchemaV;

    open spec fn deep_view(&self) -> VariantSchemaV {
        self.view()
    }
}

/// The validated, resolved description of one composite error type.
#[derive(Debug, PartialEq, Eq)]
pub struct TypeSchema {
    /// Record or tagged union.
    pub kind: SchemaKind,
    /// The type's own name.
    pub ident: String,
    /// The names of its generic type parameters, for matching a payload
    /// against them.
    pub type_params: Vec<String>,
    /// The printed generic-parameter list as an `impl` introduces it,
    /// carried through from the definition; empty when the type takes none.
    pub generics_impl: String,
    /// The printed generic arguments as the type's name takes them; empty
    /// when the type takes none.
    pub generics_type: String,
    /// The printed `where` clause, empty when there is none.
    pub generics_where: String,
    /// The heading rendered for the type; the type's own name by default.
    pub title: String,
    /// Extra rendered text, already framed as `" (text)"`, or empty.
    pub description: String,
    /// Do not generate the rendering function.
    pub skip_display: bool,
    /// Do not generate the causal-chain accessor.
    pub skip_error: bool,
    /// The type-wide default for per-variant transparency.
    pub transparent: bool,
    /// The variants, in declaration order; empty for a record.
    pub variants: Vec<VariantSchema>,
}

#[verifier::ext_equal]
pub ghost struct TypeSchemaV {
    pub kind: SchemaKind,
    pub ident: Seq<char>,
    pub type_params: Seq<Seq<char>>,
    pub generics_impl: Seq<char>,
    pub generics_type: Seq<char>,
    pub generics_where: Seq<char>,
    pub title: Seq<char>,
    pub description: Seq<char>,
    pub skip_display: bool,
    pub skip_error: bool,
    pub transparent: bool,
    pub variants: Seq<VariantSchemaV>,
}

impl View for TypeSchema {
    type V = TypeSchemaV;

    open spec fn view(&self) -> TypeSchemaV {
        TypeSchemaV {
            kind: self.kind,
            ident: self.ident@,
            type_params: self.type_params.deep_view(),
            generics_impl: self.generics_impl@,
            generics_type: self.generics_type@,
            generics_where: self.generics_where@,
            title: self.title@,
            description: self.description@,
            skip_display: self.skip_display,
            skip_error: self.skip_error,
            transparent: self.transparent,
            variants: self.variants.deep_view(),
        }
    }
}

/// The fixed name of the directive group this library recognizes.
pub open spec fn directive_group() -> Seq<char> {
    "compound_error"@
}

/// The ordered allow-list of keys recognized on the type itself.
pub open spec fn type_level_keys() -> Seq<Seq<char>> {
    seq!["title"@, "description"@, "skip_display"@, "skip_error"@, "transparent"@]
}

/// The ordered allow-list of keys recognized on each variant.
pub open spec fn variant_level_keys() -> Seq<Seq<char>> {
    seq!["inline_from"@, "skip_single_from"@, "no_source"@, "convert_source"@, "transparent"@]
}

/// The diagnostic for a bare directive given with arguments.
pub open spec fn spec_flag_err(key_name: Seq<char>, sp: Span) -> DiagnosticV {
    DiagnosticV { span: sp, message: "'"@ + key_name + "' attribute takes no arguments!"@ }
}

/// The resolved title: the `title` directive's single string argument, or the
/// type's own name.
pub open spec fn spec_title(ident: Seq<char>, es: Seq<Option<AttrArgV>>) -> Result<
    Seq<char>,
    DiagnosticV,
> {
    match lookup(es, type_level_keys(), "title"@) {
        None => Ok(ident),
        Some(a) => if a.values.len() != 1 {
            Err(
                DiagnosticV {
                    span: a.span,
                    message: "'title' takes exactly one string argument!"@,
                },
            )
        } else {
            match a.values[0] {
                ArgItemV::Str(s, _) => Ok(s),
                _ => Err(
                    DiagnosticV { span: a.span, message: "'title' argument must be a string!"@ },
                ),
            }
        },
    }
}

/// The resolved description: the `description` directive's single string
/// argument framed as `" (text)"`, or empty.
pub open spec fn spec_description(es: Seq<Option<AttrArgV>>) -> Result<Seq<char>, DiagnosticV> {
    match lookup(es, type_level_keys(), "description"@) {
        None => Ok(Seq::empty()),
        Some(a) => if a.values.len() != 1 {
            Err(
                DiagnosticV {
                    span: a.span,
                    message: "'description' takes exactly one string argument!"@,
                },
            )
        } else {
            match a.values[0] {
                ArgItemV::Str(s, _) => Ok(" ("@ + s + ")"@),
                _ => Err(
                    DiagnosticV {
                        span: a.span,
                        message: "'description' argument must be a string!"@,
                    },
                ),
            }
        },
    }
}

/// The wrong-shape diagnostic for a variant without exactly one unnamed field.
pub open spec fn variant_shape_msg(id: Seq<char>) -> Seq<char> {
    "Variant '"@ + id + "' must specify exactly one unnamed field!"@
}

/// The wrong-shape diagnostic for a payload that is not a named type.
pub open spec fn variant_payload_msg(id: Seq<char>) -> Seq<char> {
    "Variant '"@ + id + "' must specify exactly one unnamed field referencing a type!"@
}

/// The payload type of one variant: its single unnamed field's named type.
pub open spec fn spec_payload(v: VariantDef, input_span: Span) -> Result<TypeRefV, DiagnosticV> {
    match v.fields {
        VariantFields::Unnamed(fs) => if fs@.len() == 1 {
            match fs@[0] {
                Some(t) => Ok(t@),
                None => Err(
                    DiagnosticV { span: input_span, message: variant_payload_msg(v.ident@) },
                ),
            }
        } else {
            Err(DiagnosticV { span: input_span, message: variant_shape_msg(v.ident@) })
        },
        _ => Err(DiagnosticV { span: input_span, message: variant_shape_msg(v.ident@) }),
    }
}

/// The diagnostic for a malformed `inline_from` argument list.
pub open spec fn inline_from_err(sp: Span) -> DiagnosticV {
    DiagnosticV { span: sp, message: "'inline_from' attribute must be a list of types!"@ }
}

/// The diagnostic for a target whose full text a claim of the same variant
/// already carries: both claims would fill the same correspondence-table
/// slot.
pub open spec fn inline_dup_msg() -> Seq<char> {
    "'inline_from' lists the same type twice!"@
}

/// The position of one directive argument.
pub open spec fn spec_item_span(item: ArgItemV) -> Span {
    match item {
        ArgItemV::Path(_t, sp) => sp,
        ArgItemV::Str(_s, sp) => sp,
        ArgItemV::OtherLit(sp) => sp,
        ArgItemV::Nested(sp) => sp,
    }
}

/// The `inline_from` targets named by one argument list: each entry is a
/// bare path, or a string literal that the host's type grammar accepts.
/// What a string literal parses to depends on the host, so the parse
/// outcomes are given as one slot per entry, read only at string entries:
/// the builder's contract quantifies over them, claiming no more of the
/// parse than its shape.  A target whose full text is already among the
/// accumulated keys is refused at its own position.
pub open spec fn spec_inline_from(
    values: Seq<ArgItemV>,
    sp: Span,
    outs: Seq<Option<TypeRefV>>,
    seen: Seq<Seq<char>>,
) -> Result<Seq<PathOrLitV>, DiagnosticV>
    decreases values.len(),
{
    if values.len() == 0 {
        Ok(Seq::empty())
    } else {
        let head = match values[0] {
            ArgItemV::Path(t, _) => Ok(PathOrLitV::Path(t)),
            ArgItemV::Str(_s, _) => match outs[0] {
                Some(t) => Ok(PathOrLitV::Lit(t)),
                None => Err(inline_from_err(sp)),
            },
            _ => Err(inline_from_err(sp)),
        };
        match head {
            Err(d) => Err(d),
            Ok(h) => if seen.contains(spec_target_text(h)) {
                Err(DiagnosticV { span: spec_item_span(values[0]), message: inline_dup_msg() })
            } else {
                match spec_inline_from(
                    values.skip(1),
                    sp,
                    outs.skip(1),
                    seen.push(spec_target_text(h)),
                ) {
                    Err(d) => Err(d),
                    Ok(rest) => Ok(seq![h] + rest),
                }
            },
        }
    }
}

/// The `inline_from` targets of one variant.
pub open spec fn spec_variant_inline(
    es: Seq<Option<AttrArgV>>,
    outs: Seq<Option<TypeRefV>>,
) -> Result<Seq<PathOrLitV>, DiagnosticV> {
    match lookup(es, variant_level_keys(), "inline_from"@) {
        None => Ok(Seq::empty()),
        Some(a) => spec_inline_from(a.values, a.span, outs, Seq::empty()),
    }
}

/// The `convert_source` transformation of one variant, when given.
pub open spec fn spec_convert_source(es: Seq<Option<AttrArgV>>) -> Result<
    Option<TypeRefV>,
    DiagnosticV,
> {
    match lookup(es, variant_level_keys(), "convert_source"@) {
        None => Ok(None),
        Some(a) => if a.values.len() != 1 {
            Err(
                DiagnosticV {
                    span: a.span,
                    message: "'convert_source' takes exactly one argument!"@,
                },
            )
        } else {
            match a.values[0] {
                ArgItemV::Path(t, _) => Ok(Some(t)),
                _ => Err(
                    DiagnosticV {
                        span: a.span,
                        message: "The argument of 'convert_source' must be a path!"@,
                    },
                ),
            }
        },
    }
}

/// One variant's resolved schema: its payload, its flattening targets, and
/// its flags, with the type-wide `transparent` default folded in.
pub open spec fn spec_variant(
    v: VariantDef,
    transparent_enum: bool,
    input_span: Span,
    outs: Seq<Option<TypeRefV>>,
) -> Result<VariantSchemaV, DiagnosticV> {
    match spec_payload(v, input_span) {
        Err(d) => Err(d),
        Ok(payload) => match attr_args_spec(v.attrs@, directive_group(), variant_level_keys()) {
            Err(e) => Err(spec_explain(e)),
            Ok(es) => match spec_variant_inline(es, outs) {
                Err(d) => Err(d),
                Ok(inline_from) => match flag_of(es, variant_level_keys(), "skip_single_from"@) {
                    Err(sp) => Err(spec_flag_err("skip_single_from"@, sp)),
                    Ok(skip_single_from) => match flag_of(
                        es,
                        variant_level_keys(),
                        "transparent"@,
                    ) {
                        Err(sp) => Err(spec_flag_err("transparent"@, sp)),
                        Ok(transparent_variant) => match flag_of(
                            es,
                            variant_level_keys(),
                            "no_source"@,
                        ) {
                            Err(sp) => Err(spec_flag_err("no_source"@, sp)),
                            Ok(no_source) => match spec_convert_source(es) {
                                Err(d) => Err(d),
                                Ok(convert_source) => Ok(
                                    VariantSchemaV {
                                        name: v.ident@,
                                        payload,
                                        inline_from,
                                        skip_single_from,
                                        no_source,
                                        convert_source,
                                        transparent: transparent_variant || transparent_enum,
                                    },
                                ),
                            },
                        },
                    },
                },
            },
        },
    }
}

/// The resolved schemas of all variants, in declaration order, or the first
/// failure among them.
pub open spec fn spec_variants(
    vs: Seq<VariantDef>,
    transparent_enum: bool,
    input_span: Span,
    outss: Seq<Seq<Option<TypeRefV>>>,
) -> Result<Seq<VariantSchemaV>, DiagnosticV>
    decreases vs.len(),
{
    if vs.len() == 0 {
        Ok(Seq::empty())
    } else {
        match spec_variant(vs[0], transparent_enum, input_span, outss[0]) {
            Err(d) => Err(d),
            Ok(h) => match spec_variants(vs.skip(1), transparent_enum, input_span, outss.skip(1)) {
                Err(d) => Err(d),
                Ok(rest) => Ok(seq![h] + rest),
            },
        }
    }
}

/// What building the schema of a parsed type definition yields: the validated
/// schema, or the first failure found.  Directives are validated against the
/// position's allow-list; a record contributes no variants; any shape other
/// than a record or a tagged union is refused.
pub open spec fn build_schema_spec(input: TypeDef, outss: Seq<Seq<Option<TypeRefV>>>) -> Result<
    TypeSchemaV,
    DiagnosticV,
> {
    match attr_args_spec(input.attrs@, directive_group(), type_level_keys()) {
        Err(e) => Err(spec_explain(e)),
        Ok(es) => match spec_title(input.ident@, es) {
            Err(d) => Err(d),
            Ok(title) => match spec_description(es) {
                Err(d) => Err(d),
                Ok(description) => match flag_of(es, type_level_keys(), "skip_display"@) {
                    Err(sp) => Err(spec_flag_err("skip_display"@, sp)),
                    Ok(skip_display) => match flag_of(es, type_level_keys(), "skip_error"@) {
                        Err(sp) => Err(spec_flag_err("skip_error"@, sp)),
                        Ok(skip_error) => match input.shape {
                            TypeShape::Record => Ok(
                                TypeSchemaV {
                                    kind: SchemaKind::Record,
                                    ident: input.ident@,
                                    type_params: input.type_params.deep_view(),
                                    generics_impl: input.generics_impl@,
                                    generics_type: input.generics_type@,
                                    generics_where: input.generics_where@,
                                    title,
                                    description,
                                    skip_display,
                                    skip_error,
                                    transparent: false,
                                    variants: Seq::empty(),
                                },
                            ),
                            TypeShape::TaggedUnion(vs) => match flag_of(
                                es,
                                type_level_keys(),
                                "transparent"@,
                            ) {
                                Err(sp) => Err(spec_flag_err("transparent"@, sp)),
                                Ok(transparent_enum) => match spec_variants(
                                    vs@,
                                    transparent_enum,
                                    input.span,
                                    outss,
                                ) {
                                    Err(d) => Err(d),
                                    Ok(variants) => Ok(
                                        TypeSchemaV {
                                            kind: SchemaKind::TaggedUnion,
                                            ident: input.ident@,
                                            type_params: input.type_params.deep_view(),
                                            generics_impl: input.generics_impl@,
                                            generics_type: input.generics_type@,
                                            generics_where: input.generics_where@,
                                            title,
                                            description,
                                            skip_display,
                                            skip_error,
                                            transparent: transparent_enum,
                                            variants,
                                        },
                                    ),
                                },
                            },
                            TypeShape::Other => Err(
                                DiagnosticV {
                                    span: input.span,
                                    message: "Can only be used on enums!"@,
                                },
                            ),
                        },
                    },
                },
            },
        },
    }
}

/// What is known of every parse outcome: a parsed reference carries at
/// least one path segment.
pub open spec fn outs_wf(outs: Seq<Option<TypeRefV>>) -> bool {
    forall|k: int|
        0 <= k < outs.len() ==> (#[trigger] outs[k] matches Some(t) ==> t.segments.len() >= 1)
}

/// [`outs_wf`], over the outcome slots of every variant.
pub open spec fn outss_wf(outss: Seq<Seq<Option<TypeRefV>>>) -> bool {
    forall|i: int| 0 <= i < outss.len() ==> outs_wf(#[trigger] outss[i])
}

/// One variant's outcome slots line up with its `inline_from` argument
/// list: one slot per entry, and none where the directive is absent or the
/// variant's annotations do not parse.
pub open spec fn outs_aligned(v: VariantDef, outs: Seq<Option<TypeRefV>>) -> bool {
    match attr_args_spec(v.attrs@, directive_group(), variant_level_keys()) {
        Err(_) => outs.len() == 0,
        Ok(es) => match lookup(es, variant_level_keys(), "inline_from"@) {
            None => outs.len() == 0,
            Some(a) => outs.len() == a.values.len(),
        },
    }
}

/// [`outs_aligned`], for every variant of a tagged union.
pub open spec fn outss_aligned(input: TypeDef, outss: Seq<Seq<Option<TypeRefV>>>) -> bool {
    match input.shape {
        TypeShape::TaggedUnion(vs) => outss.len() == vs@.len() && (forall|i: int|
            0 <= i < vs@.len() ==> outs_aligned(vs@[i], #[trigger] outss[i])),
        _ => true,
    }
}

/// How a build outcome relates to the specification: for some well-formed
/// assignment of parse outcomes, the outcome is exactly what the
/// specification yields.
pub open spec fn build_schema_rel(
    input: TypeDef,
    outss: Seq<Seq<Option<TypeRefV>>>,
    r: Result<TypeSchema, Diagnostic>,
) -> bool {
    &&& outss_wf(outss)
    &&& match r {
        Ok(t) => build_schema_spec(input, outss) == Ok::<TypeSchemaV, DiagnosticV>(t@),
        Err(d) => build_schema_spec(input, outss) == Err::<TypeSchemaV, DiagnosticV>(d@),
    }
}

/// Builds the fixed directive-group name.
fn group_key() -> (r: String)
    ensures
        r@ == directive_group(),
{
    "compound_error".to_owned()
}

/// Builds the type-level allow-list.
fn type_key_vec() -> (r: Vec<String>)
    ensures
        r.deep_view() == type_level_keys(),
{
    let mut v: Vec<String> = Vec::new();
    v.push("title".to_owned());
    v.push("description".to_owned());
    v.push("skip_display".to_owned());
    v.push("skip_error".to_owned());
    v.push("transparent".to_owned());
    proof {
        assert(v.deep_view() =~= type_level_keys());
    }
    v
}

/// Builds the variant-level allow-list.
fn variant_key_vec() -> (r: Vec<String>)
    ensures
        r.deep_view() == variant_level_keys(),
{
    let mut v: Vec<String> = Vec::new();
    v.push("inline_from".to_owned());
    v.push("skip_single_from".to_owned());
    v.push("no_source".to_owned());
    v.push("convert_source".to_owned());
    v.push("transparent".to_owned());
    proof {
        assert(v.deep_view() =~= variant_level_keys());
    }
    v
}

/// Reads a bare flag, turning a flag given with arguments into its
/// diagnostic.
fn check_flag(ds: &crate::util::DirectiveSet, name: &str) -> (r: Result<bool, Diagnostic>)
    requires
        ds.wf(),
    ensures
        match r {
            Ok(b) => flag_of(ds.entries.deep_view(), ds.keys.deep_view(), name@) == Ok::<
                bool,
                Span,
            >(b),
            Err(d) => exists|sp: Span|
                flag_of(ds.entries.deep_view(), ds.keys.deep_view(), name@) == Err::<bool, Span>(
                    sp,
                ) && d@ == spec_flag_err(name@, sp),
        },
{
    match flag(ds, &name.to_owned()) {
        Ok(b) => Ok(b),
        Err(sp) => {
            let mut m = "'".to_owned();
            m.append(name);
            m.append("' attribute takes no arguments!");
            proof {
                assert(m@ =~= spec_flag_err(name@, sp).message);
            }
            Err(Diagnostic { span: sp, message: m })
        },
    }
}

/// Resolves the title of the type.
fn extract_title(ident: &String, ds: &crate::util::DirectiveSet) -> (r: Result<String, Diagnostic>)
    requires
        ds.wf(),
        ds.keys.deep_view() == type_level_keys(),
    ensures
        ({
            let s = spec_title(ident@, ds.entries.deep_view());
            match r {
                Ok(t) => s == Ok::<Seq<char>, DiagnosticV>(t@),
                Err(d) => s == Err::<Seq<char>, DiagnosticV>(d@),
            }
        }),
{
    match ds.get(&"title".to_owned()) {
        None => Ok(ident.clone()),
        Some(attr) => {
            proof {
                assert(attr@.values.len() == attr.values.len());
            }
            if attr.values.len() != 1 {
                Err(error(attr.span, "'title' takes exactly one string argument!"))
            } else {
                proof {
                    assert(attr@.values[0] == attr.values@[0]@);
                }
                match &attr.values[0] {
                    ArgItem::Str(s, _sp) => Ok(s.clone()),
                    _ => Err(error(attr.span, "'title' argument must be a string!")),
                }
            }
        },
    }
}

/// Resolves the description of the type, framed as `" (text)"`.
fn extract_description(ds: &crate::util::DirectiveSet) -> (r: Result<String, Diagnostic>)
    requires
        ds.wf(),
        ds.keys.deep_view() == type_level_keys(),
    ensures
        ({
            let s = spec_description(ds.entries.deep_view());
            match r {
                Ok(t) => s == Ok::<Seq<char>, DiagnosticV>(t@),
                Err(d) => s == Err::<Seq<char>, DiagnosticV>(d@),
            }
        }),
{
    match ds.get(&"description".to_owned()) {
        None => {
            let t = String::new();
            proof {
                assert(t@ =~= Seq::<char>::empty());
            }
            Ok(t)
        },
        Some(attr) => {
            proof {
                assert(attr@.values.len() == attr.values.len());
            }
            if attr.values.len() != 1 {
                Err(error(attr.span, "'description' takes exactly one string argument!"))
            } else {
                proof {
                    assert(attr@.values[0] == attr.values@[0]@);
                }
                match &attr.values[0] {
                    ArgItem::Str(s, _sp) => {
                        let mut t = " (".to_owned();
                        t.append(s.as_str());
                        t.append(")");
                        proof {
                            assert(t@ =~= " ("@ + s@ + ")"@);
                        }
                        Ok(t)
                    },
                    _ => Err(error(attr.span, "'description' argument must be a string!")),
                }
            }
        },
    }
}

/// Builds the wrong-shape diagnostic for a variant.
fn variant_shape_error(id: &String, sp: Span) -> (d: Diagnostic)
    ensures
        d@ == (DiagnosticV { span: sp, message: variant_shape_msg(id@) }),
{
    let mut m = "Variant '".to_owned();
    m.append(id.as_str());
    m.append("' must specify exactly one unnamed field!");
    proof {
        assert(m@ =~= variant_shape_msg(id@));
    }
    Diagnostic { span: sp, message: m }
}

/// Builds the payload-shape diagnostic for a variant.
fn variant_payload_error(id: &String, sp: Span) -> (d: Diagnostic)
    ensures
        d@ == (DiagnosticV { span: sp, message: variant_payload_msg(id@) }),
{
    let mut m = "Variant '".to_owned();
    m.append(id.as_str());
    m.append("' must specify exactly one unnamed field referencing a type!");
    proof {
        assert(m@ =~= variant_payload_msg(id@));
    }
    Diagnostic { span: sp, message: m }
}

/// Resolves the `inline_from` targets named by one directive, reading each
/// string entry's pre-collected parse outcome from its slot and refusing a
/// target whose full text an earlier entry already claimed.
fn inline_from_list(attr: &AttrArg, outs: &Vec<Option<TypeRef>>) -> (r: Result<
    Vec<PathOrLit>,
    Diagnostic,
>)
    requires
        outs.deep_view().len() == attr@.values.len(),
    ensures
        ({
            let s = spec_inline_from(attr@.values, attr.span, outs.deep_view(), Seq::empty());
            match r {
                Ok(v) => s == Ok::<Seq<PathOrLitV>, DiagnosticV>(v.deep_view()),
                Err(d) => s == Err::<Seq<PathOrLitV>, DiagnosticV>(d@),
            }
        }),
{
    let ghost odv = outs.deep_view();
    let mut acc: Vec<PathOrLit> = Vec::new();
    let mut seen: Vec<String> = Vec::new();
    let mut j: usize = 0;
    proof {
        assert(attr@.values.skip(0) =~= attr@.values);
        assert(odv.skip(0) =~= odv);
        assert(acc.deep_view() =~= Seq::<PathOrLitV>::empty());
        assert(seen.deep_view() =~= Seq::<Seq<char>>::empty());
    }
    while j < attr.values.len()
        invariant
            j <= attr.values.len(),
            spec_inline_from(attr@.values, attr.span, odv, Seq::empty()) == (
            match spec_inline_from(
                attr@.values.skip(j as int),
                attr.span,
                odv.skip(j as int),
                seen.deep_view(),
            ) {
                Ok(rest) => Ok::<Seq<PathOrLitV>, DiagnosticV>(acc.deep_view() + rest),
                Err(d) => Err::<Seq<PathOrLitV>, DiagnosticV>(d),
            }),
        decreases attr.values.len() - j,
    {
        proof {
            assert(attr@.values.skip(j as int)[0] == attr@.values[j as int]);
            assert(attr@.values.skip(j as int).skip(1) =~= attr@.values.skip(j as int + 1));
            assert(attr@.values[j as int] == attr.values@[j as int]@);
            assert(odv.skip(j as int)[0] == odv[j as int]);
            assert(odv.skip(j as int).skip(1) =~= odv.skip(j as int + 1));
            assert(odv[j as int] == outs@[j as int].deep_view());
        }
        let (head, item_span) = match &attr.values[j] {
            ArgItem::Path(t, isp) => (PathOrLit::Path(t.clone()), *isp),
            ArgItem::Str(_s, _isp) => match &outs[j] {
                Some(t) => (PathOrLit::Lit(t.clone()), *_isp),
                None => {
                    return Err(
                        error(attr.span, "'inline_from' attribute must be a list of types!"),
                    );
                },
            },
            _ => {
                return Err(error(attr.span, "'inline_from' attribute must be a list of types!"));
            },
        };
        proof {
            assert(item_span == spec_item_span(attr@.values[j as int]));
        }
        let text = render_target(&head);
        if contains_string(&seen, &text) {
            return Err(error(item_span, "'inline_from' lists the same type twice!"));
        }
        let ghost prev_seen = seen.deep_view();
        seen.push(text);
        let ghost prev = acc.deep_view();
        acc.push(head);
        proof {
            assert(seen.deep_view() =~= prev_seen.push(spec_target_text(acc@[acc@.len()
                - 1]@)));
            assert(acc.deep_view() =~= prev.push(acc@[acc@.len() - 1]@));
            let s_next = spec_inline_from(
                attr@.values.skip(j as int + 1),
                attr.span,
                odv.skip(j as int + 1),
                seen.deep_view(),
            );
            if s_next is Ok {
                let rest = s_next->Ok_0;
                assert(prev + (seq![acc@[acc@.len() - 1]@] + rest) =~= acc.deep_view() + rest);
            }
        }
        j = j + 1;
    }
    proof {
        assert(attr@.values.skip(attr@.values.len() as int) =~= Seq::<ArgItemV>::empty());
        assert(acc.deep_view() + Seq::<PathOrLitV>::empty() =~= acc.deep_view());
    }
    Ok(acc)
}

/// Resolves one variant: checks its shape, validates its directives, and
/// folds the type-wide `transparent` default in.
fn build_variant(
    v: &VariantDef,
    transparent_enum: bool,
    input_span: Span,
    group: &String,
    vkeys: &Vec<String>,
    outs: &Vec<Option<TypeRef>>,
) -> (r: Result<VariantSchema, Diagnostic>)
    requires
        group@ == directive_group(),
        vkeys.deep_view() == variant_level_keys(),
        outs_aligned(*v, outs.deep_view()),
    ensures
        ({
            let s = spec_variant(*v, transparent_enum, input_span, outs.deep_view());
            match r {
                Ok(vs) => s == Ok::<VariantSchemaV, DiagnosticV>(vs@),
                Err(d) => s == Err::<VariantSchemaV, DiagnosticV>(d@),
            }
        }),
{
    let payload: TypeRef = match &v.fields {
        VariantFields::Unnamed(fs) => {
            if fs.len() == 1 {
                match &fs[0] {
                    Some(t) => t.clone(),
                    None => {
                        return Err(variant_payload_error(&v.ident, input_span));
                    },
                }
            } else {
                return Err(variant_shape_error(&v.ident, input_span));
            }
        },
        _ => {
            return Err(variant_shape_error(&v.ident, input_span));
        },
    };
    let args = match attr_args(&v.attrs, group, vkeys) {
        Err(e) => {
            return Err(e.explain());
        },
        Ok(a) => a,
    };
    let ghost es = args.entries.deep_view();
    let inline_from: Vec<PathOrLit> = match args.get(&"inline_from".to_owned()) {
        None => {
            let empty: Vec<PathOrLit> = Vec::new();
            proof {
                assert(empty.deep_view() =~= Seq::<PathOrLitV>::empty());
            }
            empty
        },
        Some(attr) => {
            proof {
                assert(lookup(es, variant_level_keys(), "inline_from"@) == Some(attr@));
                assert(outs.deep_view().len() == attr@.values.len());
            }
            match inline_from_list(attr, outs) {
                Err(d) => {
                    return Err(d);
                },
                Ok(list) => list,
            }
        },
    };
    let skip_single_from = match check_flag(&args, "skip_single_from") {
        Err(d) => {
            return Err(d);
        },
        Ok(b) => b,
    };
    let transparent_variant = match check_flag(&args, "transparent") {
        Err(d) => {
            return Err(d);
        },
        Ok(b) => b,
    };
    let no_source = match check_flag(&args, "no_source") {
        Err(d) => {
            return Err(d);
        },
        Ok(b) => b,
    };
    let convert_source: Option<TypeRef> = match args.get(&"convert_source".to_owned()) {
        None => None,
        Some(attr) => {
            proof {
                assert(attr@.values.len() == attr.values.len());
            }
            if attr.values.len() != 1 {
                return Err(error(attr.span, "'convert_source' takes exactly one argument!"));
            } else {
                proof {
                    assert(attr@.values[0] == attr.values@[0]@);
                }
                match &attr.values[0] {
                    ArgItem::Path(t, _sp) => Some(t.clone()),
                    _ => {
                        return Err(
                            error(attr.span, "The argument of 'convert_source' must be a path!"),
                        );
                    },
                }
            }
        },
    };
    let out = VariantSchema {
        name: v.ident.clone(),
        payload,
        inline_from,
        skip_single_from,
        no_source,
        convert_source,
        transparent: transparent_variant || transparent_enum,
    };
    proof {
        let s = spec_variant(*v, transparent_enum, input_span, outs.deep_view());
        assert(s is Ok);
        assert(s->Ok_0 =~= out@);
    }
    Ok(out)
}

/// Calls the host's type grammar once per `inline_from` argument of one
/// variant, keeping each outcome in its slot; an entry that is not a string
/// literal gets an unread empty slot.
fn collect_variant_parses(v: &VariantDef, group: &String, vkeys: &Vec<String>) -> (outs: Vec<
    Option<TypeRef>,
>)
    requires
        group@ == directive_group(),
        vkeys.deep_view() == variant_level_keys(),
    ensures
        outs_aligned(*v, outs.deep_view()),
        outs_wf(outs.deep_view()),
{
    let args = match attr_args(&v.attrs, group, vkeys) {
        Err(_) => {
            let empty: Vec<Option<TypeRef>> = Vec::new();
            proof {
                assert(empty.deep_view() =~= Seq::<Option<TypeRefV>>::empty());
            }
            return empty;
        },
        Ok(a) => a,
    };
    let ghost es = args.entries.deep_view();
    match args.get(&"inline_from".to_owned()) {
        None => {
            let empty: Vec<Option<TypeRef>> = Vec::new();
            proof {
                assert(empty.deep_view() =~= Seq::<Option<TypeRefV>>::empty());
            }
            empty
        },
        Some(attr) => {
            let mut outs: Vec<Option<TypeRef>> = Vec::new();
            let mut j: usize = 0;
            proof {
                assert(outs.deep_view() =~= Seq::<Option<TypeRefV>>::empty());
            }
            while j < attr.values.len()
                invariant
                    j <= attr.values.len(),
                    outs.deep_view().len() == j as int,
                    outs_wf(outs.deep_view()),
                decreases attr.values.len() - j,
            {
                let ghost prev = outs.deep_view();
                let slot: Option<TypeRef> = match &attr.values[j] {
                    ArgItem::Str(s, _sp) => parse_type_ref(s.as_str()),
                    _ => None,
                };
                let ghost slotv = slot.deep_view();
                proof {
                    assert(match slotv {
                        Some(t) => t.segments.len() >= 1,
                        None => true,
                    });
                }
                outs.push(slot);
                proof {
                    let dv = outs.deep_view();
                    assert(dv =~= prev.push(slotv));
                    assert forall|k: int|
                        0 <= k < dv.len() implies (#[trigger] dv[k] matches Some(t)
                        ==> t.segments.len() >= 1) by {
                        if k < prev.len() {
                            assert(dv[k] == prev[k]);
                        } else {
                            assert(dv[k] == slotv);
                        }
                    }
                }
                j = j + 1;
            }
            proof {
                assert(attr@.values.len() == attr.values.len());
                assert(lookup(es, variant_level_keys(), "inline_from"@) == Some(attr@));
                assert(outs_aligned(*v, outs.deep_view()));
            }
            outs
        },
    }
}

/// Calls the host's type grammar for every string `inline_from` argument of
/// every variant, before the deterministic build reads the outcomes.
fn collect_parses(input: &TypeDef) -> (outss: Vec<Vec<Option<TypeRef>>>)
    ensures
        outss_aligned(*input, outss.deep_view()),
        outss_wf(outss.deep_view()),
{
    let group = group_key();
    let vkeys = variant_key_vec();
    match &input.shape {
        TypeShape::TaggedUnion(vs) => {
            let mut outss: Vec<Vec<Option<TypeRef>>> = Vec::new();
            let mut i: usize = 0;
            proof {
                assert(outss.deep_view() =~= Seq::<Seq<Option<TypeRefV>>>::empty());
            }
            while i < vs.len()
                invariant
                    i <= vs.len(),
                    outss.deep_view().len() == i as int,
                    forall|k: int|
                        0 <= k < i ==> outs_aligned(vs@[k], #[trigger] outss.deep_view()[k]),
                    forall|k: int| 0 <= k < i ==> outs_wf(#[trigger] outss.deep_view()[k]),
                decreases vs.len() - i,
            {
                let ghost prev = outss.deep_view();
                let one = collect_variant_parses(&vs[i], &group, &vkeys);
                let ghost onev = one.deep_view();
                outss.push(one);
                proof {
                    let dv = outss.deep_view();
                    assert(dv =~= prev.push(onev));
                    assert forall|k: int|
                        0 <= k < i + 1 implies outs_aligned(vs@[k], #[trigger] dv[k]) by {
                        if k < prev.len() {
                            assert(dv[k] == prev[k]);
                        } else {
                            assert(dv[k] == onev);
                        }
                    }
                    assert forall|k: int| 0 <= k < i + 1 implies outs_wf(#[trigger] dv[k]) by {
                        if k < prev.len() {
                            assert(dv[k] == prev[k]);
                        } else {
                            assert(dv[k] == onev);
                        }
                    }
                }
                i = i + 1;
            }
            proof {
                assert(input.shape == TypeShape::TaggedUnion(*vs));
                assert(outss_aligned(*input, outss.deep_view()));
                assert(outss_wf(outss.deep_view()));
            }
            outss
        },
        _ => {
            let empty: Vec<Vec<Option<TypeRef>>> = Vec::new();
            proof {
                assert(empty.deep_view() =~= Seq::<Seq<Option<TypeRefV>>>::empty());
                assert(outss_wf(empty.deep_view()));
            }
            empty
        },
    }
}

/// The deterministic build over pre-collected parse outcomes.
#[verifier::rlimit(40)]
#[verifier::spinoff_prover]
fn build_schema_with(input: &TypeDef, outss: &Vec<Vec<Option<TypeRef>>>) -> (r: Result<
    TypeSchema,
    Diagnostic,
>)
    requires
        outss_aligned(*input, outss.deep_view()),
    ensures
        ({
            let s = build_schema_spec(*input, outss.deep_view());
            match r {
                Ok(t) => s == Ok::<TypeSchemaV, DiagnosticV>(t@),
                Err(d) => s == Err::<TypeSchemaV, DiagnosticV>(d@),
            }
        }),
{
    let group = group_key();
    let tkeys = type_key_vec();
    let ds = match attr_args(&input.attrs, &group, &tkeys) {
        Err(e) => {
            return Err(e.explain());
        },
        Ok(a) => a,
    };
    let title = match extract_title(&input.ident, &ds) {
        Err(d) => {
            return Err(d);
        },
        Ok(t) => t,
    };
    let description = match extract_description(&ds) {
        Err(d) => {
            return Err(d);
        },
        Ok(t) => t,
    };
    let skip_display = match check_flag(&ds, "skip_display") {
        Err(d) => {
            return Err(d);
        },
        Ok(b) => b,
    };
    let skip_error = match check_flag(&ds, "skip_error") {
        Err(d) => {
            return Err(d);
        },
        Ok(b) => b,
    };
    match &input.shape {
        TypeShape::Record => {
            let out = TypeSchema {
                kind: SchemaKind::Record,
                ident: input.ident.clone(),
                type_params: clone_strings(&input.type_params),
                generics_impl: input.generics_impl.clone(),
                generics_type: input.generics_type.clone(),
                generics_where: input.generics_where.clone(),
                title,
                description,
                skip_display,
                skip_error,
                transparent: false,
                variants: Vec::new(),
            };
            proof {
                let s = build_schema_spec(*input, outss.deep_view());
                assert(out@.variants =~= Seq::<VariantSchemaV>::empty());
                assert(s is Ok);
                assert(s->Ok_0 =~= out@);
            }
            Ok(out)
        },
        TypeShape::TaggedUnion(vs) => {
            let transparent_enum = match check_flag(&ds, "transparent") {
                Err(d) => {
                    return Err(d);
                },
                Ok(b) => b,
            };
            let vkeys = variant_key_vec();
            let ghost odv = outss.deep_view();
            proof {
                assert(input.shape == TypeShape::TaggedUnion(*vs));
                assert(odv.len() == vs@.len());
            }
            let mut variants: Vec<VariantSchema> = Vec::new();
            let mut j: usize = 0;
            proof {
                assert(vs@.skip(0) =~= vs@);
                assert(odv.skip(0) =~= odv);
                assert(variants.deep_view() =~= Seq::<VariantSchemaV>::empty());
            }
            while j < vs.len()
                invariant
                    j <= vs.len(),
                    outss.len() == vs.len(),
                    spec_variants(vs@, transparent_enum, input.span, odv) == (match spec_variants(
                        vs@.skip(j as int),
                        transparent_enum,
                        input.span,
                        odv.skip(j as int),
                    ) {
                        Ok(rest) => Ok::<Seq<VariantSchemaV>, DiagnosticV>(
                            variants.deep_view() + rest,
                        ),
                        Err(d) => Err::<Seq<VariantSchemaV>, DiagnosticV>(d),
                    }),
                decreases vs.len() - j,
            {
                proof {
                    assert(vs@.skip(j as int)[0] == vs@[j as int]);
                    assert(vs@.skip(j as int).skip(1) =~= vs@.skip(j as int + 1));
                    assert(odv.skip(j as int)[0] == odv[j as int]);
                    assert(odv.skip(j as int).skip(1) =~= odv.skip(j as int + 1));
                    assert(odv[j as int] == outss@[j as int].deep_view());
                    assert(outs_aligned(vs@[j as int], odv[j as int]));
                }
                let head = match build_variant(
                    &vs[j],
                    transparent_enum,
                    input.span,
                    &group,
                    &vkeys,
                    &outss[j],
                ) {
                    Err(d) => {
                        return Err(d);
                    },
                    Ok(h) => h,
                };
                let ghost prev = variants.deep_view();
                variants.push(head);
                proof {
                    assert(variants.deep_view() =~= prev.push(head@));
                    let s_next = spec_variants(
                        vs@.skip(j as int + 1),
                        transparent_enum,
                        input.span,
                        odv.skip(j as int + 1),
                    );
                    if s_next is Ok {
                        let rest = s_next->Ok_0;
                        assert(prev + (seq![head@] + rest) =~= variants.deep_view() + rest);
                    }
                }
                j = j + 1;
            }
            proof {
                assert(vs@.skip(vs@.len() as int) =~= Seq::<VariantDef>::empty());
                assert(variants.deep_view() + Seq::<VariantSchemaV>::empty()
                    =~= variants.deep_view());
            }
            let out = TypeSchema {
                kind: SchemaKind::TaggedUnion,
                ident: input.ident.clone(),
                type_params: clone_strings(&input.type_params),
                generics_impl: input.generics_impl.clone(),
                generics_type: input.generics_type.clone(),
                generics_where: input.generics_where.clone(),
                title,
                description,
                skip_display,
                skip_error,
                transparent: transparent_enum,
                variants,
            };
            proof {
                let s = build_schema_spec(*input, outss.deep_view());
                assert(s is Ok);
                assert(s->Ok_0 =~= out@);
            }
            Ok(out)
        },
        TypeShape::Other => Err(error(input.span, "Can only be used on enums!")),
    }
}

/// Builds the schema of a parsed type definition: validates the type-level
/// and per-variant directives against their allow-lists, resolves title,
/// description and flags, and checks each variant's shape.  Returns the
/// first failure as its diagnostic.  The `inline_from` string targets go
/// through the host's type grammar, of whose outcomes only the shape is
/// known, so the contract pins the result for some well-formed assignment
/// of those outcomes and everything else exactly.
pub fn build_schema(input: &TypeDef) -> (r: Result<TypeSchema, Diagnostic>)
    ensures
        exists|outss: Seq<Seq<Option<TypeRefV>>>| #[trigger] build_schema_rel(*input, outss, r),
{
    let outss = collect_parses(input);
    let out = build_schema_with(input, &outss);
    proof {
        assert(build_schema_rel(*input, outss.deep_view(), out));
    }
    out
}

} // verus!
