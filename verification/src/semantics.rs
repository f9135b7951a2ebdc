use vstd::pervasive::unreached;
use vstd::prelude::*;

use crate::ast::TypeRef;
use crate::ast::TypeRefV;
use crate::resolve::FlattenGroup;
use crate::resolve::Resolution;
use crate::resolve::SingleFromV;
use crate::schema::SchemaKind;
use crate::schema::TypeSchema;
use crate::schema::TypeSchemaV;
use crate::schema::VariantSchema;
use crate::schema::VariantSchemaV;
use crate::util::first_index;
use crate::util::lemma_first_index;
use crate::util::lemma_first_index_at;

verus! {

/// A model value of some payload type: what the generated code observes of
/// it — its own rendered text.  The functions below state, over such values,
/// exactly what the generated conversions, causal-chain accessor and
/// rendering do at run time.
#[derive(Debug, PartialEq, Eq)]
pub struct PayloadValue {
    pub rendered: String,
}

#[verifier::ext_equal]
pub ghost struct PayloadValueV {
    pub rendered: Seq<char>,
}

impl View for PayloadValue {
    type V = PayloadValueV;

    open spec fn view(&self) -> PayloadValueV {
        PayloadValueV { rendered: self.rendered@ }
    }
}

impl Clone for PayloadValue {
    fn clone(&self) -> (res: Self)
        ensures
            res@ == self@,
    {
        PayloadValue { rendered: self.rendered.clone() }
    }
}

/// A model value of the composite type: the active variant and its payload.
#[derive(Debug, PartialEq, Eq)]
pub struct CompositeValue {
    pub variant: String,
    pub payload: PayloadValue,
}

#[verifier::ext_equal]
pub ghost struct CompositeValueV {
    pub variant: Seq<char>,
    pub payload: PayloadValueV,
}

impl View for CompositeValue {
    type V = CompositeValueV;

    open spec fn view(&self) -> CompositeValueV {
        CompositeValueV { variant: self.variant@, payload: self.payload@ }
    }
}

/// What the generated causal-chain accessor yields for one value.
#[derive(Debug, PartialEq, Eq)]
pub enum SourceOutcome {
    /// The accessor returns nothing.
    Nothing,
    /// The payload itself is the cause.
    Payload(PayloadValue),
    /// The payload, passed through the named transformation.
    Converted(TypeRef, PayloadValue),
    /// The accessor delegates to the payload's own cause.
    Delegated(PayloadValue),
}

#[verifier::ext_equal]
pub ghost enum SourceOutcomeV {
    Nothing,
    Payload(PayloadValueV),
    Converted(TypeRefV, PayloadValueV),
    Delegated(PayloadValueV),
}

impl View for SourceOutcome {
    type V = SourceOutcomeV;

    open spec fn view(&self) -> SourceOutcomeV {
        match self {
            SourceOutcome::Nothing => SourceOutcomeV::Nothing,
            SourceOutcome::Payload(p) => SourceOutcomeV::Payload(p@),
            SourceOutcome::Converted(f, p) => SourceOutcomeV::Converted(f@, p@),
            SourceOutcome::Delegated(p) => SourceOutcomeV::Delegated(p@),
        }
    }
}

/// The name column of a variant list.
pub open spec fn variant_names(variants: Seq<VariantSchemaV>) -> Seq<Seq<char>> {
    variants.map_values(|v: VariantSchemaV| v.name)
}

/// The index of the variant a value holds, or `-1` for a foreign name.
pub open spec fn variant_index(variants: Seq<VariantSchemaV>, name: Seq<char>) -> int {
    first_index(variant_names(variants), name)
}

/// A value is of the schema's type when its variant name is one of the
/// schema's variants.
pub open spec fn spec_valid_value(schema: TypeSchemaV, v: CompositeValueV) -> bool {
    variant_index(schema.variants, v.variant) >= 0
}

/// What the generated causal-chain accessor yields for one variant's value:
/// nothing under `no_source`; the payload's own cause under `transparent`;
/// otherwise the payload itself, through the `convert_source` transformation
/// when one is declared.  `no_source` wins over `transparent`.
pub open spec fn spec_source(var: VariantSchemaV, p: PayloadValueV) -> SourceOutcomeV {
    if var.no_source {
        SourceOutcomeV::Nothing
    } else if var.transparent {
        SourceOutcomeV::Delegated(p)
    } else {
        match var.convert_source {
            Some(f) => SourceOutcomeV::Converted(f, p),
            None => SourceOutcomeV::Payload(p),
        }
    }
}

/// The accessor's outcome for a whole value: the case analysis lands on the
/// value's own variant.
pub open spec fn spec_source_of(schema: TypeSchemaV, v: CompositeValueV) -> SourceOutcomeV {
    spec_source(schema.variants[variant_index(schema.variants, v.variant)], v.payload)
}

/// What the generated rendering prints for one variant's value: the payload
/// alone under `transparent`; otherwise the header `"{title}{description}:"`
/// and one indented branch line holding the payload's text, or the bare
/// variant name under `no_source`.
pub open spec fn spec_render(
    schema: TypeSchemaV,
    var: VariantSchemaV,
    p: PayloadValueV,
) -> Seq<char> {
    if var.transparent {
        p.rendered
    } else {
        schema.title + schema.description + ":\n  └ "@ + (if var.no_source {
            var.name
        } else {
            p.rendered
        })
    }
}

/// The rendering of a whole value: the case analysis lands on the value's
/// own variant.
pub open spec fn spec_render_of(schema: TypeSchemaV, v: CompositeValueV) -> Seq<char> {
    spec_render(schema, schema.variants[variant_index(schema.variants, v.variant)], v.payload)
}

/// What the generated rendering prints for a record value.
pub open spec fn spec_render_record(schema: TypeSchemaV) -> Seq<char> {
    schema.title + schema.description
}

/// Finds the schema variant a value holds.
fn find_variant(variants: &Vec<VariantSchema>, name: &String) -> (r: Option<usize>)
    ensures
        match r {
            Some(i) => i < variants.len() && variant_index(variants.deep_view(), name@)
                == i as int,
            None => variant_index(variants.deep_view(), name@) == -1,
        },
{
    let mut i: usize = 0;
    while i < variants.len()
        invariant
            i <= variants.len(),
            forall|j: int| 0 <= j < i ==> variant_names(variants.deep_view())[j] != name@,
        decreases variants.len() - i,
    {
        if variants[i].name == *name {
            proof {
                assert(variant_names(variants.deep_view())[i as int] == variants.deep_view()[i
                    as int].name);
                lemma_first_index_at(variant_names(variants.deep_view()), name@, i as int);
            }
            return Some(i);
        }
        proof {
            assert(variant_names(variants.deep_view())[i as int] == variants.deep_view()[i
                as int].name);
        }
        i = i + 1;
    }
    proof {
        lemma_first_index(variant_names(variants.deep_view()), name@);
    }
    None
}

/// Runs the generated causal-chain accessor's case analysis on one value of
/// a tagged union whose accessor is generated (`skip_error` unset).
pub fn source_of(schema: &TypeSchema, value: &CompositeValue) -> (r: SourceOutcome)
    requires
        !schema.skip_error,
        spec_valid_value(schema@, value@),
    ensures
        r@ == spec_source_of(schema@, value@),
{
    let i = match find_variant(&schema.variants, &value.variant) {
        Some(i) => i,
        None => unreached(),
    };
    let var = &schema.variants[i];
    if var.no_source {
        SourceOutcome::Nothing
    } else if var.transparent {
        SourceOutcome::Delegated(value.payload.clone())
    } else {
        match &var.convert_source {
            Some(f) => SourceOutcome::Converted(f.clone(), value.payload.clone()),
            None => SourceOutcome::Payload(value.payload.clone()),
        }
    }
}

/// Runs the generated rendering's case analysis on one value of a tagged
/// union whose rendering is generated (`skip_display` unset).
pub fn render_value(schema: &TypeSchema, value: &CompositeValue) -> (r: String)
    requires
        !schema.skip_display,
        schema.kind == SchemaKind::TaggedUnion,
        spec_valid_value(schema@, value@),
    ensures
        r@ == spec_render_of(schema@, value@),
{
    let i = match find_variant(&schema.variants, &value.variant) {
        Some(i) => i,
        None => unreached(),
    };
    let var = &schema.variants[i];
    if var.transparent {
        value.payload.rendered.clone()
    } else {
        let mut out = schema.title.clone();
        out.append(schema.description.as_str());
        out.append(":\n  └ ");
        if var.no_source {
            out.append(var.name.as_str());
        } else {
            out.append(value.payload.rendered.as_str());
        }
        proof {
            assert(out@ =~= spec_render_of(schema@, value@));
        }
        out
    }
}

/// Runs the generated rendering for a record, whose rendering is generated
/// (`skip_display` unset).
pub fn render_record(schema: &TypeSchema) -> (r: String)
    requires
        !schema.skip_display,
        schema.kind == SchemaKind::Record,
    ensures
        r@ == spec_render_record(schema@),
{
    let mut out = schema.title.clone();
    out.append(schema.description.as_str());
    out
}

/// The payload-type column of the registered single-value conversions.
pub open spec fn single_from_payloads(entries: Seq<SingleFromV>) -> Seq<TypeRefV> {
    entries.map_values(|sf: SingleFromV| sf.payload)
}

/// Applies the generated single-value conversion registered for the given
/// payload type, when the resolution holds one: the payload is wrapped in
/// the registered variant, unchanged.
pub fn convert_single(res: &Resolution, payload_ty: &TypeRef, payload: PayloadValue) -> (r: Option<
    CompositeValue,
>)
    ensures
        ({
            let i = first_index(single_from_payloads(res@.single_from), payload_ty@);
            match r {
                Some(cv) => 0 <= i < res@.single_from.len() && cv@ == (CompositeValueV {
                    variant: res@.single_from[i].variant,
                    payload: payload@,
                }),
                None => i == -1,
            }
        }),
{
    let mut i: usize = 0;
    while i < res.single_from.len()
        invariant
            i <= res.single_from.len(),
            forall|j: int|
                0 <= j < i ==> single_from_payloads(res@.single_from)[j] != payload_ty@,
        decreases res.single_from.len() - i,
    {
        proof {
            assert(single_from_payloads(res@.single_from)[i as int] == res@.single_from[i
                as int].payload);
        }
        if res.single_from[i].payload.same_as(payload_ty) {
            proof {
                lemma_first_index_at(
                    single_from_payloads(res@.single_from),
                    payload_ty@,
                    i as int,
                );
            }
            let cv = CompositeValue { variant: res.single_from[i].variant.clone(), payload };
            return Some(cv);
        }
        i = i + 1;
    }
    proof {
        lemma_first_index(single_from_payloads(res@.single_from), payload_ty@);
    }
    None
}

/// Applies the generated flattening conversion of one group to a value of
/// the referenced type: a value of a claimed variant maps to the local
/// variant of the same name, its payload moved unchanged; a value of an
/// unclaimed variant has no mapping (the coverage check exists to rule that
/// out).
pub fn convert_flattened(group: &FlattenGroup, value: &CompositeValue) -> (r: Option<
    CompositeValue,
>)
    ensures
        match r {
            Some(cv) => group@.variants.contains(value@.variant) && cv@ == value@,
            None => !group@.variants.contains(value@.variant),
        },
{
    let mut i: usize = 0;
    while i < group.variants.len()
        invariant
            i <= group.variants.len(),
            forall|j: int| 0 <= j < i ==> group@.variants[j] != value@.variant,
        decreases group.variants.len() - i,
    {
        if group.variants[i] == value.variant {
            proof {
                assert(group@.variants[i as int] == group.variants@[i as int]@);
                assert(group@.variants.contains(value@.variant));
            }
            let cv = CompositeValue {
                variant: value.variant.clone(),
                payload: value.payload.clone(),
            };
            proof {
                assert(cv@ =~= value@);
            }
            return Some(cv);
        }
        proof {
            assert(group@.variants[i as int] == group.variants@[i as int]@);
        }
        i = i + 1;
    }
    None
}

/// Round-trip: a value built by a variant's single-value conversion hands
/// its payload back through the causal-chain accessor — after the declared
/// `convert_source` transformation, if one is declared — provided the
/// variant sets neither `no_source` nor `transparent`.
pub proof fn lemma_round_trip(schema: TypeSchemaV, i: int, p: PayloadValueV)
    requires
        0 <= i < schema.variants.len(),
        variant_index(schema.variants, schema.variants[i].name) == i,
        !schema.variants[i].no_source,
        !schema.variants[i].transparent,
    ensures
        spec_source_of(schema, CompositeValueV { variant: schema.variants[i].name, payload: p })
            == (match schema.variants[i].convert_source {
            None => SourceOutcomeV::Payload(p),
            Some(f) => SourceOutcomeV::Converted(f, p),
        }),
{
}

/// Rendering a transparent variant is textually identical to rendering the
/// payload alone: no header and no branch marker.
pub proof fn lemma_transparent_rendering(schema: TypeSchemaV, i: int, p: PayloadValueV)
    requires
        0 <= i < schema.variants.len(),
        variant_index(schema.variants, schema.variants[i].name) == i,
        schema.variants[i].transparent,
    ensures
        spec_render_of(schema, CompositeValueV { variant: schema.variants[i].name, payload: p })
            == p.rendered,
{
}

/// Rendering a non-transparent variant always begins with the header
/// `"{title}{description}:"`; the rest is one line break, the branch marker,
/// and the branch text alone.
pub proof fn lemma_framed_rendering(schema: TypeSchemaV, i: int, p: PayloadValueV)
    requires
        0 <= i < schema.variants.len(),
        variant_index(schema.variants, schema.variants[i].name) == i,
        !schema.variants[i].transparent,
    ensures
        ({
            let out = spec_render_of(
                schema,
                CompositeValueV { variant: schema.variants[i].name, payload: p },
            );
            let header = schema.title + schema.description + ":"@;
            let branch = if schema.variants[i].no_source {
                schema.variants[i].name
            } else {
                p.rendered
            };
            out == header + "\n  └ "@ + branch && out.take(header.len() as int) == header
        }),
{
    let out = spec_render_of(
        schema,
        CompositeValueV { variant: schema.variants[i].name, payload: p },
    );
    let header = schema.title + schema.description + ":"@;
    let branch = if schema.variants[i].no_source {
        schema.variants[i].name
    } else {
        p.rendered
    };
    assert(schema.title + schema.description + ":\n  └ "@ + branch == header + "\n  └ "@
        + branch) by {
        reveal_strlit(":\n  └ ");
        reveal_strlit(":");
        reveal_strlit("\n  └ ");
        assert(schema.title + schema.description + ":\n  └ "@ + branch =~= header + "\n  └ "@
            + branch);
    }
    assert(out.take(header.len() as int) =~= header);
}

} // verus!
