use vstd::prelude::*;

use crate::ast::PathOrLit;
use crate::ast::PathOrLitV;
use crate::ast::Span;
use crate::ast::TypeRef;
use crate::ast::TypeRefV;
use crate::ast::clone_strings;
use crate::ast::contains_string;
use crate::ast::render_target;
use crate::ast::spec_target_text;
use crate::schema::TypeSchema;
use crate::schema::TypeSchemaV;
use crate::schema::VariantSchemaV;
use crate::util::Diagnostic;
use crate::util::DiagnosticV;
use crate::util::error;
use crate::util::first_index;
use crate::util::lemma_first_index;
use crate::util::lemma_first_index_at;

verus! {

/// One single-value conversion to generate: payload type to composite type,
/// through the named variant.
#[derive(Debug, PartialEq, Eq)]
pub struct SingleFrom {
    pub payload: TypeRef,
    pub variant: String,
}

#[verifier::ext_equal]
pub ghost struct SingleFromV {
    pub payload: TypeRefV,
    pub variant: Seq<char>,
}

impl View for SingleFrom {
    type V = SingleFromV;

    open spec fn view(&self) -> SingleFromV {
        SingleFromV { payload: self.payload@, variant: self.variant@ }
    }
}

impl DeepView for SingleFrom {
    type V = SingleFromV;

    open spec fn deep_view(&self) -> SingleFromV {
        self.view()
    }
}

/// One flattening conversion to generate: all local variants whose
/// `inline_from` targets have the same full textual form, in the order they
/// claimed it.  The stored source is the first claim's spelling; each
/// claimed local variant corresponds to the source type's variant of the
/// same name.
#[derive(Debug, PartialEq, Eq)]
pub struct FlattenGroup {
    pub source: PathOrLit,
    pub variants: Vec<String>,
}

#[verifier::ext_equal]
pub ghost struct FlattenGroupV {
    pub source: PathOrLitV,
    pub variants: Seq<Seq<char>>,
}

impl View for FlattenGroup {
    type V = FlattenGroupV;

    open spec fn view(&self) -> FlattenGroupV {
        FlattenGroupV { source: self.source@, variants: self.variants.deep_view() }
    }
}

impl DeepView for FlattenGroup {
    type V = FlattenGroupV;

    open spec fn deep_view(&self) -> FlattenGroupV {
        self.view()
    }
}

/// The two conversion sets the resolver computes for one schema.
#[derive(Debug, PartialEq, Eq)]
pub struct Resolution {
    pub single_from: Vec<SingleFrom>,
    pub groups: Vec<FlattenGroup>,
}

#[verifier::ext_equal]
pub ghost struct ResolutionV {
    pub single_from: Seq<SingleFromV>,
    pub groups: Seq<FlattenGroupV>,
}

impl View for Resolution {
    type V = ResolutionV;

    open spec fn view(&self) -> ResolutionV {
        ResolutionV {
            single_from: self.single_from.deep_view(),
            groups: self.groups.deep_view(),
        }
    }
}

/// Whether a payload's base type is one of the enclosing type's generic
/// parameters.  Base-type matching goes by the path segments alone and
/// ignores generic arguments.
pub open spec fn is_generic_payload(payload: TypeRefV, type_params: Seq<Seq<char>>) -> bool {
    payload.segments.len() == 1 && type_params.contains(payload.segments[0])
}

/// Whether a variant takes part in single-value conversion generation.
pub open spec fn spec_eligible(v: VariantSchemaV, type_params: Seq<Seq<char>>) -> bool {
    !v.skip_single_from && !is_generic_payload(v.payload, type_params)
}

/// The single-value conversions: one per eligible variant, in declaration
/// order.
pub open spec fn spec_single_from(
    variants: Seq<VariantSchemaV>,
    type_params: Seq<Seq<char>>,
) -> Seq<SingleFromV>
    decreases variants.len(),
{
    if variants.len() == 0 {
        Seq::empty()
    } else {
        let rest = spec_single_from(variants.skip(1), type_params);
        if spec_eligible(variants[0], type_params) {
            seq![SingleFromV { payload: variants[0].payload, variant: variants[0].name }] + rest
        } else {
            rest
        }
    }
}

/// The number of variants that take part in single-value conversion
/// generation.
pub open spec fn count_eligible(variants: Seq<VariantSchemaV>, type_params: Seq<Seq<char>>) -> int
    decreases variants.len(),
{
    if variants.len() == 0 {
        0
    } else {
        (if spec_eligible(variants[0], type_params) {
            1int
        } else {
            0int
        }) + count_eligible(variants.skip(1), type_params)
    }
}

/// For all valid tagged-union schemas, the number of generated single-value
/// conversions equals the number of variants whose payload's base type is
/// not a generic parameter of the enclosing type and which did not set
/// `skip_single_from`.
pub proof fn lemma_single_from_count(variants: Seq<VariantSchemaV>, type_params: Seq<Seq<char>>)
    ensures
        spec_single_from(variants, type_params).len() == count_eligible(variants, type_params),
    decreases variants.len(),
{
    if variants.len() > 0 {
        lemma_single_from_count(variants.skip(1), type_params);
    }
}

/// The grouping-key column of a group list: each source's full textual
/// form.
pub open spec fn group_texts(groups: Seq<FlattenGroupV>) -> Seq<Seq<char>> {
    groups.map_values(|g: FlattenGroupV| spec_target_text(g.source))
}

/// Files one `inline_from` claim under its key's group, appending a new
/// group for a key not seen before.  Keys compare by the target's full
/// textual form alone, whichever way it was spelled; a group keeps the
/// spelling of its first claim.
pub open spec fn add_target(
    groups: Seq<FlattenGroupV>,
    target: PathOrLitV,
    vname: Seq<char>,
) -> Seq<FlattenGroupV> {
    let i = first_index(group_texts(groups), spec_target_text(target));
    if i < 0 {
        groups.push(FlattenGroupV { source: target, variants: seq![vname] })
    } else {
        groups.update(
            i,
            FlattenGroupV { source: groups[i].source, variants: groups[i].variants.push(vname) },
        )
    }
}

/// Files all of one variant's `inline_from` claims, left to right.
pub open spec fn add_targets(
    groups: Seq<FlattenGroupV>,
    targets: Seq<PathOrLitV>,
    vname: Seq<char>,
) -> Seq<FlattenGroupV>
    decreases targets.len(),
{
    if targets.len() == 0 {
        groups
    } else {
        add_targets(add_target(groups, targets[0], vname), targets.skip(1), vname)
    }
}

/// Files the claims of all variants, in declaration order.
pub open spec fn groups_after(
    groups: Seq<FlattenGroupV>,
    variants: Seq<VariantSchemaV>,
) -> Seq<FlattenGroupV>
    decreases variants.len(),
{
    if variants.len() == 0 {
        groups
    } else {
        groups_after(
            add_targets(groups, variants[0].inline_from, variants[0].name),
            variants.skip(1),
        )
    }
}

/// The flattening groups of a schema: one per distinct `inline_from` target,
/// in order of first claim.
pub open spec fn spec_groups(variants: Seq<VariantSchemaV>) -> Seq<FlattenGroupV> {
    groups_after(Seq::empty(), variants)
}

/// No two groups share a key: their sources' full textual forms are
/// pairwise distinct.
pub open spec fn distinct_sources(groups: Seq<FlattenGroupV>) -> bool {
    forall|i: int, j: int|
        0 <= i < j < groups.len() ==> #[trigger] spec_target_text(groups[i].source)
            != #[trigger] spec_target_text(groups[j].source)
}

proof fn lemma_add_target_distinct(
    groups: Seq<FlattenGroupV>,
    target: PathOrLitV,
    vname: Seq<char>,
)
    requires
        distinct_sources(groups),
    ensures
        distinct_sources(add_target(groups, target, vname)),
{
    let i = first_index(group_texts(groups), spec_target_text(target));
    lemma_first_index(group_texts(groups), spec_target_text(target));
    let g2 = add_target(groups, target, vname);
    if i < 0 {
        assert forall|a: int, b: int|
            0 <= a < b < g2.len() implies #[trigger] spec_target_text(g2[a].source)
            != #[trigger] spec_target_text(g2[b].source) by {
            if b == groups.len() as int {
                assert(group_texts(groups)[a] == spec_target_text(groups[a].source));
                assert(g2[b].source == target);
            }
        }
    } else {
        assert(group_texts(groups)[i] == spec_target_text(groups[i].source));
        assert forall|a: int, b: int|
            0 <= a < b < g2.len() implies #[trigger] spec_target_text(g2[a].source)
            != #[trigger] spec_target_text(g2[b].source) by {
            assert(g2[a].source == groups[a].source);
            assert(g2[b].source == groups[b].source);
        }
    }
}

proof fn lemma_add_targets_distinct(
    groups: Seq<FlattenGroupV>,
    targets: Seq<PathOrLitV>,
    vname: Seq<char>,
)
    requires
        distinct_sources(groups),
    ensures
        distinct_sources(add_targets(groups, targets, vname)),
    decreases targets.len(),
{
    if targets.len() > 0 {
        lemma_add_target_distinct(groups, targets[0], vname);
        lemma_add_targets_distinct(add_target(groups, targets[0], vname), targets.skip(1), vname);
    }
}

proof fn lemma_groups_after_distinct(groups: Seq<FlattenGroupV>, variants: Seq<VariantSchemaV>)
    requires
        distinct_sources(groups),
    ensures
        distinct_sources(groups_after(groups, variants)),
    decreases variants.len(),
{
    if variants.len() > 0 {
        lemma_add_targets_distinct(groups, variants[0].inline_from, variants[0].name);
        lemma_groups_after_distinct(
            add_targets(groups, variants[0].inline_from, variants[0].name),
            variants.skip(1),
        );
    }
}

/// Grouping keeps one group per distinct `inline_from` key: the groups the
/// resolver computes carry sources of pairwise-distinct full textual form,
/// so each key gets exactly one flattening conversion.
pub proof fn lemma_groups_distinct(variants: Seq<VariantSchemaV>)
    ensures
        distinct_sources(spec_groups(variants)),
{
    assert(distinct_sources(Seq::<FlattenGroupV>::empty()));
    lemma_groups_after_distinct(Seq::empty(), variants);
}

/// Whether a name occurs twice in a list.
pub open spec fn has_dup(names: Seq<Seq<char>>) -> bool {
    exists|i: int, j: int| 0 <= i < j < names.len() && names[i] == names[j]
}

/// Whether any group claims the same referenced variant twice.
pub open spec fn spec_conflict(groups: Seq<FlattenGroupV>) -> bool {
    exists|g: int| 0 <= g < groups.len() && has_dup(groups[g].variants)
}

/// The diagnostic for two claims on the same slot of a correspondence table.
pub open spec fn conflict_msg() -> Seq<char> {
    "Conflicting 'inline_from' mappings: a referenced variant is claimed twice!"@
}

/// What resolving a schema yields: the single-value conversions and the
/// flattening groups, or a conflict diagnostic when two local mappings claim
/// the same referenced variant.  The schema builder already refuses one
/// variant claiming a key twice, at the claim's own token; this check is the
/// resolver's backstop, and fires only when two variants share a name, which
/// the host language prevents, so it reports at the definition's position.
pub open spec fn resolve_spec(schema: TypeSchemaV, def_span: Span) -> Result<
    ResolutionV,
    DiagnosticV,
> {
    let groups = spec_groups(schema.variants);
    if spec_conflict(groups) {
        Err(DiagnosticV { span: def_span, message: conflict_msg() })
    } else {
        Ok(
            ResolutionV {
                single_from: spec_single_from(schema.variants, schema.type_params),
                groups,
            },
        )
    }
}

/// A resolution that the resolver accepts claims no referenced variant twice
/// within any flattening group.
pub proof fn lemma_resolution_injective(schema: TypeSchemaV, def_span: Span, res: ResolutionV)
    requires
        resolve_spec(schema, def_span) == Ok::<ResolutionV, DiagnosticV>(res),
    ensures
        forall|g: int| 0 <= g < res.groups.len() ==> !has_dup(#[trigger] res.groups[g].variants),
{
}

/// The executable form of [`is_generic_payload`].
fn is_generic_param(payload: &TypeRef, type_params: &Vec<String>) -> (r: bool)
    ensures
        r == is_generic_payload(payload@, type_params.deep_view()),
{
    if payload.segments.len() != 1 {
        return false;
    }
    let mut i: usize = 0;
    while i < type_params.len()
        invariant
            i <= type_params.len(),
            forall|j: int| 0 <= j < i ==> type_params.deep_view()[j] != payload@.segments[0],
        decreases type_params.len() - i,
    {
        if type_params[i] == payload.segments[0] {
            proof {
                assert(type_params.deep_view()[i as int] == type_params@[i as int]@);
                assert(payload@.segments[0] == payload.segments@[0]@);
                assert(type_params.deep_view()[i as int] == payload@.segments[0]);
                assert(type_params.deep_view().contains(payload@.segments[0]));
            }
            return true;
        }
        i = i + 1;
    }
    proof {
        assert(!type_params.deep_view().contains(payload@.segments[0]));
    }
    false
}

/// Finds the group already holding claims against `t`'s key: the first
/// group whose source has the same full textual form, in either spelling.
fn find_group(groups: &Vec<FlattenGroup>, t: &PathOrLit) -> (r: Option<usize>)
    ensures
        match r {
            Some(i) => i < groups.len() && first_index(
                group_texts(groups.deep_view()),
                spec_target_text(t@),
            ) == i,
            None => first_index(group_texts(groups.deep_view()), spec_target_text(t@)) == -1,
        },
{
    let t_text = render_target(t);
    let mut i: usize = 0;
    while i < groups.len()
        invariant
            i <= groups.len(),
            t_text@ == spec_target_text(t@),
            forall|j: int|
                0 <= j < i ==> group_texts(groups.deep_view())[j] != spec_target_text(t@),
        decreases groups.len() - i,
    {
        proof {
            assert(group_texts(groups.deep_view())[i as int] == spec_target_text(
                groups.deep_view()[i as int].source,
            ));
            assert(groups.deep_view()[i as int].source == groups@[i as int].source@);
        }
        if render_target(&groups[i].source) == t_text {
            proof {
                lemma_first_index_at(
                    group_texts(groups.deep_view()),
                    spec_target_text(t@),
                    i as int,
                );
            }
            return Some(i);
        }
        i = i + 1;
    }
    proof {
        lemma_first_index(group_texts(groups.deep_view()), spec_target_text(t@));
    }
    None
}

/// Whether a name list claims some name twice.
fn names_have_dup(names: &Vec<String>) -> (r: bool)
    ensures
        r == has_dup(names.deep_view()),
{
    let mut i: usize = 0;
    while i < names.len()
        invariant
            i <= names.len(),
            forall|a: int, b: int|
                0 <= a < b < names.len() && a < i ==> names.deep_view()[a]
                    != names.deep_view()[b],
        decreases names.len() - i,
    {
        let mut j: usize = i + 1;
        while j < names.len()
            invariant
                i < j <= names.len(),
                forall|b: int| i < b < j ==> names.deep_view()[i as int] != names.deep_view()[b],
            decreases names.len() - j,
        {
            if names[i] == names[j] {
                proof {
                    assert(names.deep_view()[i as int] == names@[i as int]@);
                    assert(names.deep_view()[j as int] == names@[j as int]@);
                    assert(names.deep_view()[i as int] == names.deep_view()[j as int]);
                    assert(has_dup(names.deep_view()));
                }
                return true;
            }
            j = j + 1;
        }
        i = i + 1;
    }
    false
}

/// Whether any group claims the same referenced variant twice.
fn groups_have_conflict(groups: &Vec<FlattenGroup>) -> (r: bool)
    ensures
        r == spec_conflict(groups.deep_view()),
{
    let mut g: usize = 0;
    while g < groups.len()
        invariant
            g <= groups.len(),
            forall|x: int| 0 <= x < g ==> !has_dup(#[trigger] groups.deep_view()[x].variants),
        decreases groups.len() - g,
    {
        if names_have_dup(&groups[g].variants) {
            proof {
                assert(has_dup(groups.deep_view()[g as int].variants));
            }
            return true;
        }
        g = g + 1;
    }
    false
}

/// Resolves a schema: registers one single-value conversion per eligible
/// variant, groups the `inline_from` claims by target, and rejects a group
/// that claims the same referenced variant twice.
pub fn resolve(schema: &TypeSchema, def_span: Span) -> (r: Result<Resolution, Diagnostic>)
    ensures
        ({
            let s = resolve_spec(schema@, def_span);
            match r {
                Ok(res) => s == Ok::<ResolutionV, DiagnosticV>(res@),
                Err(d) => s == Err::<ResolutionV, DiagnosticV>(d@),
            }
        }),
{
    let ghost vs_dv = schema@.variants;
    let mut single_from: Vec<SingleFrom> = Vec::new();
    let mut j: usize = 0;
    proof {
        assert(vs_dv.skip(0) =~= vs_dv);
        assert(single_from.deep_view() =~= Seq::<SingleFromV>::empty());
    }
    while j < schema.variants.len()
        invariant
            j <= schema.variants.len(),
            spec_single_from(vs_dv, schema@.type_params) == single_from.deep_view()
                + spec_single_from(vs_dv.skip(j as int), schema@.type_params),
        decreases schema.variants.len() - j,
    {
        proof {
            assert(vs_dv.skip(j as int)[0] == vs_dv[j as int]);
            assert(vs_dv.skip(j as int).skip(1) =~= vs_dv.skip(j as int + 1));
        }
        let v = &schema.variants[j];
        if !v.skip_single_from && !is_generic_param(&v.payload, &schema.type_params) {
            let ghost prev = single_from.deep_view();
            single_from.push(
                SingleFrom { payload: v.payload.clone(), variant: v.name.clone() },
            );
            proof {
                assert(single_from.deep_view() =~= prev.push(
                    SingleFromV { payload: v@.payload, variant: v@.name },
                ));
                assert(prev + (seq![
                    SingleFromV { payload: vs_dv[j as int].payload, variant: vs_dv[j as int].name },
                ] + spec_single_from(vs_dv.skip(j as int + 1), schema@.type_params))
                    =~= single_from.deep_view() + spec_single_from(
                    vs_dv.skip(j as int + 1),
                    schema@.type_params,
                ));
            }
        }
        j = j + 1;
    }
    proof {
        assert(vs_dv.skip(vs_dv.len() as int) =~= Seq::<VariantSchemaV>::empty());
        assert(single_from.deep_view() + Seq::<SingleFromV>::empty() =~= single_from.deep_view());
    }
    let mut groups: Vec<FlattenGroup> = Vec::new();
    let mut vi: usize = 0;
    proof {
        assert(groups.deep_view() =~= Seq::<FlattenGroupV>::empty());
    }
    while vi < schema.variants.len()
        invariant
            vi <= schema.variants.len(),
            groups_after(groups.deep_view(), vs_dv.skip(vi as int)) == spec_groups(vs_dv),
        decreases schema.variants.len() - vi,
    {
        proof {
            assert(vs_dv.skip(vi as int)[0] == vs_dv[vi as int]);
            assert(vs_dv.skip(vi as int).skip(1) =~= vs_dv.skip(vi as int + 1));
        }
        let v = &schema.variants[vi];
        let ghost targets = v@.inline_from;
        let ghost inner_goal = add_targets(groups.deep_view(), targets, v@.name);
        let mut k: usize = 0;
        proof {
            assert(targets.skip(0) =~= targets);
        }
        while k < v.inline_from.len()
            invariant
                k <= v.inline_from.len(),
                add_targets(groups.deep_view(), targets.skip(k as int), v@.name) == inner_goal,
            decreases v.inline_from.len() - k,
        {
            proof {
                assert(targets.skip(k as int)[0] == targets[k as int]);
                assert(targets.skip(k as int).skip(1) =~= targets.skip(k as int + 1));
                assert(targets[k as int] == v.inline_from@[k as int]@);
            }
            let t = &v.inline_from[k];
            let ghost pre = groups.deep_view();
            match find_group(&groups, t) {
                None => {
                    let mut nv: Vec<String> = Vec::new();
                    nv.push(v.name.clone());
                    groups.push(FlattenGroup { source: t.clone(), variants: nv });
                    proof {
                        assert(nv.deep_view() =~= seq![v@.name]);
                        assert(groups.deep_view() =~= add_target(pre, t@, v@.name));
                    }
                },
                Some(i) => {
                    let g = &groups[i];
                    let mut nv = clone_strings(&g.variants);
                    nv.push(v.name.clone());
                    let ng = FlattenGroup { source: g.source.clone(), variants: nv };
                    proof {
                        assert(ng@ =~= (FlattenGroupV {
                            source: pre[i as int].source,
                            variants: pre[i as int].variants.push(v@.name),
                        }));
                    }
                    groups.set(i, ng);
                    proof {
                        assert(groups.deep_view() =~= add_target(pre, t@, v@.name));
                    }
                },
            }
            k = k + 1;
        }
        proof {
            assert(targets.skip(targets.len() as int) =~= Seq::<PathOrLitV>::empty());
            assert(add_targets(groups.deep_view(), targets.skip(targets.len() as int), v@.name)
                == groups.deep_view());
        }
        vi = vi + 1;
    }
    proof {
        assert(vs_dv.skip(vs_dv.len() as int) =~= Seq::<VariantSchemaV>::empty());
        assert(groups.deep_view() == spec_groups(vs_dv));
    }
    if groups_have_conflict(&groups) {
        Err(
            error(
                def_span,
                "Conflicting 'inline_from' mappings: a referenced variant is claimed twice!",
            ),
        )
    } else {
        let res = Resolution { single_from, groups };
        proof {
            assert(res@ =~= (ResolutionV {
                single_from: spec_single_from(vs_dv, schema@.type_params),
                groups: spec_groups(vs_dv),
            }));
        }
        Ok(res)
    }
}

/// Whether a flattening group covers the referenced type's own variant list
/// exactly: no variant claimed twice, and the claimed names are exactly the
/// referenced type's variant names.
pub open spec fn spec_covers(claimed: Seq<Seq<char>>, r_variants: Seq<Seq<char>>) -> bool {
    !has_dup(claimed) && (forall|x: Seq<char>| claimed.contains(x) <==> r_variants.contains(x))
}

/// For all variants sharing an `inline_from` target, the union of their
/// declared mappings covers every variant of the referenced type exactly
/// once: coverage is total and injective.
pub proof fn lemma_coverage_total_injective(claimed: Seq<Seq<char>>, r_variants: Seq<Seq<char>>)
    requires
        spec_covers(claimed, r_variants),
    ensures
        forall|i: int| 0 <= i < r_variants.len() ==> claimed.contains(#[trigger] r_variants[i]),
        forall|j1: int, j2: int|
            0 <= j1 < claimed.len() && 0 <= j2 < claimed.len() && #[trigger] claimed[j1]
                == #[trigger] claimed[j2] ==> j1 == j2,
{
    assert forall|i: int| 0 <= i < r_variants.len() implies claimed.contains(
        #[trigger] r_variants[i],
    ) by {
        assert(r_variants.contains(r_variants[i]));
    }
    assert forall|j1: int, j2: int|
        0 <= j1 < claimed.len() && 0 <= j2 < claimed.len() && #[trigger] claimed[j1]
            == #[trigger] claimed[j2] implies j1 == j2 by {
        if j1 < j2 || j2 < j1 {
            assert(has_dup(claimed));
        }
    }
}

/// Checks that a flattening group's claimed variants cover the referenced
/// type's own variant list exactly once, given that list.  The resolver
/// cannot see the referenced type, so this check runs wherever its variant
/// list is known.
pub fn verify_coverage(group: &FlattenGroup, r_variants: &Vec<String>) -> (ok: bool)
    ensures
        ok == spec_covers(group@.variants, r_variants.deep_view()),
{
    if names_have_dup(&group.variants) {
        return false;
    }
    let mut i: usize = 0;
    while i < group.variants.len()
        invariant
            i <= group.variants.len(),
            forall|j: int|
                0 <= j < i ==> r_variants.deep_view().contains(
                    #[trigger] group@.variants[j],
                ),
        decreases group.variants.len() - i,
    {
        if !contains_string(r_variants, &group.variants[i]) {
            proof {
                assert(group@.variants.contains(group@.variants[i as int]));
            }
            return false;
        }
        i = i + 1;
    }
    let mut j: usize = 0;
    while j < r_variants.len()
        invariant
            j <= r_variants.len(),
            forall|x: int|
                0 <= x < j ==> group@.variants.contains(#[trigger] r_variants.deep_view()[x]),
        decreases r_variants.len() - j,
    {
        if !contains_string(&group.variants, &r_variants[j]) {
            proof {
                assert(r_variants.deep_view().contains(r_variants.deep_view()[j as int]));
            }
            return false;
        }
        j = j + 1;
    }
    proof {
        assert forall|x: Seq<char>| group@.variants.contains(x) implies r_variants.deep_view()
            .contains(x) by {
            let ix = choose|ix: int|
                0 <= ix < group@.variants.len() && group@.variants[ix] == x;
            assert(r_variants.deep_view().contains(group@.variants[ix]));
        }
        assert forall|x: Seq<char>| r_variants.deep_view().contains(x) implies group@.variants
            .contains(x) by {
            let ix = choose|ix: int|
                0 <= ix < r_variants.deep_view().len() && r_variants.deep_view()[ix] == x;
            assert(group@.variants.contains(r_variants.deep_view()[ix]));
        }
    }
    true
}

} // verus!
