use vstd::prelude::*;

use crate::ast::PathOrLitV;
use crate::ast::render_full;
use crate::ast::render_target;
use crate::ast::spec_erased_path;
use crate::ast::spec_full_text;
use crate::ast::spec_path_text;
use crate::ast::spec_target_text;
use crate::resolve::FlattenGroup;
use crate::resolve::FlattenGroupV;
use crate::resolve::Resolution;
use crate::resolve::ResolutionV;
use crate::resolve::SingleFrom;
use crate::resolve::SingleFromV;
use crate::schema::SchemaKind;
use crate::schema::TypeSchema;
use crate::schema::TypeSchemaV;
use crate::schema::VariantSchema;
use crate::schema::VariantSchemaV;

verus! {

/// Relies on `str::chars`: the characters of the text, in order.
#[verifier::external_body]
fn chars_of(s: &str) -> (r: Vec<char>)
    ensures
        r@ == s@,
{
    s.chars().collect()
}

/// Relies on `String`'s `FromIterator` over characters: the text holding
/// exactly the given characters, in order.
#[verifier::external_body]
fn string_from_chars(cs: &Vec<char>) -> (r: String)
    ensures
        r@ == cs@,
{
    cs.iter().collect()
}

/// The lower-case hexadecimal digit for a value below sixteen.
pub open spec fn hex_digit(n: int) -> char {
    if n == 0 {
        '0'
    } else if n == 1 {
        '1'
    } else if n == 2 {
        '2'
    } else if n == 3 {
        '3'
    } else if n == 4 {
        '4'
    } else if n == 5 {
        '5'
    } else if n == 6 {
        '6'
    } else if n == 7 {
        '7'
    } else if n == 8 {
        '8'
    } else if n == 9 {
        '9'
    } else if n == 10 {
        'a'
    } else if n == 11 {
        'b'
    } else if n == 12 {
        'c'
    } else if n == 13 {
        'd'
    } else if n == 14 {
        'e'
    } else {
        'f'
    }
}

/// How one character is written inside an emitted string literal: quote and
/// backslash are escaped, the common control characters get their short
/// escapes, the remaining control characters a two-digit `\u{..}` escape,
/// and every other character stands as itself.
pub open spec fn spec_escape_char(c: char) -> Seq<char> {
    if c == '"' {
        seq!['\\', '"']
    } else if c == '\\' {
        seq!['\\', '\\']
    } else if c == '\n' {
        seq!['\\', 'n']
    } else if c == '\r' {
        seq!['\\', 'r']
    } else if c == '\t' {
        seq!['\\', 't']
    } else if (c as u32) < 0x20 || (c as u32) == 0x7f {
        seq!['\\', 'u', '{', hex_digit((c as u32) as int / 16), hex_digit((c as u32) as int % 16), '}']
    } else {
        seq![c]
    }
}

/// The escaped body of an emitted string literal.
pub open spec fn spec_escape(s: Seq<char>) -> Seq<char>
    decreases s.len(),
{
    if s.len() == 0 {
        Seq::empty()
    } else {
        spec_escape_char(s[0]) + spec_escape(s.skip(1))
    }
}

/// The emitted source form of a string literal denoting exactly the given
/// text: the escaped body between two quotes.
pub open spec fn spec_string_literal(s: Seq<char>) -> Seq<char> {
    seq!['"'] + spec_escape(s) + seq!['"']
}

/// The executable form of [`hex_digit`].
fn hex_digit_char(n: u32) -> (c: char)
    requires
        n < 16,
    ensures
        c == hex_digit(n as int),
{
    if n == 0 {
        '0'
    } else if n == 1 {
        '1'
    } else if n == 2 {
        '2'
    } else if n == 3 {
        '3'
    } else if n == 4 {
        '4'
    } else if n == 5 {
        '5'
    } else if n == 6 {
        '6'
    } else if n == 7 {
        '7'
    } else if n == 8 {
        '8'
    } else if n == 9 {
        '9'
    } else if n == 10 {
        'a'
    } else if n == 11 {
        'b'
    } else if n == 12 {
        'c'
    } else if n == 13 {
        'd'
    } else if n == 14 {
        'e'
    } else {
        'f'
    }
}

/// Appends one character's escaped form.
fn escape_char_into(out: &mut Vec<char>, c: char)
    ensures
        final(out)@ == old(out)@ + spec_escape_char(c),
{
    if c == '"' {
        out.push('\\');
        out.push('"');
    } else if c == '\\' {
        out.push('\\');
        out.push('\\');
    } else if c == '\n' {
        out.push('\\');
        out.push('n');
    } else if c == '\r' {
        out.push('\\');
        out.push('r');
    } else if c == '\t' {
        out.push('\\');
        out.push('t');
    } else if (c as u32) < 0x20 || (c as u32) == 0x7f {
        let v = c as u32;
        out.push('\\');
        out.push('u');
        out.push('{');
        out.push(hex_digit_char(v / 16));
        out.push(hex_digit_char(v % 16));
        out.push('}');
    } else {
        out.push(c);
    }
    proof {
        assert(out@ =~= old(out)@ + spec_escape_char(c));
    }
}

/// Prints the string literal denoting exactly the given text.
fn string_literal(s: &str) -> (r: String)
    ensures
        r@ == spec_string_literal(s@),
{
    let cs = chars_of(s);
    let mut out: Vec<char> = Vec::new();
    out.push('"');
    let mut i: usize = 0;
    proof {
        assert(cs@.skip(0) =~= cs@);
        assert(out@ =~= seq!['"']);
    }
    while i < cs.len()
        invariant
            i <= cs.len(),
            out@ + spec_escape(cs@.skip(i as int)) == seq!['"'] + spec_escape(cs@),
        decreases cs.len() - i,
    {
        proof {
            assert(cs@.skip(i as int)[0] == cs@[i as int]);
            assert(cs@.skip(i as int).skip(1) =~= cs@.skip(i as int + 1));
        }
        let ghost before = out@;
        escape_char_into(&mut out, cs[i]);
        proof {
            assert(before + (spec_escape_char(cs@[i as int]) + spec_escape(
                cs@.skip(i as int + 1),
            )) =~= out@ + spec_escape(cs@.skip(i as int + 1)));
        }
        i = i + 1;
    }
    proof {
        assert(cs@.skip(cs@.len() as int) =~= Seq::<char>::empty());
        assert(out@ + Seq::<char>::empty() =~= out@);
    }
    out.push('"');
    proof {
        assert(out@ =~= spec_string_literal(s@));
    }
    string_from_chars(&out)
}

/// The opening of one generated `impl` block, scoped to the same generic
/// parameters — bounds, lifetimes and `where` clause included — as the
/// annotated type.
pub open spec fn spec_impl_header(schema: TypeSchemaV, trait_text: Seq<char>) -> Seq<char> {
    "#[automatically_derived]\nimpl"@ + schema.generics_impl + " "@ + trait_text + " for "@
        + schema.ident + schema.generics_type + (if schema.generics_where.len() == 0 {
        Seq::<char>::empty()
    } else {
        " "@ + schema.generics_where
    }) + " {\n"@
}

/// Prints the opening of one generated `impl` block.
fn impl_header(schema: &TypeSchema, trait_text: &String) -> (r: String)
    ensures
        r@ == spec_impl_header(schema@, trait_text@),
{
    let mut out = "#[automatically_derived]\nimpl".to_owned();
    out.append(schema.generics_impl.as_str());
    out.append(" ");
    out.append(trait_text.as_str());
    out.append(" for ");
    out.append(schema.ident.as_str());
    out.append(schema.generics_type.as_str());
    if !schema.generics_where.as_str().is_empty() {
        out.append(" ");
        out.append(schema.generics_where.as_str());
    }
    out.append(" {\n");
    proof {
        assert(out@ =~= spec_impl_header(schema@, trait_text@));
    }
    out
}

/// One generated single-value conversion: the payload is wrapped in the
/// registered variant.
pub open spec fn spec_single_impl(schema: TypeSchemaV, sf: SingleFromV) -> Seq<char> {
    spec_impl_header(schema, "::core::convert::From<"@ + spec_full_text(sf.payload) + ">"@)
        + "    fn from(primitive: "@ + spec_full_text(sf.payload)
        + ") -> Self {\n        Self::"@ + sf.variant + "(primitive)\n    }\n}\n"@
}

/// Prints one generated single-value conversion.
fn single_impl(schema: &TypeSchema, sf: &SingleFrom) -> (r: String)
    ensures
        r@ == spec_single_impl(schema@, sf@),
{
    let payload = render_full(&sf.payload);
    let mut trait_text = "::core::convert::From<".to_owned();
    trait_text.append(payload.as_str());
    trait_text.append(">");
    let mut out = impl_header(schema, &trait_text);
    out.append("    fn from(primitive: ");
    out.append(payload.as_str());
    out.append(") -> Self {\n        Self::");
    out.append(sf.variant.as_str());
    out.append("(primitive)\n    }\n}\n");
    out
}

/// The arms of one generated flattening conversion: each claimed variant of
/// the referenced type maps to the local variant of the same name.
pub open spec fn spec_flatten_arms(erased: Seq<char>, names: Seq<Seq<char>>) -> Seq<char>
    decreases names.len(),
{
    if names.len() == 0 {
        Seq::empty()
    } else {
        "            "@ + erased + "::"@ + names[0] + "(p) => Self::"@ + names[0] + "(p),\n"@
            + spec_flatten_arms(erased, names.skip(1))
    }
}

/// One generated flattening conversion: an exhaustive case analysis over the
/// claimed variants of the referenced type.
pub open spec fn spec_flatten_impl(schema: TypeSchemaV, g: FlattenGroupV) -> Seq<char> {
    spec_impl_header(schema, "::core::convert::From<"@ + spec_target_text(g.source) + ">"@)
        + "    fn from(composite: "@ + spec_target_text(g.source)
        + ") -> Self {\n        match composite {\n"@
        + spec_flatten_arms(spec_path_text(spec_erased_path(g.source)), g.variants)
        + "        }\n    }\n}\n"@
}

/// Prints one generated flattening conversion.
fn flatten_impl(schema: &TypeSchema, g: &FlattenGroup) -> (r: String)
    ensures
        r@ == spec_flatten_impl(schema@, g@),
{
    let source = render_target(&g.source);
    let erased = render_full(&g.source.path());
    proof {
        assert(erased@ == spec_full_text(spec_erased_path(g@.source)));
        assert(spec_full_text(spec_erased_path(g@.source)) =~= spec_path_text(
            spec_erased_path(g@.source),
        ));
    }
    let mut trait_text = "::core::convert::From<".to_owned();
    trait_text.append(source.as_str());
    trait_text.append(">");
    let mut out = impl_header(schema, &trait_text);
    out.append("    fn from(composite: ");
    out.append(source.as_str());
    out.append(") -> Self {\n        match composite {\n");
    let ghost names = g@.variants;
    let ghost arms_goal = spec_flatten_arms(erased@, names);
    let ghost head = out@;
    let mut i: usize = 0;
    proof {
        assert(names.skip(0) =~= names);
    }
    while i < g.variants.len()
        invariant
            i <= g.variants.len(),
            out@ + spec_flatten_arms(erased@, names.skip(i as int)) == head + arms_goal,
        decreases g.variants.len() - i,
    {
        proof {
            assert(names.skip(i as int)[0] == names[i as int]);
            assert(names.skip(i as int).skip(1) =~= names.skip(i as int + 1));
            assert(names[i as int] == g.variants@[i as int]@);
        }
        let ghost before = out@;
        out.append("            ");
        out.append(erased.as_str());
        out.append("::");
        out.append(g.variants[i].as_str());
        out.append("(p) => Self::");
        out.append(g.variants[i].as_str());
        out.append("(p),\n");
        proof {
            assert(before + ("            "@ + erased@ + "::"@ + names[i as int]
                + "(p) => Self::"@ + names[i as int] + "(p),\n"@ + spec_flatten_arms(
                erased@,
                names.skip(i as int + 1),
            )) =~= out@ + spec_flatten_arms(erased@, names.skip(i as int + 1)));
        }
        i = i + 1;
    }
    proof {
        assert(names.skip(names.len() as int) =~= Seq::<Seq<char>>::empty());
        assert(out@ + Seq::<char>::empty() =~= out@);
    }
    out.append("        }\n    }\n}\n");
    out
}

/// One arm of the generated rendering: a transparent variant forwards to the
/// payload; any other variant prints the header line and one branch line,
/// showing the bare variant name under `no_source` and the payload
/// otherwise.
pub open spec fn spec_display_arm(schema: TypeSchemaV, v: VariantSchemaV) -> Seq<char> {
    if v.transparent {
        "            Self::"@ + v.name
            + "(x) => {\n                std::fmt::Display::fmt(x, f)?;\n            },\n"@
    } else {
        "            Self::"@ + v.name + "(x) => {\n                writeln!(f, \"{}{}:\", "@
            + spec_string_literal(schema.title) + ", "@ + spec_string_literal(schema.description)
            + ")?;\n                write!(f, \"  └ {}\", "@ + (if v.no_source {
            spec_string_literal(v.name)
        } else {
            "x"@
        }) + ")?;\n            },\n"@
    }
}

/// The arms of the generated rendering, in declaration order.
pub open spec fn spec_display_arms(schema: TypeSchemaV, variants: Seq<VariantSchemaV>) -> Seq<
    char,
>
    decreases variants.len(),
{
    if variants.len() == 0 {
        Seq::empty()
    } else {
        spec_display_arm(schema, variants[0]) + spec_display_arms(schema, variants.skip(1))
    }
}

/// The generated rendering function: the record form prints the header
/// alone; the tagged-union form dispatches on the variant.
pub open spec fn spec_display_impl(schema: TypeSchemaV) -> Seq<char> {
    spec_impl_header(schema, "::core::fmt::Display"@)
        + "    fn fmt(&self, f: &mut ::core::fmt::Formatter<'_>) -> ::core::fmt::Result {\n"@ + (
    if schema.kind == SchemaKind::Record {
        "        write!(f, \"{}{}\", "@ + spec_string_literal(schema.title) + ", "@
            + spec_string_literal(schema.description) + ")\n"@
    } else {
        "        match self {\n"@ + spec_display_arms(schema, schema.variants)
            + "            _ => {},\n        }\n        Ok(())\n"@
    }) + "    }\n}\n"@
}

/// Prints one arm of the generated rendering.
fn display_arm(schema: &TypeSchema, v: &VariantSchema, title_lit: &String, desc_lit: &String) -> (
    r: String)
    requires
        title_lit@ == spec_string_literal(schema@.title),
        desc_lit@ == spec_string_literal(schema@.description),
    ensures
        r@ == spec_display_arm(schema@, v@),
{
    let mut out = "            Self::".to_owned();
    out.append(v.name.as_str());
    if v.transparent {
        out.append("(x) => {\n                std::fmt::Display::fmt(x, f)?;\n            },\n");
    } else {
        out.append("(x) => {\n                writeln!(f, \"{}{}:\", ");
        out.append(title_lit.as_str());
        out.append(", ");
        out.append(desc_lit.as_str());
        out.append(")?;\n                write!(f, \"  └ {}\", ");
        if v.no_source {
            let name_lit = string_literal(v.name.as_str());
            out.append(name_lit.as_str());
        } else {
            out.append("x");
        }
        out.append(")?;\n            },\n");
    }
    proof {
        assert(out@ =~= spec_display_arm(schema@, v@));
    }
    out
}

/// Prints the generated rendering function.
fn display_impl(schema: &TypeSchema) -> (r: String)
    ensures
        r@ == spec_display_impl(schema@),
{
    let title_lit = string_literal(schema.title.as_str());
    let desc_lit = string_literal(schema.description.as_str());
    let mut out = impl_header(schema, &"::core::fmt::Display".to_owned());
    out.append("    fn fmt(&self, f: &mut ::core::fmt::Formatter<'_>) -> ::core::fmt::Result {\n");
    match schema.kind {
        SchemaKind::Record => {
            out.append("        write!(f, \"{}{}\", ");
            out.append(title_lit.as_str());
            out.append(", ");
            out.append(desc_lit.as_str());
            out.append(")\n");
        },
        SchemaKind::TaggedUnion => {
            out.append("        match self {\n");
            let ghost vs = schema@.variants;
            let ghost arms_goal = spec_display_arms(schema@, vs);
            let ghost head = out@;
            let mut i: usize = 0;
            proof {
                assert(vs.skip(0) =~= vs);
            }
            while i < schema.variants.len()
                invariant
                    i <= schema.variants.len(),
                    title_lit@ == spec_string_literal(schema@.title),
                    desc_lit@ == spec_string_literal(schema@.description),
                    out@ + spec_display_arms(schema@, vs.skip(i as int)) == head + arms_goal,
                decreases schema.variants.len() - i,
            {
                proof {
                    assert(vs.skip(i as int)[0] == vs[i as int]);
                    assert(vs.skip(i as int).skip(1) =~= vs.skip(i as int + 1));
                    assert(vs[i as int] == schema.variants@[i as int]@);
                }
                let ghost before = out@;
                let arm = display_arm(schema, &schema.variants[i], &title_lit, &desc_lit);
                out.append(arm.as_str());
                proof {
                    assert(before + (spec_display_arm(schema@, vs[i as int])
                        + spec_display_arms(schema@, vs.skip(i as int + 1))) =~= out@
                        + spec_display_arms(schema@, vs.skip(i as int + 1)));
                }
                i = i + 1;
            }
            proof {
                assert(vs.skip(vs.len() as int) =~= Seq::<VariantSchemaV>::empty());
                assert(out@ + Seq::<char>::empty() =~= out@);
            }
            out.append("            _ => {},\n        }\n        Ok(())\n");
        },
    }
    out.append("    }\n}\n");
    proof {
        assert(out@ =~= spec_display_impl(schema@));
    }
    out
}

/// One arm of the generated causal-chain accessor: nothing is emitted under
/// `no_source` (such a variant falls to the default arm); a transparent
/// variant delegates to the payload's own cause; any other variant returns
/// the payload, through the `convert_source` transformation when one is
/// declared.
pub open spec fn spec_source_arm(v: VariantSchemaV) -> Seq<char> {
    if v.no_source {
        Seq::empty()
    } else if v.transparent {
        "            Self::"@ + v.name + "(x) => std::error::Error::source(x),\n"@
    } else {
        "            Self::"@ + v.name + "(x) => Some("@ + (match v.convert_source {
            Some(f) => spec_full_text(f) + "(x)"@,
            None => "x"@,
        }) + "),\n"@
    }
}

/// The arms of the generated causal-chain accessor, in declaration order.
pub open spec fn spec_source_arms(variants: Seq<VariantSchemaV>) -> Seq<char>
    decreases variants.len(),
{
    if variants.len() == 0 {
        Seq::empty()
    } else {
        spec_source_arm(variants[0]) + spec_source_arms(variants.skip(1))
    }
}

/// A transparent variant's generated arms forward without framing: its
/// rendering arm writes exactly what the payload's own rendering writes —
/// no header, title, description or branch marker — and, unless `no_source`
/// is set (which wins), its causal-chain arm returns the payload's own
/// cause.
pub proof fn lemma_transparent_arms(schema: TypeSchemaV, v: VariantSchemaV)
    requires
        v.transparent,
    ensures
        spec_display_arm(schema, v) == "            Self::"@ + v.name
            + "(x) => {\n                std::fmt::Display::fmt(x, f)?;\n            },\n"@,
        !v.no_source ==> spec_source_arm(v) == "            Self::"@ + v.name
            + "(x) => std::error::Error::source(x),\n"@,
{
}

/// The generated causal-chain accessor: the record form has no cause; the
/// tagged-union form dispatches on the variant.
pub open spec fn spec_error_impl(schema: TypeSchemaV) -> Seq<char> {
    spec_impl_header(schema, "::std::error::Error"@)
        + "    fn source(&self) -> ::std::option::Option<&(dyn ::std::error::Error + 'static)> {\n"@
        + (if schema.kind == SchemaKind::Record {
        "        None\n"@
    } else {
        "        match self {\n"@ + spec_source_arms(schema.variants)
            + "            _ => ::core::option::Option::None,\n        }\n"@
    }) + "    }\n}\n"@
}

/// Prints one arm of the generated causal-chain accessor.
fn source_arm(v: &VariantSchema) -> (r: String)
    ensures
        r@ == spec_source_arm(v@),
{
    if v.no_source {
        let r = String::new();
        proof {
            assert(r@ =~= spec_source_arm(v@));
        }
        r
    } else if v.transparent {
        let mut out = "            Self::".to_owned();
        out.append(v.name.as_str());
        out.append("(x) => std::error::Error::source(x),\n");
        proof {
            assert(out@ =~= spec_source_arm(v@));
        }
        out
    } else {
        let mut out = "            Self::".to_owned();
        out.append(v.name.as_str());
        out.append("(x) => Some(");
        match &v.convert_source {
            Some(f) => {
                out.append(render_full(f).as_str());
                out.append("(x)");
            },
            None => {
                out.append("x");
            },
        }
        out.append("),\n");
        proof {
            assert(out@ =~= spec_source_arm(v@));
        }
        out
    }
}

/// Prints the generated causal-chain accessor.
fn error_impl(schema: &TypeSchema) -> (r: String)
    ensures
        r@ == spec_error_impl(schema@),
{
    let mut out = impl_header(schema, &"::std::error::Error".to_owned());
    out.append(
        "    fn source(&self) -> ::std::option::Option<&(dyn ::std::error::Error + 'static)> {\n",
    );
    match schema.kind {
        SchemaKind::Record => {
            out.append("        None\n");
        },
        SchemaKind::TaggedUnion => {
            out.append("        match self {\n");
            let ghost vs = schema@.variants;
            let ghost arms_goal = spec_source_arms(vs);
            let ghost head = out@;
            let mut i: usize = 0;
            proof {
                assert(vs.skip(0) =~= vs);
            }
            while i < schema.variants.len()
                invariant
                    i <= schema.variants.len(),
                    out@ + spec_source_arms(vs.skip(i as int)) == head + arms_goal,
                decreases schema.variants.len() - i,
            {
                proof {
                    assert(vs.skip(i as int)[0] == vs[i as int]);
                    assert(vs.skip(i as int).skip(1) =~= vs.skip(i as int + 1));
                    assert(vs[i as int] == schema.variants@[i as int]@);
                }
                let ghost before = out@;
                let arm = source_arm(&schema.variants[i]);
                out.append(arm.as_str());
                proof {
                    assert(before + (spec_source_arm(vs[i as int]) + spec_source_arms(
                        vs.skip(i as int + 1),
                    )) =~= out@ + spec_source_arms(vs.skip(i as int + 1)));
                }
                i = i + 1;
            }
            proof {
                assert(vs.skip(vs.len() as int) =~= Seq::<VariantSchemaV>::empty());
                assert(out@ + Seq::<char>::empty() =~= out@);
            }
            out.append("            _ => ::core::option::Option::None,\n        }\n");
        },
    }
    out.append("    }\n}\n");
    proof {
        assert(out@ =~= spec_error_impl(schema@));
    }
    out
}

/// All single-value conversions, in registration order.
pub open spec fn spec_single_impls(schema: TypeSchemaV, entries: Seq<SingleFromV>) -> Seq<char>
    decreases entries.len(),
{
    if entries.len() == 0 {
        Seq::empty()
    } else {
        spec_single_impl(schema, entries[0]) + spec_single_impls(schema, entries.skip(1))
    }
}

/// All flattening conversions, in order of first claim.
pub open spec fn spec_flatten_impls(schema: TypeSchemaV, groups: Seq<FlattenGroupV>) -> Seq<char>
    decreases groups.len(),
{
    if groups.len() == 0 {
        Seq::empty()
    } else {
        spec_flatten_impl(schema, groups[0]) + spec_flatten_impls(schema, groups.skip(1))
    }
}

/// The whole generated artifact: the conversions, then the rendering
/// function unless `skip_display`, then the causal-chain accessor unless
/// `skip_error`.
pub open spec fn generate_spec(schema: TypeSchemaV, res: ResolutionV) -> Seq<char> {
    spec_single_impls(schema, res.single_from) + spec_flatten_impls(schema, res.groups) + (
    if schema.skip_display {
        Seq::<char>::empty()
    } else {
        spec_display_impl(schema)
    }) + (if schema.skip_error {
        Seq::<char>::empty()
    } else {
        spec_error_impl(schema)
    })
}

/// Emits the implementation source text for a resolved schema: one
/// conversion per registered entry, the rendering function, and the
/// causal-chain accessor, honoring the suppression flags.
pub fn generate(schema: &TypeSchema, res: &Resolution) -> (r: String)
    ensures
        r@ == generate_spec(schema@, res@),
{
    let mut out = String::new();
    let ghost sf = res@.single_from;
    let mut i: usize = 0;
    proof {
        assert(sf.skip(0) =~= sf);
        assert(out@ + spec_single_impls(schema@, sf) =~= spec_single_impls(schema@, sf));
    }
    while i < res.single_from.len()
        invariant
            i <= res.single_from.len(),
            out@ + spec_single_impls(schema@, sf.skip(i as int)) == spec_single_impls(
                schema@,
                sf,
            ),
        decreases res.single_from.len() - i,
    {
        proof {
            assert(sf.skip(i as int)[0] == sf[i as int]);
            assert(sf.skip(i as int).skip(1) =~= sf.skip(i as int + 1));
            assert(sf[i as int] == res.single_from@[i as int]@);
        }
        let ghost before = out@;
        let piece = single_impl(schema, &res.single_from[i]);
        out.append(piece.as_str());
        proof {
            assert(before + (spec_single_impl(schema@, sf[i as int]) + spec_single_impls(
                schema@,
                sf.skip(i as int + 1),
            )) =~= out@ + spec_single_impls(schema@, sf.skip(i as int + 1)));
        }
        i = i + 1;
    }
    proof {
        assert(sf.skip(sf.len() as int) =~= Seq::<SingleFromV>::empty());
        assert(out@ + Seq::<char>::empty() =~= out@);
        assert(out@ == spec_single_impls(schema@, sf));
    }
    let ghost gs = res@.groups;
    let ghost flat_goal = spec_flatten_impls(schema@, gs);
    let ghost head = out@;
    let mut j: usize = 0;
    proof {
        assert(gs.skip(0) =~= gs);
    }
    while j < res.groups.len()
        invariant
            j <= res.groups.len(),
            out@ + spec_flatten_impls(schema@, gs.skip(j as int)) == head + flat_goal,
        decreases res.groups.len() - j,
    {
        proof {
            assert(gs.skip(j as int)[0] == gs[j as int]);
            assert(gs.skip(j as int).skip(1) =~= gs.skip(j as int + 1));
            assert(gs[j as int] == res.groups@[j as int]@);
        }
        let ghost before = out@;
        let piece = flatten_impl(schema, &res.groups[j]);
        out.append(piece.as_str());
        proof {
            assert(before + (spec_flatten_impl(schema@, gs[j as int]) + spec_flatten_impls(
                schema@,
                gs.skip(j as int + 1),
            )) =~= out@ + spec_flatten_impls(schema@, gs.skip(j as int + 1)));
        }
        j = j + 1;
    }
    proof {
        assert(gs.skip(gs.len() as int) =~= Seq::<FlattenGroupV>::empty());
        assert(out@ + Seq::<char>::empty() =~= out@);
    }
    if !schema.skip_display {
        let piece = display_impl(schema);
        out.append(piece.as_str());
    }
    if !schema.skip_error {
        let piece = error_impl(schema);
        out.append(piece.as_str());
    }
    proof {
        assert(out@ =~= generate_spec(schema@, res@));
    }
    out
}

} // verus!
