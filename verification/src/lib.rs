//! A schema-driven generator for composite error types.
//!
//! The library takes the parsed definition of a record or tagged-union type
//! together with its `compound_error` annotations, validates the annotations,
//! resolves which conversions the type takes part in, and emits the
//! implementation source text for those conversions, the causal-chain
//! accessor, and the rendering function.

#![verifier::loop_isolation(false)]

pub mod ast;
pub mod codegen;
pub mod resolve;
pub mod schema;
pub mod semantics;
pub mod typeparse;
pub mod util;

use vstd::prelude::*;

use crate::ast::TypeDef;
use crate::ast::TypeRefV;
use crate::codegen::generate;
use crate::codegen::generate_spec;
use crate::resolve::resolve;
use crate::resolve::resolve_spec;
use crate::schema::build_schema;
use crate::schema::build_schema_rel;
use crate::schema::build_schema_spec;
use crate::schema::outss_wf;
use crate::util::Diagnostic;
use crate::util::DiagnosticV;

verus! {

/// What deriving the implementation for one parsed type definition yields,
/// for a given assignment of the `inline_from` string targets' parse
/// outcomes: the generated source text, or the first failure found.
pub open spec fn derive_spec(input: TypeDef, outss: Seq<Seq<Option<TypeRefV>>>) -> Result<
    Seq<char>,
    DiagnosticV,
> {
    match build_schema_spec(input, outss) {
        Err(d) => Err(d),
        Ok(schema) => match resolve_spec(schema, input.span) {
            Err(d) => Err(d),
            Ok(res) => Ok(generate_spec(schema, res)),
        },
    }
}

/// How a derivation outcome relates to the specification: for some
/// well-formed assignment of parse outcomes, the outcome is exactly what
/// the specification yields.
pub open spec fn derive_rel(
    input: TypeDef,
    outss: Seq<Seq<Option<TypeRefV>>>,
    r: Result<String, Diagnostic>,
) -> bool {
    &&& outss_wf(outss)
    &&& match r {
        Ok(s) => derive_spec(input, outss) == Ok::<Seq<char>, DiagnosticV>(s@),
        Err(d) => derive_spec(input, outss) == Err::<Seq<char>, DiagnosticV>(d@),
    }
}

/// Derives the implementation source text for one annotated type definition:
/// validates its directives, builds the schema, resolves the conversion
/// sets, and emits the conversions, the rendering function and the
/// causal-chain accessor; or reports the first failure, bound to its source
/// position.  The outside parse of string `inline_from` targets is the one
/// step the contract cannot pin: it holds for some well-formed assignment of
/// those parse outcomes, and pins everything else exactly.
pub fn derive_compound_error(input: &TypeDef) -> (r: Result<String, Diagnostic>)
    ensures
        exists|outss: Seq<Seq<Option<TypeRefV>>>| #[trigger] derive_rel(*input, outss, r),
{
    let schema = match build_schema(input) {
        Err(d) => {
            proof {
                let w = choose|o: Seq<Seq<Option<TypeRefV>>>|
                    build_schema_rel(*input, o, Err(d));
                assert(derive_rel(*input, w, Err(d)));
            }
            return Err(d);
        },
        Ok(s) => s,
    };
    let res = match resolve(&schema, input.span) {
        Err(d) => {
            proof {
                let w = choose|o: Seq<Seq<Option<TypeRefV>>>|
                    build_schema_rel(*input, o, Ok(schema));
                assert(derive_rel(*input, w, Err(d)));
            }
            return Err(d);
        },
        Ok(sets) => sets,
    };
    let out = generate(&schema, &res);
    proof {
        let w = choose|o: Seq<Seq<Option<TypeRefV>>>| build_schema_rel(*input, o, Ok(schema));
        assert(derive_rel(*input, w, Ok(out)));
    }
    Ok(out)
}

} // verus!
