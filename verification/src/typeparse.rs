use vstd::prelude::*;

use crate::ast::TypeRef;

verus! {

/// Relies on `syn::parse_str::<syn::TypePath>`: parses the text of a type
/// reference into its path segments and the printed form of the last
/// segment's generic arguments.  Nothing ties the outcome to the text: the
/// host dispatches between two lexers by ambient state, so the same text may
/// parse, or print its arguments, differently in different contexts.  Only
/// the shape of the outcome is stated: a parsed reference carries at least
/// one path segment, which syn's path grammar always produces.
#[verifier::external_body]
pub(crate) fn parse_type_ref(s: &str) -> (r: Option<TypeRef>)
    ensures
        match r {
            Some(t) => t@.segments.len() >= 1,
            None => true,
        },
{
    match syn::parse_str::<syn::TypePath>(s) {
        Err(_) => None,
        Ok(tp) => {
            let mut segments: Vec<String> = Vec::new();
            let mut args = String::new();
            for seg in &tp.path.segments {
                segments.push(seg.ident.to_string());
                args = quote::ToTokens::to_token_stream(&seg.arguments).to_string();
            }
            Some(TypeRef { segments, args })
        },
    }
}

} // verus!
