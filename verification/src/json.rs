//! Trusted declarations for the JSON values that the compiler report carries.

use vstd::prelude::*;

verus! {

/// `serde_json::Value`, declared so that the opaque metadata payloads,
/// interface descriptions and diagnostic records of a compiler report can be
/// carried through the library. The library never looks inside such a value.
#[verifier::external_type_specification]
#[verifier::external_body]
pub struct ExValue(serde_json::Value);

/// The text that `serde_json::to_string_pretty` produces for a list of JSON
/// values. Pretty-printing is a pure function of the serialized values, so
/// the result is named rather than spelled out.
pub uninterp spec fn pretty_of(diagnostics: Seq<serde_json::Value>) -> Seq<char>;

/// Relies on `serde_json::to_string_pretty`: its output depends on the
/// serialized value alone, and serializing a vector of `serde_json::Value`
/// never fails.
#[verifier::external_body]
pub(crate) fn diagnostics_to_pretty(diagnostics: &Vec<serde_json::Value>) -> (text: String)
    ensures
        text@ == pretty_of(diagnostics@),
{
    serde_json::to_string_pretty(diagnostics).expect("serializing JSON values never fails")
}

} // verus!
