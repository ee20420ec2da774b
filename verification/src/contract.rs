//! Per-contract reports and the normalized contract values built from them.

use vstd::prelude::*;

verus! {

/// The mathematical content of one contract: the three payloads reported by
/// the compiler. Metadata and interface description are opaque JSON values;
/// the intermediate representation is text, seen here as its character
/// sequence.
pub ghost struct ContractData {
    pub metadata: Option<serde_json::Value>,
    pub ir: Option<Seq<char>>,
    pub abi: Option<serde_json::Value>,
}

/// One compiled unit's raw outputs, as reported by the upstream compiler:
/// a metadata blob, the intermediate-representation text, and the
/// application-binary-interface description. The three payloads are
/// independent and each may be absent, depending on what was requested from
/// the compiler; no cross-field invariant is enforced.
#[derive(Debug)]
pub struct ContractReport {
    /// The opaque metadata blob.
    pub metadata: Option<serde_json::Value>,
    /// The intermediate-representation text.
    pub ir: Option<String>,
    /// The opaque application-binary-interface description.
    pub abi: Option<serde_json::Value>,
}

impl View for ContractReport {
    type V = ContractData;

    open spec fn view(&self) -> ContractData {
        ContractData {
            metadata: self.metadata,
            ir: match self.ir {
                Some(text) => Some(text@),
                None => None,
            },
            abi: self.abi,
        }
    }
}

/// One normalized contract of an assembled project. Normalization carries the
/// three payloads of a [`ContractReport`] over unchanged, in stable field
/// order: metadata, intermediate representation, application binary
/// interface.
#[derive(Debug)]
pub struct Contract {
    /// The opaque metadata blob.
    pub metadata: Option<serde_json::Value>,
    /// The intermediate-representation text.
    pub ir: Option<String>,
    /// The opaque application-binary-interface description.
    pub abi: Option<serde_json::Value>,
}

impl View for Contract {
    type V = ContractData;

    open spec fn view(&self) -> ContractData {
        ContractData {
            metadata: self.metadata,
            ir: match self.ir {
                Some(text) => Some(text@),
                None => None,
            },
            abi: self.abi,
        }
    }
}

impl Contract {
    /// Builds the normalized contract value from the three payloads of a
    /// per-contract report; each payload is carried over unchanged.
    pub fn new(
        metadata: Option<serde_json::Value>,
        ir: Option<String>,
        abi: Option<serde_json::Value>,
    ) -> (contract: Contract)
        ensures
            contract@ == (ContractData {
                metadata,
                ir: match ir {
                    Some(text) => Some(text@),
                    None => None,
                },
                abi,
            }),
    {
        Contract { metadata, ir, abi }
    }
}

} // verus!
