//! The structured report of the upstream compiler, and its assembly into a
//! project.

use vstd::prelude::*;

use crate::contract::Contract;
use crate::contract::ContractData;
use crate::contract::ContractReport;
use crate::identifier::full_id;
use crate::identifier::full_identifier;
use crate::json::diagnostics_to_pretty;
use crate::json::pretty_of;
use crate::project::insert_entry;
use crate::project::map_of;
use crate::project::unique_ids;
use crate::project::Project;

verus! {

/// The mathematical content of a structured output: the optional two-level
/// file/contract listing, the optional diagnostics, and the optional long
/// version string of the compiler that produced the report.
pub ghost struct OutputData {
    pub files: Option<Seq<(Seq<char>, Seq<(Seq<char>, ContractData)>)>>,
    pub diagnostics: Option<Seq<serde_json::Value>>,
    pub long_version: Option<Seq<char>>,
}

/// The content of one source file's listing: each contract name with the
/// content of its report.
pub open spec fn file_data(file: Seq<(String, ContractReport)>) -> Seq<(Seq<char>, ContractData)> {
    file.map_values(|entry: (String, ContractReport)| (entry.0@, entry.1@))
}

/// The content of a whole file listing: each source-file path with the
/// content of its contract listing.
pub open spec fn files_data(
    files: Seq<(String, Vec<(String, ContractReport)>)>,
) -> Seq<(Seq<char>, Seq<(Seq<char>, ContractData)>)> {
    files.map_values(
        |entry: (String, Vec<(String, ContractReport)>)| (entry.0@, file_data(entry.1@)),
    )
}

/// The top-level report of the compiler. `files` absent is a distinguishable
/// state from `files` present but empty: only true absence makes assembly
/// fail. Each level of the listing binds a key at most once; the listing
/// keeps the order of the report it was read from.
#[derive(Debug)]
pub struct Output {
    /// The per-source-file contract listing: for every source-file path, the
    /// reports of the contracts it declares, keyed by contract name.
    pub files: Option<Vec<(String, Vec<(String, ContractReport)>)>>,
    /// The compilation errors and warnings, each an opaque diagnostic
    /// record, in the order the compiler reported them.
    pub errors: Option<Vec<serde_json::Value>>,
    /// The long version string of the compiler build that produced the
    /// report.
    pub long_version: Option<String>,
}

impl View for Output {
    type V = OutputData;

    open spec fn view(&self) -> OutputData {
        OutputData {
            files: match self.files {
                Some(files) => Some(files_data(files@)),
                None => None,
            },
            diagnostics: match self.errors {
                Some(errors) => Some(errors@),
                None => None,
            },
            long_version: match self.long_version {
                Some(text) => Some(text@),
                None => None,
            },
        }
    }
}

/// Flattens one source file's listing on top of `acc`: binds the full
/// identifier of each contract to its content, in listing order, a later
/// binding overriding an earlier one.
pub open spec fn flatten_file(
    path: Seq<char>,
    file: Seq<(Seq<char>, ContractData)>,
    acc: Map<Seq<char>, ContractData>,
) -> Map<Seq<char>, ContractData>
    decreases file.len(),
{
    if file.len() == 0 {
        acc
    } else {
        flatten_file(
            path,
            file.drop_first(),
            acc.insert(full_id(path, file.first().0), file.first().1),
        )
    }
}

/// Flattens a whole file listing on top of `acc`, file by file in listing
/// order.
pub open spec fn flatten_files(
    files: Seq<(Seq<char>, Seq<(Seq<char>, ContractData)>)>,
    acc: Map<Seq<char>, ContractData>,
) -> Map<Seq<char>, ContractData>
    decreases files.len(),
{
    if files.len() == 0 {
        acc
    } else {
        flatten_files(files.drop_first(), flatten_file(files.first().0, files.first().1, acc))
    }
}

/// The contract mapping that a present file listing denotes: every
/// source-file/contract-name pair of the listing, keyed by its colon-joined
/// full identifier. Should two pairs yield the same identifier — possible
/// only through a path with a literal colon in it — the later pair wins,
/// as in the report's original mapping semantics.
pub open spec fn assembled(
    files: Seq<(Seq<char>, Seq<(Seq<char>, ContractData)>)>,
) -> Map<Seq<char>, ContractData> {
    flatten_files(files, Map::empty())
}

/// The message reported when the compiler supplied neither a contract
/// listing nor diagnostics.
pub open spec fn fallback_message() -> Seq<char> {
    "Unknown project assembling error"@
}

/// The failure of an assembly: the report held no contract listing at all.
/// Carries the pretty-printed diagnostics when the report had any, the
/// generic fallback message otherwise.
#[derive(Debug)]
pub struct AssemblyError {
    /// The diagnostic text, to be surfaced to the user verbatim.
    pub message: String,
}

impl Output {
    /// Validates this report and flattens it into a [`Project`].
    ///
    /// Assembly fails exactly when `files` is absent — a fail-fast policy:
    /// partial results are never surfaced when no contract was produced.
    /// The failure then carries the pretty-printed diagnostics list when one
    /// is present, the generic fallback message otherwise. When `files` is
    /// present — even empty — every source-file/contract-name pair of it
    /// appears in the project under its colon-joined full identifier, with
    /// its three payloads carried over unchanged. Diagnostics alongside a
    /// present `files` are deliberately discarded: warnings are assumed to
    /// have been surfaced by the caller before assembly was attempted. The
    /// caller-supplied `version` is authoritative and becomes the project's
    /// tag; the report's own version string is ignored.
    pub fn try_into_project(self, version: &semver::Version) -> (result: Result<
        Project,
        AssemblyError,
    >)
        ensures
            result is Ok <==> self.files is Some,
            (match result {
                Ok(project) => {
                    &&& project.wf()
                    &&& project.version_spec() == *version
                    &&& project.contracts_map() == assembled(self@.files->Some_0)
                },
                Err(error) => (match self.errors {
                    Some(diagnostics) => error.message@ == pretty_of(diagnostics@),
                    None => error.message@ == fallback_message(),
                }),
            }),
    {
        let Output { files, errors, long_version: _ } = self;
        let mut files = match files {
            Some(files) => files,
            None => {
                let message = match errors {
                    Some(diagnostics) => diagnostics_to_pretty(&diagnostics),
                    None => "Unknown project assembling error".to_owned(),
                };
                return Err(AssemblyError { message });
            },
        };
        let ghost all_files = files_data(files@);
        let mut entries: Vec<(String, Contract)> = Vec::new();
        while files.len() > 0
            invariant
                unique_ids(entries@),
                flatten_files(all_files, Map::empty()) == flatten_files(
                    files_data(files@),
                    map_of(entries@),
                ),
            decreases files@.len(),
        {
            let ghost files_before = files@;
            let (path, mut file) = files.remove(0);
            proof {
                assert(files_data(files@) =~= files_data(files_before).drop_first());
                assert(files_data(files_before).first() == (path@, file_data(file@)));
            }
            while file.len() > 0
                invariant
                    unique_ids(entries@),
                    flatten_files(all_files, Map::empty()) == flatten_files(
                        files_data(files@),
                        flatten_file(path@, file_data(file@), map_of(entries@)),
                    ),
                decreases file@.len(),
            {
                let ghost file_before = file@;
                let (name, report) = file.remove(0);
                proof {
                    assert(file_data(file@) =~= file_data(file_before).drop_first());
                    assert(file_data(file_before).first() == (name@, report@));
                }
                let id = full_identifier(&path, &name);
                let contract = Contract::new(report.metadata, report.ir, report.abi);
                insert_entry(&mut entries, id, contract);
            }
            proof {
                assert(file_data(file@) =~= Seq::<(Seq<char>, ContractData)>::empty());
            }
        }
        proof {
            assert(files_data(files@) =~= Seq::<(Seq<char>, Seq<(Seq<char>, ContractData)>)>::empty());
        }
        Ok(Project::new(version.clone(), entries))
    }
}

} // verus!
