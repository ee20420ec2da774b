//! Properties of the assembly, stated and proved once for all inputs.

use vstd::prelude::*;

use crate::contract::ContractData;
use crate::identifier::full_id;
use crate::identifier::lemma_full_id_injective;
use crate::output::assembled;
use crate::output::flatten_file;
use crate::output::flatten_files;
use crate::output::OutputData;

verus! {

/// Whether all source-file/contract-name pairs of a file listing yield
/// pairwise distinct full identifiers.
pub open spec fn ids_distinct(files: Seq<(Seq<char>, Seq<(Seq<char>, ContractData)>)>) -> bool {
    forall|i1: int, j1: int, i2: int, j2: int|
        0 <= i1 < files.len() && 0 <= j1 < files[i1].1.len() && 0 <= i2 < files.len() && 0 <= j2
            < files[i2].1.len() && (i1 != i2 || j1 != j2) ==> #[trigger] full_id(
            files[i1].0,
            files[i1].1[j1].0,
        ) != #[trigger] full_id(files[i2].0, files[i2].1[j2].0)
}

/// How many source-file/contract-name pairs a file listing holds in all.
pub open spec fn total_contracts(
    files: Seq<(Seq<char>, Seq<(Seq<char>, ContractData)>)>,
) -> nat
    decreases files.len(),
{
    if files.len() == 0 {
        0
    } else {
        files.first().1.len() + total_contracts(files.drop_first())
    }
}

/// An empty file listing — `files` present but empty — assembles into a
/// project with no contracts at all.
pub proof fn lemma_assembled_empty()
    ensures
        assembled(Seq::empty()) == Map::<Seq<char>, ContractData>::empty(),
{
}

/// Assembly is deterministic, hence idempotent: two equal structured
/// outputs whose listings are present assemble into identical contract
/// mappings — the same key set and the same normalized contents.
pub proof fn lemma_assembly_deterministic(first: OutputData, second: OutputData)
    requires
        first == second,
        first.files is Some,
    ensures
        assembled(first.files->Some_0) == assembled(second.files->Some_0),
        assembled(first.files->Some_0).dom() == assembled(second.files->Some_0).dom(),
{
}

/// Flattening one file's listing adds exactly its pairs, provided their
/// identifiers are distinct and fresh.
proof fn lemma_flatten_file_props(
    path: Seq<char>,
    file: Seq<(Seq<char>, ContractData)>,
    acc: Map<Seq<char>, ContractData>,
)
    requires
        acc.dom().finite(),
        forall|j1: int, j2: int|
            0 <= j1 < j2 < file.len() ==> #[trigger] full_id(path, file[j1].0)
                != #[trigger] full_id(path, file[j2].0),
        forall|j: int| 0 <= j < file.len() ==> !acc.dom().contains(
            #[trigger] full_id(path, file[j].0),
        ),
    ensures
        flatten_file(path, file, acc).dom().finite(),
        flatten_file(path, file, acc).len() == acc.len() + file.len(),
        forall|j: int|
            0 <= j < file.len() ==> flatten_file(path, file, acc).contains_pair(
                #[trigger] full_id(path, file[j].0),
                file[j].1,
            ),
        forall|k: Seq<char>|
            #[trigger] flatten_file(path, file, acc).dom().contains(k) <==> acc.dom().contains(k)
                || exists|j: int| 0 <= j < file.len() && k == #[trigger] full_id(path, file[j].0),
        forall|k: Seq<char>|
            acc.dom().contains(k) && !(exists|j: int|
                0 <= j < file.len() && k == #[trigger] full_id(path, file[j].0))
                ==> #[trigger] flatten_file(path, file, acc)[k] == acc[k],
    decreases file.len(),
{
    if file.len() == 0 {
    } else {
        let id0 = full_id(path, file.first().0);
        let acc1 = acc.insert(id0, file.first().1);
        let rest = file.drop_first();
        assert(!acc.dom().contains(id0));
        vstd::set::axiom_set_insert_len(acc.dom(), id0);
        assert forall|j1: int, j2: int| 0 <= j1 < j2 < rest.len() implies #[trigger] full_id(
            path,
            rest[j1].0,
        ) != #[trigger] full_id(path, rest[j2].0) by {
            assert(rest[j1] == file[j1 + 1]);
            assert(rest[j2] == file[j2 + 1]);
        }
        assert forall|j: int| 0 <= j < rest.len() implies !acc1.dom().contains(
            #[trigger] full_id(path, rest[j].0),
        ) by {
            assert(rest[j] == file[j + 1]);
            assert(full_id(path, file[j + 1].0) != id0);
        }
        lemma_flatten_file_props(path, rest, acc1);
        assert forall|j: int| 0 <= j < file.len() implies flatten_file(
            path,
            file,
            acc,
        ).contains_pair(#[trigger] full_id(path, file[j].0), file[j].1) by {
            if j == 0 {
                assert(acc1.dom().contains(id0));
                assert(!(exists|j2: int|
                    0 <= j2 < rest.len() && id0 == #[trigger] full_id(path, rest[j2].0)));
                assert(flatten_file(path, rest, acc1)[id0] == acc1[id0]);
                assert(flatten_file(path, rest, acc1).dom().contains(id0));
            } else {
                assert(rest[j - 1] == file[j]);
            }
        }
        assert forall|k: Seq<char>| #[trigger]
            flatten_file(path, file, acc).dom().contains(k) implies acc.dom().contains(k) || (
        exists|j: int| 0 <= j < file.len() && k == #[trigger] full_id(path, file[j].0)) by {
            if !acc.dom().contains(k) {
                if k == id0 {
                    assert(k == full_id(path, file[0].0));
                } else {
                    let j = choose|j: int|
                        0 <= j < rest.len() && k == #[trigger] full_id(path, rest[j].0);
                    assert(rest[j] == file[j + 1]);
                    assert(k == full_id(path, file[j + 1].0));
                }
            }
        }
        assert forall|k: Seq<char>|
            acc.dom().contains(k) || (exists|j: int|
                0 <= j < file.len() && k == #[trigger] full_id(path, file[j].0)) implies #[trigger]
            flatten_file(path, file, acc).dom().contains(k) by {
            if acc.dom().contains(k) {
                assert(acc1.dom().contains(k));
            } else {
                let j = choose|j: int|
                    0 <= j < file.len() && k == #[trigger] full_id(path, file[j].0);
                if j == 0 {
                    assert(acc1.dom().contains(k));
                } else {
                    assert(rest[j - 1] == file[j]);
                    assert(k == full_id(path, rest[j - 1].0));
                }
            }
        }
        assert forall|k: Seq<char>|
            acc.dom().contains(k) && !(exists|j: int|
                0 <= j < file.len() && k == #[trigger] full_id(path, file[j].0))
                implies #[trigger] flatten_file(path, file, acc)[k] == acc[k] by {
            assert(k != full_id(path, file[0].0));
            assert(acc1[k] == acc[k]);
            assert forall|j: int| 0 <= j < rest.len() implies k != #[trigger] full_id(
                path,
                rest[j].0,
            ) by {
                assert(rest[j] == file[j + 1]);
            }
        }
    }
}

/// Flattening a whole listing adds exactly its pairs, provided their
/// identifiers are distinct and fresh.
proof fn lemma_flatten_files_props(
    files: Seq<(Seq<char>, Seq<(Seq<char>, ContractData)>)>,
    acc: Map<Seq<char>, ContractData>,
)
    requires
        acc.dom().finite(),
        ids_distinct(files),
        forall|i: int, j: int|
            0 <= i < files.len() && 0 <= j < files[i].1.len() ==> !acc.dom().contains(
                #[trigger] full_id(files[i].0, files[i].1[j].0),
            ),
    ensures
        flatten_files(files, acc).dom().finite(),
        flatten_files(files, acc).len() == acc.len() + total_contracts(files),
        forall|i: int, j: int|
            0 <= i < files.len() && 0 <= j < files[i].1.len() ==> flatten_files(
                files,
                acc,
            ).contains_pair(
                #[trigger] full_id(files[i].0, files[i].1[j].0),
                files[i].1[j].1,
            ),
        forall|k: Seq<char>|
            #[trigger] flatten_files(files, acc).dom().contains(k) <==> acc.dom().contains(k) || (
            exists|i: int, j: int|
                0 <= i < files.len() && 0 <= j < files[i].1.len() && k == #[trigger] full_id(
                    files[i].0,
                    files[i].1[j].0,
                )),
    decreases files.len(),
{
    if files.len() == 0 {
    } else {
        let path = files.first().0;
        let file = files.first().1;
        let rest = files.drop_first();
        assert forall|j1: int, j2: int| 0 <= j1 < j2 < file.len() implies #[trigger] full_id(
            path,
            file[j1].0,
        ) != #[trigger] full_id(path, file[j2].0) by {
            assert(full_id(files[0].0, files[0].1[j1].0) != full_id(files[0].0, files[0].1[j2].0));
        }
        assert forall|j: int| 0 <= j < file.len() implies !acc.dom().contains(
            #[trigger] full_id(path, file[j].0),
        ) by {
            assert(!acc.dom().contains(full_id(files[0].0, files[0].1[j].0)));
        }
        lemma_flatten_file_props(path, file, acc);
        let acc1 = flatten_file(path, file, acc);
        assert(ids_distinct(rest)) by {
            assert forall|i1: int, j1: int, i2: int, j2: int|
                0 <= i1 < rest.len() && 0 <= j1 < rest[i1].1.len() && 0 <= i2 < rest.len() && 0
                    <= j2 < rest[i2].1.len() && (i1 != i2 || j1 != j2) implies #[trigger] full_id(
                rest[i1].0,
                rest[i1].1[j1].0,
            ) != #[trigger] full_id(rest[i2].0, rest[i2].1[j2].0) by {
                assert(rest[i1] == files[i1 + 1]);
                assert(rest[i2] == files[i2 + 1]);
                assert(full_id(files[i1 + 1].0, files[i1 + 1].1[j1].0) != full_id(
                    files[i2 + 1].0,
                    files[i2 + 1].1[j2].0,
                ));
            }
        }
        assert forall|i: int, j: int|
            0 <= i < rest.len() && 0 <= j < rest[i].1.len() implies !acc1.dom().contains(
            #[trigger] full_id(rest[i].0, rest[i].1[j].0),
        ) by {
            assert(rest[i] == files[i + 1]);
            let k = full_id(files[i + 1].0, files[i + 1].1[j].0);
            assert(!acc.dom().contains(k));
            assert forall|j2: int| 0 <= j2 < file.len() implies k != #[trigger] full_id(
                path,
                file[j2].0,
            ) by {
                assert(full_id(files[i + 1].0, files[i + 1].1[j].0) != full_id(
                    files[0].0,
                    files[0].1[j2].0,
                ));
            }
        }
        lemma_flatten_files_props(rest, acc1);
        assert forall|i: int, j: int|
            0 <= i < files.len() && 0 <= j < files[i].1.len() implies flatten_files(
            files,
            acc,
        ).contains_pair(#[trigger] full_id(files[i].0, files[i].1[j].0), files[i].1[j].1) by {
            if i == 0 {
                let k = full_id(files[0].0, files[0].1[j].0);
                assert(acc1.contains_pair(k, file[j].1));
                assert(!(exists|i2: int, j2: int|
                    0 <= i2 < rest.len() && 0 <= j2 < rest[i2].1.len() && k == #[trigger] full_id(
                        rest[i2].0,
                        rest[i2].1[j2].0,
                    ))) by {
                    assert forall|i2: int, j2: int|
                        0 <= i2 < rest.len() && 0 <= j2 < rest[i2].1.len() implies k
                        != #[trigger] full_id(rest[i2].0, rest[i2].1[j2].0) by {
                        assert(rest[i2] == files[i2 + 1]);
                        assert(full_id(files[0].0, files[0].1[j].0) != full_id(
                            files[i2 + 1].0,
                            files[i2 + 1].1[j2].0,
                        ));
                    }
                }
                lemma_flatten_files_preserves(rest, acc1, k);
            } else {
                assert(rest[i - 1] == files[i]);
                assert(flatten_files(rest, acc1).contains_pair(
                    full_id(rest[i - 1].0, rest[i - 1].1[j].0),
                    rest[i - 1].1[j].1,
                ));
            }
        }
        assert forall|k: Seq<char>| #[trigger]
            flatten_files(files, acc).dom().contains(k) implies acc.dom().contains(k) || (exists|
            i: int,
            j: int,
        |
            0 <= i < files.len() && 0 <= j < files[i].1.len() && k == #[trigger] full_id(
                files[i].0,
                files[i].1[j].0,
            )) by {
            if !acc.dom().contains(k) {
                if acc1.dom().contains(k) {
                    let j = choose|j: int|
                        0 <= j < file.len() && k == #[trigger] full_id(path, file[j].0);
                    assert(0 <= 0 < files.len() && 0 <= j < files[0].1.len() && k == full_id(
                        files[0].0,
                        files[0].1[j].0,
                    ));
                } else {
                    let (i, j): (int, int) = choose|i: int, j: int|
                        0 <= i < rest.len() && 0 <= j < rest[i].1.len() && k == #[trigger] full_id(
                            rest[i].0,
                            rest[i].1[j].0,
                        );
                    assert(rest[i] == files[i + 1]);
                    assert(0 <= i + 1 < files.len() && 0 <= j < files[i + 1].1.len() && k
                        == full_id(files[i + 1].0, files[i + 1].1[j].0));
                }
            }
        }
        assert forall|k: Seq<char>|
            acc.dom().contains(k) || (exists|i: int, j: int|
                0 <= i < files.len() && 0 <= j < files[i].1.len() && k == #[trigger] full_id(
                    files[i].0,
                    files[i].1[j].0,
                )) implies #[trigger] flatten_files(files, acc).dom().contains(k) by {
            if acc.dom().contains(k) {
                assert(acc1.dom().contains(k));
            } else {
                let (i, j): (int, int) = choose|i: int, j: int|
                    0 <= i < files.len() && 0 <= j < files[i].1.len() && k == #[trigger] full_id(
                        files[i].0,
                        files[i].1[j].0,
                    );
                if i == 0 {
                    assert(acc1.dom().contains(k));
                } else {
                    assert(rest[i - 1] == files[i]);
                    assert(k == full_id(rest[i - 1].0, rest[i - 1].1[j].0));
                }
            }
        }
    }
}

/// A binding whose identifier occurs nowhere in the listing survives the
/// flattening untouched.
proof fn lemma_flatten_files_preserves(
    files: Seq<(Seq<char>, Seq<(Seq<char>, ContractData)>)>,
    acc: Map<Seq<char>, ContractData>,
    k: Seq<char>,
)
    requires
        acc.dom().contains(k),
        forall|i: int, j: int|
            0 <= i < files.len() && 0 <= j < files[i].1.len() ==> k != #[trigger] full_id(
                files[i].0,
                files[i].1[j].0,
            ),
    ensures
        flatten_files(files, acc).dom().contains(k),
        flatten_files(files, acc)[k] == acc[k],
    decreases files.len(),
{
    if files.len() == 0 {
    } else {
        let path = files.first().0;
        let file = files.first().1;
        let rest = files.drop_first();
        let acc1 = flatten_file(path, file, acc);
        assert forall|j: int| 0 <= j < file.len() implies k != #[trigger] full_id(
            path,
            file[j].0,
        ) by {
            assert(k != full_id(files[0].0, files[0].1[j].0));
        }
        lemma_flatten_file_keeps(path, file, acc, k);
        assert forall|i: int, j: int|
            0 <= i < rest.len() && 0 <= j < rest[i].1.len() implies k != #[trigger] full_id(
            rest[i].0,
            rest[i].1[j].0,
        ) by {
            assert(rest[i] == files[i + 1]);
            assert(k != full_id(files[i + 1].0, files[i + 1].1[j].0));
        }
        lemma_flatten_files_preserves(rest, acc1, k);
    }
}

/// A binding whose identifier occurs nowhere in one file's listing survives
/// that file's flattening untouched.
proof fn lemma_flatten_file_keeps(
    path: Seq<char>,
    file: Seq<(Seq<char>, ContractData)>,
    acc: Map<Seq<char>, ContractData>,
    k: Seq<char>,
)
    requires
        acc.dom().contains(k),
        forall|j: int| 0 <= j < file.len() ==> k != #[trigger] full_id(path, file[j].0),
    ensures
        flatten_file(path, file, acc).dom().contains(k),
        flatten_file(path, file, acc)[k] == acc[k],
    decreases file.len(),
{
    if file.len() == 0 {
    } else {
        let rest = file.drop_first();
        let acc1 = acc.insert(full_id(path, file.first().0), file.first().1);
        assert(k != full_id(path, file[0].0));
        assert forall|j: int| 0 <= j < rest.len() implies k != #[trigger] full_id(
            path,
            rest[j].0,
        ) by {
            assert(rest[j] == file[j + 1]);
        }
        lemma_flatten_file_keeps(path, rest, acc1, k);
    }
}

/// With pairwise distinct full identifiers — in particular, for any listing
/// of N source files of M contracts each that stays clear of the
/// pathological colon case — the assembled mapping holds exactly one entry
/// per source-file/contract-name pair of the listing, each keyed by its
/// colon-joined identifier and carrying that pair's normalized content:
/// nothing is dropped or merged.
pub proof fn lemma_assembled_complete(files: Seq<(Seq<char>, Seq<(Seq<char>, ContractData)>)>)
    requires
        ids_distinct(files),
    ensures
        assembled(files).len() == total_contracts(files),
        forall|i: int, j: int|
            0 <= i < files.len() && 0 <= j < files[i].1.len() ==> assembled(files).contains_pair(
                #[trigger] full_id(files[i].0, files[i].1[j].0),
                files[i].1[j].1,
            ),
        forall|k: Seq<char>|
            #[trigger] assembled(files).dom().contains(k) <==> exists|i: int, j: int|
                0 <= i < files.len() && 0 <= j < files[i].1.len() && k == #[trigger] full_id(
                    files[i].0,
                    files[i].1[j].0,
                ),
{
    lemma_flatten_files_props(files, Map::empty());
}

/// As long as no source-file path contains a literal colon, the distinctness
/// of the listing's keys — paths at the outer level, contract names within
/// each file — carries over to the colon-joined full identifiers: no two
/// distinct pairs collide.
pub proof fn lemma_ids_distinct_without_colons(
    files: Seq<(Seq<char>, Seq<(Seq<char>, ContractData)>)>,
)
    requires
        forall|i1: int, i2: int|
            0 <= i1 < i2 < files.len() ==> files[i1].0 != files[i2].0,
        forall|i: int, j1: int, j2: int|
            0 <= i < files.len() && 0 <= j1 < j2 < files[i].1.len() ==> files[i].1[j1].0
                != files[i].1[j2].0,
        forall|i: int| 0 <= i < files.len() ==> !(#[trigger] files[i].0).contains(':'),
    ensures
        ids_distinct(files),
{
    assert forall|i1: int, j1: int, i2: int, j2: int|
        0 <= i1 < files.len() && 0 <= j1 < files[i1].1.len() && 0 <= i2 < files.len() && 0 <= j2
            < files[i2].1.len() && (i1 != i2 || j1 != j2) implies #[trigger] full_id(
        files[i1].0,
        files[i1].1[j1].0,
    ) != #[trigger] full_id(files[i2].0, files[i2].1[j2].0) by {
        if full_id(files[i1].0, files[i1].1[j1].0) == full_id(files[i2].0, files[i2].1[j2].0) {
            lemma_full_id_injective(
                files[i1].0,
                files[i1].1[j1].0,
                files[i2].0,
                files[i2].1[j2].0,
            );
            if i1 != i2 {
                if i1 < i2 {
                    assert(files[i1].0 != files[i2].0);
                } else {
                    assert(files[i2].0 != files[i1].0);
                }
            } else {
                if j1 < j2 {
                    assert(files[i1].1[j1].0 != files[i1].1[j2].0);
                } else {
                    assert(files[i1].1[j2].0 != files[i1].1[j1].0);
                }
            }
        }
    }
}

} // verus!
