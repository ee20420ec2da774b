//! Full identifiers: the canonical addressing scheme for a contract.

use vstd::prelude::*;
use vstd::string::StringExecFns;

verus! {

/// The full identifier of the contract `name` inside the source file at
/// `path`: the two joined with a literal colon. This is the canonical
/// addressing scheme for a contract throughout the pipeline.
pub open spec fn full_id(path: Seq<char>, name: Seq<char>) -> Seq<char> {
    path + seq![':'] + name
}

/// Builds the colon-joined full identifier of a contract.
pub fn full_identifier(path: &String, name: &String) -> (id: String)
    ensures
        id@ == full_id(path@, name@),
{
    let mut id = path.clone();
    id.append(":");
    id.append(name.as_str());
    proof {
        reveal_strlit(":");
        assert(id@ =~= full_id(path@, name@));
    }
    id
}

/// Joining with a colon is injective as long as no source-file path itself
/// contains a colon: two full identifiers built from colon-free paths agree
/// only if both the paths and the names agree. A path with a literal colon
/// could, in principle, collide with another pair; the assembler does not
/// detect that case, which is why this lemma asks for colon-free paths.
pub proof fn lemma_full_id_injective(
    path1: Seq<char>,
    name1: Seq<char>,
    path2: Seq<char>,
    name2: Seq<char>,
)
    requires
        !path1.contains(':'),
        !path2.contains(':'),
        full_id(path1, name1) == full_id(path2, name2),
    ensures
        path1 == path2,
        name1 == name2,
{
    let id = full_id(path1, name1);
    assert(id.len() == path1.len() + 1 + name1.len());
    assert(id.len() == path2.len() + 1 + name2.len());
    assert(id[path1.len() as int] == ':');
    assert(id[path2.len() as int] == ':');
    if path1.len() < path2.len() {
        assert(path2[path1.len() as int] == ':');
        assert(path2.contains(':'));
    }
    if path2.len() < path1.len() {
        assert(path1[path2.len() as int] == ':');
        assert(path1.contains(':'));
    }
    assert(path1.len() == path2.len());
    assert forall|i: int| 0 <= i < path1.len() implies path1[i] == path2[i] by {
        assert(id[i] == path1[i]);
        assert(id[i] == path2[i]);
    }
    assert(path1 =~= path2);
    assert forall|j: int| 0 <= j < name1.len() implies name1[j] == name2[j] by {
        assert(id[path1.len() + 1 + j] == name1[j]);
        assert(id[path2.len() + 1 + j] == name2[j]);
    }
    assert(name1 =~= name2);
}

} // verus!
