//! The assembled project: a version tag and the flat contract mapping.

use vstd::prelude::*;

use crate::contract::Contract;
use crate::contract::ContractData;

verus! {

/// The mapping that a sequence of identifier–contract entries denotes: each
/// entry binds its identifier to its contract content, a later entry
/// overriding an earlier one with the same identifier.
pub open spec fn map_of(entries: Seq<(String, Contract)>) -> Map<Seq<char>, ContractData>
    decreases entries.len(),
{
    if entries.len() == 0 {
        Map::empty()
    } else {
        map_of(entries.drop_last()).insert(entries.last().0@, entries.last().1@)
    }
}

/// Whether some entry binds the identifier `id`.
pub open spec fn has_id(entries: Seq<(String, Contract)>, id: Seq<char>) -> bool {
    exists|i: int| 0 <= i < entries.len() && entries[i].0@ == id
}

/// Whether the entries bind pairwise distinct identifiers.
pub open spec fn unique_ids(entries: Seq<(String, Contract)>) -> bool {
    forall|i: int, j: int| 0 <= i < j < entries.len() ==> entries[i].0@ != entries[j].0@
}

/// The domain of the denoted mapping holds exactly the bound identifiers,
/// and is finite.
pub proof fn lemma_map_of_dom(entries: Seq<(String, Contract)>)
    ensures
        map_of(entries).dom().finite(),
        forall|id: Seq<char>|
            #[trigger] map_of(entries).dom().contains(id) <==> has_id(entries, id),
    decreases entries.len(),
{
    if entries.len() == 0 {
    } else {
        let rest = entries.drop_last();
        lemma_map_of_dom(rest);
        assert forall|id: Seq<char>| #[trigger]
            map_of(entries).dom().contains(id) implies has_id(entries, id) by {
            if id == entries.last().0@ {
                assert(entries[entries.len() - 1].0@ == id);
            } else {
                let i = choose|i: int| 0 <= i < rest.len() && rest[i].0@ == id;
                assert(entries[i].0@ == id);
            }
        }
        assert forall|id: Seq<char>| has_id(entries, id) implies #[trigger]
            map_of(entries).dom().contains(id) by {
            let i = choose|i: int| 0 <= i < entries.len() && entries[i].0@ == id;
            if i < entries.len() - 1 {
                assert(rest[i].0@ == id);
                assert(has_id(rest, id));
            }
        }
    }
}

/// With pairwise distinct identifiers, every entry is bound in the denoted
/// mapping exactly as it stands in the sequence.
pub proof fn lemma_map_of_index(entries: Seq<(String, Contract)>, i: int)
    requires
        unique_ids(entries),
        0 <= i < entries.len(),
    ensures
        map_of(entries).contains_pair(entries[i].0@, entries[i].1@),
    decreases entries.len(),
{
    if i == entries.len() - 1 {
    } else {
        let rest = entries.drop_last();
        lemma_map_of_index(rest, i);
        assert(entries[i].0@ != entries.last().0@);
    }
}

/// With pairwise distinct identifiers, the denoted mapping has exactly one
/// entry per element of the sequence.
pub proof fn lemma_map_of_len(entries: Seq<(String, Contract)>)
    requires
        unique_ids(entries),
    ensures
        map_of(entries).len() == entries.len(),
    decreases entries.len(),
{
    if entries.len() == 0 {
    } else {
        let rest = entries.drop_last();
        lemma_map_of_len(rest);
        lemma_map_of_dom(rest);
        assert forall|i: int| 0 <= i < rest.len() implies rest[i].0@ != entries.last().0@ by {
            assert(entries[i].0@ != entries[entries.len() - 1].0@);
        }
        assert(!has_id(rest, entries.last().0@));
        assert(!map_of(rest).dom().contains(entries.last().0@));
        vstd::set::axiom_set_insert_len(map_of(rest).dom(), entries.last().0@);
    }
}

/// Appending an entry binds its identifier on top of the rest.
pub proof fn lemma_map_of_push(entries: Seq<(String, Contract)>, entry: (String, Contract))
    ensures
        map_of(entries.push(entry)) == map_of(entries).insert(entry.0@, entry.1@),
{
    assert(entries.push(entry).drop_last() =~= entries);
    assert(entries.push(entry).last() == entry);
}

/// Removing the entry at `i` removes exactly its binding, provided the
/// identifiers are pairwise distinct.
pub proof fn lemma_map_of_remove(entries: Seq<(String, Contract)>, i: int)
    requires
        unique_ids(entries),
        0 <= i < entries.len(),
    ensures
        unique_ids(entries.remove(i)),
        map_of(entries.remove(i)) =~= map_of(entries).remove(entries[i].0@),
    decreases entries.len(),
{
    let shorter = entries.remove(i);
    assert forall|p: int, q: int| 0 <= p < q < shorter.len() implies
        shorter[p].0@ != shorter[q].0@ by {
        let p0: int = if p < i { p } else { p + 1 };
        let q0: int = if q < i { q } else { q + 1 };
        assert(shorter[p] == entries[p0]);
        assert(shorter[q] == entries[q0]);
        assert(entries[p0].0@ != entries[q0].0@);
    }
    if i == entries.len() - 1 {
        assert(shorter =~= entries.drop_last());
        lemma_map_of_dom(shorter);
        assert forall|j: int| 0 <= j < shorter.len() implies
            shorter[j].0@ != entries[i].0@ by {
            assert(entries[j].0@ != entries[i].0@);
        }
        assert(!has_id(shorter, entries[i].0@));
        assert(!map_of(shorter).dom().contains(entries[i].0@));
        assert(map_of(shorter) =~= map_of(entries).remove(entries[i].0@));
    } else {
        let rest = entries.drop_last();
        lemma_map_of_remove(rest, i);
        assert(shorter.drop_last() =~= rest.remove(i));
        assert(shorter.last() == entries.last());
        assert(entries[i].0@ != entries.last().0@);
        assert(map_of(shorter) == map_of(rest.remove(i)).insert(
            entries.last().0@,
            entries.last().1@,
        ));
        assert(map_of(shorter) =~= map_of(entries).remove(entries[i].0@));
    }
}

/// Binds `id` to `contract` among the entries: replaces the entry carrying
/// `id` if one exists, appends a new entry otherwise. Either way the denoted
/// mapping gains exactly this binding and the identifiers stay distinct.
pub(crate) fn insert_entry(entries: &mut Vec<(String, Contract)>, id: String, contract: Contract)
    requires
        unique_ids(old(entries)@),
    ensures
        unique_ids(final(entries)@),
        map_of(final(entries)@) == map_of(old(entries)@).insert(id@, contract@),
{
    let ghost orig = entries@;
    let n = entries.len();
    let mut i: usize = 0;
    while i < n
        invariant
            n == entries@.len(),
            entries@ == orig,
            orig == old(entries)@,
            unique_ids(orig),
            i <= n,
            forall|j: int| 0 <= j < i ==> orig[j].0@ != id@,
        decreases n - i,
    {
        if entries[i].0 == id {
            let _replaced = entries.remove(i);
            entries.push((id, contract));
            proof {
                lemma_map_of_remove(orig, i as int);
                lemma_map_of_push(orig.remove(i as int), (id, contract));
                lemma_map_of_dom(orig.remove(i as int));
                assert forall|p: int, q: int|
                    0 <= p < q < entries@.len() implies entries@[p].0@ != entries@[q].0@ by {
                    if q == entries@.len() - 1 {
                        assert(entries@[p] == orig.remove(i as int)[p]);
                        assert(has_id(orig.remove(i as int), entries@[p].0@));
                        if entries@[p].0@ == id@ {
                            assert(map_of(orig.remove(i as int)).dom().contains(id@));
                            assert(map_of(orig).remove(orig[i as int].0@).dom().contains(id@));
                        }
                    } else {
                        assert(entries@[p] == orig.remove(i as int)[p]);
                        assert(entries@[q] == orig.remove(i as int)[q]);
                    }
                }
                assert(map_of(entries@) =~= map_of(orig).insert(id@, contract@));
            }
            return ;
        }
        i += 1;
    }
    entries.push((id, contract));
    proof {
        lemma_map_of_push(orig, (id, contract));
        assert forall|p: int, q: int|
            0 <= p < q < entries@.len() implies entries@[p].0@ != entries@[q].0@ by {
            if q == entries@.len() - 1 {
                assert(entries@[p] == orig[p]);
            } else {
                assert(entries@[p] == orig[p]);
                assert(entries@[q] == orig[q]);
            }
        }
    }
}

/// The in-memory model of an assembled multi-contract project: the compiler
/// version tag the caller asked for, and the flat mapping from full
/// identifier to normalized contract. Created once per compilation run and
/// immutable afterwards.
#[derive(Debug)]
pub struct Project {
    /// The semantic version tag supplied by the caller at construction.
    version: semver::Version,
    /// The contract entries; their identifiers are pairwise distinct.
    contracts: Vec<(String, Contract)>,
}

impl Project {
    /// The version tag attached at construction.
    pub closed spec fn version_spec(&self) -> semver::Version {
        self.version
    }

    /// The contracts of the project: the mapping from full identifier to
    /// normalized contract content.
    pub closed spec fn contracts_map(&self) -> Map<Seq<char>, ContractData> {
        map_of(self.contracts@)
    }

    /// Well-formedness: the entries bind pairwise distinct identifiers, so
    /// every contract is uniquely addressable.
    pub closed spec fn wf(&self) -> bool {
        unique_ids(self.contracts@)
    }

    /// Creates a project from the caller's version tag and entries with
    /// pairwise distinct identifiers.
    pub fn new(version: semver::Version, contracts: Vec<(String, Contract)>) -> (project: Project)
        requires
            unique_ids(contracts@),
        ensures
            project.wf(),
            project.version_spec() == version,
            project.contracts_map() == map_of(contracts@),
    {
        Project { version, contracts }
    }

    /// The version tag the project was created with.
    pub fn version(&self) -> (version: &semver::Version)
        ensures
            *version == self.version_spec(),
    {
        &self.version
    }

    /// How many contracts the project holds.
    pub fn len(&self) -> (n: usize)
        requires
            self.wf(),
        ensures
            n == self.contracts_map().len(),
    {
        proof {
            lemma_map_of_len(self.contracts@);
        }
        self.contracts.len()
    }

    /// Looks a contract up by its full identifier.
    pub fn get(&self, id: &String) -> (found: Option<&Contract>)
        requires
            self.wf(),
        ensures
            (match found {
                Some(contract) => self.contracts_map().contains_pair(id@, contract@),
                None => !self.contracts_map().dom().contains(id@),
            }),
    {
        let n = self.contracts.len();
        let mut i: usize = 0;
        while i < n
            invariant
                n == self.contracts@.len(),
                unique_ids(self.contracts@),
                i <= n,
                forall|j: int| 0 <= j < i ==> self.contracts@[j].0@ != id@,
            decreases n - i,
        {
            if self.contracts[i].0 == *id {
                proof {
                    lemma_map_of_index(self.contracts@, i as int);
                }
                return Some(&self.contracts[i].1);
            }
            i += 1;
        }
        proof {
            lemma_map_of_dom(self.contracts@);
        }
        None
    }

    /// All entries of the project, each a full identifier with its
    /// normalized contract: the complete enumeration of the contract
    /// mapping.
    pub fn contracts(&self) -> (entries: &Vec<(String, Contract)>)
        ensures
            map_of(entries@) == self.contracts_map(),
            self.wf() ==> unique_ids(entries@),
    {
        &self.contracts
    }
}

} // verus!
