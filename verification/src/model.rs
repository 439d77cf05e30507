//! The records that travel between the collector, the analyzer and the
//! aggregator.

use vstd::prelude::*;
use crate::text::name_precedes;

verus! {

/// A contribution ratio of one: ratios, and with them weighted magnitudes and
/// stars, are counted in parts of this number.
pub const RATIO_SCALE: u32 = 1_000_000_000;

/// The profile of the queried user: where its organisations and its own
/// repositories are listed.
#[derive(Debug, Clone, PartialEq, Eq)]
pub struct UserData {
    pub organizations_url: String,
    pub repos_url: String,
}

/// One organisation the user belongs to.
#[derive(Debug, Clone, PartialEq, Eq)]
pub struct OrgData {
    pub repos_url: String,
}

/// One repository that the collector found.
#[derive(Debug, Clone, PartialEq, Eq)]
pub struct RepoData {
    pub stargazers_count: u32,
    pub contributors_url: String,
    pub full_name: String,
}

/// One contributor of a repository with the number of its contributions.
#[derive(Debug, Clone, PartialEq, Eq)]
pub struct ContributorData {
    pub login: String,
    pub contributions: u32,
}

/// The magnitude of one language within a repository.
#[derive(Debug, Clone, PartialEq, Eq)]
pub struct LOCData {
    pub language: String,
    pub lines_of_code: u32,
}

/// What the analyzer keeps of one repository: the magnitude of each language,
/// the user's share of the contributions in parts of [`RATIO_SCALE`], and the
/// stars.
#[derive(Debug, Clone, PartialEq, Eq)]
pub struct RepoInfo {
    pub language_loc_map: Vec<LOCData>,
    pub ratio_of_commits_from_user: u32,
    pub stars: u32,
}

/// The entries stand in strictly ascending order of their names, so no name
/// occurs twice.
pub open spec fn names_ascend(entries: Seq<LOCData>) -> bool {
    forall|i: int, j: int|
        0 <= i < j < entries.len() ==> name_precedes(
            #[trigger] entries[i].language@,
            #[trigger] entries[j].language@,
        )
}

/// The mapping from language to magnitude that a list of entries stands for;
/// of two entries with one name the later one counts.
pub open spec fn entries_map(entries: Seq<LOCData>) -> Map<Seq<char>, u32>
    decreases entries.len(),
{
    if entries.len() == 0 {
        Map::empty()
    } else {
        entries_map(entries.drop_last()).insert(
            entries.last().language@,
            entries.last().lines_of_code,
        )
    }
}

/// Some entry carries the name.
pub open spec fn has_name(entries: Seq<LOCData>, name: Seq<char>) -> bool {
    exists|k: int| 0 <= k < entries.len() && (#[trigger] entries[k]).language@ == name
}

/// The mapping holds exactly the names that the entries carry.
pub proof fn lemma_entries_map_names(entries: Seq<LOCData>)
    ensures
        forall|name: Seq<char>|
            entries_map(entries).contains_key(name) <==> #[trigger] has_name(entries, name),
    decreases entries.len(),
{
    if entries.len() > 0 {
        let front = entries.drop_last();
        lemma_entries_map_names(front);
        assert forall|name: Seq<char>|
            entries_map(entries).contains_key(name) <==> #[trigger] has_name(
                entries,
                name,
            ) by {
            if has_name(entries, name) {
                let k = choose|k: int|
                    0 <= k < entries.len() && (#[trigger] entries[k]).language@ == name;
                if k < front.len() {
                    assert(front[k].language@ == name);
                }
            }
            assert(has_name(front, name) <==> entries_map(front).contains_key(name));
        }
    }
}

/// Where no name occurs twice, each entry's magnitude is what the mapping
/// holds for its name.
pub proof fn lemma_entries_map_value(entries: Seq<LOCData>, k: int)
    requires
        names_ascend(entries),
        0 <= k < entries.len(),
    ensures
        entries_map(entries).contains_key(entries[k].language@),
        entries_map(entries)[entries[k].language@] == entries[k].lines_of_code,
    decreases entries.len(),
{
    let front = entries.drop_last();
    if k < entries.len() - 1 {
        lemma_entries_map_value(front, k);
    }
}

impl RepoInfo {
    /// A record is well formed when its languages form a mapping, held in
    /// ascending order of the names, and its ratio is at most one.
    pub open spec fn wf(&self) -> bool {
        &&& names_ascend(self.language_loc_map@)
        &&& self.ratio_of_commits_from_user <= RATIO_SCALE
    }

    /// The mapping from language to magnitude of this record.
    pub open spec fn languages(&self) -> Map<Seq<char>, u32> {
        entries_map(self.language_loc_map@)
    }
}

} // verus!
