//! The order in which the shares of an aggregate are presented.

use vstd::prelude::*;
use vstd::seq_lib::{
    to_multiset_build, to_multiset_contains, to_multiset_insert, to_multiset_len,
};
use crate::shares::{names_distinct, share_named, LanguageShare};
use crate::text::{lemma_precedes_total, lemma_precedes_transitive, name_precedes, precedes};

verus! {

/// The order of presentation: the larger share first, and of two equal
/// shares the one whose name comes first.
pub open spec fn ranks_before(a: LanguageShare, b: LanguageShare) -> bool {
    a.millipercent > b.millipercent || (a.millipercent == b.millipercent && name_precedes(
        a.language@,
        b.language@,
    ))
}

/// No share stands behind one that it ranks before.
pub open spec fn in_rank_order(shares: Seq<LanguageShare>) -> bool {
    forall|i: int, j: int|
        0 <= i < j < shares.len() ==> !ranks_before(#[trigger] shares[j], #[trigger] shares[i])
}

/// Every share ranks before all that stand behind it.
pub open spec fn strictly_ranked(shares: Seq<LanguageShare>) -> bool {
    forall|i: int, j: int|
        0 <= i < j < shares.len() ==> ranks_before(#[trigger] shares[i], #[trigger] shares[j])
}

/// The order of presentation is transitive.
pub proof fn lemma_ranks_transitive(a: LanguageShare, b: LanguageShare, c: LanguageShare)
    requires
        ranks_before(a, b),
        ranks_before(b, c),
    ensures
        ranks_before(a, c),
{
    if a.millipercent == b.millipercent && b.millipercent == c.millipercent {
        lemma_precedes_transitive(a.language@, b.language@, c.language@);
    }
}

/// Of two shares with different names one ranks before the other.
pub proof fn lemma_ranks_total(a: LanguageShare, b: LanguageShare)
    requires
        a.language@ != b.language@,
    ensures
        ranks_before(a, b) || ranks_before(b, a),
{
    lemma_precedes_total(a.language@, b.language@);
}

/// Whether `a` ranks before `b` in the order of presentation.
pub fn goes_before(a: &LanguageShare, b: &LanguageShare) -> (r: bool)
    ensures
        r == ranks_before(*a, *b),
{
    if a.millipercent != b.millipercent {
        a.millipercent > b.millipercent
    } else {
        precedes(a.language.as_str(), b.language.as_str())
    }
}

/// Puts the shares into the order of presentation: by descending share, and
/// by ascending name where the shares are equal.
pub fn rank(shares: Vec<LanguageShare>) -> (ranked: Vec<LanguageShare>)
    ensures
        ranked@.to_multiset() == shares@.to_multiset(),
        in_rank_order(ranked@),
{
    broadcast use vstd::multiset::group_multiset_axioms;

    let ghost all = shares@;
    let mut rest: Vec<LanguageShare> = shares;
    let mut ranked: Vec<LanguageShare> = Vec::new();
    proof {
        to_multiset_len(ranked@);
    }
    while rest.len() > 0
        invariant
            ranked@.to_multiset().add(rest@.to_multiset()) == all.to_multiset(),
            in_rank_order(ranked@),
        decreases rest.len(),
    {
        let ghost rest_before = rest@;
        let ghost before = ranked@;
        let taken: Option<LanguageShare> = rest.pop();
        let share: LanguageShare = taken.unwrap();
        let mut p: usize = 0;
        while p < ranked.len() && !goes_before(&share, &ranked[p])
            invariant
                p <= ranked.len(),
                ranked@ == before,
                forall|k: int| 0 <= k < p ==> !ranks_before(share, #[trigger] before[k]),
            decreases ranked.len() - p,
        {
            p = p + 1;
        }
        ranked.insert(p, share);
        proof {
            let at = p as int;
            let after = ranked@;
            assert(rest_before =~= rest@.push(share));
            to_multiset_build(rest@, share);
            to_multiset_insert(before, at, share);
            assert forall|i: int, j: int| 0 <= i < j < after.len() implies !ranks_before(
                #[trigger] after[j],
                #[trigger] after[i],
            ) by {
                if i == at && ranks_before(before[j - 1], share) {
                    lemma_ranks_transitive(before[j - 1], share, before[at]);
                }
            }
        }
    }
    proof {
        to_multiset_len(rest@);
    }
    ranked
}

/// Shares that were put into the order of presentation are the same shares:
/// the names are the same, no name occurs twice if none did, and then the
/// order is strict.
pub proof fn lemma_ranked_shares(before: Seq<LanguageShare>, after: Seq<LanguageShare>)
    requires
        after.to_multiset() == before.to_multiset(),
        in_rank_order(after),
        names_distinct(before),
    ensures
        after.len() == before.len(),
        forall|k: int| 0 <= k < after.len() ==> before.contains(#[trigger] after[k]),
        forall|name: Seq<char>| #[trigger]
            share_named(after, name) <==> share_named(before, name),
        names_distinct(after),
        strictly_ranked(after),
{
    to_multiset_len(before);
    to_multiset_len(after);
    assert forall|k: int| 0 <= k < after.len() implies before.contains(#[trigger] after[k]) by {
        to_multiset_contains(after, after[k]);
        to_multiset_contains(before, after[k]);
    }
    assert forall|k: int| 0 <= k < before.len() implies after.contains(#[trigger] before[k]) by {
        to_multiset_contains(after, before[k]);
        to_multiset_contains(before, before[k]);
    }
    before.lemma_multiset_has_no_duplicates();
    after.lemma_multiset_has_no_duplicates_conv();
    assert forall|i: int, j: int| 0 <= i < j < after.len() implies ranks_before(
        #[trigger] after[i],
        #[trigger] after[j],
    ) by {
        lemma_ranks_total(after[i], after[j]);
    }
}

} // verus!
