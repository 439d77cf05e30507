//! The aggregator: folds the records of all repositories into one total per
//! language, turns the totals into shares of the whole, ranks them, and adds
//! up the stars.

use vstd::prelude::*;
use vstd::arithmetic::div_mod::lemma_div_multiples_vanish_quotient;
use crate::model::{RepoInfo, RATIO_SCALE};
use crate::rank::{lemma_ranked_shares, rank, strictly_ranked};
use crate::shares::{
    by_millipercent, by_total, language_totals, lemma_same_totals, lemma_share_total_single,
    lemma_shares_add_up, millis_sum, set_shares, share_named, share_of, shares_of_sum,
    totals_sum, LanguageShare, FULL_SHARE,
};
use crate::sums::{lemma_sum_member, lemma_sum_permutation};
use crate::totals::{
    grand_total, language_total, lemma_language_total_unmentioned, lines_of, lines_sum,
    mentioned, stars_total, sum_of_components, total_stars, weight, MAX_TOTAL,
};

verus! {

/// The aggregate of a set of records.
#[derive(Debug, Clone, PartialEq, Eq)]
pub struct AggregateResult {
    /// One share for each language that a record mentions, in the order of
    /// presentation; empty where the sum of all totals is zero.
    pub language_percentages: Vec<LanguageShare>,
    /// The sum of all language totals, in parts of [`RATIO_SCALE`] of a unit
    /// of magnitude.
    pub sum_of_components: u128,
    /// The stars of all records, in parts of [`RATIO_SCALE`] of a star.
    pub total_stars: u128,
}

/// Why there is no aggregate.
#[derive(Debug, Clone, Copy, PartialEq, Eq, Structural)]
pub enum AggregateError {
    /// The sum of all language totals is larger than [`MAX_TOTAL`].
    TooLarge,
}

impl AggregateResult {
    /// This is the aggregate of the records: the sum of all totals and the
    /// stars are theirs, and unless the sum is zero there is one share for
    /// each language that a record mentions, with the language's total and
    /// its part of the sum, the shares standing in the order of presentation.
    pub open spec fn is_aggregate_of(&self, records: Seq<RepoInfo>, weighted: bool) -> bool {
        let shares = self.language_percentages@;
        &&& self.sum_of_components == grand_total(records, weighted)
        &&& self.total_stars == stars_total(records, weighted)
        &&& self.sum_of_components == 0 ==> shares.len() == 0
        &&& self.sum_of_components > 0 ==> {
            &&& forall|name: Seq<char>| #[trigger]
                share_named(shares, name) <==> mentioned(records, name)
            &&& forall|k: int|
                0 <= k < shares.len() ==> (#[trigger] shares[k]).total == language_total(
                    records,
                    weighted,
                    shares[k].language@,
                )
            &&& shares_of_sum(shares, self.sum_of_components as nat)
            &&& strictly_ranked(shares)
        }
    }
}

/// Folds the records into one aggregate: the total of each language, its
/// share of the sum of all totals, and the stars, each record counted by its
/// contribution ratio where `weighted` is set and in full where it is not.
/// Where the sum of all totals is zero there are no shares. There is no
/// aggregate where that sum is larger than [`MAX_TOTAL`].
pub fn aggregate(records: &Vec<RepoInfo>, weighted: bool) -> (r: Result<
    AggregateResult,
    AggregateError,
>)
    ensures
        r is Err <==> grand_total(records@, weighted) > MAX_TOTAL,
        r matches Ok(a) ==> a.is_aggregate_of(records@, weighted),
        r matches Ok(a) ==> totals_sum(a.language_percentages@) == a.sum_of_components,
        r matches Ok(a) ==> a.sum_of_components > 0 ==> millis_sum(a.language_percentages@)
            <= FULL_SHARE && FULL_SHARE < millis_sum(a.language_percentages@)
            + a.language_percentages@.len(),
        r matches Ok(a) ==> forall|k: int|
            0 <= k < a.language_percentages@.len() ==> (
            #[trigger] a.language_percentages@[k]).millipercent <= FULL_SHARE,
{
    let total_stars: u128 = total_stars(records, weighted);
    let sum: u128 = match sum_of_components(records, weighted) {
        None => {
            return Err(AggregateError::TooLarge);
        },
        Some(sum) => sum,
    };
    if sum == 0 {
        return Ok(
            AggregateResult {
                language_percentages: Vec::new(),
                sum_of_components: 0,
                total_stars,
            },
        );
    }
    let mut shares: Vec<LanguageShare> = language_totals(records, weighted);
    let ghost totals = shares@;
    proof {
        assert forall|k: int| 0 <= k < totals.len() implies (#[trigger] totals[k]).total
            <= sum by {
            lemma_sum_member(totals, k, by_total());
        }
    }
    set_shares(&mut shares, sum);
    let ghost parts = shares@;
    let ranked: Vec<LanguageShare> = rank(shares);
    proof {
        let out = ranked@;
        assert(totals_sum(parts) == totals_sum(totals)) by {
            lemma_same_totals(totals, parts);
        }
        lemma_ranked_shares(parts, out);
        lemma_sum_permutation(out, parts, by_total());
        lemma_sum_permutation(out, parts, by_millipercent());
        lemma_shares_add_up(parts, sum as nat);
        assert forall|k: int| 0 <= k < out.len() implies (#[trigger] out[k]).millipercent
            <= FULL_SHARE by {
            lemma_sum_member(out, k, by_millipercent());
        }
        assert forall|name: Seq<char>| #[trigger]
            share_named(out, name) <==> mentioned(records@, name) by {
            if share_named(totals, name) {
                let k = choose|k: int|
                    0 <= k < totals.len() && (#[trigger] totals[k]).language@ == name;
                assert(parts[k].language@ == name);
            }
        }
        assert forall|k: int| 0 <= k < out.len() implies (#[trigger] out[k]).total
            == language_total(records@, weighted, out[k].language@) && out[k].millipercent
            == share_of(out[k].total as nat, sum as nat) by {
            let j = choose|j: int| 0 <= j < parts.len() && parts[j] == out[k];
            lemma_share_total_single(totals, j, totals[j].language@);
        }
    }
    Ok(AggregateResult { language_percentages: ranked, sum_of_components: sum, total_stars })
}

/// Every record is well formed.
pub open spec fn all_wf(records: Seq<RepoInfo>) -> bool {
    forall|i: int| 0 <= i < records.len() ==> (#[trigger] records[i]).wf()
}

/// Every record has the contribution ratio `ratio`.
pub open spec fn all_have_ratio(records: Seq<RepoInfo>, ratio: nat) -> bool {
    forall|i: int|
        0 <= i < records.len() ==> (#[trigger] records[i]).ratio_of_commits_from_user == ratio
}

/// A language that no record mentions contributes nothing to the aggregate:
/// its total is zero and no share carries its name.
pub proof fn lemma_unmentioned_language_has_no_share(
    records: Seq<RepoInfo>,
    weighted: bool,
    result: AggregateResult,
    name: Seq<char>,
)
    requires
        result.is_aggregate_of(records, weighted),
        !mentioned(records, name),
    ensures
        language_total(records, weighted, name) == 0,
        !share_named(result.language_percentages@, name),
{
    lemma_language_total_unmentioned(records, weighted, name);
}

/// Weighting never raises a figure: with ratios of at most one, every
/// language total, the sum of all totals and the stars of the weighted
/// aggregate are at most those of the unweighted one.
pub proof fn lemma_weighting_lowers_totals(records: Seq<RepoInfo>, name: Seq<char>)
    requires
        all_wf(records),
    ensures
        language_total(records, true, name) <= language_total(records, false, name),
        grand_total(records, true) <= grand_total(records, false),
        stars_total(records, true) <= stars_total(records, false),
    decreases records.len(),
{
    if records.len() > 0 {
        let front = records.drop_last();
        let last = records.last();
        lemma_weighting_lowers_totals(front, name);
        let w = weight(last, true);
        let u = weight(last, false);
        let l = lines_of(last.language_loc_map@, name);
        let a = lines_sum(last.language_loc_map@);
        let s = last.stars as nat;
        assert(l * w <= l * u && a * w <= a * u && s * w <= s * u) by (nonlinear_arith)
            requires
                w <= u,
        ;
    }
}

/// Weighting changes the figures in proportion to the ratio: where every
/// record has the same contribution ratio, every language total, the sum of
/// all totals and the stars of the weighted aggregate are to those of the
/// unweighted one as the ratio is to one.
pub proof fn lemma_uniform_ratio_scales_totals(records: Seq<RepoInfo>, ratio: nat, name: Seq<char>)
    requires
        all_have_ratio(records, ratio),
    ensures
        language_total(records, true, name) * RATIO_SCALE == language_total(records, false, name)
            * ratio,
        grand_total(records, true) * RATIO_SCALE == grand_total(records, false) * ratio,
        stars_total(records, true) * RATIO_SCALE == stars_total(records, false) * ratio,
    decreases records.len(),
{
    if records.len() > 0 {
        let front = records.drop_last();
        let last = records.last();
        lemma_uniform_ratio_scales_totals(front, ratio, name);
        let l = lines_of(last.language_loc_map@, name);
        let a = lines_sum(last.language_loc_map@);
        let s = last.stars as nat;
        let lw = language_total(front, true, name);
        let lu = language_total(front, false, name);
        let gw = grand_total(front, true);
        let gu = grand_total(front, false);
        let sw = stars_total(front, true);
        let su = stars_total(front, false);
        assert((lw + l * ratio) * 1_000_000_000 == (lu + l * 1_000_000_000) * ratio)
            by (nonlinear_arith)
            requires
                lw * 1_000_000_000 == lu * ratio,
        ;
        assert((gw + a * ratio) * 1_000_000_000 == (gu + a * 1_000_000_000) * ratio)
            by (nonlinear_arith)
            requires
                gw * 1_000_000_000 == gu * ratio,
        ;
        assert((sw + s * ratio) * 1_000_000_000 == (su + s * 1_000_000_000) * ratio)
            by (nonlinear_arith)
            requires
                sw * 1_000_000_000 == su * ratio,
        ;
    } else {
        assert(0 * RATIO_SCALE == 0 * ratio) by (nonlinear_arith);
    }
}

/// Weighting by one ratio for all records leaves the shares as they are:
/// where every record has the same contribution ratio and it is not zero,
/// each language has the same part of the sum of all totals in the weighted
/// aggregate as in the unweighted one.
pub proof fn lemma_uniform_ratio_keeps_shares(records: Seq<RepoInfo>, ratio: nat, name: Seq<char>)
    requires
        all_have_ratio(records, ratio),
        0 < ratio,
        0 < grand_total(records, false),
    ensures
        0 < grand_total(records, true),
        share_of(language_total(records, true, name), grand_total(records, true)) == share_of(
            language_total(records, false, name),
            grand_total(records, false),
        ),
{
    lemma_uniform_ratio_scales_totals(records, ratio, name);
    let tw = language_total(records, true, name) as int;
    let tu = language_total(records, false, name) as int;
    let gw = grand_total(records, true) as int;
    let gu = grand_total(records, false) as int;
    let one = RATIO_SCALE as int;
    let r = ratio as int;
    assert(0 < gw) by (nonlinear_arith)
        requires
            gw * one == gu * r,
            0 < gu,
            0 < r,
            0 <= gw,
    ;
    lemma_div_multiples_vanish_quotient(one, tw * 100_000, gw);
    lemma_div_multiples_vanish_quotient(r, tu * 100_000, gu);
    assert(one * (tw * 100_000) == r * (tu * 100_000)) by (nonlinear_arith)
        requires
            tw * one == tu * r,
    ;
}

/// Weighting changes nothing where every record's ratio is one.
pub proof fn lemma_full_ratio_changes_nothing(records: Seq<RepoInfo>, name: Seq<char>)
    requires
        all_have_ratio(records, RATIO_SCALE as nat),
    ensures
        language_total(records, true, name) == language_total(records, false, name),
        grand_total(records, true) == grand_total(records, false),
        stars_total(records, true) == stars_total(records, false),
{
    lemma_uniform_ratio_scales_totals(records, RATIO_SCALE as nat, name);
}

} // verus!
