//! The shares of an aggregate: one total for each language, and the part of
//! the whole that it is.

use vstd::prelude::*;
use crate::model::{has_name, LOCData, RepoInfo};
use crate::sums::{lemma_sum_member, lemma_sum_push, lemma_sum_update, lemma_sum_zero, sum_by};
use crate::totals::{
    grand_total, language_total, lemma_grand_total_grows, lemma_lines_step,
    lemma_lines_sum_grows, lemma_record_step, lines_of, lines_sum, mentioned, weight, weight_of,
    MAX_TOTAL,
};

verus! {

/// One hundred percent in thousandths of a percent.
pub const FULL_SHARE: u32 = 100_000;

/// The total of one language in an aggregate, in parts of
/// [`RATIO_SCALE`](crate::model::RATIO_SCALE) of a unit of magnitude, and its
/// share of the whole, in thousandths of a percent and rounded down.
#[derive(Debug, Clone, PartialEq, Eq)]
pub struct LanguageShare {
    pub language: String,
    pub total: u128,
    pub millipercent: u32,
}

/// Some share carries the name.
pub open spec fn share_named(shares: Seq<LanguageShare>, name: Seq<char>) -> bool {
    exists|k: int| 0 <= k < shares.len() && (#[trigger] shares[k]).language@ == name
}

/// No two shares carry the same name.
pub open spec fn names_distinct(shares: Seq<LanguageShare>) -> bool {
    forall|a: int, b: int|
        0 <= a < b < shares.len() ==> (#[trigger] shares[a]).language@ != (
        #[trigger] shares[b]).language@
}

/// The total of a share.
pub open spec fn by_total() -> spec_fn(LanguageShare) -> nat {
    |s: LanguageShare| s.total as nat
}

/// The thousandths of a percent of a share.
pub open spec fn by_millipercent() -> spec_fn(LanguageShare) -> nat {
    |s: LanguageShare| s.millipercent as nat
}

/// The total of a share where it carries the name, zero where it does not.
pub open spec fn by_total_of(name: Seq<char>) -> spec_fn(LanguageShare) -> nat {
    |s: LanguageShare|
        if s.language@ == name {
            s.total as nat
        } else {
            0
        }
}

/// The totals of all shares together.
pub open spec fn totals_sum(shares: Seq<LanguageShare>) -> nat {
    sum_by(shares, by_total())
}

/// The thousandths of a percent of all shares together.
pub open spec fn millis_sum(shares: Seq<LanguageShare>) -> nat {
    sum_by(shares, by_millipercent())
}

/// The totals of the shares that carry the name, together.
pub open spec fn share_total(shares: Seq<LanguageShare>, name: Seq<char>) -> nat {
    sum_by(shares, by_total_of(name))
}

/// Where no name occurs twice, the total that goes with a name is the total of
/// the one share that carries it.
pub proof fn lemma_share_total_single(shares: Seq<LanguageShare>, k: int, name: Seq<char>)
    requires
        names_distinct(shares),
        0 <= k < shares.len(),
        shares[k].language@ == name,
    ensures
        share_total(shares, name) == shares[k].total,
{
    let f = by_total_of(name);
    let blank = LanguageShare { language: shares[k].language, total: 0, millipercent: 0 };
    let others = shares.update(k, blank);
    lemma_sum_zero(others, f);
    lemma_sum_update(shares, k, blank, f);
}

/// Shares with the same totals have the same sum of totals.
pub proof fn lemma_same_totals(a: Seq<LanguageShare>, b: Seq<LanguageShare>)
    requires
        a.len() == b.len(),
        forall|k: int| 0 <= k < a.len() ==> (#[trigger] b[k]).total == a[k].total,
    ensures
        totals_sum(a) == totals_sum(b),
    decreases a.len(),
{
    if a.len() > 0 {
        lemma_same_totals(a.drop_last(), b.drop_last());
    }
}

/// Adds an amount to the total of a language, with a new share where the
/// language has none yet.
pub(crate) fn add_to_language(shares: &mut Vec<LanguageShare>, language: &String, amount: u128)
    requires
        names_distinct(old(shares)@),
        totals_sum(old(shares)@) + amount <= u128::MAX,
    ensures
        names_distinct(final(shares)@),
        totals_sum(final(shares)@) == totals_sum(old(shares)@) + amount,
        forall|name: Seq<char>| #[trigger]
            share_total(final(shares)@, name) == share_total(old(shares)@, name) + if name
                == language@ {
                amount as nat
            } else {
                0
            },
        forall|name: Seq<char>| #[trigger]
            share_named(final(shares)@, name) <==> share_named(old(shares)@, name) || name
                == language@,
        forall|k: int|
            0 <= k < final(shares)@.len() ==> (#[trigger] final(shares)@[k]).millipercent == 0 || (k
                < old(shares)@.len() && final(shares)@[k].millipercent == old(
                shares,
            )@[k].millipercent),
{
    let ghost before = shares@;
    let mut k: usize = 0;
    while k < shares.len() && shares[k].language != *language
        invariant
            k <= shares.len(),
            shares@ == before,
            forall|i: int| 0 <= i < k ==> (#[trigger] before[i]).language@ != language@,
        decreases shares.len() - k,
    {
        k = k + 1;
    }
    if k < shares.len() {
        proof {
            lemma_sum_member(before, k as int, by_total());
        }
        shares[k].total = shares[k].total + amount;
    } else {
        shares.push(LanguageShare { language: language.clone(), total: amount, millipercent: 0 });
    }
    proof {
        let after = shares@;
        let at = k as int;
        if at < before.len() {
            lemma_sum_update(before, at, after[at], by_total());
        } else {
            lemma_sum_push(before, after[at], by_total());
        }
        assert forall|name: Seq<char>| #[trigger]
            share_total(after, name) == share_total(before, name) + if name == language@ {
                amount as nat
            } else {
                0
            } by {
            let f = by_total_of(name);
            if at < before.len() {
                lemma_sum_update(before, at, after[at], f);
            } else {
                lemma_sum_push(before, after[at], f);
            }
        }
        assert forall|name: Seq<char>| #[trigger]
            share_named(after, name) <==> share_named(before, name) || name == language@ by {
            if share_named(before, name) {
                let i = choose|i: int|
                    0 <= i < before.len() && (#[trigger] before[i]).language@ == name;
                assert(after[i].language@ == name);
            }
        }
    }
}

/// The total of each language over all records, one share for each language
/// that a record mentions.
pub(crate) fn language_totals(records: &Vec<RepoInfo>, weighted: bool) -> (shares: Vec<LanguageShare>)
    requires
        grand_total(records@, weighted) <= MAX_TOTAL,
    ensures
        names_distinct(shares@),
        totals_sum(shares@) == grand_total(records@, weighted),
        forall|name: Seq<char>| #[trigger]
            share_total(shares@, name) == language_total(records@, weighted, name),
        forall|name: Seq<char>| #[trigger]
            share_named(shares@, name) <==> mentioned(records@, name),
        forall|k: int| 0 <= k < shares@.len() ==> (#[trigger] shares@[k]).millipercent == 0,
{
    let mut shares: Vec<LanguageShare> = Vec::new();
    let mut i: usize = 0;
    while i < records.len()
        invariant
            i <= records.len(),
            grand_total(records@, weighted) <= MAX_TOTAL,
            names_distinct(shares@),
            totals_sum(shares@) == grand_total(records@.take(i as int), weighted),
            forall|name: Seq<char>| #[trigger]
                share_total(shares@, name) == language_total(
                    records@.take(i as int),
                    weighted,
                    name,
                ),
            forall|name: Seq<char>| #[trigger]
                share_named(shares@, name) <==> mentioned(records@.take(i as int), name),
            forall|k: int| 0 <= k < shares@.len() ==> (#[trigger] shares@[k]).millipercent == 0,
        decreases records.len() - i,
    {
        let w: u32 = weight_of(&records[i], weighted);
        let entries: &Vec<LOCData> = &records[i].language_loc_map;
        let ghost done = records@.take(i as int);
        let mut j: usize = 0;
        proof {
            lemma_record_step(records@, weighted, i as int);
            lemma_grand_total_grows(records@, weighted, i + 1);
            assert(lines_sum(entries@.take(0)) * (w as nat) == 0) by (nonlinear_arith)
                requires
                    lines_sum(entries@.take(0)) == 0,
            ;
        }
        while j < entries.len()
            invariant
                j <= entries.len(),
                0 <= i < records.len(),
                entries@ == records@[i as int].language_loc_map@,
                done == records@.take(i as int),
                w == weight(records@[i as int], weighted),
                grand_total(done, weighted) + lines_sum(entries@) * (w as nat) <= MAX_TOTAL,
                names_distinct(shares@),
                totals_sum(shares@) == grand_total(done, weighted) + lines_sum(
                    entries@.take(j as int),
                ) * (w as nat),
                forall|name: Seq<char>| #[trigger]
                    share_total(shares@, name) == language_total(done, weighted, name) + lines_of(
                        entries@.take(j as int),
                        name,
                    ) * (w as nat),
                forall|name: Seq<char>| #[trigger]
                    share_named(shares@, name) <==> mentioned(done, name) || has_name(
                        entries@.take(j as int),
                        name,
                    ),
                forall|k: int| 0 <= k < shares@.len() ==> (#[trigger] shares@[k]).millipercent == 0,
            decreases entries.len() - j,
        {
            let ghost seen = entries@.take(j as int);
            let ghost more = entries@.take(j + 1);
            let ghost own = entries@[j as int].language@;
            let lines: u32 = entries[j].lines_of_code;
            proof {
                lemma_lines_step(entries@, j as int, own);
                lemma_lines_sum_grows(entries@, j + 1);
                assert((lines_sum(seen) + lines) * (w as nat) == lines_sum(seen) * (w as nat)
                    + (lines as nat) * (w as nat)) by (nonlinear_arith);
                assert(lines_sum(more) * (w as nat) <= lines_sum(entries@) * (w as nat))
                    by (nonlinear_arith)
                    requires
                        lines_sum(more) <= lines_sum(entries@),
                ;
            }
            let amount: u128 = (lines as u128) * (w as u128);
            add_to_language(&mut shares, &entries[j].language, amount);
            proof {
                assert forall|name: Seq<char>| #[trigger]
                    share_total(shares@, name) == language_total(done, weighted, name) + lines_of(
                        more,
                        name,
                    ) * (w as nat) by {
                    lemma_lines_step(entries@, j as int, name);
                    if name == own {
                        assert((lines_of(seen, name) + lines) * (w as nat) == lines_of(seen, name)
                            * (w as nat) + (lines as nat) * (w as nat)) by (nonlinear_arith);
                    }
                }
            }
            j = j + 1;
        }
        proof {
            assert(entries@.take(j as int) =~= entries@);
        }
        i = i + 1;
    }
    proof {
        assert(records@.take(i as int) =~= records@);
    }
    shares
}

/// The share of `total` in `sum`, in thousandths of a percent and rounded
/// down.
pub open spec fn share_of(total: nat, sum: nat) -> nat {
    total * (FULL_SHARE as nat) / sum
}

/// Every share holds the thousandths of a percent that its total is of `sum`.
pub open spec fn shares_of_sum(shares: Seq<LanguageShare>, sum: nat) -> bool {
    forall|k: int|
        0 <= k < shares.len() ==> (#[trigger] shares[k]).millipercent == share_of(
            shares[k].total as nat,
            sum,
        )
}

/// A part of the whole is at most one hundred percent of it.
pub proof fn lemma_share_of_bound(total: nat, sum: nat)
    requires
        0 < sum,
        total <= sum,
    ensures
        share_of(total, sum) <= FULL_SHARE,
{
    assert(total * 100_000 / sum <= 100_000) by (nonlinear_arith)
        requires
            0 < sum,
            total <= sum,
    ;
}

/// What rounding down loses: each share loses less than one thousandth of a
/// percent of the whole.
proof fn lemma_rounding_loss(shares: Seq<LanguageShare>, sum: nat)
    requires
        0 < sum,
        shares_of_sum(shares, sum),
    ensures
        sum * millis_sum(shares) <= 100_000 * totals_sum(shares),
        100_000 * totals_sum(shares) <= sum * millis_sum(shares) + (sum - 1) * shares.len(),
    decreases shares.len(),
{
    if shares.len() > 0 {
        let front = shares.drop_last();
        let last = shares.last();
        lemma_rounding_loss(front, sum);
        let t = last.total as nat;
        let q = last.millipercent as nat;
        let m = millis_sum(front);
        let n = front.len();
        assert(q * sum <= t * 100_000 && t * 100_000 <= q * sum + (sum - 1)) by (nonlinear_arith)
            requires
                0 < sum,
                q == t * 100_000 / sum,
        ;
        assert(sum * (m + q) == sum * m + q * sum) by (nonlinear_arith);
        assert((sum - 1) * (n + 1) == (sum - 1) * n + (sum - 1)) by (nonlinear_arith);
    } else {
        assert(sum * 0 == 0);
    }
}

/// The shares of a whole add up to one hundred percent, less what rounding
/// down loses: less than one thousandth of a percent for each share.
pub proof fn lemma_shares_add_up(shares: Seq<LanguageShare>, sum: nat)
    requires
        0 < sum,
        totals_sum(shares) == sum,
        shares_of_sum(shares, sum),
    ensures
        millis_sum(shares) <= FULL_SHARE,
        FULL_SHARE < millis_sum(shares) + shares.len(),
{
    lemma_rounding_loss(shares, sum);
    let m = millis_sum(shares);
    let n = shares.len();
    assert(m <= 100_000) by (nonlinear_arith)
        requires
            0 < sum,
            sum * m <= 100_000 * sum,
    ;
    assert(100_000 < m + n) by (nonlinear_arith)
        requires
            0 < sum,
            0 < n,
            100_000 * sum <= sum * m + (sum - 1) * n,
    ;
}

/// Gives each share the thousandths of a percent that its total is of `sum`.
pub(crate) fn set_shares(shares: &mut Vec<LanguageShare>, sum: u128)
    requires
        0 < sum <= MAX_TOTAL,
        forall|k: int| 0 <= k < old(shares)@.len() ==> (#[trigger] old(shares)@[k]).total <= sum,
    ensures
        final(shares)@.len() == old(shares)@.len(),
        forall|k: int|
            0 <= k < final(shares)@.len() ==> (#[trigger] final(shares)@[k]).language == old(
                shares,
            )@[k].language && final(shares)@[k].total == old(shares)@[k].total,
        shares_of_sum(final(shares)@, sum as nat),
{
    let ghost before = shares@;
    let mut k: usize = 0;
    while k < shares.len()
        invariant
            k <= shares.len(),
            0 < sum <= MAX_TOTAL,
            shares@.len() == before.len(),
            forall|i: int| 0 <= i < before.len() ==> (#[trigger] before[i]).total <= sum,
            forall|i: int|
                0 <= i < shares@.len() ==> (#[trigger] shares@[i]).language == before[i].language
                    && shares@[i].total == before[i].total,
            forall|i: int|
                0 <= i < k ==> (#[trigger] shares@[i]).millipercent == share_of(
                    shares@[i].total as nat,
                    sum as nat,
                ),
        decreases shares.len() - k,
    {
        let total: u128 = shares[k].total;
        proof {
            lemma_share_of_bound(total as nat, sum as nat);
        }
        let part: u128 = total * 100_000 / sum;
        shares[k].millipercent = part as u32;
        k = k + 1;
    }
}

} // verus!
