//! What the records add up to: the total of each language, the total of all
//! languages and the stars, each record counted by its weight.

use vstd::prelude::*;
use crate::model::{entries_map, has_name, names_ascend, LOCData, RepoInfo, RATIO_SCALE};

verus! {

/// The largest sum of all language totals that an aggregate can hold.
pub const MAX_TOTAL: u128 = 1_000_000_000_000_000_000_000_000_000_000_000;

/// The factor by which a record counts, in parts of [`RATIO_SCALE`]: its
/// contribution ratio where the aggregate is weighted, one where it is not.
pub open spec fn weight(record: RepoInfo, weighted: bool) -> nat {
    if weighted {
        record.ratio_of_commits_from_user as nat
    } else {
        RATIO_SCALE as nat
    }
}

/// The magnitude that a list of entries gives to a language.
pub open spec fn lines_of(entries: Seq<LOCData>, name: Seq<char>) -> nat
    decreases entries.len(),
{
    if entries.len() == 0 {
        0
    } else {
        lines_of(entries.drop_last(), name) + if entries.last().language@ == name {
            entries.last().lines_of_code as nat
        } else {
            0
        }
    }
}

/// The magnitudes of all entries together.
pub open spec fn lines_sum(entries: Seq<LOCData>) -> nat
    decreases entries.len(),
{
    if entries.len() == 0 {
        0
    } else {
        lines_sum(entries.drop_last()) + entries.last().lines_of_code as nat
    }
}

/// The total of one language over all records: each record's magnitude for
/// the language times the record's weight.
pub open spec fn language_total(records: Seq<RepoInfo>, weighted: bool, name: Seq<char>) -> nat
    decreases records.len(),
{
    if records.len() == 0 {
        0
    } else {
        language_total(records.drop_last(), weighted, name) + lines_of(
            records.last().language_loc_map@,
            name,
        ) * weight(records.last(), weighted)
    }
}

/// The total of all languages over all records.
pub open spec fn grand_total(records: Seq<RepoInfo>, weighted: bool) -> nat
    decreases records.len(),
{
    if records.len() == 0 {
        0
    } else {
        grand_total(records.drop_last(), weighted) + lines_sum(records.last().language_loc_map@)
            * weight(records.last(), weighted)
    }
}

/// The stars of all records, each times the record's weight.
pub open spec fn stars_total(records: Seq<RepoInfo>, weighted: bool) -> nat
    decreases records.len(),
{
    if records.len() == 0 {
        0
    } else {
        stars_total(records.drop_last(), weighted) + (records.last().stars as nat) * weight(
            records.last(),
            weighted,
        )
    }
}

/// Some record has an entry for the language.
pub open spec fn mentioned(records: Seq<RepoInfo>, name: Seq<char>) -> bool {
    exists|i: int| 0 <= i < records.len() && has_name((#[trigger] records[i]).language_loc_map@, name)
}

/// The magnitudes of `n` entries add up to at most `n` times the largest
/// magnitude there is.
pub proof fn lemma_lines_sum_bound(entries: Seq<LOCData>)
    ensures
        lines_sum(entries) <= entries.len() * 0xffff_ffff,
    decreases entries.len(),
{
    if entries.len() > 0 {
        lemma_lines_sum_bound(entries.drop_last());
    }
}

/// A language without an entry has no magnitude.
pub proof fn lemma_lines_of_absent(entries: Seq<LOCData>, name: Seq<char>)
    requires
        !has_name(entries, name),
    ensures
        lines_of(entries, name) == 0,
    decreases entries.len(),
{
    if entries.len() > 0 {
        let front = entries.drop_last();
        lemma_lines_of_absent(front, name);
    }
}

/// Where no name occurs twice, the magnitude that the entries give to a
/// language is the one that their mapping holds for it, and zero where it
/// holds none.
pub proof fn lemma_lines_of_mapping(entries: Seq<LOCData>, name: Seq<char>)
    requires
        names_ascend(entries),
    ensures
        lines_of(entries, name) == if entries_map(entries).contains_key(name) {
            entries_map(entries)[name] as nat
        } else {
            0
        },
    decreases entries.len(),
{
    if entries.len() > 0 {
        let front = entries.drop_last();
        let last = entries.last();
        if last.language@ == name {
            lemma_lines_of_absent(front, name);
        } else {
            lemma_lines_of_mapping(front, name);
        }
    }
}

/// One more entry adds its magnitude to its own language and to the sum.
pub proof fn lemma_lines_step(entries: Seq<LOCData>, j: int, name: Seq<char>)
    requires
        0 <= j < entries.len(),
    ensures
        lines_of(entries.take(j + 1), name) == lines_of(entries.take(j), name) + if entries[j].language@
            == name {
            entries[j].lines_of_code as nat
        } else {
            0
        },
        lines_sum(entries.take(j + 1)) == lines_sum(entries.take(j)) + entries[j].lines_of_code,
{
    assert(entries.take(j + 1).drop_last() =~= entries.take(j));
}

/// The magnitudes of the first entries are part of the magnitudes of all.
pub proof fn lemma_lines_sum_grows(entries: Seq<LOCData>, j: int)
    requires
        0 <= j <= entries.len(),
    ensures
        lines_sum(entries.take(j)) <= lines_sum(entries),
    decreases entries.len() - j,
{
    if j < entries.len() {
        lemma_lines_step(entries, j, Seq::empty());
        lemma_lines_sum_grows(entries, j + 1);
    } else {
        assert(entries.take(j) =~= entries);
    }
}

/// One more record adds its share to each total.
pub proof fn lemma_record_step(records: Seq<RepoInfo>, weighted: bool, i: int)
    requires
        0 <= i < records.len(),
    ensures
        grand_total(records.take(i + 1), weighted) == grand_total(records.take(i), weighted)
            + lines_sum(records[i].language_loc_map@) * weight(records[i], weighted),
        stars_total(records.take(i + 1), weighted) == stars_total(records.take(i), weighted) + (
        records[i].stars as nat) * weight(records[i], weighted),
        forall|name: Seq<char>| #[trigger]
            language_total(records.take(i + 1), weighted, name) == language_total(
                records.take(i),
                weighted,
                name,
            ) + lines_of(records[i].language_loc_map@, name) * weight(records[i], weighted),
{
    assert(records.take(i + 1).drop_last() =~= records.take(i));
}

/// A language that no record mentions has the total zero.
pub proof fn lemma_language_total_unmentioned(
    records: Seq<RepoInfo>,
    weighted: bool,
    name: Seq<char>,
)
    requires
        !mentioned(records, name),
    ensures
        language_total(records, weighted, name) == 0,
    decreases records.len(),
{
    if records.len() > 0 {
        let front = records.drop_last();
        lemma_lines_of_absent(records.last().language_loc_map@, name);
        lemma_language_total_unmentioned(front, weighted, name);
    }
}

/// The total of all languages only grows with more records.
pub proof fn lemma_grand_total_grows(records: Seq<RepoInfo>, weighted: bool, i: int)
    requires
        0 <= i <= records.len(),
    ensures
        grand_total(records.take(i), weighted) <= grand_total(records, weighted),
    decreases records.len() - i,
{
    if i < records.len() {
        lemma_record_step(records, weighted, i);
        lemma_grand_total_grows(records, weighted, i + 1);
    } else {
        assert(records.take(i) =~= records);
    }
}

/// The weighted stars of `n` records are at most `n` times the largest number
/// of stars times the largest weight.
pub proof fn lemma_stars_total_bound(records: Seq<RepoInfo>, weighted: bool)
    ensures
        stars_total(records, weighted) <= records.len() * 0xffff_fffe_0000_0001,
    decreases records.len(),
{
    if records.len() > 0 {
        lemma_stars_total_bound(records.drop_last(), weighted);
        let s = records.last().stars as nat;
        let w = weight(records.last(), weighted);
        assert(s * w <= 0xffff_fffe_0000_0001) by (nonlinear_arith)
            requires
                s <= 0xffff_ffff,
                w <= 0xffff_ffff,
        ;
    }
}

/// The factor by which a record counts.
pub fn weight_of(record: &RepoInfo, weighted: bool) -> (w: u32)
    ensures
        w == weight(*record, weighted),
{
    if weighted {
        record.ratio_of_commits_from_user
    } else {
        RATIO_SCALE
    }
}

/// The stars of all records, each counted by the record's weight, in parts of
/// [`RATIO_SCALE`] of a star.
pub fn total_stars(records: &Vec<RepoInfo>, weighted: bool) -> (stars: u128)
    ensures
        stars == stars_total(records@, weighted),
{
    let mut stars: u128 = 0;
    let mut i: usize = 0;
    while i < records.len()
        invariant
            i <= records.len(),
            stars == stars_total(records@.take(i as int), weighted),
        decreases records.len() - i,
    {
        let w: u32 = weight_of(&records[i], weighted);
        proof {
            lemma_record_step(records@, weighted, i as int);
            lemma_stars_total_bound(records@.take(i + 1), weighted);
        }
        stars = stars + (records[i].stars as u128) * (w as u128);
        i = i + 1;
    }
    proof {
        assert(records@.take(i as int) =~= records@);
    }
    stars
}

/// The magnitudes of all entries of one record together.
pub fn record_lines(entries: &Vec<LOCData>) -> (lines: u128)
    ensures
        lines == lines_sum(entries@),
{
    let mut lines: u128 = 0;
    let mut j: usize = 0;
    while j < entries.len()
        invariant
            j <= entries.len(),
            lines == lines_sum(entries@.take(j as int)),
        decreases entries.len() - j,
    {
        proof {
            lemma_lines_step(entries@, j as int, Seq::empty());
            lemma_lines_sum_bound(entries@.take(j as int));
        }
        lines = lines + entries[j].lines_of_code as u128;
        j = j + 1;
    }
    proof {
        assert(entries@.take(j as int) =~= entries@);
    }
    lines
}

/// The total of all languages over all records, in parts of [`RATIO_SCALE`]
/// of a unit of magnitude, unless it is larger than [`MAX_TOTAL`].
pub fn sum_of_components(records: &Vec<RepoInfo>, weighted: bool) -> (sum: Option<u128>)
    ensures
        match sum {
            Some(total) => total == grand_total(records@, weighted) && total <= MAX_TOTAL,
            None => grand_total(records@, weighted) > MAX_TOTAL,
        },
{
    let mut total: u128 = 0;
    let mut i: usize = 0;
    while i < records.len()
        invariant
            i <= records.len(),
            total == grand_total(records@.take(i as int), weighted),
            total <= MAX_TOTAL,
        decreases records.len() - i,
    {
        let w: u32 = weight_of(&records[i], weighted);
        let lines: u128 = record_lines(&records[i].language_loc_map);
        let entries: usize = records[i].language_loc_map.len();
        proof {
            lemma_record_step(records@, weighted, i as int);
            lemma_grand_total_grows(records@, weighted, i + 1);
            lemma_lines_sum_bound(records@[i as int].language_loc_map@);
            assert((lines as nat) * (w as nat) <= 0xffff_ffff_ffff_ffff * 0xffff_ffff * 0xffff_ffff)
                by (nonlinear_arith)
                requires
                    lines <= entries * 0xffff_ffff,
                    entries <= 0xffff_ffff_ffff_ffff,
                    w <= 0xffff_ffff,
            ;
        }
        let part: u128 = lines * (w as u128);
        if part > MAX_TOTAL - total {
            return None;
        }
        total = total + part;
        i = i + 1;
    }
    proof {
        assert(records@.take(i as int) =~= records@);
    }
    Some(total)
}

} // verus!
