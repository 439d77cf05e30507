use github_stats::aggregate::{aggregate, AggregateError, AggregateResult};
use github_stats::rank::{goes_before, rank};
use github_stats::shares::{LanguageShare, FULL_SHARE};
use github_stats::totals::{
    record_lines, sum_of_components, total_stars, weight_of, MAX_TOTAL,
};
use github_stats::model::{LOCData, RepoInfo, RATIO_SCALE};

fn entry(language: &str, lines_of_code: u32) -> LOCData {
    LOCData { language: language.to_string(), lines_of_code }
}

fn record(languages: Vec<LOCData>, ratio: u32, stars: u32) -> RepoInfo {
    RepoInfo { language_loc_map: languages, ratio_of_commits_from_user: ratio, stars }
}

fn share(language: &str, total: u128, millipercent: u32) -> LanguageShare {
    LanguageShare { language: language.to_string(), total, millipercent }
}

fn two_repositories() -> Vec<RepoInfo> {
    vec![
        record(vec![entry("Go", 100)], RATIO_SCALE / 2, 10),
        record(vec![entry("Go", 100), entry("Rust", 100)], RATIO_SCALE, 5),
    ]
}

fn percent(share: &LanguageShare, result: &AggregateResult) -> f64 {
    share.total as f64 * 100.0 / result.sum_of_components as f64
}

fn stars(result: &AggregateResult) -> f64 {
    result.total_stars as f64 / RATIO_SCALE as f64
}

fn names(result: &AggregateResult) -> Vec<String> {
    result.language_percentages.iter().map(|s| s.language.clone()).collect()
}

#[test]
fn two_repositories_unweighted() {
    let result = aggregate(&two_repositories(), false).unwrap();
    assert_eq!(names(&result), vec!["Go".to_string(), "Rust".to_string()]);
    let go = &result.language_percentages[0];
    let rust = &result.language_percentages[1];
    assert_eq!(go.total, 200 * RATIO_SCALE as u128);
    assert_eq!(rust.total, 100 * RATIO_SCALE as u128);
    assert_eq!(result.sum_of_components, 300 * RATIO_SCALE as u128);
    assert_eq!(go.millipercent, 66_666);
    assert_eq!(rust.millipercent, 33_333);
    assert!((percent(go, &result) - 66.67).abs() < 0.01);
    assert!((percent(rust, &result) - 33.33).abs() < 0.01);
    assert_eq!(result.total_stars, 15 * RATIO_SCALE as u128);
    assert!((stars(&result) - 15.0).abs() < 1e-9);
}

#[test]
fn two_repositories_weighted() {
    let result = aggregate(&two_repositories(), true).unwrap();
    assert_eq!(names(&result), vec!["Go".to_string(), "Rust".to_string()]);
    let go = &result.language_percentages[0];
    let rust = &result.language_percentages[1];
    assert_eq!(go.total, 150 * RATIO_SCALE as u128);
    assert_eq!(rust.total, 100 * RATIO_SCALE as u128);
    assert_eq!(result.sum_of_components, 250 * RATIO_SCALE as u128);
    assert_eq!(go.millipercent, 60_000);
    assert_eq!(rust.millipercent, 40_000);
    assert!((percent(go, &result) - 60.0).abs() < 1e-9);
    assert!((percent(rust, &result) - 40.0).abs() < 1e-9);
    assert_eq!(result.total_stars, 10 * RATIO_SCALE as u128);
    assert!((stars(&result) - 10.0).abs() < 1e-9);
}

#[test]
fn empty_aggregate_has_no_shares_and_no_stars() {
    let records: Vec<RepoInfo> = Vec::new();
    for weighted in [false, true] {
        let result = aggregate(&records, weighted).unwrap();
        assert!(result.language_percentages.is_empty());
        assert_eq!(result.sum_of_components, 0);
        assert_eq!(result.total_stars, 0);
    }
}

#[test]
fn zero_magnitudes_give_no_shares_but_keep_the_stars() {
    let records = vec![record(vec![entry("Go", 0), entry("Rust", 0)], RATIO_SCALE, 7)];
    let result = aggregate(&records, false).unwrap();
    assert!(result.language_percentages.is_empty());
    assert_eq!(result.sum_of_components, 0);
    assert_eq!(result.total_stars, 7 * RATIO_SCALE as u128);
}

#[test]
fn zero_ratio_gives_no_weighted_shares() {
    let records = vec![record(vec![entry("Go", 40)], 0, 7)];
    let weighted = aggregate(&records, true).unwrap();
    assert!(weighted.language_percentages.is_empty());
    assert_eq!(weighted.total_stars, 0);
    let unweighted = aggregate(&records, false).unwrap();
    assert_eq!(unweighted.language_percentages.len(), 1);
    assert_eq!(unweighted.language_percentages[0].millipercent, FULL_SHARE);
}

#[test]
fn language_with_zero_lines_keeps_its_share_of_zero() {
    let records = vec![record(vec![entry("Go", 10), entry("Zig", 0)], RATIO_SCALE, 0)];
    let result = aggregate(&records, false).unwrap();
    assert_eq!(names(&result), vec!["Go".to_string(), "Zig".to_string()]);
    assert_eq!(result.language_percentages[0].millipercent, 100_000);
    assert_eq!(result.language_percentages[1].millipercent, 0);
    assert_eq!(result.language_percentages[1].total, 0);
}

#[test]
fn shares_add_up_to_one_hundred_percent() {
    let records = vec![
        record(vec![entry("A", 1), entry("B", 1), entry("C", 1)], RATIO_SCALE / 3, 1),
        record(vec![entry("B", 7), entry("D", 13)], RATIO_SCALE / 7, 2),
        record(vec![entry("E", 999_983), entry("A", 17)], 123_456_789, 3),
    ];
    for weighted in [false, true] {
        let result = aggregate(&records, weighted).unwrap();
        let count = result.language_percentages.len() as u64;
        assert_eq!(count, 5);
        let millis: u64 = result.language_percentages.iter().map(|s| s.millipercent as u64).sum();
        assert!(millis <= FULL_SHARE as u64);
        assert!(millis + count > FULL_SHARE as u64);
        let totals: u128 = result.language_percentages.iter().map(|s| s.total).sum();
        assert_eq!(totals, result.sum_of_components);
        let exact: f64 = result.language_percentages.iter().map(|s| percent(s, &result)).sum();
        assert!((exact - 100.0).abs() < 1e-3);
        for s in result.language_percentages.iter() {
            assert!(s.millipercent <= FULL_SHARE);
            assert_eq!(
                s.millipercent as u128,
                s.total * FULL_SHARE as u128 / result.sum_of_components
            );
        }
    }
}

#[test]
fn shares_are_rounded_down() {
    let records = vec![record(vec![entry("A", 1), entry("B", 2)], RATIO_SCALE, 0)];
    let result = aggregate(&records, false).unwrap();
    assert_eq!(names(&result), vec!["B".to_string(), "A".to_string()]);
    assert_eq!(result.language_percentages[0].millipercent, 66_666);
    assert_eq!(result.language_percentages[1].millipercent, 33_333);
}

#[test]
fn larger_share_comes_first_and_ties_go_by_name() {
    let records = vec![
        record(vec![entry("Zig", 50), entry("Ada", 50), entry("C", 300)], RATIO_SCALE, 0),
        record(vec![entry("Lua", 50), entry("ada", 50)], RATIO_SCALE, 0),
    ];
    let result = aggregate(&records, false).unwrap();
    assert_eq!(
        names(&result),
        vec![
            "C".to_string(),
            "Ada".to_string(),
            "Lua".to_string(),
            "Zig".to_string(),
            "ada".to_string()
        ]
    );
    assert_eq!(result.language_percentages[0].millipercent, 60_000);
    for s in result.language_percentages[1..].iter() {
        assert_eq!(s.millipercent, 10_000);
    }
}

#[test]
fn ties_within_a_thousandth_of_a_percent_go_by_name() {
    let records = vec![record(
        vec![entry("B", 1_000_000_002), entry("A", 1_000_000_001), entry("C", 2_000_000_000)],
        RATIO_SCALE,
        0,
    )];
    let result = aggregate(&records, false).unwrap();
    assert_eq!(names(&result), vec!["C".to_string(), "A".to_string(), "B".to_string()]);
    assert_eq!(result.language_percentages[0].millipercent, 49_999);
    assert_eq!(result.language_percentages[1].millipercent, 25_000);
    assert_eq!(result.language_percentages[2].millipercent, 25_000);
    assert!(result.language_percentages[1].total < result.language_percentages[2].total);
}

#[test]
fn a_thousandth_of_a_percent_more_comes_first() {
    let records =
        vec![record(vec![entry("A", 1_000_000), entry("B", 1_000_001)], RATIO_SCALE, 0)];
    let result = aggregate(&records, false).unwrap();
    assert_eq!(names(&result), vec!["B".to_string(), "A".to_string()]);
    assert_eq!(result.language_percentages[0].millipercent, 50_000);
    assert_eq!(result.language_percentages[1].millipercent, 49_999);
}

#[test]
fn language_names_are_case_sensitive_in_the_aggregate() {
    let records = vec![
        record(vec![entry("go", 1)], RATIO_SCALE, 0),
        record(vec![entry("Go", 3)], RATIO_SCALE, 0),
    ];
    let result = aggregate(&records, false).unwrap();
    assert_eq!(names(&result), vec!["Go".to_string(), "go".to_string()]);
    assert_eq!(result.language_percentages[0].millipercent, 75_000);
    assert_eq!(result.language_percentages[1].millipercent, 25_000);
}

#[test]
fn weighting_scales_each_record_by_its_ratio() {
    let records = vec![
        record(vec![entry("Go", 1000)], RATIO_SCALE / 4, 8),
        record(vec![entry("Go", 1000), entry("C", 500)], RATIO_SCALE / 2, 4),
    ];
    let weighted = aggregate(&records, true).unwrap();
    let unweighted = aggregate(&records, false).unwrap();
    let scale = RATIO_SCALE as u128;
    assert_eq!(unweighted.language_percentages[0].total, 2000 * scale);
    assert_eq!(weighted.language_percentages[0].total, 250 * scale + 500 * scale);
    assert_eq!(weighted.language_percentages[1].total, 250 * scale);
    assert_eq!(unweighted.total_stars, 12 * scale);
    assert_eq!(weighted.total_stars, 2 * scale + 2 * scale);
    for (w, u) in weighted.language_percentages.iter().zip(unweighted.language_percentages.iter()) {
        assert_eq!(w.language, u.language);
        assert!(w.total <= u.total);
    }
    assert!(weighted.sum_of_components <= unweighted.sum_of_components);
}

#[test]
fn one_ratio_for_all_records_keeps_the_shares() {
    let ratio = 300_000_000;
    let records = vec![
        record(vec![entry("Go", 123), entry("C", 77)], ratio, 8),
        record(vec![entry("Go", 5), entry("Rust", 1)], ratio, 4),
    ];
    let weighted = aggregate(&records, true).unwrap();
    let unweighted = aggregate(&records, false).unwrap();
    assert_eq!(weighted.language_percentages.len(), 3);
    for (w, u) in weighted.language_percentages.iter().zip(unweighted.language_percentages.iter()) {
        assert_eq!(w.language, u.language);
        assert_eq!(w.millipercent, u.millipercent);
        assert_eq!(w.total * RATIO_SCALE as u128, u.total * ratio as u128);
    }
    assert_eq!(
        weighted.total_stars * RATIO_SCALE as u128,
        unweighted.total_stars * ratio as u128
    );
}

#[test]
fn full_ratio_makes_weighting_change_nothing() {
    let records = vec![
        record(vec![entry("Go", 123), entry("C", 77)], RATIO_SCALE, 8),
        record(vec![entry("Go", 5)], RATIO_SCALE, 4),
    ];
    assert_eq!(aggregate(&records, true), aggregate(&records, false));
}

#[test]
fn a_repository_seen_twice_counts_twice() {
    let once = vec![record(vec![entry("Go", 10)], RATIO_SCALE, 3)];
    let twice = vec![once[0].clone(), once[0].clone()];
    let result = aggregate(&twice, false).unwrap();
    assert_eq!(result.language_percentages[0].total, 20 * RATIO_SCALE as u128);
    assert_eq!(result.total_stars, 6 * RATIO_SCALE as u128);
}

#[test]
fn largest_magnitudes_fit() {
    let records = vec![
        record(vec![entry("A", u32::MAX), entry("B", u32::MAX)], RATIO_SCALE, u32::MAX),
        record(vec![entry("A", u32::MAX)], u32::MAX, u32::MAX),
    ];
    let result = aggregate(&records, true).unwrap();
    let most = u32::MAX as u128;
    assert_eq!(result.sum_of_components, 2 * most * RATIO_SCALE as u128 + most * most);
    assert_eq!(result.total_stars, most * RATIO_SCALE as u128 + most * most);
    assert!(result.sum_of_components <= MAX_TOTAL);
    assert_ne!(aggregate(&records, true), Err(AggregateError::TooLarge));
}

#[test]
fn totals_of_the_parts() {
    let records = two_repositories();
    assert_eq!(weight_of(&records[0], true), RATIO_SCALE / 2);
    assert_eq!(weight_of(&records[0], false), RATIO_SCALE);
    assert_eq!(record_lines(&records[1].language_loc_map), 200);
    assert_eq!(record_lines(&Vec::new()), 0);
    assert_eq!(sum_of_components(&records, true), Some(250 * RATIO_SCALE as u128));
    assert_eq!(sum_of_components(&records, false), Some(300 * RATIO_SCALE as u128));
    assert_eq!(total_stars(&records, true), 10 * RATIO_SCALE as u128);
    assert_eq!(total_stars(&records, false), 15 * RATIO_SCALE as u128);
}

#[test]
fn rank_orders_by_share_then_by_name() {
    let shares = vec![
        share("b", 1, 10),
        share("a", 1, 10),
        share("z", 5, 50),
        share("c", 0, 0),
        share("B", 1, 10),
        share("ab", 1, 10),
    ];
    let ranked = rank(shares.clone());
    let order: Vec<&str> = ranked.iter().map(|s| s.language.as_str()).collect();
    assert_eq!(order, vec!["z", "B", "a", "ab", "b", "c"]);
    let mut expected = shares;
    expected.sort_by(|x, y| y.millipercent.cmp(&x.millipercent).then(x.language.cmp(&y.language)));
    assert_eq!(ranked, expected);
    assert!(rank(Vec::new()).is_empty());
}

#[test]
fn rank_keeps_equal_shares() {
    let shares = vec![share("a", 1, 10), share("a", 1, 10), share("a", 2, 10)];
    let ranked = rank(shares);
    assert_eq!(ranked.len(), 3);
    assert_eq!(ranked.iter().filter(|s| s.total == 1).count(), 2);
    assert_eq!(ranked.iter().filter(|s| s.total == 2).count(), 1);
}

#[test]
fn goes_before_is_the_order_of_presentation() {
    assert!(goes_before(&share("b", 0, 2), &share("a", 0, 1)));
    assert!(!goes_before(&share("a", 0, 1), &share("b", 0, 2)));
    assert!(goes_before(&share("a", 0, 1), &share("b", 0, 1)));
    assert!(!goes_before(&share("b", 0, 1), &share("a", 0, 1)));
    assert!(!goes_before(&share("a", 9, 1), &share("a", 0, 1)));
}
