//! The per-repository analyzer: the user's share of the contributions, the
//! language mapping that is kept, and the steps that lead to a record.

use vstd::prelude::*;
use vstd::string::*;
use crate::client::{loc_request, loc_request_of, GitHub, Request};
use crate::model::{
    entries_map, has_name, lemma_entries_map_names, lemma_entries_map_value, names_ascend,
    ContributorData, LOCData, RepoData, RepoInfo, RATIO_SCALE,
};
use crate::text::{
    ascii_lower, lemma_precedes_total, lemma_precedes_transitive, name_precedes, precedes,
    same_ignoring_case, to_ascii_lowercase,
};

verus! {

/// Why a repository was left out of the aggregate.
#[derive(Debug, Clone, Copy, PartialEq, Eq, Structural)]
pub enum SkipReason {
    /// The contributor list could not be fetched.
    ContributorsUnavailable,
    /// The contributor list did not have the expected shape.
    ContributorsMalformed,
    /// The user is not among the contributors.
    UserAbsent,
    /// The contributions of all contributors add up to zero.
    NoContributions,
    /// The language breakdown could not be fetched.
    LanguagesUnavailable,
    /// The language breakdown did not have the expected shape.
    LanguagesMalformed,
    /// An event arrived that the state did not wait for.
    OutOfTurn,
}

/// The contributor is the user, up to the case of ASCII letters.
pub open spec fn is_user(c: ContributorData, user: Seq<char>) -> bool {
    same_ignoring_case(c.login@, user)
}

/// The user is among the contributors.
pub open spec fn has_user(contributors: Seq<ContributorData>, user: Seq<char>) -> bool {
    exists|i: int| 0 <= i < contributors.len() && is_user(#[trigger] contributors[i], user)
}

/// `i` is the first contributor that is the user.
pub open spec fn first_user(contributors: Seq<ContributorData>, user: Seq<char>, i: int) -> bool {
    &&& 0 <= i < contributors.len()
    &&& is_user(contributors[i], user)
    &&& forall|k: int| 0 <= k < i ==> !is_user(#[trigger] contributors[k], user)
}

/// The position of the first contributor that is the user.
pub open spec fn user_index(contributors: Seq<ContributorData>, user: Seq<char>) -> int {
    choose|i: int| first_user(contributors, user, i)
}

/// The contributions of all contributors together.
pub open spec fn contributions_sum(contributors: Seq<ContributorData>) -> nat
    decreases contributors.len(),
{
    if contributors.len() == 0 {
        0
    } else {
        contributions_sum(contributors.drop_last()) + contributors.last().contributions as nat
    }
}

/// The user's share of the contributions in parts of [`RATIO_SCALE`], rounded
/// down, or the reason why there is none: the user is absent, or nobody
/// contributed anything.
pub open spec fn contribution_ratio_of(contributors: Seq<ContributorData>, user: Seq<char>) -> Result<
    nat,
    SkipReason,
> {
    if !has_user(contributors, user) {
        Err(SkipReason::UserAbsent)
    } else if contributions_sum(contributors) == 0 {
        Err(SkipReason::NoContributions)
    } else {
        Ok(
            ((contributors[user_index(contributors, user)].contributions as nat) * (
            RATIO_SCALE as nat) / contributions_sum(contributors)) as nat,
        )
    }
}

/// Every contributor's count is part of the sum.
pub proof fn lemma_contribution_within_sum(contributors: Seq<ContributorData>, i: int)
    requires
        0 <= i < contributors.len(),
    ensures
        contributors[i].contributions <= contributions_sum(contributors),
    decreases contributors.len(),
{
    if i < contributors.len() - 1 {
        lemma_contribution_within_sum(contributors.drop_last(), i);
    }
}

/// The sum of `n` counts is at most `n` times the largest count there is.
pub proof fn lemma_contributions_sum_bound(contributors: Seq<ContributorData>)
    ensures
        contributions_sum(contributors) <= contributors.len() * 0xffff_ffff,
    decreases contributors.len(),
{
    if contributors.len() > 0 {
        lemma_contributions_sum_bound(contributors.drop_last());
    }
}

/// The first contributor that is the user is the one that `user_index` names.
pub proof fn lemma_first_user_unique(contributors: Seq<ContributorData>, user: Seq<char>, i: int)
    requires
        first_user(contributors, user, i),
    ensures
        has_user(contributors, user),
        user_index(contributors, user) == i,
{
}

/// Where the user is among the contributors, one of them is the first.
pub proof fn lemma_first_user_exists(contributors: Seq<ContributorData>, user: Seq<char>, k: int)
    requires
        0 <= k < contributors.len(),
        is_user(contributors[k], user),
    ensures
        first_user(contributors, user, user_index(contributors, user)),
        user_index(contributors, user) <= k,
    decreases k,
{
    if exists|j: int| 0 <= j < k && is_user(#[trigger] contributors[j], user) {
        let j = choose|j: int| 0 <= j < k && is_user(#[trigger] contributors[j], user);
        lemma_first_user_exists(contributors, user, j);
    } else {
        lemma_first_user_unique(contributors, user, k);
    }
}

/// A share of the contributions is at most one.
pub proof fn lemma_ratio_within_one(contributors: Seq<ContributorData>, user: Seq<char>)
    ensures
        contribution_ratio_of(contributors, user) matches Ok(ratio) ==> ratio <= RATIO_SCALE,
{
    if has_user(contributors, user) && contributions_sum(contributors) > 0 {
        let k = choose|k: int| 0 <= k < contributors.len() && is_user(
            #[trigger] contributors[k],
            user,
        );
        lemma_first_user_exists(contributors, user, k);
        let i = user_index(contributors, user);
        lemma_contribution_within_sum(contributors, i);
        let own = contributors[i].contributions as int;
        let total = contributions_sum(contributors) as int;
        assert(own * 1_000_000_000 / total <= 1_000_000_000) by (nonlinear_arith)
            requires
                0 <= own <= total,
                total > 0,
        ;
    }
}

/// Adds up the contributions of all contributors.
pub fn total_contributions(contributors: &Vec<ContributorData>) -> (total: u128)
    ensures
        total == contributions_sum(contributors@),
{
    let mut total: u128 = 0;
    let mut i: usize = 0;
    while i < contributors.len()
        invariant
            i <= contributors.len(),
            total == contributions_sum(contributors@.take(i as int)),
        decreases contributors.len() - i,
    {
        proof {
            lemma_contributions_sum_bound(contributors@.take(i as int));
            assert(contributors@.take(i + 1).drop_last() =~= contributors@.take(i as int));
        }
        total = total + contributors[i].contributions as u128;
        i = i + 1;
    }
    proof {
        assert(contributors@.take(i as int) =~= contributors@);
    }
    total
}

/// Finds the first contributor whose login is the user's name up to the case
/// of ASCII letters.
pub fn find_contributor(contributors: &Vec<ContributorData>, user: &str) -> (found: Option<usize>)
    ensures
        match found {
            Some(i) => first_user(contributors@, user@, i as int),
            None => !has_user(contributors@, user@),
        },
{
    let wanted: String = to_ascii_lowercase(user);
    let mut i: usize = 0;
    while i < contributors.len()
        invariant
            i <= contributors.len(),
            wanted@ == ascii_lower(user@),
            forall|k: int| 0 <= k < i ==> !is_user(#[trigger] contributors@[k], user@),
        decreases contributors.len() - i,
    {
        let login: String = to_ascii_lowercase(contributors[i].login.as_str());
        if login == wanted {
            return Some(i);
        }
        i = i + 1;
    }
    None
}

/// The user's share of the contributions to a repository, in parts of
/// [`RATIO_SCALE`] and rounded down. There is none where the user is not among
/// the contributors or where the contributions add up to zero.
pub fn contribution_ratio(contributors: &Vec<ContributorData>, user: &str) -> (r: Result<
    u32,
    SkipReason,
>)
    ensures
        match r {
            Ok(ratio) => contribution_ratio_of(contributors@, user@) == Ok::<nat, SkipReason>(
                ratio as nat,
            ) && ratio <= RATIO_SCALE,
            Err(reason) => contribution_ratio_of(contributors@, user@) == Err::<nat, SkipReason>(
                reason,
            ),
        },
{
    let total: u128 = total_contributions(contributors);
    match find_contributor(contributors, user) {
        None => Err(SkipReason::UserAbsent),
        Some(i) => {
            if total == 0 {
                Err(SkipReason::NoContributions)
            } else {
                let own: u128 = contributors[i].contributions as u128;
                proof {
                    lemma_ratio_within_one(contributors@, user@);
                }
                let ratio: u128 = own * (RATIO_SCALE as u128) / total;
                Ok(ratio as u32)
            }
        },
    }
}

/// The name stands in the list.
pub open spec fn listed(names: Seq<String>, name: Seq<char>) -> bool {
    exists|k: int| 0 <= k < names.len() && (#[trigger] names[k])@ == name
}

/// A language is kept unless it is the pseudo-language "Total" or its name,
/// folded to lower case, stands in the exclusion list.
pub open spec fn kept(language: Seq<char>, excluded: Seq<String>) -> bool {
    language != "Total"@ && !listed(excluded, ascii_lower(language))
}

/// The mapping from language to magnitude that is kept of a breakdown: the
/// entries that pass [`kept`], a later entry replacing an earlier one of the
/// same name.
pub open spec fn language_map_of(langs: Seq<LOCData>, excluded: Seq<String>) -> Map<
    Seq<char>,
    u32,
>
    decreases langs.len(),
{
    if langs.len() == 0 {
        Map::empty()
    } else if kept(langs.last().language@, excluded) {
        language_map_of(langs.drop_last(), excluded).insert(
            langs.last().language@,
            langs.last().lines_of_code,
        )
    } else {
        language_map_of(langs.drop_last(), excluded)
    }
}

/// Whether the name stands in the list.
pub fn is_listed(names: &Vec<String>, name: &String) -> (r: bool)
    ensures
        r == listed(names@, name@),
{
    let mut i: usize = 0;
    while i < names.len()
        invariant
            i <= names.len(),
            forall|k: int| 0 <= k < i ==> (#[trigger] names@[k])@ != name@,
        decreases names.len() - i,
    {
        if names[i] == *name {
            return true;
        }
        i = i + 1;
    }
    false
}

/// Sets the magnitude of a language in a list that is held in ascending order
/// of the names: an entry of that name is replaced, a new one is put in its
/// place in the order.
pub fn upsert(entries: &mut Vec<LOCData>, language: String, lines_of_code: u32)
    requires
        names_ascend(old(entries)@),
    ensures
        names_ascend(final(entries)@),
        entries_map(final(entries)@) == entries_map(old(entries)@).insert(
            language@,
            lines_of_code,
        ),
{
    let ghost before = entries@;
    let mut p: usize = 0;
    while p < entries.len() && precedes(entries[p].language.as_str(), language.as_str())
        invariant
            p <= entries.len(),
            entries@ == before,
            forall|k: int| 0 <= k < p ==> name_precedes(#[trigger] before[k].language@, language@),
        decreases entries.len() - p,
    {
        p = p + 1;
    }
    let replace: bool = p < entries.len() && entries[p].language == language;
    if replace {
        entries[p].lines_of_code = lines_of_code;
    } else {
        entries.insert(p, LOCData { language, lines_of_code });
    }
    proof {
        let after = entries@;
        let at = p as int;
        if !replace && at < before.len() {
            lemma_precedes_total(before[at].language@, language@);
        }
        assert forall|i: int, j: int| 0 <= i < j < after.len() implies name_precedes(
            #[trigger] after[i].language@,
            #[trigger] after[j].language@,
        ) by {
            if !replace && i == at && at < j - 1 {
                lemma_precedes_transitive(
                    language@,
                    before[at].language@,
                    before[j - 1].language@,
                );
            }
        }
        lemma_entries_map_names(before);
        lemma_entries_map_names(after);
        let want = entries_map(before).insert(language@, lines_of_code);
        assert forall|name: Seq<char>| #[trigger]
            entries_map(after).dom().contains(name) implies want.dom().contains(name) by {
            assert(has_name(after, name));
            if name != language@ {
                assert(has_name(before, name));
            }
        }
        assert forall|name: Seq<char>| #[trigger]
            want.dom().contains(name) implies entries_map(after).dom().contains(name)
            && entries_map(after)[name] == want[name] by {
            if name == language@ {
                lemma_entries_map_value(after, at);
            } else {
                assert(has_name(before, name));
                let b = choose|b: int|
                    0 <= b < before.len() && (#[trigger] before[b]).language@ == name;
                let k = if replace || b < at {
                    b
                } else {
                    b + 1
                };
                lemma_entries_map_value(after, k);
                lemma_entries_map_value(before, b);
            }
        }
    }
}

/// The languages that are kept of a breakdown, with their magnitudes, in
/// ascending order of their names.
pub fn language_map(langs: &Vec<LOCData>, excluded: &Vec<String>) -> (entries: Vec<LOCData>)
    ensures
        names_ascend(entries@),
        entries_map(entries@) == language_map_of(langs@, excluded@),
{
    let total_name: String = String::from_str("Total");
    let mut entries: Vec<LOCData> = Vec::new();
    let mut i: usize = 0;
    while i < langs.len()
        invariant
            i <= langs.len(),
            total_name@ == "Total"@,
            names_ascend(entries@),
            entries_map(entries@) == language_map_of(langs@.take(i as int), excluded@),
        decreases langs.len() - i,
    {
        proof {
            assert(langs@.take(i + 1).drop_last() =~= langs@.take(i as int));
        }
        let folded: String = to_ascii_lowercase(langs[i].language.as_str());
        if langs[i].language != total_name && !is_listed(excluded, &folded) {
            upsert(&mut entries, langs[i].language.clone(), langs[i].lines_of_code);
        }
        i = i + 1;
    }
    proof {
        assert(langs@.take(i as int) =~= langs@);
    }
    entries
}

/// What came of fetching a list and reading it.
#[derive(Debug, Clone, PartialEq, Eq)]
pub enum Fetched<T> {
    /// The body had the expected shape; these are its items.
    Parsed(T),
    /// The body did not have the expected shape.
    Malformed,
    /// The request failed.
    Unavailable,
}

/// How far the analysis of one repository has come.
#[derive(Debug, Clone, Copy, PartialEq, Eq, Structural)]
pub enum RepoState {
    /// Nothing was asked for yet.
    Start,
    /// The contributor list was asked for.
    Contributors,
    /// The user's share is known and the language breakdown was asked for.
    Languages { ratio: u32 },
    /// The repository was recorded or skipped.
    Finished,
}

/// What happened since the last step.
#[derive(Debug, Clone, PartialEq, Eq)]
pub enum RepoEvent {
    /// The analysis begins.
    Begin,
    /// The contributor list came back.
    Contributors(Fetched<Vec<ContributorData>>),
    /// The language breakdown came back.
    Languages(Fetched<Vec<LOCData>>),
}

/// What is to be done next.
#[derive(Debug, Clone, PartialEq, Eq)]
pub enum RepoAction {
    /// Send the request and come back with what it gave.
    Fetch(Request),
    /// Leave the repository out of the aggregate.
    Skip(SkipReason),
    /// Hand the record to the aggregator.
    Record(RepoInfo),
}

/// The record of a repository: the kept languages of the breakdown in
/// ascending order of their names, the user's share, and the stars.
pub open spec fn is_record_of(
    info: RepoInfo,
    repo: RepoData,
    ratio: u32,
    langs: Seq<LOCData>,
    excluded: Seq<String>,
) -> bool {
    &&& names_ascend(info.language_loc_map@)
    &&& info.languages() == language_map_of(langs, excluded)
    &&& info.ratio_of_commits_from_user == ratio
    &&& info.stars == repo.stargazers_count
}

/// One step of the analysis of a repository: from a state and the event that
/// came, to the next state and what is to be done.
///
/// At the beginning the contributor list is asked for. When it has come, the
/// user's share decides: with a share the language breakdown is asked for,
/// without one the repository is skipped. When the breakdown has come, the
/// repository is recorded. A list that could not be fetched or read skips the
/// repository, and so does an event that the state did not wait for.
pub open spec fn repo_step(
    repo: RepoData,
    connection: GitHub,
    state: RepoState,
    event: RepoEvent,
    next: RepoState,
    action: RepoAction,
) -> bool {
    match (state, event) {
        (RepoState::Start, RepoEvent::Begin) => {
            &&& next == RepoState::Contributors
            &&& action matches RepoAction::Fetch(request)
            &&& request@ == connection.request_for(repo.contributors_url@)
        },
        (RepoState::Contributors, RepoEvent::Contributors(Fetched::Parsed(contributors))) => {
            match contribution_ratio_of(contributors@, connection.user@) {
                Ok(ratio) => {
                    &&& next == (RepoState::Languages { ratio: ratio as u32 })
                    &&& ratio <= RATIO_SCALE
                    &&& action matches RepoAction::Fetch(request)
                    &&& request@ == loc_request_of(repo.full_name@)
                },
                Err(reason) => next == RepoState::Finished && action == RepoAction::Skip(reason),
            }
        },
        (RepoState::Contributors, RepoEvent::Contributors(Fetched::Malformed)) => {
            next == RepoState::Finished && action == RepoAction::Skip(
                SkipReason::ContributorsMalformed,
            )
        },
        (RepoState::Contributors, RepoEvent::Contributors(Fetched::Unavailable)) => {
            next == RepoState::Finished && action == RepoAction::Skip(
                SkipReason::ContributorsUnavailable,
            )
        },
        (RepoState::Languages { ratio }, RepoEvent::Languages(Fetched::Parsed(langs))) => {
            if ratio <= RATIO_SCALE {
                &&& next == RepoState::Finished
                &&& action matches RepoAction::Record(info)
                &&& is_record_of(info, repo, ratio, langs@, connection.excluded_langs@)
            } else {
                next == RepoState::Finished && action == RepoAction::Skip(SkipReason::OutOfTurn)
            }
        },
        (RepoState::Languages { ratio }, RepoEvent::Languages(Fetched::Malformed)) => {
            next == RepoState::Finished && action == RepoAction::Skip(
                SkipReason::LanguagesMalformed,
            )
        },
        (RepoState::Languages { ratio }, RepoEvent::Languages(Fetched::Unavailable)) => {
            next == RepoState::Finished && action == RepoAction::Skip(
                SkipReason::LanguagesUnavailable,
            )
        },
        _ => next == RepoState::Finished && action == RepoAction::Skip(SkipReason::OutOfTurn),
    }
}

/// Takes the analysis of a repository one step further: see [`repo_step`].
pub fn handle_repo(repo: &RepoData, connection: &GitHub, state: RepoState, event: RepoEvent) -> (r:
    (RepoState, RepoAction))
    ensures
        repo_step(*repo, *connection, state, event, r.0, r.1),
        r.1 matches RepoAction::Record(info) ==> info.wf(),
{
    match (state, event) {
        (RepoState::Start, RepoEvent::Begin) => {
            (RepoState::Contributors, RepoAction::Fetch(connection.get(repo.contributors_url.as_str())))
        },
        (RepoState::Contributors, RepoEvent::Contributors(Fetched::Parsed(contributors))) => {
            match contribution_ratio(&contributors, connection.user.as_str()) {
                Ok(ratio) => (RepoState::Languages { ratio }, RepoAction::Fetch(loc_request(repo))),
                Err(reason) => (RepoState::Finished, RepoAction::Skip(reason)),
            }
        },
        (RepoState::Contributors, RepoEvent::Contributors(Fetched::Malformed)) => {
            (RepoState::Finished, RepoAction::Skip(SkipReason::ContributorsMalformed))
        },
        (RepoState::Contributors, RepoEvent::Contributors(Fetched::Unavailable)) => {
            (RepoState::Finished, RepoAction::Skip(SkipReason::ContributorsUnavailable))
        },
        (RepoState::Languages { ratio }, RepoEvent::Languages(Fetched::Parsed(langs))) => {
            if ratio <= RATIO_SCALE {
                let language_loc_map: Vec<LOCData> = language_map(&langs, &connection.excluded_langs);
                let info = RepoInfo {
                    language_loc_map,
                    ratio_of_commits_from_user: ratio,
                    stars: repo.stargazers_count,
                };
                (RepoState::Finished, RepoAction::Record(info))
            } else {
                (RepoState::Finished, RepoAction::Skip(SkipReason::OutOfTurn))
            }
        },
        (RepoState::Languages { ratio: _ }, RepoEvent::Languages(Fetched::Malformed)) => {
            (RepoState::Finished, RepoAction::Skip(SkipReason::LanguagesMalformed))
        },
        (RepoState::Languages { ratio: _ }, RepoEvent::Languages(Fetched::Unavailable)) => {
            (RepoState::Finished, RepoAction::Skip(SkipReason::LanguagesUnavailable))
        },
        _ => (RepoState::Finished, RepoAction::Skip(SkipReason::OutOfTurn)),
    }
}

/// What the kept mapping holds was kept: its name is neither "Total" nor
/// listed, and the breakdown has an entry of that name.
pub proof fn lemma_only_kept_languages(langs: Seq<LOCData>, excluded: Seq<String>, name: Seq<char>)
    requires
        language_map_of(langs, excluded).contains_key(name),
    ensures
        kept(name, excluded),
        has_name(langs, name),
    decreases langs.len(),
{
    if langs.len() > 0 {
        let front = langs.drop_last();
        if !kept(langs.last().language@, excluded) || langs.last().language@ != name {
            lemma_only_kept_languages(front, excluded, name);
        }
    }
}

/// An excluded language appears in no record, whatever the case of its
/// letters: where the configuration was made from an exclusion list that
/// holds the language's name up to the case of ASCII letters, the mapping
/// that is kept of any breakdown has no entry for the language.
pub proof fn lemma_excluded_language_absent(
    connection: GitHub,
    raw: Seq<String>,
    langs: Seq<LOCData>,
    name: Seq<char>,
)
    requires
        connection.excludes_folded(raw),
        exists|k: int| 0 <= k < raw.len() && same_ignoring_case((#[trigger] raw[k])@, name),
    ensures
        !language_map_of(langs, connection.excluded_langs@).contains_key(name),
{
    let excluded = connection.excluded_langs@;
    let k = choose|k: int| 0 <= k < raw.len() && same_ignoring_case((#[trigger] raw[k])@, name);
    assert(excluded[k]@ == ascii_lower(name));
    if language_map_of(langs, excluded).contains_key(name) {
        lemma_only_kept_languages(langs, excluded, name);
    }
}

/// An excluded language appears in no record: where the configuration was
/// made from an exclusion list that holds the language's name up to the case
/// of ASCII letters, no record that a step makes has an entry for the
/// language.
pub proof fn lemma_excluded_language_in_no_record(
    repo: RepoData,
    connection: GitHub,
    raw: Seq<String>,
    state: RepoState,
    event: RepoEvent,
    next: RepoState,
    action: RepoAction,
    name: Seq<char>,
)
    requires
        connection.excludes_folded(raw),
        exists|k: int| 0 <= k < raw.len() && same_ignoring_case((#[trigger] raw[k])@, name),
        repo_step(repo, connection, state, event, next, action),
        action is Record,
    ensures
        !has_name(action->Record_0.language_loc_map@, name),
        !action->Record_0.languages().contains_key(name),
{
    let info = action->Record_0;
    match event {
        RepoEvent::Languages(Fetched::Parsed(langs)) => {
            lemma_excluded_language_absent(connection, raw, langs@, name);
            lemma_entries_map_names(info.language_loc_map@);
        },
        _ => {},
    }
}

/// A record is only made of a repository to which the user contributed: where
/// the step after the contributor list and the step after it end in a record,
/// the user is among the contributors, the contributions do not add up to
/// zero, and the record's ratio is the user's share of them, which is at most
/// one.
pub proof fn lemma_record_needs_share(
    repo: RepoData,
    connection: GitHub,
    contributors: Vec<ContributorData>,
    after_first: RepoState,
    first_action: RepoAction,
    second_event: RepoEvent,
    after_second: RepoState,
    second_action: RepoAction,
)
    requires
        repo_step(
            repo,
            connection,
            RepoState::Contributors,
            RepoEvent::Contributors(Fetched::Parsed(contributors)),
            after_first,
            first_action,
        ),
        repo_step(repo, connection, after_first, second_event, after_second, second_action),
        second_action is Record,
    ensures
        has_user(contributors@, connection.user@),
        contributions_sum(contributors@) > 0,
        contribution_ratio_of(contributors@, connection.user@) == Ok::<nat, SkipReason>(
            second_action->Record_0.ratio_of_commits_from_user as nat,
        ),
        second_action->Record_0.ratio_of_commits_from_user <= RATIO_SCALE,
{
}

/// Only the step that takes a language breakdown in makes a record.
pub proof fn lemma_record_only_after_languages(
    repo: RepoData,
    connection: GitHub,
    state: RepoState,
    event: RepoEvent,
    next: RepoState,
    action: RepoAction,
)
    requires
        repo_step(repo, connection, state, event, next, action),
        action is Record,
    ensures
        state is Languages,
        event matches RepoEvent::Languages(Fetched::Parsed(_)),
        next == RepoState::Finished,
        action->Record_0.wf(),
{
}

/// The analysis of a repository whose two lists came in shape: the first step
/// asks for the contributors; where the user has a share of the
/// contributions the second asks for the line counts and the third makes the
/// record, with that share as its ratio; where the user has none the second
/// step skips the repository for the reason that there is none.
pub proof fn lemma_analysis_in_order(
    repo: RepoData,
    connection: GitHub,
    contributors: Vec<ContributorData>,
    langs: Vec<LOCData>,
    states: Seq<RepoState>,
    actions: Seq<RepoAction>,
)
    requires
        states.len() == 4,
        actions.len() == 3,
        states[0] == RepoState::Start,
        repo_step(repo, connection, states[0], RepoEvent::Begin, states[1], actions[0]),
        repo_step(
            repo,
            connection,
            states[1],
            RepoEvent::Contributors(Fetched::Parsed(contributors)),
            states[2],
            actions[1],
        ),
        repo_step(
            repo,
            connection,
            states[2],
            RepoEvent::Languages(Fetched::Parsed(langs)),
            states[3],
            actions[2],
        ),
    ensures
        actions[0] matches RepoAction::Fetch(request) && request@ == connection.request_for(
            repo.contributors_url@,
        ),
        match contribution_ratio_of(contributors@, connection.user@) {
            Ok(ratio) => {
                &&& actions[1] matches RepoAction::Fetch(request)
                &&& request@ == loc_request_of(repo.full_name@)
                &&& actions[2] matches RepoAction::Record(info)
                &&& is_record_of(info, repo, ratio as u32, langs@, connection.excluded_langs@)
                &&& info.wf()
            },
            Err(reason) => {
                &&& actions[1] == RepoAction::Skip(reason)
                &&& actions[2] == RepoAction::Skip(SkipReason::OutOfTurn)
            },
        },
{
}

} // verus!
