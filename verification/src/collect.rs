//! The repository collector: which list is asked for next, and how the lists
//! that came are put together.

use vstd::prelude::*;
use crate::client::{profile_address, GitHub, Request};
use crate::model::{OrgData, RepoData, UserData};

verus! {

/// How far the collection has come.
#[derive(Debug, Clone, PartialEq, Eq)]
pub enum CollectState {
    /// Nothing was asked for yet.
    Start,
    /// The user's profile was asked for.
    Profile,
    /// The user's own repositories were asked for; the organisations are
    /// listed at `organizations_url`.
    UserRepos { organizations_url: String },
    /// The user's organisations were asked for; `repos` is what was found.
    Organizations { repos: Vec<RepoData> },
    /// The repositories of the organisation before `next` were asked for;
    /// `repos` is what was found before.
    OrgRepos { repos: Vec<RepoData>, orgs: Vec<OrgData>, next: usize },
    /// The collection is over.
    Finished,
}

/// What happened since the last step. There is no event for a list that
/// could not be fetched or read: such a failure ends the run.
#[derive(Debug, Clone, PartialEq, Eq)]
pub enum CollectEvent {
    /// The collection begins.
    Begin,
    /// The profile came back.
    Profile(UserData),
    /// A list of repositories came back.
    Repos(Vec<RepoData>),
    /// The list of organisations came back.
    Organizations(Vec<OrgData>),
}

/// What is to be done next.
#[derive(Debug, Clone, PartialEq, Eq)]
pub enum CollectAction {
    /// Send the request and come back with the list that it gave.
    Fetch(Request),
    /// These are all repositories, in the order in which they were found.
    Done(Vec<RepoData>),
    /// An event arrived that the state did not wait for.
    Abort,
}

/// One step of the collection: from a state and the event that came, to the
/// next state and what is to be done.
///
/// The profile is asked for first, then the user's own repositories, then the
/// organisations, then the repositories of each organisation in the order of
/// the memberships. Each list that comes is put behind what was found before.
/// After the last organisation all repositories are handed out.
pub open spec fn collect_step(
    connection: GitHub,
    state: CollectState,
    event: CollectEvent,
    next: CollectState,
    action: CollectAction,
) -> bool {
    match (state, event) {
        (CollectState::Start, CollectEvent::Begin) => {
            &&& next == CollectState::Profile
            &&& action matches CollectAction::Fetch(request)
            &&& request@ == connection.request_for(profile_address(connection.user@))
        },
        (CollectState::Profile, CollectEvent::Profile(profile)) => {
            &&& next == (CollectState::UserRepos { organizations_url: profile.organizations_url })
            &&& action matches CollectAction::Fetch(request)
            &&& request@ == connection.request_for(profile.repos_url@)
        },
        (CollectState::UserRepos { organizations_url }, CollectEvent::Repos(found)) => {
            &&& next == (CollectState::Organizations { repos: found })
            &&& action matches CollectAction::Fetch(request)
            &&& request@ == connection.request_for(organizations_url@)
        },
        (CollectState::Organizations { repos }, CollectEvent::Organizations(orgs)) => {
            if orgs@.len() == 0 {
                next == CollectState::Finished && action == CollectAction::Done(repos)
            } else {
                &&& next == (CollectState::OrgRepos { repos, orgs, next: 1 })
                &&& action matches CollectAction::Fetch(request)
                &&& request@ == connection.request_for(orgs@[0].repos_url@)
            }
        },
        (CollectState::OrgRepos { repos, orgs, next: at }, CollectEvent::Repos(found)) => {
            if at < orgs@.len() {
                &&& next matches CollectState::OrgRepos { repos: all, orgs: same, next: then }
                &&& all@ == repos@ + found@
                &&& same == orgs
                &&& then == at + 1
                &&& action matches CollectAction::Fetch(request)
                &&& request@ == connection.request_for(orgs@[at as int].repos_url@)
            } else {
                &&& next == CollectState::Finished
                &&& action matches CollectAction::Done(all)
                &&& all@ == repos@ + found@
            }
        },
        _ => next == CollectState::Finished && action == CollectAction::Abort,
    }
}

/// Takes the collection one step further: see [`collect_step`].
pub fn collect_repos(connection: &GitHub, state: CollectState, event: CollectEvent) -> (r: (
    CollectState,
    CollectAction,
))
    ensures
        collect_step(*connection, state, event, r.0, r.1),
{
    match (state, event) {
        (CollectState::Start, CollectEvent::Begin) => {
            (CollectState::Profile, CollectAction::Fetch(connection.user_data()))
        },
        (CollectState::Profile, CollectEvent::Profile(profile)) => {
            let request: Request = connection.get(profile.repos_url.as_str());
            (
                CollectState::UserRepos { organizations_url: profile.organizations_url },
                CollectAction::Fetch(request),
            )
        },
        (CollectState::UserRepos { organizations_url }, CollectEvent::Repos(found)) => {
            let request: Request = connection.get(organizations_url.as_str());
            (CollectState::Organizations { repos: found }, CollectAction::Fetch(request))
        },
        (CollectState::Organizations { repos }, CollectEvent::Organizations(orgs)) => {
            if orgs.len() == 0 {
                (CollectState::Finished, CollectAction::Done(repos))
            } else {
                let request: Request = connection.get(orgs[0].repos_url.as_str());
                (CollectState::OrgRepos { repos, orgs, next: 1 }, CollectAction::Fetch(request))
            }
        },
        (CollectState::OrgRepos { repos, orgs, next }, CollectEvent::Repos(found)) => {
            let mut all: Vec<RepoData> = repos;
            let mut found: Vec<RepoData> = found;
            all.append(&mut found);
            if next < orgs.len() {
                let request: Request = connection.get(orgs[next].repos_url.as_str());
                (
                    CollectState::OrgRepos { repos: all, orgs, next: next + 1 },
                    CollectAction::Fetch(request),
                )
            } else {
                (CollectState::Finished, CollectAction::Done(all))
            }
        },
        _ => (CollectState::Finished, CollectAction::Abort),
    }
}

/// The lists behind each other, in their order.
pub open spec fn joined(lists: Seq<Vec<RepoData>>) -> Seq<RepoData>
    decreases lists.len(),
{
    if lists.len() == 0 {
        Seq::empty()
    } else {
        joined(lists.drop_last()) + lists.last()@
    }
}

/// A collection from its beginning: each state and event lead to the next
/// state and to the action by one step.
pub open spec fn is_run(
    connection: GitHub,
    states: Seq<CollectState>,
    events: Seq<CollectEvent>,
    actions: Seq<CollectAction>,
) -> bool {
    &&& states.len() == events.len() + 1
    &&& actions.len() == events.len()
    &&& states[0] == CollectState::Start
    &&& forall|i: int|
        0 <= i < events.len() ==> collect_step(
            connection,
            states[i],
            #[trigger] events[i],
            states[i + 1],
            actions[i],
        )
}

/// The events of a collection in which every request is answered: the
/// beginning, the profile, the user's own repositories, the organisations,
/// and one list of repositories for each organisation.
pub open spec fn is_answered(
    events: Seq<CollectEvent>,
    profile: UserData,
    own: Vec<RepoData>,
    orgs: Vec<OrgData>,
    lists: Seq<Vec<RepoData>>,
) -> bool {
    &&& lists.len() == orgs@.len()
    &&& events.len() == 4 + lists.len()
    &&& events[0] == CollectEvent::Begin
    &&& events[1] == CollectEvent::Profile(profile)
    &&& events[2] == CollectEvent::Repos(own)
    &&& events[3] == CollectEvent::Organizations(orgs)
    &&& forall|k: int|
        0 <= k < lists.len() ==> events[4 + k] == CollectEvent::Repos(#[trigger] lists[k])
}

/// The action asks for the list at `url`.
pub open spec fn asks_for(action: CollectAction, connection: GitHub, url: Seq<char>) -> bool {
    action matches CollectAction::Fetch(request) && request@ == connection.request_for(url)
}

/// While the lists of the organisations come in, the state holds what was
/// found so far and waits for the next organisation's list.
proof fn lemma_collection_under_way(
    connection: GitHub,
    states: Seq<CollectState>,
    events: Seq<CollectEvent>,
    actions: Seq<CollectAction>,
    profile: UserData,
    own: Vec<RepoData>,
    orgs: Vec<OrgData>,
    lists: Seq<Vec<RepoData>>,
    k: int,
)
    requires
        is_run(connection, states, events, actions),
        is_answered(events, profile, own, orgs, lists),
        0 <= k < lists.len(),
    ensures
        states[4 + k] matches CollectState::OrgRepos { repos, orgs: same, next }
            && repos@ == own@ + joined(lists.take(k)) && same == orgs && next == k + 1,
        asks_for(actions[3 + k], connection, orgs@[k].repos_url@),
    decreases k,
{
    if k > 0 {
        lemma_collection_under_way(
            connection,
            states,
            events,
            actions,
            profile,
            own,
            orgs,
            lists,
            k - 1,
        );
        assert(events[4 + (k - 1)] == CollectEvent::Repos(lists[k - 1]));
        assert(lists.take(k).drop_last() =~= lists.take(k - 1));
    }
}

/// The collection finds the user's own repositories first and then those of
/// the organisations in the order of the memberships, each list in the order
/// in which it came: a collection in which every request is answered asks
/// for the profile, the user's repositories, the organisations and each
/// organisation's repositories in turn, and ends by handing out all lists
/// behind each other.
pub proof fn lemma_collection_in_order(
    connection: GitHub,
    states: Seq<CollectState>,
    events: Seq<CollectEvent>,
    actions: Seq<CollectAction>,
    profile: UserData,
    own: Vec<RepoData>,
    orgs: Vec<OrgData>,
    lists: Seq<Vec<RepoData>>,
)
    requires
        is_run(connection, states, events, actions),
        is_answered(events, profile, own, orgs, lists),
    ensures
        asks_for(actions[0], connection, profile_address(connection.user@)),
        asks_for(actions[1], connection, profile.repos_url@),
        asks_for(actions[2], connection, profile.organizations_url@),
        forall|k: int|
            0 <= k < orgs@.len() ==> asks_for(
                #[trigger] actions[3 + k],
                connection,
                orgs@[k].repos_url@,
            ),
        actions.last() matches CollectAction::Done(all) && all@ == own@ + joined(lists),
        states.last() == CollectState::Finished,
{
    let n = lists.len() as int;
    assert forall|k: int| 0 <= k < orgs@.len() implies asks_for(
        #[trigger] actions[3 + k],
        connection,
        orgs@[k].repos_url@,
    ) by {
        lemma_collection_under_way(connection, states, events, actions, profile, own, orgs, lists, k);
    }
    if n > 0 {
        lemma_collection_under_way(
            connection,
            states,
            events,
            actions,
            profile,
            own,
            orgs,
            lists,
            n - 1,
        );
        assert(events[4 + (n - 1)] == CollectEvent::Repos(lists[n - 1]));
    }
}

} // verus!
