use github_stats::client::{Args, GitHub};
use github_stats::collect::{collect_repos, CollectAction, CollectEvent, CollectState};
use github_stats::model::{OrgData, RepoData, UserData};

fn connection() -> GitHub {
    GitHub::from_args(Args {
        user: "octocat".to_string(),
        token: None,
        weighted: false,
        excluded_langs: Vec::new(),
    })
}

fn repo(full_name: &str, stars: u32) -> RepoData {
    RepoData {
        stargazers_count: stars,
        contributors_url: format!("https://api.github.com/repos/{}/contributors", full_name),
        full_name: full_name.to_string(),
    }
}

fn org(name: &str) -> OrgData {
    OrgData { repos_url: format!("https://api.github.com/orgs/{}/repos", name) }
}

fn profile() -> UserData {
    UserData {
        organizations_url: "https://api.github.com/users/octocat/orgs".to_string(),
        repos_url: "https://api.github.com/users/octocat/repos".to_string(),
    }
}

fn collect(own: Vec<RepoData>, orgs: Vec<OrgData>, lists: Vec<Vec<RepoData>>) -> (Vec<String>, Vec<RepoData>) {
    let connection = connection();
    let mut asked = Vec::new();
    let mut events = vec![
        CollectEvent::Begin,
        CollectEvent::Profile(profile()),
        CollectEvent::Repos(own),
        CollectEvent::Organizations(orgs),
    ];
    events.extend(lists.into_iter().map(CollectEvent::Repos));
    let mut state = CollectState::Start;
    for event in events {
        let (next, action) = collect_repos(&connection, state, event);
        state = next;
        match action {
            CollectAction::Fetch(request) => {
                assert_eq!(request, connection.get(request.url.trim_end_matches("?per_page=1000")));
                asked.push(request.url);
            }
            CollectAction::Done(all) => {
                assert_eq!(state, CollectState::Finished);
                return (asked, all);
            }
            CollectAction::Abort => panic!("aborted"),
        }
    }
    panic!("never done");
}

#[test]
fn user_without_organisations() {
    let own = vec![repo("octocat/a", 1), repo("octocat/b", 2)];
    let (asked, all) = collect(own.clone(), Vec::new(), Vec::new());
    assert_eq!(
        asked,
        vec![
            "https://api.github.com/users/octocat?per_page=1000",
            "https://api.github.com/users/octocat/repos?per_page=1000",
            "https://api.github.com/users/octocat/orgs?per_page=1000",
        ]
    );
    assert_eq!(all, own);
}

#[test]
fn repositories_come_in_the_order_of_discovery() {
    let own = vec![repo("octocat/b", 1), repo("octocat/a", 2)];
    let lists = vec![vec![repo("zeta/x", 3)], Vec::new(), vec![repo("alpha/y", 4), repo("alpha/x", 5)]];
    let (asked, all) = collect(own, vec![org("zeta"), org("empty"), org("alpha")], lists);
    assert_eq!(
        asked,
        vec![
            "https://api.github.com/users/octocat?per_page=1000",
            "https://api.github.com/users/octocat/repos?per_page=1000",
            "https://api.github.com/users/octocat/orgs?per_page=1000",
            "https://api.github.com/orgs/zeta/repos?per_page=1000",
            "https://api.github.com/orgs/empty/repos?per_page=1000",
            "https://api.github.com/orgs/alpha/repos?per_page=1000",
        ]
    );
    let names: Vec<&str> = all.iter().map(|r| r.full_name.as_str()).collect();
    assert_eq!(names, vec!["octocat/b", "octocat/a", "zeta/x", "alpha/y", "alpha/x"]);
    assert_eq!(all[4], repo("alpha/x", 5));
}

#[test]
fn repository_found_twice_is_kept_twice() {
    let shared = repo("acme/tool", 9);
    let (_, all) = collect(vec![shared.clone()], vec![org("acme")], vec![vec![shared.clone()]]);
    assert_eq!(all, vec![shared.clone(), shared]);
}

#[test]
fn nothing_found() {
    let (_, all) = collect(Vec::new(), vec![org("acme")], vec![Vec::new()]);
    assert!(all.is_empty());
}

#[test]
fn each_step_names_the_next_state() {
    let connection = connection();
    let (state, _) = collect_repos(&connection, CollectState::Start, CollectEvent::Begin);
    assert_eq!(state, CollectState::Profile);
    let (state, _) = collect_repos(&connection, state, CollectEvent::Profile(profile()));
    assert_eq!(
        state,
        CollectState::UserRepos { organizations_url: profile().organizations_url }
    );
    let own = vec![repo("octocat/a", 1)];
    let (state, _) = collect_repos(&connection, state, CollectEvent::Repos(own.clone()));
    assert_eq!(state, CollectState::Organizations { repos: own.clone() });
    let orgs = vec![org("one"), org("two")];
    let (state, _) = collect_repos(&connection, state, CollectEvent::Organizations(orgs.clone()));
    assert_eq!(state, CollectState::OrgRepos { repos: own.clone(), orgs: orgs.clone(), next: 1 });
    let (state, action) =
        collect_repos(&connection, state, CollectEvent::Repos(vec![repo("one/x", 2)]));
    let so_far = vec![repo("octocat/a", 1), repo("one/x", 2)];
    assert_eq!(state, CollectState::OrgRepos { repos: so_far.clone(), orgs, next: 2 });
    assert_eq!(action, CollectAction::Fetch(connection.get("https://api.github.com/orgs/two/repos")));
    let (state, action) = collect_repos(&connection, state, CollectEvent::Repos(Vec::new()));
    assert_eq!(state, CollectState::Finished);
    assert_eq!(action, CollectAction::Done(so_far));
}

#[test]
fn event_out_of_turn_aborts() {
    let connection = connection();
    let aborted = (CollectState::Finished, CollectAction::Abort);
    let repos = || CollectEvent::Repos(Vec::new());
    let orgs = || CollectEvent::Organizations(Vec::new());
    assert_eq!(collect_repos(&connection, CollectState::Start, repos()), aborted);
    assert_eq!(collect_repos(&connection, CollectState::Start, CollectEvent::Profile(profile())), aborted);
    assert_eq!(collect_repos(&connection, CollectState::Profile, CollectEvent::Begin), aborted);
    assert_eq!(collect_repos(&connection, CollectState::Profile, orgs()), aborted);
    let waiting = CollectState::UserRepos { organizations_url: "x".to_string() };
    assert_eq!(collect_repos(&connection, waiting, orgs()), aborted);
    let waiting = CollectState::Organizations { repos: Vec::new() };
    assert_eq!(collect_repos(&connection, waiting, repos()), aborted);
    let waiting = CollectState::OrgRepos { repos: Vec::new(), orgs: vec![org("a")], next: 1 };
    assert_eq!(collect_repos(&connection, waiting, orgs()), aborted);
    assert_eq!(collect_repos(&connection, CollectState::Finished, CollectEvent::Begin), aborted);
    assert_eq!(collect_repos(&connection, CollectState::Finished, repos()), aborted);
}
