use github_stats::client::{loc_request, Args, GitHub, Header, Request};
use github_stats::model::RepoData;

fn args(token: Option<&str>, excluded: &[&str]) -> Args {
    Args {
        user: "Octocat".to_string(),
        token: token.map(|t| t.to_string()),
        weighted: true,
        excluded_langs: excluded.iter().map(|s| s.to_string()).collect(),
    }
}

fn header(name: &str, value: &str) -> Header {
    Header { name: name.to_string(), value: value.to_string() }
}

fn agent() -> Header {
    header("User-Agent", "GitHub user stats scraper (reqwest/hyper)")
}

#[test]
fn from_args_folds_the_excluded_languages() {
    let connection = GitHub::from_args(args(Some("abc"), &["Rust", "HTML", "c++", "ÉCLAIR", ""]));
    assert_eq!(connection.user, "Octocat");
    assert_eq!(connection.auth_code, Some("abc".to_string()));
    assert!(connection.weighted);
    assert_eq!(connection.excluded_langs, vec!["rust", "html", "c++", "Éclair", ""]);
}

#[test]
fn from_args_keeps_everything_else() {
    let connection = GitHub::from_args(Args {
        user: "MiXeD".to_string(),
        token: None,
        weighted: false,
        excluded_langs: Vec::new(),
    });
    assert_eq!(
        connection,
        GitHub {
            user: "MiXeD".to_string(),
            auth_code: None,
            weighted: false,
            excluded_langs: Vec::new()
        }
    );
}

#[test]
fn get_attaches_the_page_size_and_the_agent() {
    let connection = GitHub::from_args(args(None, &[]));
    assert_eq!(
        connection.get("https://api.github.com/orgs/acme/repos"),
        Request {
            url: "https://api.github.com/orgs/acme/repos?per_page=1000".to_string(),
            headers: vec![agent()],
        }
    );
    assert_eq!(connection.get("").url, "?per_page=1000");
}

#[test]
fn get_attaches_the_credential_where_there_is_one() {
    let connection = GitHub::from_args(args(Some("t0ken"), &[]));
    assert_eq!(
        connection.get("https://example.org/x"),
        Request {
            url: "https://example.org/x?per_page=1000".to_string(),
            headers: vec![agent(), header("Authorization", "Bearer t0ken")],
        }
    );
}

#[test]
fn user_data_asks_for_the_profile() {
    let connection = GitHub::from_args(args(None, &[]));
    assert_eq!(
        connection.user_data(),
        Request {
            url: "https://api.github.com/users/Octocat?per_page=1000".to_string(),
            headers: vec![agent()],
        }
    );
    assert_eq!(connection.user_data(), connection.get("https://api.github.com/users/Octocat"));
}

#[test]
fn loc_request_names_the_repository_and_has_no_header() {
    let repo = RepoData {
        stargazers_count: 0,
        contributors_url: "unused".to_string(),
        full_name: "octo/demo".to_string(),
    };
    assert_eq!(
        loc_request(&repo),
        Request {
            url: "https://api.codetabs.com/v1/loc/?github=octo/demo".to_string(),
            headers: Vec::new(),
        }
    );
}
