//! The configuration of a run and the requests that it sends: every request
//! is described here and sent elsewhere.

use vstd::prelude::*;
use vstd::string::*;
use crate::model::RepoData;
use crate::text::{ascii_lower, to_ascii_lowercase};

verus! {

/// The options of a run as they were given.
#[derive(Debug, Clone, PartialEq, Eq)]
pub struct Args {
    pub user: String,
    pub token: Option<String>,
    pub weighted: bool,
    pub excluded_langs: Vec<String>,
}

/// The configuration that every operation of a run is handed: the queried
/// user, the credential if there is one, whether records are weighted by the
/// contribution ratio, and the excluded languages in lower case.
#[derive(Debug, Clone, PartialEq, Eq)]
pub struct GitHub {
    pub user: String,
    pub auth_code: Option<String>,
    pub weighted: bool,
    pub excluded_langs: Vec<String>,
}

/// One header of a request.
#[derive(Debug, Clone, PartialEq, Eq)]
pub struct Header {
    pub name: String,
    pub value: String,
}

/// A GET request: the address and the headers to attach.
#[derive(Debug, Clone, PartialEq, Eq)]
pub struct Request {
    pub url: String,
    pub headers: Vec<Header>,
}

/// A request as plain text.
pub struct RequestView {
    pub url: Seq<char>,
    pub headers: Seq<(Seq<char>, Seq<char>)>,
}

/// The headers as pairs of name and value.
pub open spec fn header_pairs(headers: Seq<Header>) -> Seq<(Seq<char>, Seq<char>)> {
    Seq::new(headers.len(), |i: int| (headers[i].name@, headers[i].value@))
}

impl View for Request {
    type V = RequestView;

    open spec fn view(&self) -> RequestView {
        RequestView { url: self.url@, headers: header_pairs(self.headers@) }
    }
}

/// The address of a list with the page size attached.
pub open spec fn paged(url: Seq<char>) -> Seq<char> {
    url + "?per_page=1000"@
}

/// The header that identifies the client.
pub open spec fn agent_header() -> (Seq<char>, Seq<char>) {
    ("User-Agent"@, "GitHub user stats scraper (reqwest/hyper)"@)
}

/// The header that carries the credential.
pub open spec fn bearer_header(token: Seq<char>) -> (Seq<char>, Seq<char>) {
    ("Authorization"@, "Bearer "@ + token)
}

/// The address of a user's profile.
pub open spec fn profile_address(user: Seq<char>) -> Seq<char> {
    "https://api.github.com/users/"@ + user
}

/// The request for the line counts of a repository: the address of the
/// counting service with the repository's full name, and no header.
pub open spec fn loc_request_of(full_name: Seq<char>) -> RequestView {
    RequestView { url: "https://api.codetabs.com/v1/loc/?github="@ + full_name, headers: seq![] }
}

impl GitHub {
    /// The request that [`GitHub::get`] makes for an address: the page size
    /// is attached to the address, the identifying header is always there,
    /// and the credential follows it if there is one.
    pub open spec fn request_for(&self, url: Seq<char>) -> RequestView {
        RequestView {
            url: paged(url),
            headers: match self.auth_code {
                Some(token) => seq![agent_header(), bearer_header(token@)],
                None => seq![agent_header()],
            },
        }
    }

    /// The excluded languages are those of `raw`, each folded to lower case.
    pub open spec fn excludes_folded(&self, raw: Seq<String>) -> bool {
        &&& self.excluded_langs@.len() == raw.len()
        &&& forall|i: int|
            0 <= i < raw.len() ==> (#[trigger] self.excluded_langs@[i])@ == ascii_lower(raw[i]@)
    }

    /// The configuration of a run from its options: the excluded languages
    /// are folded to lower case, everything else is taken as it is.
    pub fn from_args(args: Args) -> (connection: Self)
        ensures
            connection.user == args.user,
            connection.auth_code == args.token,
            connection.weighted == args.weighted,
            connection.excludes_folded(args.excluded_langs@),
    {
        let Args { user, token, weighted, excluded_langs } = args;
        let mut folded: Vec<String> = Vec::new();
        let mut i: usize = 0;
        while i < excluded_langs.len()
            invariant
                i <= excluded_langs.len(),
                folded@.len() == i,
                forall|k: int|
                    0 <= k < i ==> (#[trigger] folded@[k])@ == ascii_lower(excluded_langs@[k]@),
            decreases excluded_langs.len() - i,
        {
            folded.push(to_ascii_lowercase(excluded_langs[i].as_str()));
            i = i + 1;
        }
        GitHub { user, auth_code: token, weighted, excluded_langs: folded }
    }

    /// The request for the profile of the queried user.
    pub fn user_data(&self) -> (request: Request)
        ensures
            request@ == self.request_for(profile_address(self.user@)),
    {
        let address: String = String::from_str("https://api.github.com/users/").concat(
            self.user.as_str(),
        );
        self.get(address.as_str())
    }

    /// The request for a list at `url`.
    pub fn get(&self, url: &str) -> (request: Request)
        ensures
            request@ == self.request_for(url@),
    {
        let address: String = String::from_str(url).concat("?per_page=1000");
        let mut headers: Vec<Header> = Vec::new();
        headers.push(
            Header {
                name: String::from_str("User-Agent"),
                value: String::from_str("GitHub user stats scraper (reqwest/hyper)"),
            },
        );
        match &self.auth_code {
            Some(token) => {
                headers.push(
                    Header {
                        name: String::from_str("Authorization"),
                        value: String::from_str("Bearer ").concat(token.as_str()),
                    },
                );
            },
            None => {},
        }
        let request = Request { url: address, headers };
        proof {
            assert(request@.headers =~= self.request_for(url@).headers);
        }
        request
    }
}

/// The request for the line counts of a repository.
pub fn loc_request(repo: &RepoData) -> (request: Request)
    ensures
        request@ == loc_request_of(repo.full_name@),
{
    let address: String = String::from_str("https://api.codetabs.com/v1/loc/?github=").concat(
        repo.full_name.as_str(),
    );
    let request = Request { url: address, headers: Vec::new() };
    proof {
        assert(request@.headers =~= loc_request_of(repo.full_name@).headers);
    }
    request
}

} // verus!
