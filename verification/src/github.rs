//! What GitHub answers when an issue is filed.
use vstd::prelude::*;
use vstd::string::StringExecFns;
use crate::http::{body_of, pairs, push_pair, Credential, Failure, Method, Reply, Request, RequestView};

verus! {

/// An issue as GitHub reports it once filed: the page that shows it.
#[derive(Debug, PartialEq, Eq)]
pub struct Issue {
    pub html_url: String,
}

/// Why no issue came back: GitHub refused or could not be reached, or its
/// answer could not be read.
#[derive(Debug, Clone, Copy, PartialEq, Eq, Structural)]
pub enum GithubClientError {
    ApiError,
    JsonError,
}

impl GithubClientError {
    /// The error in words.
    pub open spec fn words(self) -> Seq<char> {
        match self {
            GithubClientError::ApiError => "github returned api error"@,
            GithubClientError::JsonError => "github returned json error"@,
        }
    }

    /// The error in words.
    pub fn message(&self) -> (text: String)
        ensures
            text@ == self.words(),
    {
        match self {
            GithubClientError::ApiError => "github returned api error".to_string(),
            GithubClientError::JsonError => "github returned json error".to_string(),
        }
    }
}

/// The call that files an issue with `title` and `body` in `repo`, which is
/// an owner and a name with a slash between them.
pub open spec fn create_issue_call(repo: Seq<char>, title: Seq<char>, body: Seq<char>) -> RequestView {
    RequestView {
        method: Method::Post,
        url: "https://api.github.com/repos/"@ + repo + "/issues"@,
        credential: Credential::Github,
        headers: seq![
            ("Content-Type"@, "application/json"@),
            ("Accept"@, "application/vnd.github.v3+json"@),
            ("User-Agent"@, "uiur/emoji-to-do"@),
        ],
        query: Seq::empty(),
        json: seq![("title"@, title), ("body"@, body)],
    }
}

/// Makes the call that files an issue.
pub fn create_issue(repo: &str, title: &str, body: &str) -> (request: Request)
    ensures
        request@ == create_issue_call(repo@, title@, body@),
{
    let mut url = "https://api.github.com/repos/".to_string();
    url.append(repo);
    url.append("/issues");
    let mut headers: Vec<(String, String)> = Vec::new();
    push_pair(&mut headers, "Content-Type", "application/json");
    push_pair(&mut headers, "Accept", "application/vnd.github.v3+json");
    push_pair(&mut headers, "User-Agent", "uiur/emoji-to-do");
    let mut json: Vec<(String, String)> = Vec::new();
    push_pair(&mut json, "title", title);
    push_pair(&mut json, "body", body);
    let request = Request {
        method: Method::Post,
        url,
        credential: Credential::Github,
        headers,
        query: Vec::new(),
        json,
    };
    assert(request@.headers =~= create_issue_call(repo@, title@, body@).headers);
    assert(request@.query =~= create_issue_call(repo@, title@, body@).query);
    assert(request@.json =~= create_issue_call(repo@, title@, body@).json);
    request
}

/// The issue that a reply to `create_issue` holds: the body of a reply with
/// a status from 200 to 299; an `ApiError` where GitHub could not be reached
/// or answered with another status, a `JsonError` where the body could not
/// be read.
pub fn issue_of(reply: Reply<Issue>) -> (issue: Result<Issue, GithubClientError>)
    ensures
        issue == match reply {
            Reply::Answered { status, body: Some(i) } if 200 <= status < 300 => Ok::<
                Issue,
                GithubClientError,
            >(i),
            Reply::Answered { status, body: None } if 200 <= status < 300 => Err(
                GithubClientError::JsonError,
            ),
            _ => Err(GithubClientError::ApiError),
        },
{
    match body_of(reply) {
        Ok(i) => Ok(i),
        Err(Failure::Refused) => Err(GithubClientError::ApiError),
        Err(Failure::Unreadable) => Err(GithubClientError::JsonError),
    }
}

} // verus!
