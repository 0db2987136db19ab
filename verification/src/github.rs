//! GitHub REST API data, the facts the inbox reads off an item, and the
//! requests the client sends: URLs, headers, JSON bodies, and how a reply is
//! turned into a result.

use vstd::prelude::*;
use vstd::string::StringExecFns;
use vstd::utf8::encode_utf8;
use crate::text::{
    after_first, byte_prefix, chars_for_bytes, chars_in_bytes, decimal, has_prefix, join2, join3,
    owned, push_char, push_decimal, same_text, split_once, starts_with, string_of_range,
    strip_prefix_or_all, to_chars, without_prefix,
};
use crate::uri::{pair_views, push_uri_component, uri_component};
use crate::json::{json_member_str, json_quoted, json_str_member, json_string};

verus! {

broadcast use vstd::string::group_string_axioms;

/// Where the REST API lives.
pub const API_BASE: &'static str = "https://api.github.com";

/// The API version every request asks for.
pub const API_VERSION: &'static str = "2022-11-28";

/// Longest reply body, in bytes, that an error message quotes whole.
pub const MAX_ERROR_BYTES: usize = 200;

#[derive(Debug, Clone)]
pub struct SearchResponse {
    pub total_count: u64,
    pub items: Vec<Item>,
}

#[derive(Debug, Clone)]
pub struct User {
    pub login: String,
}

#[derive(Debug, Clone)]
pub struct Label {
    pub name: String,
}

#[derive(Debug, Clone)]
pub struct PullRef {
    pub url: String,
    pub merged_at: Option<String>,
}

/// An issue or pull request as the search API lists it.
#[derive(Debug, Clone)]
pub struct Item {
    pub id: u64,
    pub number: u64,
    pub title: String,
    pub body: Option<String>,
    pub state: String,
    pub html_url: String,
    pub repository_url: String,
    pub comments_url: String,
    pub updated_at: String,
    pub created_at: String,
    pub author_association: String,
    pub labels: Vec<Label>,
    pub comments: u64,
    pub draft: Option<bool>,
    pub pull_request: Option<PullRef>,
    pub user: Option<User>,
}

#[derive(Debug, Clone)]
pub struct Comment {
    pub id: u64,
    pub body: Option<String>,
    pub created_at: String,
    pub updated_at: String,
    pub user: Option<User>,
}

#[derive(Debug, Clone)]
pub struct Review {
    pub id: u64,
    pub state: String,
    pub body: Option<String>,
    pub submitted_at: Option<String>,
    pub user: Option<User>,
}

#[derive(Debug, Clone)]
pub struct PrDetail {
    pub head: PrHead,
    pub mergeable_state: Option<String>,
}

#[derive(Debug, Clone)]
pub struct PrHead {
    pub sha: String,
}

#[derive(Debug, Clone)]
pub struct CheckRuns {
    pub total_count: u64,
    pub check_runs: Vec<CheckRun>,
}

#[derive(Debug, Clone)]
pub struct CheckRun {
    pub name: String,
    pub status: String,
    pub conclusion: Option<String>,
}

/// The prefix of a repository's API URL, before `owner/repo`.
pub open spec fn repos_prefix() -> Seq<char> {
    API_BASE@ + "/repos/"@
}

impl Item {
    /// The item is a pull request.
    pub open spec fn pull(&self) -> bool {
        self.pull_request is Some
    }

    /// The item is a merged pull request.
    pub open spec fn merged(&self) -> bool {
        self.pull_request matches Some(p) && p.merged_at is Some
    }

    /// The item's state is `open`.
    pub open spec fn opened(&self) -> bool {
        self.state@ == "open"@
    }

    /// `owner/repo`, from the repository URL.
    pub open spec fn full_name(&self) -> Seq<char> {
        without_prefix(self.repository_url@, repos_prefix())
    }

    /// The repository's name without its owner.
    pub open spec fn short_name(&self) -> Seq<char> {
        match split_once(self.full_name(), '/') {
            Some(parts) => parts.1,
            None => self.full_name(),
        }
    }

    pub fn is_pr(&self) -> (r: bool)
        ensures
            r == self.pull(),
    {
        self.pull_request.is_some()
    }

    pub fn is_merged(&self) -> (r: bool)
        ensures
            r == self.merged(),
    {
        match &self.pull_request {
            Some(p) => p.merged_at.is_some(),
            None => false,
        }
    }

    pub fn is_open(&self) -> (r: bool)
        ensures
            r == self.opened(),
    {
        same_text(self.state.as_str(), "open")
    }

    /// owner/repo parsed from repository_url.
    pub fn repo_full_name(&self) -> (r: String)
        ensures
            r@ == self.full_name(),
    {
        let prefix = join2(API_BASE, "/repos/");
        strip_prefix_or_all(self.repository_url.as_str(), prefix.as_str())
    }

    pub fn repo_short(&self) -> (r: String)
        ensures
            r@ == self.short_name(),
    {
        let full = self.repo_full_name();
        match after_first(full.as_str(), '/') {
            Some(repo) => repo,
            None => full,
        }
    }
}

/// The author is not a member, owner or collaborator of the repository.
pub open spec fn external(item: Item) -> bool {
    let a = item.author_association@;
    a != "MEMBER"@ && a != "OWNER"@ && a != "COLLABORATOR"@
}

/// MEMBER / OWNER / COLLABORATOR are "own" repos: excluded from the inbox.
pub fn is_external(item: &Item) -> (r: bool)
    ensures
        r == external(*item),
{
    let a = item.author_association.as_str();
    !(same_text(a, "MEMBER") || same_text(a, "OWNER") || same_text(a, "COLLABORATOR"))
}

// ------------------------------------------------------------ URLs

/// The search query for `user`'s contributions.
pub open spec fn search_query(user: Seq<char>) -> Seq<char> {
    "author:"@ + user + " archived:false sort:updated-desc"@
}

pub fn search_url(user: &str) -> (r: String)
    ensures
        r@ == API_BASE@ + "/search/issues?q="@ + uri_component(search_query(user@))
            + "&per_page=50"@,
{
    let query = join3("author:", user, " archived:false sort:updated-desc");
    let mut r = join2(API_BASE, "/search/issues?q=");
    push_uri_component(&mut r, query.as_str());
    r.append("&per_page=50");
    r
}

/// The URL that names the token's own user.
pub fn user_url() -> (r: String)
    ensures
        r@ == API_BASE@ + "/user"@,
{
    join2(API_BASE, "/user")
}

/// `{API_BASE}/repos/{owner/repo}/{kind}/{number}`: the URL of an item
/// under the API route `kind` (`issues` or `pulls`).
pub open spec fn item_route(item: Item, kind: Seq<char>) -> Seq<char> {
    repos_prefix() + item.full_name() + seq!['/'] + kind + seq!['/'] + decimal(item.number as nat)
}

fn push_item_route(out: &mut String, item: &Item, kind: &str)
    ensures
        final(out)@ == old(out)@ + item_route(*item, kind@),
{
    out.append(API_BASE);
    out.append("/repos/");
    let full = item.repo_full_name();
    out.append(full.as_str());
    push_char(out, '/');
    out.append(kind);
    push_char(out, '/');
    push_decimal(out, item.number);
}

pub fn reviews_url(item: &Item) -> (r: String)
    ensures
        r@ == item_route(*item, "pulls"@) + "/reviews?per_page=30"@,
{
    let mut r = String::new();
    push_item_route(&mut r, item, "pulls");
    r.append("/reviews?per_page=30");
    r
}

/// The URL of a pull request's own record; an issue has none.
pub fn pr_detail_url(item: &Item) -> (r: Result<String, String>)
    ensures
        match item.pull_request {
            Some(p) => r matches Ok(u) && u@ == p.url@,
            None => r matches Err(e) && e@ == "not a pull request"@,
        },
{
    match &item.pull_request {
        Some(p) => Ok(p.url.clone()),
        None => Err(owned("not a pull request")),
    }
}

pub fn check_runs_url(repo: &str, sha: &str) -> (r: String)
    ensures
        r@ == repos_prefix() + repo@ + "/commits/"@ + sha@ + "/check-runs?per_page=30"@,
{
    let mut r = join2(API_BASE, "/repos/");
    r.append(repo);
    r.append("/commits/");
    r.append(sha);
    r.append("/check-runs?per_page=30");
    r
}

/// Where a new comment on the item is posted.
pub fn comment_post_url(item: &Item) -> (r: String)
    ensures
        r@ == item_route(*item, "issues"@) + "/comments"@,
{
    let mut r = String::new();
    push_item_route(&mut r, item, "issues");
    r.append("/comments");
    r
}

/// The issue record that a close is sent to.
pub fn issue_url(item: &Item) -> (r: String)
    ensures
        r@ == item_route(*item, "issues"@),
{
    let mut r = String::new();
    push_item_route(&mut r, item, "issues");
    r
}

// ------------------------------------------------------------ bodies

/// `{"<key>":<value as a JSON string>}`: a JSON object of one string member.
pub open spec fn json_object1(key: Seq<char>, value: Seq<char>) -> Seq<char> {
    seq!['{', '"'] + key + seq!['"', ':'] + json_quoted(value) + seq!['}']
}

fn json_object_of(key: &str, value: &str) -> (r: String)
    ensures
        r@ == json_object1(key@, value@),
{
    let quoted = json_string(value).unwrap();
    let mut r = String::new();
    push_char(&mut r, '{');
    push_char(&mut r, '"');
    r.append(key);
    push_char(&mut r, '"');
    push_char(&mut r, ':');
    r.append(quoted.as_str());
    push_char(&mut r, '}');
    r
}

/// The body that posts `body` as a comment; it is always made.
pub fn comment_payload(body: &str) -> (r: Result<String, String>)
    ensures
        r matches Ok(s) && s@ == json_object1("body"@, body@),
{
    Ok(json_object_of("body", body))
}

/// The body that closes an issue or pull request; it is always made.
pub fn close_payload() -> (r: Result<String, String>)
    ensures
        r matches Ok(s) && s@ == json_object1("state"@, "closed"@),
{
    Ok(json_object_of("state", "closed"))
}

// ------------------------------------------------------------ requests

/// The headers of an API request with the given token, with a content type
/// when a body goes along.
pub open spec fn request_headers_for(token: Seq<char>, has_body: bool) -> Seq<(Seq<char>, Seq<char>)> {
    let base = seq![
        ("Accept"@, "application/vnd.github+json"@),
        ("Authorization"@, "Bearer "@ + token),
        ("X-GitHub-Api-Version"@, API_VERSION@),
    ];
    if has_body {
        base.push(("Content-Type"@, "application/json"@))
    } else {
        base
    }
}

pub fn request_headers(token: &str, has_body: bool) -> (r: Vec<(String, String)>)
    ensures
        pair_views(r@) == request_headers_for(token@, has_body),
{
    let mut r: Vec<(String, String)> = Vec::new();
    r.push((owned("Accept"), owned("application/vnd.github+json")));
    r.push((owned("Authorization"), join2("Bearer ", token)));
    r.push((owned("X-GitHub-Api-Version"), owned(API_VERSION)));
    if has_body {
        r.push((owned("Content-Type"), owned("application/json")));
    }
    assert(pair_views(r@) =~= request_headers_for(token@, has_body));
    r
}

/// The URL lies on the API host: the token is sent nowhere else.
pub open spec fn on_api_host(url: Seq<char>) -> bool {
    has_prefix(url, API_BASE@ + "/"@)
}

/// The headers of a request with the token to `url`; refused, before any
/// header is made, for a URL off the API host.
pub fn api_request_headers(url: &str, token: &str, has_body: bool) -> (r: Result<
    Vec<(String, String)>,
    String,
>)
    ensures
        match r {
            Ok(h) => on_api_host(url@) && pair_views(h@) == request_headers_for(token@, has_body),
            Err(e) => !on_api_host(url@) && e@ == "not a GitHub API URL: "@ + url@,
        },
{
    let host = join2(API_BASE, "/");
    if starts_with(url, host.as_str()) {
        Ok(request_headers(token, has_body))
    } else {
        Err(join2("not a GitHub API URL: ", url))
    }
}

/// The reply body shortened for an error message: whole when it is at most
/// 200 bytes long, else the API's `message` when it has one, else its first
/// 200 bytes and an ellipsis.
pub open spec fn shortened(text: Seq<char>) -> Seq<char> {
    if encode_utf8(text).len() <= MAX_ERROR_BYTES {
        text
    } else {
        match json_str_member(text, "message"@) {
            Some(m) => m,
            None => byte_prefix(text, MAX_ERROR_BYTES as int).push('…'),
        }
    }
}

/// Shortening cuts the text inside a char: the slice `&text[..200]` panics.
pub open spec fn shorten_panics(text: Seq<char>) -> bool {
    &&& encode_utf8(text).len() > MAX_ERROR_BYTES
    &&& json_str_member(text, "message"@) is None
    &&& chars_in_bytes(text, MAX_ERROR_BYTES as int) is None
}

fn cut_with_ellipsis(text: &str, max_bytes: usize) -> (r: Option<String>)
    ensures
        match chars_in_bytes(text@, max_bytes as int) {
            Some(k) => r matches Some(s) && s@ == byte_prefix(text@, max_bytes as int).push('…'),
            None => r is None,
        },
{
    let v = to_chars(text);
    match chars_for_bytes(&v, max_bytes) {
        Some(k) => {
            let mut s = string_of_range(&v, 0, k);
            push_char(&mut s, '…');
            Some(s)
        },
        None => None,
    }
}

/// The reply body shortened for an error message.
pub fn shorten(text: &str) -> (r: String)
    requires
        !shorten_panics(text@),
    ensures
        r@ == shortened(text@),
{
    match checked_shorten(text) {
        Some(s) => s,
        None => owned(text),
    }
}

/// The reply body shortened for an error message; `None` exactly where the
/// cut would fall inside a char.
pub fn checked_shorten(text: &str) -> (r: Option<String>)
    ensures
        r is None <==> shorten_panics(text@),
        r matches Some(s) ==> s@ == shortened(text@),
{
    if text.as_bytes().len() <= MAX_ERROR_BYTES {
        return Some(owned(text));
    }
    match json_member_str(text, "message") {
        Some(message) => Some(message),
        None => cut_with_ellipsis(text, MAX_ERROR_BYTES),
    }
}

/// What a request yields for a reply with `status` and body `text`: the body
/// on a 2xx status, else an error that quotes the status and the shortened
/// body.
pub open spec fn reply_result(status: u16, text: Seq<char>) -> Result<Seq<char>, Seq<char>> {
    if 200 <= status < 300 {
        Ok(text)
    } else {
        Err("GitHub "@ + decimal(status as nat) + ": "@ + shortened(text))
    }
}

/// The outcome of a request from its reply; `None` exactly where the error
/// message cannot be cut (the request panics there).
pub fn reply_outcome(status: u16, text: &str) -> (r: Option<Result<String, String>>)
    ensures
        r is None <==> !(200 <= status < 300) && shorten_panics(text@),
        r matches Some(Ok(s)) ==> reply_result(status, text@) == Ok::<Seq<char>, Seq<char>>(s@),
        r matches Some(Err(e)) ==> reply_result(status, text@) == Err::<Seq<char>, Seq<char>>(e@),
{
    if 200 <= status && status < 300 {
        return Some(Ok(owned(text)));
    }
    match checked_shorten(text) {
        Some(short) => {
            let mut e = owned("GitHub ");
            push_decimal(&mut e, status as u64);
            e.append(": ");
            e.append(short.as_str());
            Some(Err(e))
        },
        None => None,
    }
}

} // verus!
