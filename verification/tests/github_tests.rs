use contrib_inbox::github::{
    api_request_headers, checked_shorten, check_runs_url, close_payload, comment_payload, comment_post_url,
    is_external, issue_url, pr_detail_url, reply_outcome, request_headers, reviews_url,
    search_url, shorten, user_url, Item, Label, PullRef, User,
};

fn item(repo_url: &str, state: &str, association: &str, pull: Option<PullRef>) -> Item {
    Item {
        id: 7,
        number: 42,
        title: "Fix the thing".to_string(),
        body: None,
        state: state.to_string(),
        html_url: "https://github.com/o/r/pull/42".to_string(),
        repository_url: repo_url.to_string(),
        comments_url: "https://api.github.com/repos/o/r/issues/42/comments".to_string(),
        updated_at: "2024-01-01T00:00:00Z".to_string(),
        created_at: "2023-12-01T00:00:00Z".to_string(),
        author_association: association.to_string(),
        labels: vec![Label { name: "bug".to_string() }],
        comments: 3,
        draft: None,
        pull_request: pull,
        user: Some(User { login: "me".to_string() }),
    }
}

fn pull(merged: bool) -> Option<PullRef> {
    Some(PullRef {
        url: "https://api.github.com/repos/o/r/pulls/42".to_string(),
        merged_at: if merged { Some("2024-01-02T00:00:00Z".to_string()) } else { None },
    })
}

#[test]
fn item_kind_and_state() {
    let issue = item("https://api.github.com/repos/o/r", "open", "NONE", None);
    assert!(!issue.is_pr());
    assert!(!issue.is_merged());
    assert!(issue.is_open());
    let merged = item("https://api.github.com/repos/o/r", "closed", "NONE", pull(true));
    assert!(merged.is_pr());
    assert!(merged.is_merged());
    assert!(!merged.is_open());
    let open_pr = item("https://api.github.com/repos/o/r", "open", "NONE", pull(false));
    assert!(open_pr.is_pr() && !open_pr.is_merged() && open_pr.is_open());
}

#[test]
fn repo_names_from_repository_url() {
    let it = item("https://api.github.com/repos/owner/repo", "open", "NONE", None);
    assert_eq!(it.repo_full_name(), "owner/repo");
    assert_eq!(it.repo_short(), "repo");
    let odd = item("https://example.com/x", "open", "NONE", None);
    assert_eq!(odd.repo_full_name(), "https://example.com/x");
    assert_eq!(odd.repo_short(), "/example.com/x");
    let flat = item("https://api.github.com/repos/solo", "open", "NONE", None);
    assert_eq!(flat.repo_short(), "solo");
}

#[test]
fn external_excludes_own_repos() {
    for (association, expected) in [
        ("MEMBER", false),
        ("OWNER", false),
        ("COLLABORATOR", false),
        ("CONTRIBUTOR", true),
        ("NONE", true),
        ("FIRST_TIME_CONTRIBUTOR", true),
        ("member", true),
    ] {
        let it = item("https://api.github.com/repos/o/r", "open", association, None);
        assert_eq!(is_external(&it), expected, "{}", association);
    }
}

#[test]
fn request_urls() {
    assert_eq!(
        search_url("octo cat"),
        "https://api.github.com/search/issues?q=author%3Aocto%20cat%20archived%3Afalse%20sort%3Aupdated-desc&per_page=50"
    );
    assert_eq!(user_url(), "https://api.github.com/user");
    let it = item("https://api.github.com/repos/o/r", "open", "NONE", pull(false));
    assert_eq!(reviews_url(&it), "https://api.github.com/repos/o/r/pulls/42/reviews?per_page=30");
    assert_eq!(comment_post_url(&it), "https://api.github.com/repos/o/r/issues/42/comments");
    assert_eq!(issue_url(&it), "https://api.github.com/repos/o/r/issues/42");
    assert_eq!(
        check_runs_url("o/r", "abc123"),
        "https://api.github.com/repos/o/r/commits/abc123/check-runs?per_page=30"
    );
    assert_eq!(pr_detail_url(&it), Ok("https://api.github.com/repos/o/r/pulls/42".to_string()));
    let issue = item("https://api.github.com/repos/o/r", "open", "NONE", None);
    assert_eq!(pr_detail_url(&issue), Err("not a pull request".to_string()));
}

#[test]
fn json_bodies() {
    assert_eq!(comment_payload("hi \"there\"\n"), Ok("{\"body\":\"hi \\\"there\\\"\\n\"}".to_string()));
    assert_eq!(close_payload(), Ok("{\"state\":\"closed\"}".to_string()));
    assert_eq!(
        comment_payload("a\\b\u{1}\u{1f}\u{8}\u{c}\r\té/"),
        Ok("{\"body\":\"a\\\\b\\u0001\\u001f\\b\\f\\r\\té/\"}".to_string())
    );
    assert_eq!(comment_payload(""), Ok("{\"body\":\"\"}".to_string()));
}

#[test]
fn token_only_goes_to_the_api_host() {
    let ok = api_request_headers("https://api.github.com/repos/o/r/issues/1/comments", "tok", false);
    assert_eq!(ok, Ok(request_headers("tok", false)));
    assert_eq!(
        api_request_headers("https://evil.example/x", "tok", true),
        Err("not a GitHub API URL: https://evil.example/x".to_string())
    );
    assert!(api_request_headers("https://api.github.com.evil.example/x", "tok", false).is_err());
    assert!(api_request_headers("https://api.github.com", "tok", false).is_err());
}

#[test]
fn headers_with_and_without_body() {
    let plain = request_headers("tok", false);
    assert_eq!(
        plain,
        vec![
            ("Accept".to_string(), "application/vnd.github+json".to_string()),
            ("Authorization".to_string(), "Bearer tok".to_string()),
            ("X-GitHub-Api-Version".to_string(), "2022-11-28".to_string()),
        ]
    );
    let with_body = request_headers("tok", true);
    assert_eq!(with_body.len(), 4);
    assert_eq!(with_body[3], ("Content-Type".to_string(), "application/json".to_string()));
}

#[test]
fn shorten_short_text_whole() {
    assert_eq!(shorten("Not Found"), "Not Found");
    let exactly = "x".repeat(200);
    assert_eq!(shorten(&exactly), exactly);
}

#[test]
fn shorten_prefers_api_message() {
    let body = format!("{{\"message\":\"Bad credentials\",\"pad\":\"{}\"}}", "y".repeat(300));
    assert_eq!(shorten(&body), "Bad credentials");
}

#[test]
fn shorten_cuts_long_text() {
    let long = "z".repeat(250);
    assert_eq!(shorten(&long), format!("{}…", "z".repeat(200)));
}

#[test]
fn shorten_inside_a_char_is_refused() {
    let long = format!("a{}", "é".repeat(150));
    assert_eq!(checked_shorten(&long), None);
    let fits = format!("{}", "é".repeat(150));
    assert_eq!(checked_shorten(&fits), Some(format!("{}…", "é".repeat(100))));
}

#[test]
fn reply_outcomes() {
    assert_eq!(reply_outcome(200, "[]"), Some(Ok("[]".to_string())));
    assert_eq!(reply_outcome(299, "x"), Some(Ok("x".to_string())));
    assert_eq!(
        reply_outcome(404, "{\"message\":\"Not Found\"}"),
        Some(Err("GitHub 404: {\"message\":\"Not Found\"}".to_string()))
    );
    assert_eq!(reply_outcome(500, &format!("a{}", "é".repeat(150))), None);
    assert_eq!(reply_outcome(199, "x"), Some(Err("GitHub 199: x".to_string())));
}
