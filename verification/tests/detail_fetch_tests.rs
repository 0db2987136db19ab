use contrib_inbox::clock::Moment;
use contrib_inbox::github::{
    CheckRun, CheckRuns, Comment, Item, PrDetail, PrHead, PullRef, Review, User,
};
use contrib_inbox::inbox::{DetailFetch, FetchStep};
use contrib_inbox::view::{body_heading, detail_placeholder, detail_view, meta_placeholder};

const NOW: Moment = Moment { unix_seconds: 1_704_067_200, nanosecond: 0 };

fn item(pull: bool) -> Item {
    Item {
        id: 5,
        number: 12,
        title: "t".to_string(),
        body: None,
        state: "open".to_string(),
        html_url: String::new(),
        repository_url: "https://api.github.com/repos/owner/repo".to_string(),
        comments_url: "https://api.github.com/repos/owner/repo/issues/12/comments".to_string(),
        updated_at: "2024-01-01T00:00:00Z".to_string(),
        created_at: "2024-01-01T00:00:00Z".to_string(),
        author_association: "NONE".to_string(),
        labels: vec![],
        comments: 0,
        draft: None,
        pull_request: if pull {
            Some(PullRef {
                url: "https://api.github.com/repos/owner/repo/pulls/12".to_string(),
                merged_at: None,
            })
        } else {
            None
        },
        user: None,
    }
}

fn url(step: FetchStep) -> String {
    match step {
        FetchStep::Comments(u) => format!("comments {}", u),
        FetchStep::Reviews(u) => format!("reviews {}", u),
        FetchStep::Record(u) => format!("record {}", u),
        FetchStep::Checks(u) => format!("checks {}", u),
        FetchStep::Done => "done".to_string(),
    }
}

#[test]
fn an_issue_needs_only_its_comments() {
    let it = item(false);
    let mut fetch = DetailFetch::new();
    assert_eq!(url(fetch.next(&it)), "comments https://api.github.com/repos/owner/repo/issues/12/comments");
    fetch.comments = Some(Err("offline".to_string()));
    assert_eq!(url(fetch.next(&it)), "done");
    let d = fetch.detail();
    assert!(d.comments.is_empty() && d.reviews.is_empty() && d.ci.is_none() && d.error.is_none());
}

#[test]
fn a_pull_request_fetches_reviews_record_and_checks() {
    let it = item(true);
    let mut fetch = DetailFetch::new();
    fetch.comments = Some(Ok(vec![Comment {
        id: 1,
        body: None,
        created_at: String::new(),
        updated_at: String::new(),
        user: Some(User { login: "a".to_string() }),
    }]));
    assert_eq!(url(fetch.next(&it)), "reviews https://api.github.com/repos/owner/repo/pulls/12/reviews?per_page=30");
    fetch.reviews = Some(Ok(vec![Review {
        id: 2,
        state: "APPROVED".to_string(),
        body: None,
        submitted_at: None,
        user: None,
    }]));
    assert_eq!(url(fetch.next(&it)), "record https://api.github.com/repos/owner/repo/pulls/12");
    fetch.record = Some(Ok(PrDetail { head: PrHead { sha: "abc".to_string() }, mergeable_state: None }));
    assert_eq!(
        url(fetch.next(&it)),
        "checks https://api.github.com/repos/owner/repo/commits/abc/check-runs?per_page=30"
    );
    fetch.checks = Some(Ok(CheckRuns {
        total_count: 1,
        check_runs: vec![CheckRun {
            name: "ci".to_string(),
            status: "completed".to_string(),
            conclusion: Some("success".to_string()),
        }],
    }));
    assert_eq!(url(fetch.next(&it)), "done");
    let d = fetch.detail();
    assert_eq!(d.comments.len(), 1);
    assert_eq!(d.reviews.len(), 1);
    assert_eq!(d.ci.map(|c| c.label), Some("CI ✓ 1 passed".to_string()));
    assert!(d.error.is_none());
}

#[test]
fn a_failed_record_skips_the_checks() {
    let it = item(true);
    let mut fetch = DetailFetch::new();
    fetch.comments = Some(Ok(vec![]));
    fetch.reviews = Some(Err("reviews failed".to_string()));
    fetch.record = Some(Err("record failed".to_string()));
    assert_eq!(url(fetch.next(&it)), "done");
    let d = fetch.detail();
    assert_eq!(d.error.as_deref(), Some("record failed"));
    assert!(d.ci.is_none());
}

#[test]
fn pane_texts() {
    assert_eq!(meta_placeholder(), "select an item");
    assert_eq!(detail_placeholder(), "nothing selected");
    assert_eq!(body_heading(), "BODY");
    let mut fetch = DetailFetch::new();
    fetch.comments = Some(Ok(vec![]));
    fetch.reviews = Some(Ok(vec![]));
    fetch.record = Some(Err("x".to_string()));
    let detail = fetch.detail();
    let v = detail_view(&item(true), Some(&detail), false, NOW);
    assert_eq!(v.comments_placeholder(), Some("no comments"));
    assert_eq!(v.reviews_placeholder(), Some("no reviews"));
    let v = detail_view(&item(false), Some(&detail), false, NOW);
    assert_eq!(v.reviews_placeholder(), None);
}
