use std::collections::HashMap;

use contrib_inbox::clock::Moment;
use contrib_inbox::display::{Filter, GREEN, RED};
use contrib_inbox::github::{CheckRun, CheckRuns, Comment, Item, PullRef, Review, SearchResponse};
use contrib_inbox::inbox::{assemble_detail, comment_text, BootAction, Detail, Inbox, TokenSubmit};

const NOW: Moment = Moment { unix_seconds: 1_710_000_000, nanosecond: 0 };

fn item(id: u64, state: &str, association: &str, merged: Option<bool>, updated: &str) -> Item {
    Item {
        id,
        number: id * 10,
        title: format!("item {}", id),
        body: Some("body".to_string()),
        state: state.to_string(),
        html_url: format!("https://github.com/o/r/issues/{}", id * 10),
        repository_url: "https://api.github.com/repos/o/r".to_string(),
        comments_url: String::new(),
        updated_at: updated.to_string(),
        created_at: "2023-01-01T00:00:00Z".to_string(),
        author_association: association.to_string(),
        labels: vec![],
        comments: 0,
        draft: None,
        pull_request: merged.map(|m| PullRef {
            url: "https://api.github.com/repos/o/r/pulls/1".to_string(),
            merged_at: if m { Some("2024-01-01T00:00:00Z".to_string()) } else { None },
        }),
        user: None,
    }
}

fn signed_in() -> Inbox {
    Inbox::new(Some("tok".to_string()), Some("me".to_string()), HashMap::new())
}

fn response() -> SearchResponse {
    SearchResponse {
        total_count: 9,
        items: vec![
            item(1, "open", "NONE", None, "2024-03-01T00:00:00Z"),
            item(2, "open", "OWNER", None, "2024-03-01T00:00:00Z"),
            item(3, "closed", "CONTRIBUTOR", Some(true), "2024-02-01T00:00:00Z"),
            item(4, "open", "NONE", Some(false), "2023-01-01T00:00:00Z"),
            item(5, "closed", "MEMBER", None, "2024-02-01T00:00:00Z"),
            item(6, "closed", "NONE", None, "2024-02-01T00:00:00Z"),
        ],
    }
}

#[test]
fn new_inbox_without_token_asks_for_one() {
    let inbox = Inbox::new(Some("   ".to_string()), Some("".to_string()), HashMap::new());
    assert!(inbox.token.is_none());
    assert!(inbox.login.is_none());
    assert_eq!(inbox.status, "no token — press t to set a GitHub token");
    assert_eq!(inbox.filter, Filter::Open);
    let fresh = signed_in();
    assert_eq!(fresh.token.as_deref(), Some("tok"));
    assert_eq!(fresh.status, "");
}

#[test]
fn boot_decides_by_token_and_login() {
    let mut none = Inbox::new(None, None, HashMap::new());
    assert!(matches!(none.boot(), BootAction::Idle));
    let mut known = signed_in();
    assert!(matches!(known.boot(), BootAction::Refresh));
    let mut unknown = Inbox::new(Some("tok".to_string()), None, HashMap::new());
    assert!(matches!(unknown.boot(), BootAction::FetchLogin(t) if t == "tok"));
    assert!(unknown.loading);
    assert_eq!(unknown.status, "signing in …");
    assert!(!unknown.finish_boot(Err("401".to_string())));
    assert_eq!(unknown.status, "sign-in failed — press t to retry");
    assert!(!unknown.loading);
    assert!(unknown.finish_boot(Ok("me".to_string())));
    assert_eq!(unknown.login.as_deref(), Some("me"));
    assert!(unknown.error.is_none());
}

#[test]
fn refresh_needs_token_and_login() {
    let mut none = Inbox::new(None, Some("me".to_string()), HashMap::new());
    assert!(none.start_refresh().is_none());
    assert_eq!(none.status, "no token — press t to set a GitHub token");
    let mut inbox = signed_in();
    let req = inbox.start_refresh().unwrap();
    assert_eq!((req.login.as_str(), req.token.as_str()), ("me", "tok"));
    assert!(inbox.loading);
    assert_eq!(inbox.status, "refreshing @me …");
}

#[test]
fn search_keeps_only_external_items() {
    let mut inbox = signed_in();
    inbox.selected = 3;
    inbox.apply_search(Ok(response()));
    let ids: Vec<u64> = inbox.items.iter().map(|i| i.id).collect();
    assert_eq!(ids, vec![1, 3, 4, 6]);
    assert_eq!(inbox.selected, 0);
    assert!(!inbox.loading);
    assert_eq!(inbox.status, "4 external (9 total) · 4 updated");
}

#[test]
fn search_failure_reports() {
    let mut inbox = signed_in();
    inbox.apply_search(Err("GitHub 500: boom".to_string()));
    assert_eq!(inbox.error.as_deref(), Some("GitHub 500: boom"));
    assert_eq!(inbox.status, "refresh failed: GitHub 500: boom");
}

#[test]
fn filters_and_counts() {
    let mut inbox = signed_in();
    inbox.apply_search(Ok(response()));
    assert_eq!(inbox.visible(NOW), vec![0, 2]);
    assert_eq!(inbox.count(Filter::Open, NOW), 2);
    assert_eq!(inbox.visible_for(Filter::Merged, NOW), vec![1]);
    assert_eq!(inbox.visible_for(Filter::Closed, NOW), vec![3]);
    assert_eq!(inbox.visible_for(Filter::Stale, NOW), vec![2]);
    for filter in Filter::all() {
        assert_eq!(inbox.count(filter, NOW), inbox.visible_for(filter, NOW).len());
    }
}

#[test]
fn selection_moves_within_rows() {
    let mut inbox = signed_in();
    inbox.apply_search(Ok(response()));
    assert_eq!(inbox.selected_item(NOW).map(|i| i.id), Some(1));
    assert!(!inbox.select_index(0, NOW));
    assert!(inbox.reselect(0, NOW).is_none());
    let req = inbox.reselect(9, NOW).unwrap();
    assert_eq!(req.index, 2);
    assert_eq!(inbox.selected, 1);
    assert_eq!(inbox.selected_item(NOW).map(|i| i.id), Some(4));
    assert!(inbox.seen.contains_key(&4));
    assert!(inbox.move_selection(1, NOW).is_none());
    let req = inbox.move_selection(-5, NOW).unwrap();
    assert_eq!(req.index, 0);
    assert_eq!(inbox.selected, 0);
    assert!(inbox.move_selection(-1, NOW).is_none());
    assert_eq!(inbox.open_selected(NOW).as_deref(), Some("https://github.com/o/r/issues/10"));
    let req = inbox.set_filter(Filter::Closed, NOW).unwrap();
    assert_eq!(req.index, 3);
    assert_eq!(inbox.selected, 0);
    assert_eq!(inbox.selected_item(NOW).map(|i| i.id), Some(6));
    let mut empty = signed_in();
    assert!(empty.move_selection(1, NOW).is_none());
    assert!(!empty.select_index(0, NOW));
    assert!(empty.selected_item(NOW).is_none());
    assert!(empty.set_filter(Filter::Stale, NOW).is_none());
    assert_eq!(empty.filter, Filter::Stale);
}

#[test]
fn opening_detail_marks_item_seen() {
    let mut inbox = signed_in();
    inbox.apply_search(Ok(response()));
    let first = inbox.items[0].clone();
    assert!(inbox.is_fresh(&first));
    let req = inbox.start_detail(NOW).unwrap();
    assert_eq!(req.index, 0);
    assert_eq!(req.token, "tok");
    assert!(inbox.detail_loading);
    assert!(!inbox.is_fresh(&first));
    assert_eq!(inbox.seen.get(&1).map(|s| s.as_str()), Some("2024-03-01T00:00:00Z"));
    let mut newer = first.clone();
    newer.updated_at = "2024-03-02T00:00:00Z".to_string();
    assert!(inbox.is_fresh(&newer));
    let detail = assemble_detail(Ok(vec![]), None, None);
    inbox.apply_detail(1, detail);
    assert!(!inbox.detail_loading);
    assert!(inbox.details.contains_key(&1));
}

#[test]
fn search_status_counts_fresh_items() {
    let mut seen = HashMap::new();
    seen.insert(1u64, "2024-03-01T00:00:00Z".to_string());
    seen.insert(3u64, "2024-01-01T00:00:00Z".to_string());
    let mut inbox = Inbox::new(Some("tok".to_string()), Some("me".to_string()), seen);
    inbox.apply_search(Ok(response()));
    assert_eq!(inbox.status, "4 external (9 total) · 3 updated");
}

#[test]
fn detail_without_token_or_selection_does_nothing() {
    let mut inbox = Inbox::new(None, None, HashMap::new());
    assert!(inbox.start_detail(NOW).is_none());
    let mut empty = signed_in();
    assert!(empty.start_detail(NOW).is_none());
    assert!(!empty.detail_loading);
}

fn comment(id: u64) -> Comment {
    Comment { id, body: None, created_at: String::new(), updated_at: String::new(), user: None }
}

fn review(state: &str) -> Review {
    Review { id: 1, state: state.to_string(), body: None, submitted_at: None, user: None }
}

#[test]
fn detail_assembly() {
    let d: Detail = assemble_detail(Err("x".to_string()), None, None);
    assert!(d.comments.is_empty() && d.reviews.is_empty() && d.ci.is_none() && d.error.is_none());
    let runs = CheckRuns {
        total_count: 1,
        check_runs: vec![CheckRun {
            name: "ci".to_string(),
            status: "completed".to_string(),
            conclusion: Some("failure".to_string()),
        }],
    };
    let d = assemble_detail(
        Ok(vec![comment(1), comment(2)]),
        Some(Ok(vec![review("APPROVED")])),
        Some(Ok(runs)),
    );
    assert_eq!(d.comments.len(), 2);
    assert_eq!(d.reviews.len(), 1);
    let ci = d.ci.unwrap();
    assert_eq!((ci.label.as_str(), ci.color), ("CI ✗ 1 failed", RED));
    assert!(d.error.is_none());
    let d = assemble_detail(Ok(vec![]), Some(Err("reviews down".to_string())), Some(Err("pr down".to_string())));
    assert_eq!(d.error.as_deref(), Some("pr down"));
    let d = assemble_detail(Ok(vec![]), Some(Err("reviews down".to_string())), None);
    assert_eq!(d.error.as_deref(), Some("reviews down"));
    let _ = GREEN;
}

#[test]
fn commenting_flow() {
    let mut empty = signed_in();
    assert!(empty.start_comment(NOW).is_none());
    assert_eq!(empty.status, "nothing to comment on");
    let mut inbox = signed_in();
    inbox.apply_search(Ok(response()));
    let (req, prompt) = inbox.start_comment(NOW).unwrap();
    assert_eq!(req.index, 0);
    assert_eq!(prompt, "comment on o/r#10");
    assert_eq!(comment_text(None), None);
    assert_eq!(comment_text(Some(" \n ".to_string())), None);
    assert_eq!(comment_text(Some(" hi ".to_string())), Some(" hi ".to_string()));
    inbox.apply_detail(1, assemble_detail(Ok(vec![]), None, None));
    assert!(inbox.finish_comment(1, 10, Ok(())));
    assert_eq!(inbox.status, "comment posted on #10");
    assert!(!inbox.details.contains_key(&1));
    assert!(!inbox.finish_comment(1, 10, Err("GitHub 403: no".to_string())));
    assert_eq!(inbox.status, "comment failed: GitHub 403: no");
}

#[test]
fn closing_only_open_items() {
    let mut empty = signed_in();
    assert!(empty.start_close(NOW).is_none());
    assert_eq!(empty.status, "nothing to close");
    let mut inbox = signed_in();
    inbox.apply_search(Ok(response()));
    inbox.set_filter(Filter::Closed, NOW);
    assert!(inbox.start_close(NOW).is_none());
    assert_eq!(inbox.status, "already closed — x only works on open items");
    inbox.set_filter(Filter::Open, NOW);
    let req = inbox.start_close(NOW).unwrap();
    assert_eq!(req.index, 0);
    assert_eq!(inbox.status, "closing #10 …");
    assert!(inbox.finish_close(10, Ok(())));
    assert_eq!(inbox.status, "closed #10");
    assert!(!inbox.finish_close(10, Err("boom".to_string())));
    assert_eq!(inbox.status, "close failed: boom");
}

#[test]
fn token_prompt_flow() {
    let mut inbox = signed_in();
    inbox.apply_search(Ok(response()));
    assert_eq!(inbox.start_token_editor(), "tok");
    assert!(matches!(inbox.submit_token(None), TokenSubmit::Ignored));
    assert_eq!(inbox.token.as_deref(), Some("tok"));
    assert!(matches!(inbox.submit_token(Some("  new  ".to_string())), TokenSubmit::Validate(t) if t == "new"));
    assert!(!inbox.finish_token("new".to_string(), Err("GitHub 401: Bad credentials".to_string())));
    assert_eq!(inbox.status, "invalid token: GitHub 401: Bad credentials");
    assert_eq!(inbox.token.as_deref(), Some("tok"));
    assert!(inbox.finish_token("new".to_string(), Ok("you".to_string())));
    assert_eq!(inbox.token.as_deref(), Some("new"));
    assert_eq!(inbox.login.as_deref(), Some("you"));
    assert_eq!(inbox.status, "token saved");
    assert!(matches!(inbox.submit_token(Some(" ".to_string())), TokenSubmit::Cleared));
    assert!(inbox.token.is_none() && inbox.login.is_none() && inbox.items.is_empty());
    assert_eq!(inbox.status, "token cleared — press t to set a GitHub token");
    assert_eq!(inbox.start_token_editor(), "");
    assert!(inbox.start_refresh().is_none());
}
