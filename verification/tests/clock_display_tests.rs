use contrib_inbox::clock::{ago, is_stale, Moment};
use contrib_inbox::display::{
    review_badge, state_badge, summarize_ci, Filter, DIM, GREEN, MAUVE, RED, YELLOW,
};
use contrib_inbox::github::{CheckRun, CheckRuns, Item, PullRef};

const JAN1_2024: i64 = 1_704_067_200;

fn at(seconds: i64) -> Moment {
    Moment { unix_seconds: seconds, nanosecond: 0 }
}

#[test]
fn ago_buckets() {
    let when = "2024-01-01T00:00:00Z";
    assert_eq!(ago(when, at(JAN1_2024 - 1)), "now");
    assert_eq!(ago(when, at(JAN1_2024)), "just now");
    assert_eq!(ago(when, at(JAN1_2024 + 59)), "just now");
    assert_eq!(ago(when, at(JAN1_2024 + 60)), "1m ago");
    assert_eq!(ago(when, at(JAN1_2024 + 3599)), "59m ago");
    assert_eq!(ago(when, at(JAN1_2024 + 3600)), "1h ago");
    assert_eq!(ago(when, at(JAN1_2024 + 86399)), "23h ago");
    assert_eq!(ago(when, at(JAN1_2024 + 86400 * 3 + 5)), "3d ago");
    assert_eq!(ago("yesterday", at(JAN1_2024)), "yesterday");
}

#[test]
fn ago_honours_offsets_and_fractions() {
    // 01:00 at +01:00 is midnight UTC
    assert_eq!(ago("2024-01-01T01:00:00+01:00", at(JAN1_2024 + 120)), "2m ago");
    let just_before = Moment { unix_seconds: JAN1_2024, nanosecond: 400_000_000 };
    assert_eq!(ago("2024-01-01T00:00:00.5Z", just_before), "now");
}

#[test]
fn staleness_is_thirty_days() {
    let when = "2024-01-01T00:00:00Z";
    let window = 30 * 86_400;
    let it = item_updated(when);
    assert!(!is_stale(&it, at(JAN1_2024 + window)));
    assert!(is_stale(&it, Moment { unix_seconds: JAN1_2024 + window, nanosecond: 1 }));
    assert!(is_stale(&it, at(JAN1_2024 + window + 86_400)));
    assert!(!is_stale(&item_updated("not a date"), at(JAN1_2024 + 10 * window)));
}

fn item_updated(updated: &str) -> Item {
    let mut it = item("open", None, None);
    it.updated_at = updated.to_string();
    it
}

fn run(status: &str, conclusion: Option<&str>) -> CheckRun {
    CheckRun {
        name: "ci".to_string(),
        status: status.to_string(),
        conclusion: conclusion.map(|c| c.to_string()),
    }
}

#[test]
fn ci_summaries() {
    let none = CheckRuns { total_count: 0, check_runs: vec![run("completed", Some("failure"))] };
    let s = summarize_ci(&none);
    assert_eq!((s.label.as_str(), s.color), ("no checks", DIM));

    let failing = CheckRuns {
        total_count: 4,
        check_runs: vec![
            run("completed", Some("success")),
            run("completed", Some("failure")),
            run("completed", None),
            run("in_progress", None),
        ],
    };
    let s = summarize_ci(&failing);
    assert_eq!((s.label.as_str(), s.color), ("CI ✗ 2 failed", RED));

    let pending = CheckRuns {
        total_count: 2,
        check_runs: vec![run("completed", Some("skipped")), run("queued", None)],
    };
    let s = summarize_ci(&pending);
    assert_eq!((s.label.as_str(), s.color), ("CI … 1 pending", YELLOW));

    let passing = CheckRuns {
        total_count: 3,
        check_runs: vec![
            run("completed", Some("success")),
            run("completed", Some("neutral")),
            run("completed", Some("skipped")),
        ],
    };
    let s = summarize_ci(&passing);
    assert_eq!((s.label.as_str(), s.color), ("CI ✓ 3 passed", GREEN));

    let empty_list = CheckRuns { total_count: 5, check_runs: vec![] };
    let s = summarize_ci(&empty_list);
    assert_eq!((s.label.as_str(), s.color), ("CI ✓ 0 passed", GREEN));
}

fn item(state: &str, pull: Option<PullRef>, draft: Option<bool>) -> Item {
    Item {
        id: 1,
        number: 1,
        title: String::new(),
        body: None,
        state: state.to_string(),
        html_url: String::new(),
        repository_url: String::new(),
        comments_url: String::new(),
        updated_at: String::new(),
        created_at: String::new(),
        author_association: String::new(),
        labels: vec![],
        comments: 0,
        draft,
        pull_request: pull,
        user: None,
    }
}

fn pr(merged: bool) -> Option<PullRef> {
    Some(PullRef { url: String::new(), merged_at: if merged { Some("x".to_string()) } else { None } })
}

#[test]
fn state_badges() {
    assert_eq!(state_badge(&item("closed", pr(true), None)), ("merged".to_string(), MAUVE));
    assert_eq!(state_badge(&item("open", pr(false), Some(true))), ("draft".to_string(), DIM));
    assert_eq!(state_badge(&item("open", pr(false), Some(false))), ("open".to_string(), GREEN));
    assert_eq!(state_badge(&item("closed", pr(false), None)), ("closed".to_string(), RED));
    assert_eq!(state_badge(&item("open", None, None)), ("open".to_string(), GREEN));
    assert_eq!(state_badge(&item("closed", None, None)), ("closed".to_string(), MAUVE));
}

#[test]
fn review_badges() {
    assert_eq!(review_badge("APPROVED"), ("approved".to_string(), GREEN));
    assert_eq!(review_badge("CHANGES_REQUESTED"), ("changes requested".to_string(), RED));
    assert_eq!(review_badge("COMMENTED"), ("commented".to_string(), YELLOW));
    assert_eq!(review_badge("DISMISSED"), ("dismissed".to_string(), DIM));
    assert_eq!(review_badge("PENDING"), ("pending".to_string(), DIM));
    assert_eq!(review_badge("ÉTAT"), ("état".to_string(), DIM));
}

#[test]
fn filter_labels_in_tab_order() {
    let labels: Vec<&str> = Filter::all().iter().map(|f| f.label()).collect();
    assert_eq!(labels, vec!["open", "merged", "closed", "stale"]);
}
