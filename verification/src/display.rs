//! What the inbox shows about an item: list filters, state and review
//! badges, and the CI summary of a pull request. Colors are 0xRRGGBB.

use vstd::prelude::*;
use vstd::string::StringExecFns;
use crate::github::{CheckRun, CheckRuns, Item};
use crate::text::{decimal, owned, push_decimal, same_text, to_lowercase, unicode_lowercase};

verus! {

broadcast use vstd::string::group_string_axioms;

pub const BG: u32 = 0x1e1e2e;
pub const PANEL: u32 = 0x181825;
pub const BORDER: u32 = 0x45475a;
pub const TEXT: u32 = 0xcdd6f4;
pub const DIM: u32 = 0x6c7086;
pub const ACCENT: u32 = 0x89b4fa;
pub const GREEN: u32 = 0xa6e3a1;
pub const RED: u32 = 0xf38ba8;
pub const YELLOW: u32 = 0xf9e2af;
pub const MAUVE: u32 = 0xcba6f7;

/// Which items the list shows.
#[derive(Debug, Clone, Copy, PartialEq, Eq, Structural)]
pub enum Filter {
    Open,
    Merged,
    Closed,
    Stale,
}

impl Filter {
    pub open spec fn name(self) -> Seq<char> {
        match self {
            Filter::Open => "open"@,
            Filter::Merged => "merged"@,
            Filter::Closed => "closed"@,
            Filter::Stale => "stale"@,
        }
    }

    pub fn label(self) -> (r: &'static str)
        ensures
            r@ == self.name(),
    {
        match self {
            Filter::Open => "open",
            Filter::Merged => "merged",
            Filter::Closed => "closed",
            Filter::Stale => "stale",
        }
    }

    /// The filters in the order of their tabs.
    pub fn all() -> (r: [Filter; 4])
        ensures
            r@ == seq![Filter::Open, Filter::Merged, Filter::Closed, Filter::Stale],
    {
        [Filter::Open, Filter::Merged, Filter::Closed, Filter::Stale]
    }
}

/// A CI summary line and its color.
#[derive(Debug, Clone)]
pub struct Ci {
    pub label: String,
    pub color: u32,
}

/// A check run has finished.
pub open spec fn run_completed(run: CheckRun) -> bool {
    run.status@ == "completed"@
}

/// A finished check run counts as passed: success, skipped or neutral.
pub open spec fn run_passed(run: CheckRun) -> bool {
    run_completed(run) && (run.conclusion matches Some(c) && (c@ == "success"@ || c@
        == "skipped"@ || c@ == "neutral"@))
}

/// How many runs satisfy `which`: 0 pending, 1 passed, 2 failed.
pub open spec fn count_runs(runs: Seq<CheckRun>, which: int) -> nat
    decreases runs.len(),
{
    if runs.len() == 0 {
        0
    } else {
        let run = runs.last();
        let hit = if which == 0 {
            !run_completed(run)
        } else if which == 1 {
            run_passed(run)
        } else {
            run_completed(run) && !run_passed(run)
        };
        count_runs(runs.drop_last(), which) + if hit { 1nat } else { 0nat }
    }
}

/// The CI summary of a commit's check runs: no checks when the total is 0;
/// else the failures if any, else the pending runs if any, else the passes.
pub open spec fn ci_summary(runs: CheckRuns) -> (Seq<char>, u32) {
    let pending = count_runs(runs.check_runs@, 0);
    let passed = count_runs(runs.check_runs@, 1);
    let failed = count_runs(runs.check_runs@, 2);
    if runs.total_count == 0 {
        ("no checks"@, DIM)
    } else if failed > 0 {
        ("CI ✗ "@ + decimal(failed) + " failed"@, RED)
    } else if pending > 0 {
        ("CI … "@ + decimal(pending) + " pending"@, YELLOW)
    } else {
        ("CI ✓ "@ + decimal(passed) + " passed"@, GREEN)
    }
}

fn counted(label: &str, n: u64, tail: &str) -> (r: String)
    ensures
        r@ == label@ + decimal(n as nat) + tail@,
{
    let mut r = owned(label);
    push_decimal(&mut r, n);
    r.append(tail);
    r
}

pub fn summarize_ci(runs: &CheckRuns) -> (r: Ci)
    ensures
        (r.label@, r.color) == ci_summary(*runs),
{
    if runs.total_count == 0 {
        return Ci { label: owned("no checks"), color: DIM };
    }
    let mut passed: u64 = 0;
    let mut failed: u64 = 0;
    let mut pending: u64 = 0;
    let mut i: usize = 0;
    let n: usize = runs.check_runs.len();
    while i < n
        invariant
            i <= n == runs.check_runs.len(),
            pending == count_runs(runs.check_runs@.take(i as int), 0),
            passed == count_runs(runs.check_runs@.take(i as int), 1),
            failed == count_runs(runs.check_runs@.take(i as int), 2),
            pending + passed + failed == i,
        decreases n - i,
    {
        let run = &runs.check_runs[i];
        assert(runs.check_runs@.take(i + 1).drop_last() =~= runs.check_runs@.take(i as int));
        if !same_text(run.status.as_str(), "completed") {
            pending = pending + 1;
        } else {
            let ok = match &run.conclusion {
                Some(c) => same_text(c.as_str(), "success") || same_text(c.as_str(), "skipped")
                    || same_text(c.as_str(), "neutral"),
                None => false,
            };
            if ok {
                passed = passed + 1;
            } else {
                failed = failed + 1;
            }
        }
        i = i + 1;
    }
    assert(runs.check_runs@.take(n as int) =~= runs.check_runs@);
    if failed > 0 {
        Ci { label: counted("CI ✗ ", failed, " failed"), color: RED }
    } else if pending > 0 {
        Ci { label: counted("CI … ", pending, " pending"), color: YELLOW }
    } else {
        Ci { label: counted("CI ✓ ", passed, " passed"), color: GREEN }
    }
}

/// The state badge of an item: merged; for a pull request draft, open or
/// closed; for an issue open or closed.
pub open spec fn state_badge_of(item: Item) -> (Seq<char>, u32) {
    if item.merged() {
        ("merged"@, MAUVE)
    } else if item.pull() {
        if item.opened() {
            if item.draft == Some(true) {
                ("draft"@, DIM)
            } else {
                ("open"@, GREEN)
            }
        } else {
            ("closed"@, RED)
        }
    } else if item.opened() {
        ("open"@, GREEN)
    } else {
        ("closed"@, MAUVE)
    }
}

pub fn state_badge(item: &Item) -> (r: (String, u32))
    ensures
        (r.0@, r.1) == state_badge_of(*item),
{
    if item.is_merged() {
        (owned("merged"), MAUVE)
    } else if item.is_pr() {
        if item.is_open() {
            let draft = match item.draft {
                Some(d) => d,
                None => false,
            };
            if draft {
                (owned("draft"), DIM)
            } else {
                (owned("open"), GREEN)
            }
        } else {
            (owned("closed"), RED)
        }
    } else if item.is_open() {
        (owned("open"), GREEN)
    } else {
        (owned("closed"), MAUVE)
    }
}

/// The badge of a review state; an unknown state is shown in lowercase.
pub open spec fn review_badge_of(state: Seq<char>) -> (Seq<char>, u32) {
    if state == "APPROVED"@ {
        ("approved"@, GREEN)
    } else if state == "CHANGES_REQUESTED"@ {
        ("changes requested"@, RED)
    } else if state == "COMMENTED"@ {
        ("commented"@, YELLOW)
    } else if state == "DISMISSED"@ {
        ("dismissed"@, DIM)
    } else {
        (unicode_lowercase(state), DIM)
    }
}

pub fn review_badge(state: &str) -> (r: (String, u32))
    ensures
        (r.0@, r.1) == review_badge_of(state@),
{
    if same_text(state, "APPROVED") {
        (owned("approved"), GREEN)
    } else if same_text(state, "CHANGES_REQUESTED") {
        (owned("changes requested"), RED)
    } else if same_text(state, "COMMENTED") {
        (owned("commented"), YELLOW)
    } else if same_text(state, "DISMISSED") {
        (owned("dismissed"), DIM)
    } else {
        (to_lowercase(state), DIM)
    }
}

/// Every check run is counted exactly once: as pending, passed or failed.
pub proof fn lemma_runs_counted_once(runs: Seq<CheckRun>)
    ensures
        count_runs(runs, 0) + count_runs(runs, 1) + count_runs(runs, 2) == runs.len(),
    decreases runs.len(),
{
    if runs.len() > 0 {
        lemma_runs_counted_once(runs.drop_last());
    }
}

/// A run that is still going: its status is not `completed`.
pub open spec fn raw_pending(run: CheckRun) -> bool {
    run.status@ != "completed"@
}

/// A finished run whose conclusion is none of success, skipped and neutral
/// (a failure, a time-out, a cancellation, an action required, or none).
pub open spec fn raw_failed(run: CheckRun) -> bool {
    &&& run.status@ == "completed"@
    &&& match run.conclusion {
        Some(c) => c@ != "success"@ && c@ != "skipped"@ && c@ != "neutral"@,
        None => true,
    }
}

proof fn lemma_count_positive(runs: Seq<CheckRun>)
    ensures
        count_runs(runs, 0) > 0 <==> exists|i: int| 0 <= i < runs.len() && raw_pending(#[trigger] runs[i]),
        count_runs(runs, 2) > 0 <==> exists|i: int| 0 <= i < runs.len() && raw_failed(#[trigger] runs[i]),
        count_runs(runs, 1) == runs.len() - count_runs(runs, 0) - count_runs(runs, 2),
    decreases runs.len(),
{
    if runs.len() > 0 {
        let init = runs.drop_last();
        lemma_count_positive(init);
        let last = runs.len() - 1;
        assert(runs.last() == runs[last]);
        if exists|i: int| 0 <= i < init.len() && raw_pending(#[trigger] init[i]) {
            let i = choose|i: int| 0 <= i < init.len() && raw_pending(#[trigger] init[i]);
            assert(runs[i] == init[i]);
        }
        if exists|i: int| 0 <= i < runs.len() && raw_pending(#[trigger] runs[i]) {
            let i = choose|i: int| 0 <= i < runs.len() && raw_pending(#[trigger] runs[i]);
            if i < last {
                assert(init[i] == runs[i]);
            }
        }
        if exists|i: int| 0 <= i < init.len() && raw_failed(#[trigger] init[i]) {
            let i = choose|i: int| 0 <= i < init.len() && raw_failed(#[trigger] init[i]);
            assert(runs[i] == init[i]);
        }
        if exists|i: int| 0 <= i < runs.len() && raw_failed(#[trigger] runs[i]) {
            let i = choose|i: int| 0 <= i < runs.len() && raw_failed(#[trigger] runs[i]);
            if i < last {
                assert(init[i] == runs[i]);
            }
        }
    }
}

/// The CI line of a commit's runs: "no checks" in DIM when the total is 0;
/// else RED, "CI ✗ n failed", exactly when some finished run concluded with
/// anything but success, skipped or neutral; else YELLOW, "CI … n pending",
/// exactly when some run is not finished; else GREEN, "CI ✓ n passed" with
/// every run counted as passed.
pub proof fn lemma_ci_summary_by_runs(runs: CheckRuns)
    ensures
        runs.total_count == 0 ==> ci_summary(runs) == ("no checks"@, DIM),
        runs.total_count != 0 ==> {
            let rs = runs.check_runs@;
            let line = ci_summary(runs);
            let failing = exists|i: int| 0 <= i < rs.len() && raw_failed(#[trigger] rs[i]);
            let pending = exists|i: int| 0 <= i < rs.len() && raw_pending(#[trigger] rs[i]);
            &&& (line.1 == RED) == failing
            &&& failing ==> exists|k: nat|
                k >= 1 && line.0 == "CI ✗ "@ + #[trigger] decimal(k) + " failed"@
            &&& !failing && pending ==> exists|k: nat|
                k >= 1 && line.0 == "CI … "@ + #[trigger] decimal(k) + " pending"@
            &&& (line.1 == YELLOW) == (!failing && pending)
            &&& (line.1 == GREEN) == (!failing && !pending)
            &&& !failing && !pending ==> line.0 == "CI ✓ "@ + decimal(rs.len()) + " passed"@
        },
{
    let rs = runs.check_runs@;
    lemma_count_positive(rs);
    lemma_runs_counted_once(rs);
    let failed = count_runs(rs, 2);
    let pending = count_runs(rs, 0);
    assert(decimal(failed) == decimal(failed));
    assert(decimal(pending) == decimal(pending));
    assert(RED != YELLOW && RED != GREEN && YELLOW != GREEN && DIM != RED);
}

} // verus!
