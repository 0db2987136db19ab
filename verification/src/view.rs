//! What the three panes show: the filter tabs and list rows, the selected
//! item's facts, and its body, latest comments and reviews. Layout and
//! drawing happen outside; this decides the texts and their colors.

use vstd::prelude::*;
use vstd::string::StringExecFns;
use crate::clock::{ago, ago_text, Moment};
use crate::display::{ci_summary, review_badge, review_badge_of, state_badge, state_badge_of, Filter, DIM, RED};
use crate::github::{CheckRuns, Comment, Item, Review};
use crate::inbox::{detail_matches, fresh_in, opt_text, visible_of, Detail, Inbox};
use crate::text::{
    decimal, lines, lines_of, owned, push_char, push_decimal, trim, trim_string, truncate,
    truncated, views,
};

verus! {

broadcast use vstd::string::group_string_axioms;

/// One filter tab: its filter, its label with the count, and whether it is
/// the one shown.
pub struct Tab {
    pub filter: Filter,
    pub label: String,
    pub active: bool,
}

/// One row of the list.
pub struct Row {
    pub id: u64,
    /// The row's place among the rows on show.
    pub position: usize,
    pub active: bool,
    pub fresh: bool,
    pub kind: &'static str,
    pub badge: String,
    pub color: u32,
    pub title: String,
    pub subtitle: String,
}

/// The facts about the selected item in the middle pane.
pub struct Meta {
    pub title: String,
    pub repo: String,
    pub badge: String,
    pub badge_color: u32,
    pub kind: &'static str,
    pub times: String,
    pub ci: Option<(String, u32)>,
    pub labels: Option<String>,
    pub comments: String,
}

/// A comment in the right pane.
pub struct CommentView {
    pub header: String,
    pub lines: Vec<String>,
}

/// A review in the right pane.
pub struct ReviewView {
    pub badge: String,
    pub color: u32,
    pub byline: String,
    pub lines: Vec<String>,
}

/// The right pane for the selected item.
pub struct DetailView {
    pub body: Vec<String>,
    /// Shown in place of the rest while no detail is loaded.
    pub pending: Option<&'static str>,
    pub error: Option<String>,
    pub comments_heading: String,
    /// The latest comments, oldest first.
    pub comments: Vec<CommentView>,
    /// For a pull request, the heading of its reviews.
    pub reviews_heading: Option<String>,
    pub reviews: Vec<ReviewView>,
}

/// The text of a possibly missing string, or `default`.
pub open spec fn text_or(s: Option<String>, default: Seq<char>) -> Seq<char> {
    match s {
        Some(t) => t@,
        None => default,
    }
}

/// The first `n` lines of `s`.
pub open spec fn first_lines(s: Seq<char>, n: nat) -> Seq<Seq<char>> {
    let ls = lines(s);
    ls.take(if n < ls.len() { n as int } else { ls.len() as int })
}

/// A body line as shown: an empty one as a space, a long one cut at 110
/// chars.
pub open spec fn shown_line(l: Seq<char>) -> Seq<char> {
    if l.len() == 0 {
        seq![' ']
    } else {
        truncated(l, 110)
    }
}

/// The first `n` lines of `s`, as shown.
pub open spec fn shown_lines(s: Seq<char>, n: nat) -> Seq<Seq<char>> {
    first_lines(s, n).map_values(|l: Seq<char>| shown_line(l))
}

/// The lines that hold more than whitespace, cut at 110 chars.
pub open spec fn nonblank_lines(ls: Seq<Seq<char>>) -> Seq<Seq<char>>
    decreases ls.len(),
{
    if ls.len() == 0 {
        seq![]
    } else {
        let rest = nonblank_lines(ls.drop_last());
        if trim(ls.last()).len() > 0 {
            rest.push(truncated(ls.last(), 110))
        } else {
            rest
        }
    }
}

/// Who wrote something: the login, or `?`.
pub open spec fn author(user: Option<crate::github::User>) -> Seq<char> {
    match user {
        Some(u) => u.login@,
        None => "?"@,
    }
}

fn author_of(user: &Option<crate::github::User>) -> (r: String)
    ensures
        r@ == author(*user),
{
    match user {
        Some(u) => u.login.clone(),
        None => owned("?"),
    }
}

/// The first `n` lines of `text`, as shown.
pub fn first_shown_lines(text: &str, n: usize) -> (r: Vec<String>)
    ensures
        views(r@) == shown_lines(text@, n as nat),
{
    let ls = lines_of(text);
    let count: usize = if n < ls.len() { n } else { ls.len() };
    let mut r: Vec<String> = Vec::new();
    let mut i: usize = 0;
    while i < count
        invariant
            i <= count <= ls.len(),
            count == (if n < ls.len() { n } else { ls.len() }),
            views(ls@) == lines(text@),
            views(r@) == shown_lines(text@, n as nat).take(i as int),
        decreases count - i,
    {
        let line = ls[i].as_str();
        let shown = if line.is_empty() {
            let mut space = String::new();
            push_char(&mut space, ' ');
            space
        } else {
            truncate(line, 110)
        };
        proof {
            assert(views(ls@)[i as int] == ls@[i as int]@);
            assert(shown_lines(text@, n as nat)[i as int] == shown_line(lines(text@)[i as int]));
        }
        let ghost before = r@;
        r.push(shown);
        assert(views(r@) =~= views(before).push(r@.last()@));
        assert(views(r@) =~= shown_lines(text@, n as nat).take(i + 1));
        i = i + 1;
    }
    assert(shown_lines(text@, n as nat).take(count as int) =~= shown_lines(text@, n as nat));
    r
}

/// Of the first `n` lines of `text`, those that are not blank, cut at 110.
pub fn first_nonblank_lines(text: &str, n: usize) -> (r: Vec<String>)
    ensures
        views(r@) == nonblank_lines(first_lines(text@, n as nat)),
{
    let ls = lines_of(text);
    let count: usize = if n < ls.len() { n } else { ls.len() };
    let ghost firsts = first_lines(text@, n as nat);
    let mut r: Vec<String> = Vec::new();
    let mut i: usize = 0;
    while i < count
        invariant
            i <= count <= ls.len(),
            count == (if n < ls.len() { n } else { ls.len() }),
            views(ls@) == lines(text@),
            firsts == first_lines(text@, n as nat),
            firsts.len() == count,
            views(r@) == nonblank_lines(firsts.take(i as int)),
        decreases count - i,
    {
        let line = ls[i].as_str();
        proof {
            assert(views(ls@)[i as int] == ls@[i as int]@);
            assert(firsts[i as int] == line@);
            assert(firsts.take(i + 1).drop_last() =~= firsts.take(i as int));
        }
        if !trim_string(line).as_str().is_empty() {
            r.push(truncate(line, 110));
            assert(views(r@) =~= views(r@.drop_last()).push(r@.last()@));
        }
        i = i + 1;
    }
    assert(firsts.take(count as int) =~= firsts);
    r
}

/// The rows on show, by position.
pub open spec fn row_matches(inbox: Inbox, now: int, p: int, row: Row) -> bool {
    let k = visible_of(inbox.items@, inbox.filter, now)[p];
    let item = inbox.items@[k];
    &&& row.position == p
    &&& row.id == item.id
    &&& row.active == (inbox.selection(now) matches Some(s) && inbox.items@[s].id == item.id)
    &&& row.fresh == fresh_in(inbox.seen@, item)
    &&& row.kind@ == (if item.pull() { "PR"@ } else { "Issue"@ })
    &&& (row.badge@, row.color) == state_badge_of(item)
    &&& row.title@ == truncated(item.title@, 72)
    &&& row.subtitle@ == item.short_name() + seq!['#'] + decimal(item.number as nat) + " · "@
        + ago_text(item.updated_at@, now)
}

/// The facts about an item, given its loaded detail if any.
pub open spec fn meta_matches(item: Item, detail: Option<Detail>, now: int, m: Meta) -> bool {
    &&& m.title@ == item.title@
    &&& m.repo@ == item.full_name() + seq!['#'] + decimal(item.number as nat)
    &&& (m.badge@, m.badge_color) == state_badge_of(item)
    &&& m.kind@ == (if item.pull() { "pull request"@ } else { "issue"@ })
    &&& m.times@ == "updated "@ + ago_text(item.updated_at@, now) + " · created "@ + ago_text(
        item.created_at@,
        now,
    )
    &&& if item.pull() {
        m.ci matches Some(c) && (match detail {
            Some(d) => match d.ci {
                Some(ci) => c.0@ == ci.label@ && c.1 == ci.color,
                None => c.0@ == "CI …"@ && c.1 == DIM,
            },
            None => c.0@ == "CI …"@ && c.1 == DIM,
        })
    } else {
        m.ci is None
    }
    &&& if item.labels@.len() > 0 {
        m.labels matches Some(l) && l@ == truncated(
            joined_names(item.labels@.map_values(|x: crate::github::Label| x.name@)),
            60,
        )
    } else {
        m.labels is None
    }
    &&& m.comments@ == decimal(item.comments as nat) + " comments"@
}

/// Names joined by `, `.
pub open spec fn joined_names(names: Seq<Seq<char>>) -> Seq<char>
    decreases names.len(),
{
    if names.len() == 0 {
        seq![]
    } else if names.len() == 1 {
        names[0]
    } else {
        joined_names(names.drop_last()) + ", "@ + names.last()
    }
}

/// The latest (at most five) comments, oldest first.
pub open spec fn latest_comments(comments: Seq<Comment>) -> Seq<Comment> {
    comments.subrange(if comments.len() > 5 { comments.len() - 5 } else { 0 }, comments.len() as int)
}

pub open spec fn comment_matches(c: Comment, now: int, v: CommentView) -> bool {
    &&& v.header@ == seq!['@'] + author(c.user) + " · "@ + ago_text(c.updated_at@, now)
    &&& views(v.lines@) == shown_lines(text_or(c.body, Seq::<char>::empty()), 6)
}

pub open spec fn review_matches(r: Review, now: int, v: ReviewView) -> bool {
    &&& (v.badge@, v.color) == review_badge_of(r.state@)
    &&& v.byline@ == seq!['@'] + author(r.user) + seq![' '] + (match r.submitted_at {
        Some(at) => ago_text(at@, now),
        None => Seq::<char>::empty(),
    })
    &&& views(v.lines@) == nonblank_lines(first_lines(text_or(r.body, Seq::<char>::empty()), 3))
}

/// The right pane of an item, given its loaded detail if any.
pub open spec fn detail_view_matches(
    item: Item,
    detail: Option<Detail>,
    loading: bool,
    now: int,
    v: DetailView,
) -> bool {
    &&& views(v.body@) == shown_lines(trim(text_or(item.body, "(no description)"@)), 40)
    &&& match detail {
        None => {
            &&& opt_text_static(v.pending) == Some(
                if loading { "loading …"@ } else { "no detail"@ },
            )
            &&& v.error is None
            &&& v.comments@.len() == 0
            &&& v.reviews_heading is None
            &&& v.reviews@.len() == 0
        },
        Some(d) => {
            let latest = latest_comments(d.comments@);
            &&& v.pending is None
            &&& opt_text(v.error) == (match d.error {
                Some(e) => Some(truncated(e@, 100)),
                None => None,
            })
            &&& v.comments_heading@ == "COMMENTS ("@ + decimal(d.comments@.len()) + seq![')']
            &&& v.comments@.len() == latest.len()
            &&& forall|i: int|
                0 <= i < latest.len() ==> comment_matches(latest[i], now, #[trigger] v.comments@[i])
            &&& if item.pull() {
                &&& v.reviews_heading matches Some(h) && h@ == "REVIEWS ("@ + decimal(
                    d.reviews@.len(),
                ) + seq![')']
                &&& v.reviews@.len() == d.reviews@.len()
                &&& forall|i: int|
                    0 <= i < d.reviews@.len() ==> review_matches(
                        d.reviews@[i],
                        now,
                        #[trigger] v.reviews@[i],
                    )
            } else {
                v.reviews_heading is None && v.reviews@.len() == 0
            }
        },
    }
}

/// The view of an optional static string.
pub open spec fn opt_text_static(s: Option<&'static str>) -> Option<Seq<char>> {
    match s {
        Some(t) => Some(t@),
        None => None,
    }
}

fn counted_heading(label: &str, n: usize) -> (r: String)
    ensures
        r@ == label@ + decimal(n as nat) + seq![')'],
{
    let mut r = owned(label);
    push_decimal(&mut r, n as u64);
    push_char(&mut r, ')');
    r
}

fn comment_view(c: &Comment, now: Moment) -> (v: CommentView)
    ensures
        comment_matches(*c, now.nanos(), v),
{
    let mut header = String::new();
    push_char(&mut header, '@');
    let who = author_of(&c.user);
    header.append(who.as_str());
    header.append(" · ");
    let when = ago(c.updated_at.as_str(), now);
    header.append(when.as_str());
    let lines = match &c.body {
        Some(b) => first_shown_lines(b.as_str(), 6),
        None => first_shown_lines(String::new().as_str(), 6),
    };
    assert(header@ =~= seq!['@'] + author(c.user) + " · "@ + ago_text(c.updated_at@, now.nanos()));
    CommentView { header, lines }
}

fn review_view(r: &Review, now: Moment) -> (v: ReviewView)
    ensures
        review_matches(*r, now.nanos(), v),
{
    let (badge, color) = review_badge(r.state.as_str());
    let mut byline = String::new();
    push_char(&mut byline, '@');
    let who = author_of(&r.user);
    byline.append(who.as_str());
    push_char(&mut byline, ' ');
    match &r.submitted_at {
        Some(at) => {
            let when = ago(at.as_str(), now);
            byline.append(when.as_str());
        },
        None => {},
    }
    let lines = match &r.body {
        Some(b) => first_nonblank_lines(b.as_str(), 3),
        None => first_nonblank_lines(String::new().as_str(), 3),
    };
    assert(byline@ =~= seq!['@'] + author(r.user) + seq![' '] + (match r.submitted_at {
        Some(at) => ago_text(at@, now.nanos()),
        None => Seq::<char>::empty(),
    }));
    ReviewView { badge, color, byline, lines }
}

/// The middle pane's text while nothing is selected.
pub fn meta_placeholder() -> (r: &'static str)
    ensures
        r@ == "select an item"@,
{
    "select an item"
}

/// The right pane's text while nothing is selected.
pub fn detail_placeholder() -> (r: &'static str)
    ensures
        r@ == "nothing selected"@,
{
    "nothing selected"
}

/// The heading over an item's body.
pub fn body_heading() -> (r: &'static str)
    ensures
        r@ == "BODY"@,
{
    "BODY"
}

impl DetailView {
    /// What stands in for the comments when there are none.
    pub fn comments_placeholder(&self) -> (r: Option<&'static str>)
        ensures
            match r {
                Some(t) => self.comments@.len() == 0 && t@ == "no comments"@,
                None => self.comments@.len() > 0,
            },
    {
        if self.comments.len() == 0 {
            Some("no comments")
        } else {
            None
        }
    }

    /// What stands in for the reviews of a pull request when there are none.
    pub fn reviews_placeholder(&self) -> (r: Option<&'static str>)
        ensures
            match r {
                Some(t) => self.reviews_heading is Some && self.reviews@.len() == 0 && t@
                    == "no reviews"@,
                None => self.reviews_heading is None || self.reviews@.len() > 0,
            },
    {
        if self.reviews_heading.is_some() && self.reviews.len() == 0 {
            Some("no reviews")
        } else {
            None
        }
    }
}

/// The right pane for the selected item: its body, and what was loaded of
/// its comments and reviews.
pub fn detail_view(item: &Item, detail: Option<&Detail>, loading: bool, now: Moment) -> (v: DetailView)
    ensures
        detail_view_matches(
            *item,
            match detail {
                Some(d) => Some(*d),
                None => None,
            },
            loading,
            now.nanos(),
            v,
        ),
{
    let body_text = match &item.body {
        Some(b) => trim_string(b.as_str()),
        None => trim_string("(no description)"),
    };
    let body = first_shown_lines(body_text.as_str(), 40);
    let d = match detail {
        Some(d) => d,
        None => {
            let note: &'static str = if loading { "loading …" } else { "no detail" };
            return DetailView {
                body,
                pending: Some(note),
                error: None,
                comments_heading: String::new(),
                comments: Vec::new(),
                reviews_heading: None,
                reviews: Vec::new(),
            };
        },
    };
    let error = match &d.error {
        Some(e) => Some(truncate(e.as_str(), 100)),
        None => None,
    };
    let comments_heading = counted_heading("COMMENTS (", d.comments.len());
    let n: usize = d.comments.len();
    let start: usize = if n > 5 { n - 5 } else { 0 };
    let ghost latest = latest_comments(d.comments@);
    let mut comments: Vec<CommentView> = Vec::new();
    let mut i: usize = start;
    while i < n
        invariant
            start <= i <= n == d.comments@.len(),
            start == (if n > 5 { n - 5 } else { 0 }),
            latest == latest_comments(d.comments@),
            comments@.len() == i - start,
            forall|j: int|
                0 <= j < i - start ==> comment_matches(latest[j], now.nanos(), #[trigger] comments@[j]),
        decreases n - i,
    {
        let view = comment_view(&d.comments[i], now);
        assert(latest[i - start] == d.comments@[i as int]);
        comments.push(view);
        i = i + 1;
    }
    let mut reviews: Vec<ReviewView> = Vec::new();
    let mut reviews_heading: Option<String> = None;
    if item.is_pr() {
        reviews_heading = Some(counted_heading("REVIEWS (", d.reviews.len()));
        let mut k: usize = 0;
        while k < d.reviews.len()
            invariant
                k <= d.reviews@.len(),
                reviews@.len() == k,
                forall|j: int|
                    0 <= j < k ==> review_matches(d.reviews@[j], now.nanos(), #[trigger] reviews@[j]),
            decreases d.reviews@.len() - k,
        {
            reviews.push(review_view(&d.reviews[k], now));
            k = k + 1;
        }
    }
    DetailView { body, pending: None, error, comments_heading, comments, reviews_heading, reviews }
}

/// Names joined by `, `.
fn join_label_names(labels: &Vec<crate::github::Label>) -> (r: String)
    ensures
        r@ == joined_names(labels@.map_values(|x: crate::github::Label| x.name@)),
{
    let ghost names = labels@.map_values(|x: crate::github::Label| x.name@);
    let mut r = String::new();
    let mut i: usize = 0;
    while i < labels.len()
        invariant
            i <= labels.len(),
            names == labels@.map_values(|x: crate::github::Label| x.name@),
            r@ == joined_names(names.take(i as int)),
        decreases labels.len() - i,
    {
        if i > 0 {
            r.append(", ");
        }
        r.append(labels[i].name.as_str());
        assert(names.take(i + 1).drop_last() =~= names.take(i as int));
        assert(names[i as int] == labels@[i as int].name@);
        i = i + 1;
    }
    assert(names.take(labels.len() as int) =~= names);
    r
}

/// The middle pane for an item.
pub fn meta(item: &Item, detail: Option<&Detail>, now: Moment) -> (m: Meta)
    ensures
        meta_matches(
            *item,
            match detail {
                Some(d) => Some(*d),
                None => None,
            },
            now.nanos(),
            m,
        ),
{
    let (badge, badge_color) = state_badge(item);
    let full = item.repo_full_name();
    let mut repo = full;
    push_char(&mut repo, '#');
    push_decimal(&mut repo, item.number);
    let kind: &'static str = if item.is_pr() { "pull request" } else { "issue" };
    let mut times = owned("updated ");
    let updated = ago(item.updated_at.as_str(), now);
    times.append(updated.as_str());
    times.append(" · created ");
    let created = ago(item.created_at.as_str(), now);
    times.append(created.as_str());
    let ci = if item.is_pr() {
        match detail {
            Some(d) => match &d.ci {
                Some(c) => Some((c.label.clone(), c.color)),
                None => Some((owned("CI …"), DIM)),
            },
            None => Some((owned("CI …"), DIM)),
        }
    } else {
        None
    };
    let labels = if item.labels.len() > 0 {
        let names = join_label_names(&item.labels);
        Some(truncate(names.as_str(), 60))
    } else {
        None
    };
    assert(repo@ =~= item.full_name() + seq!['#'] + decimal(item.number as nat));
    let mut comments = String::new();
    push_decimal(&mut comments, item.comments);
    comments.append(" comments");
    Meta {
        title: item.title.clone(),
        repo,
        badge,
        badge_color,
        kind,
        times,
        ci,
        labels,
        comments,
    }
}

impl Inbox {
    /// The filter tabs, in order, with their counts.
    pub fn tabs(&self, now: Moment) -> (r: Vec<Tab>)
        ensures
            r@.len() == 4,
            forall|i: int|
                0 <= i < 4 ==> {
                    let f = seq![Filter::Open, Filter::Merged, Filter::Closed, Filter::Stale][i];
                    &&& (#[trigger] r@[i]).filter == f
                    &&& r@[i].label@ == f.name() + seq![' '] + decimal(
                        visible_of(self.items@, f, now.nanos()).len(),
                    )
                    &&& r@[i].active == (f == self.filter)
                },
    {
        let all = Filter::all();
        let mut r: Vec<Tab> = Vec::new();
        let mut i: usize = 0;
        while i < 4
            invariant
                i <= 4,
                all@ == seq![Filter::Open, Filter::Merged, Filter::Closed, Filter::Stale],
                r@.len() == i,
                forall|j: int|
                    0 <= j < i ==> {
                        let f = all@[j];
                        &&& (#[trigger] r@[j]).filter == f
                        &&& r@[j].label@ == f.name() + seq![' '] + decimal(
                            visible_of(self.items@, f, now.nanos()).len(),
                        )
                        &&& r@[j].active == (f == self.filter)
                    },
            decreases 4 - i,
        {
            let filter = all[i];
            let mut label = owned(filter.label());
            push_char(&mut label, ' ');
            push_decimal(&mut label, self.count(filter, now) as u64);
            r.push(Tab { filter, label, active: filter == self.filter });
            i = i + 1;
        }
        r
    }

    /// The rows on show.
    pub fn rows(&self, now: Moment) -> (r: Vec<Row>)
        ensures
            r@.len() == self.shown(now.nanos()).len(),
            forall|p: int| 0 <= p < r@.len() ==> row_matches(*self, now.nanos(), p, #[trigger] r@[p]),
    {
        let visible = self.visible(now);
        proof {
            crate::inbox::lemma_visible_in_range(self.items@, self.filter, now.nanos());
        }
        let selected_id: Option<u64> = match self.selected_item(now) {
            Some(item) => Some(item.id),
            None => None,
        };
        let mut r: Vec<Row> = Vec::new();
        let mut p: usize = 0;
        while p < visible.len()
            invariant
                p <= visible.len(),
                visible@.map_values(|i: usize| i as int) == self.shown(now.nanos()),
                forall|k: int|
                    0 <= k < self.shown(now.nanos()).len() ==> 0 <= #[trigger] self.shown(
                        now.nanos(),
                    )[k] < self.items@.len(),
                selected_id == (match self.selection(now.nanos()) {
                    Some(s) => Some(self.items@[s].id),
                    None => None::<u64>,
                }),
                r@.len() == p,
                forall|q: int| 0 <= q < p ==> row_matches(*self, now.nanos(), q, #[trigger] r@[q]),
            decreases visible.len() - p,
        {
            let k: usize = visible[p];
            assert(self.shown(now.nanos())[p as int] == k as int);
            let item = &self.items[k];
            let (badge, color) = state_badge(item);
            let kind: &'static str = if item.is_pr() { "PR" } else { "Issue" };
            let mut subtitle = item.repo_short();
            push_char(&mut subtitle, '#');
            push_decimal(&mut subtitle, item.number);
            subtitle.append(" · ");
            let when = ago(item.updated_at.as_str(), now);
            subtitle.append(when.as_str());
            let active = match selected_id {
                Some(id) => id == item.id,
                None => false,
            };
            assert(subtitle@ =~= item.short_name() + seq!['#'] + decimal(item.number as nat) + " · "@
                + ago_text(item.updated_at@, now.nanos()));
            r.push(Row {
                id: item.id,
                position: p,
                active,
                fresh: self.is_fresh(item),
                kind,
                badge,
                color,
                title: truncate(item.title.as_str(), 72),
                subtitle,
            });
            p = p + 1;
        }
        r
    }

    /// What the list says when it has no rows.
    pub fn list_placeholder(&self) -> (r: &'static str)
        ensures
            r@ == (if self.loading {
                "loading …"@
            } else if self.token is None {
                "press t to set a GitHub token"@
            } else {
                "nothing here"@
            }),
    {
        if self.loading {
            "loading …"
        } else if self.token.is_none() {
            "press t to set a GitHub token"
        } else {
            "nothing here"
        }
    }

    /// The signed-in user, as the header shows it.
    pub fn login_label(&self) -> (r: String)
        ensures
            r@ == (match self.login {
                Some(l) => seq!['@'] + l@,
                None => "no login"@,
            }),
    {
        match &self.login {
            Some(l) => {
                let mut r = String::new();
                push_char(&mut r, '@');
                r.append(l.as_str());
                r
            },
            None => owned("no login"),
        }
    }

    /// The footer's message and color: the error if any, else the status.
    pub fn footer(&self) -> (r: (String, u32))
        ensures
            match self.error {
                Some(e) => r.0@ == truncated(e@, 80) && r.1 == RED,
                None => r.0@ == (if self.status@.len() == 0 {
                    Seq::<char>::empty()
                } else {
                    truncated(self.status@, 80)
                }) && r.1 == DIM,
            },
    {
        match &self.error {
            Some(e) => (truncate(e.as_str(), 80), RED),
            None => if self.status.as_str().is_empty() {
                (String::new(), DIM)
            } else {
                (truncate(self.status.as_str(), 80), DIM)
            },
        }
    }
}

/// The CI entry of the middle pane: for a pull request whose loaded detail
/// has a CI summary, that summary's label and color; for a pull request
/// without one, "CI …" in DIM; for an issue, none.
pub proof fn lemma_meta_ci(item: Item, detail: Option<Detail>, now: int, m: Meta)
    requires
        meta_matches(item, detail, now, m),
    ensures
        item.pull_request is None ==> m.ci is None,
        item.pull_request is Some ==> match detail {
            Some(d) => match d.ci {
                Some(summary) => m.ci matches Some(c) && c.0@ == summary.label@ && c.1
                    == summary.color,
                None => m.ci matches Some(c) && c.0@ == "CI …"@ && c.1 == DIM,
            },
            None => m.ci matches Some(c) && c.0@ == "CI …"@ && c.1 == DIM,
        },
{
}

/// A pull request's meta pane shows the CI summary of the check runs its
/// detail was assembled from.
pub proof fn lemma_meta_shows_checks(
    item: Item,
    d: Detail,
    comments: Result<Vec<Comment>, String>,
    reviews: Option<Result<Vec<Review>, String>>,
    runs: CheckRuns,
    now: int,
    m: Meta,
)
    requires
        item.pull_request is Some,
        detail_matches(d, comments, reviews, Some(Ok(runs))),
        meta_matches(item, Some(d), now, m),
    ensures
        m.ci matches Some(c) && (c.0@, c.1) == ci_summary(runs),
{
    lemma_meta_ci(item, Some(d), now, m);
}

} // verus!
