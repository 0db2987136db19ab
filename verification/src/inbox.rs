//! The inbox's state and the decisions it takes. Fetching, storage and
//! rendering happen outside; each step here takes the state and what came
//! back, and returns what to do next.

use std::collections::HashMap;
use vstd::prelude::*;
use vstd::string::StringExecFns;
use crate::clock::{is_stale, stale_at, Moment};
use crate::display::{summarize_ci, ci_summary, Ci, Filter};
use crate::github::{
    check_runs_url, external, is_external, item_route, repos_prefix, reviews_url, CheckRuns, Comment,
    Item, PrDetail, Review, SearchResponse,
};
use crate::text::{
    decimal, join2, less_than, owned, push_char, push_decimal, str_less, trim, trim_string,
};

verus! {

broadcast use {vstd::string::group_string_axioms, vstd::std_specs::hash::group_hash_axioms};

/// What the comments, reviews and checks of the selected item came to.
#[derive(Debug, Clone)]
pub struct Detail {
    pub comments: Vec<Comment>,
    pub reviews: Vec<Review>,
    pub ci: Option<Ci>,
    pub error: Option<String>,
}

/// The inbox: the signed-in user, the external contributions found, which
/// of them are shown and selected, and what has been seen.
pub struct Inbox {
    pub token: Option<String>,
    pub login: Option<String>,
    pub items: Vec<Item>,
    pub loading: bool,
    pub error: Option<String>,
    pub status: String,
    pub filter: Filter,
    pub selected: usize,
    /// item id -> `updated_at` of the version last looked at
    pub seen: HashMap<u64, String>,
    pub details: HashMap<u64, Detail>,
    pub detail_loading: bool,
}

/// The status shown while no token is set.
pub open spec fn no_token_status() -> Seq<char> {
    "no token — press t to set a GitHub token"@
}

/// Whether `filter` shows `item` at the instant `now` (nanoseconds).
pub open spec fn shows(item: Item, filter: Filter, now: int) -> bool {
    match filter {
        Filter::Open => item.opened(),
        Filter::Merged => item.merged(),
        Filter::Closed => !item.opened() && !item.merged(),
        Filter::Stale => item.opened() && stale_at(item.updated_at@, now),
    }
}

/// The positions of the items that `filter` shows, in list order.
pub open spec fn visible_of(items: Seq<Item>, filter: Filter, now: int) -> Seq<int>
    decreases items.len(),
{
    if items.len() == 0 {
        seq![]
    } else {
        let rest = visible_of(items.drop_last(), filter, now);
        if shows(items.last(), filter, now) {
            rest.push(items.len() - 1)
        } else {
            rest
        }
    }
}

/// An item counts as fresh when it was never looked at, or was updated
/// after the version last looked at.
pub open spec fn fresh_in(seen: Map<u64, String>, item: Item) -> bool {
    if seen.contains_key(item.id) {
        str_less(seen[item.id]@, item.updated_at@)
    } else {
        true
    }
}

/// How many of `items` are fresh.
pub open spec fn fresh_count(seen: Map<u64, String>, items: Seq<Item>) -> nat
    decreases items.len(),
{
    if items.len() == 0 {
        0
    } else {
        fresh_count(seen, items.drop_last()) + if fresh_in(seen, items.last()) {
            1nat
        } else {
            0nat
        }
    }
}

/// What starting to load the detail does: with a token and a selected
/// item, that item is marked seen in its current version and its detail
/// requested; else nothing happens.
pub open spec fn detail_started(before: Inbox, after: Inbox, r: Option<ItemRequest>, now: int) -> bool {
    match (before.token, before.selection(now)) {
        (Some(t), Some(k)) => {
            let item = before.items@[k];
            &&& r matches Some(req) && req.token@ == t@ && req.index == k
            &&& after.seen@ == before.seen@.insert(item.id, item.updated_at)
            &&& after == (Inbox { seen: after.seen, detail_loading: true, ..before })
        },
        _ => r is None && after == before,
    }
}

/// The view of an optional string.
pub open spec fn opt_text(s: Option<String>) -> Option<Seq<char>> {
    match s {
        Some(t) => Some(t@),
        None => None,
    }
}

impl Inbox {
    /// The positions of the items on show.
    pub open spec fn shown(&self, now: int) -> Seq<int> {
        visible_of(self.items@, self.filter, now)
    }

    /// The position in `items` of the selected item, if the selection
    /// points at one on show.
    pub open spec fn selection(&self, now: int) -> Option<int> {
        let v = self.shown(now);
        if self.selected < v.len() {
            Some(v[self.selected as int])
        } else {
            None
        }
    }

    /// A fresh inbox for a stored token, login and seen markers; a blank
    /// token or login counts as none.
    pub fn new(token: Option<String>, login: Option<String>, seen: HashMap<u64, String>) -> (r: Inbox)
        ensures
            opt_text(r.token) == (match token {
                Some(t) => if trim(t@).len() > 0 { Some(t@) } else { None },
                None => None,
            }),
            opt_text(r.login) == (match login {
                Some(l) => if trim(l@).len() > 0 { Some(l@) } else { None },
                None => None,
            }),
            r.items@.len() == 0,
            !r.loading,
            r.error is None,
            r.status@ == (if r.token is Some { Seq::<char>::empty() } else { no_token_status() }),
            r.filter == Filter::Open,
            r.selected == 0,
            r.seen@ == seen@,
            r.details@ == Map::<u64, Detail>::empty(),
            !r.detail_loading,
    {
        let token = match token {
            Some(t) => if trim_string(t.as_str()).as_str().is_empty() {
                None
            } else {
                Some(t)
            },
            None => None,
        };
        let login = match login {
            Some(l) => if trim_string(l.as_str()).as_str().is_empty() {
                None
            } else {
                Some(l)
            },
            None => None,
        };
        let status = if token.is_some() {
            String::new()
        } else {
            owned("no token — press t to set a GitHub token")
        };
        Inbox {
            token,
            login,
            items: Vec::new(),
            loading: false,
            error: None,
            status,
            filter: Filter::Open,
            selected: 0,
            seen,
            details: HashMap::new(),
            detail_loading: false,
        }
    }

    /// Positions of the items the current filter shows at `now`.
    pub fn visible(&self, now: Moment) -> (r: Vec<usize>)
        ensures
            r@.map_values(|i: usize| i as int) == self.shown(now.nanos()),
    {
        self.visible_for(self.filter, now)
    }

    /// Positions of the items `filter` shows at `now`.
    pub fn visible_for(&self, filter: Filter, now: Moment) -> (r: Vec<usize>)
        ensures
            r@.map_values(|i: usize| i as int) == visible_of(self.items@, filter, now.nanos()),
    {
        let mut r: Vec<usize> = Vec::new();
        let mut i: usize = 0;
        let n: usize = self.items.len();
        while i < n
            invariant
                i <= n == self.items.len(),
                r@.map_values(|k: usize| k as int) == visible_of(
                    self.items@.take(i as int),
                    filter,
                    now.nanos(),
                ),
            decreases n - i,
        {
            let item = &self.items[i];
            let keep = match filter {
                Filter::Open => item.is_open(),
                Filter::Merged => item.is_merged(),
                Filter::Closed => !item.is_open() && !item.is_merged(),
                Filter::Stale => item.is_open() && is_stale(item, now),
            };
            assert(self.items@.take(i + 1).drop_last() =~= self.items@.take(i as int));
            assert(self.items@.take(i + 1).last() == self.items@[i as int]);
            if keep {
                r.push(i);
                assert(r@.map_values(|k: usize| k as int) =~= visible_of(
                    self.items@.take(i as int),
                    filter,
                    now.nanos(),
                ).push(i as int));
            }
            i = i + 1;
        }
        assert(self.items@.take(n as int) =~= self.items@);
        r
    }

    /// How many items `filter` shows at `now`.
    pub fn count(&self, filter: Filter, now: Moment) -> (r: usize)
        ensures
            r == visible_of(self.items@, filter, now.nanos()).len(),
    {
        let v = self.visible_for(filter, now);
        v.len()
    }

    /// The selected item, if the selection points at one on show.
    pub fn selected_item(&self, now: Moment) -> (r: Option<&Item>)
        ensures
            match self.selection(now.nanos()) {
                Some(k) => r matches Some(item) && *item == self.items@[k],
                None => r is None,
            },
    {
        match self.selected_position(now) {
            Some(k) => Some(&self.items[k]),
            None => None,
        }
    }

    /// The position in `items` of the selected item.
    pub fn selected_position(&self, now: Moment) -> (r: Option<usize>)
        ensures
            match self.selection(now.nanos()) {
                Some(k) => r matches Some(m) && m == k && 0 <= k < self.items@.len(),
                None => r is None,
            },
    {
        let v = self.visible(now);
        proof {
            lemma_visible_in_range(self.items@, self.filter, now.nanos());
        }
        if self.selected < v.len() {
            assert(v@.map_values(|i: usize| i as int)[self.selected as int] == v@[self.selected as int] as int);
            Some(v[self.selected])
        } else {
            None
        }
    }

    /// Whether `item` changed since it was last looked at.
    pub fn is_fresh(&self, item: &Item) -> (r: bool)
        ensures
            r == fresh_in(self.seen@, *item),
    {
        match self.seen.get(&item.id) {
            Some(seen_at) => less_than(seen_at.as_str(), item.updated_at.as_str()),
            None => true,
        }
    }

    /// Select a row (no fetching). Returns true when the selection moved:
    /// it goes to `position`, or to the last row when past the end.
    pub fn select_index(&mut self, position: usize, now: Moment) -> (moved: bool)
        ensures
            ({
                let len = old(self).shown(now.nanos()).len();
                let next = if position < len { position as int } else { len - 1 };
                if len == 0 || next == old(self).selected {
                    !moved && *final(self) == *old(self)
                } else {
                    moved && *final(self) == (Inbox { selected: next as usize, ..*old(self) })
                }
            }),
    {
        let len = self.visible(now).len();
        if len == 0 {
            return false;
        }
        let next: usize = if position < len - 1 { position } else { len - 1 };
        if next == self.selected {
            return false;
        }
        self.selected = next;
        true
    }

    /// Moves the selection by `delta` rows, held within the rows on show,
    /// and loads the detail of the item it moved to.
    pub fn move_selection(&mut self, delta: isize, now: Moment) -> (r: Option<ItemRequest>)
        ensures
            ({
                let len = old(self).shown(now.nanos()).len();
                let wanted = old(self).selected + delta;
                let next = if wanted < 0 { 0 } else if wanted > len - 1 { len - 1 } else { wanted };
                if len == 0 || next == old(self).selected {
                    r is None && *final(self) == *old(self)
                } else {
                    detail_started(
                        (Inbox { selected: next as usize, ..*old(self) }),
                        *final(self),
                        r,
                        now.nanos(),
                    )
                }
            }),
    {
        let len = self.visible(now).len();
        if len == 0 {
            return None;
        }
        let wanted: i128 = self.selected as i128 + delta as i128;
        let last: i128 = len as i128 - 1;
        let next: i128 = if wanted < 0 { 0 } else if wanted > last { last } else { wanted };
        self.reselect(next as usize, now)
    }

    /// Shows the items of `filter`, selecting the first of them, and loads
    /// its detail.
    pub fn set_filter(&mut self, filter: Filter, now: Moment) -> (r: Option<ItemRequest>)
        ensures
            detail_started((Inbox { filter, selected: 0, ..*old(self) }), *final(self), r, now.nanos()),
    {
        self.filter = filter;
        self.selected = 0;
        self.start_detail(now)
    }

    /// The web page of the selected item, to open in a new tab.
    pub fn open_selected(&self, now: Moment) -> (r: Option<String>)
        ensures
            match self.selection(now.nanos()) {
                Some(k) => r matches Some(url) && url@ == self.items@[k].html_url@,
                None => r is None,
            },
    {
        match self.selected_item(now) {
            Some(item) => Some(item.html_url.clone()),
            None => None,
        }
    }
}

/// The external items of a list, in list order.
pub open spec fn external_only(items: Seq<Item>) -> Seq<Item>
    decreases items.len(),
{
    if items.len() == 0 {
        seq![]
    } else {
        let rest = external_only(items.drop_last());
        if external(items.last()) {
            rest.push(items.last())
        } else {
            rest
        }
    }
}

/// What the inbox does right after start.
pub enum BootAction {
    /// No token: nothing to do.
    Idle,
    /// The login is known: refresh the list.
    Refresh,
    /// Ask GitHub whose token this is.
    FetchLogin(String),
}

/// What to do with the text entered into the token prompt.
pub enum TokenSubmit {
    /// The prompt was cancelled.
    Ignored,
    /// A blank token signed out.
    Cleared,
    /// Check this (trimmed) token by asking whose it is.
    Validate(String),
}

/// A request for the list of contributions.
pub struct SearchRequest {
    pub login: String,
    pub token: String,
}

/// A request that concerns the selected item, at `index` in the list.
pub struct ItemRequest {
    pub token: String,
    pub index: usize,
}

/// The detail of an item from the replies to its requests: the comments
/// (none when they failed to load); for a pull request its reviews and its
/// checks, whose failures leave an error (that of the checks winning).
pub open spec fn detail_matches(
    d: Detail,
    comments: Result<Vec<Comment>, String>,
    reviews: Option<Result<Vec<Review>, String>>,
    checks: Option<Result<CheckRuns, String>>,
) -> bool {
    &&& d.comments@ == (match comments {
        Ok(list) => list@,
        Err(_) => Seq::<Comment>::empty(),
    })
    &&& d.reviews@ == (match reviews {
        Some(Ok(list)) => list@,
        _ => Seq::<Review>::empty(),
    })
    &&& match checks {
        Some(Ok(runs)) => d.ci matches Some(ci) && (ci.label@, ci.color) == ci_summary(runs),
        _ => d.ci is None,
    }
    &&& opt_text(d.error) == (match checks {
        Some(Err(m)) => Some(m@),
        _ => match reviews {
            Some(Err(m)) => Some(m@),
            _ => None,
        },
    })
}

/// Puts together what the requests for an item's detail returned.
pub fn assemble_detail(
    comments: Result<Vec<Comment>, String>,
    reviews: Option<Result<Vec<Review>, String>>,
    checks: Option<Result<CheckRuns, String>>,
) -> (d: Detail)
    ensures
        detail_matches(d, comments, reviews, checks),
{
    let ghost (c0, r0, k0) = (comments, reviews, checks);
    let comment_list = match comments {
        Ok(list) => list,
        Err(_) => Vec::new(),
    };
    let mut review_list: Vec<Review> = Vec::new();
    let mut error: Option<String> = None;
    match reviews {
        Some(Ok(list)) => {
            review_list = list;
        },
        Some(Err(message)) => {
            error = Some(message);
        },
        None => {},
    }
    let mut ci: Option<Ci> = None;
    match checks {
        Some(Ok(runs)) => {
            ci = Some(summarize_ci(&runs));
        },
        Some(Err(message)) => {
            error = Some(message);
        },
        None => {},
    }
    Detail { comments: comment_list, reviews: review_list, ci, error }
}

/// The replies gathered so far for an item's detail: comments, and for a
/// pull request its reviews, its own record and the checks of its head.
pub struct DetailFetch {
    pub comments: Option<Result<Vec<Comment>, String>>,
    pub reviews: Option<Result<Vec<Review>, String>>,
    pub record: Option<Result<PrDetail, String>>,
    pub checks: Option<Result<CheckRuns, String>>,
}

/// The next request for an item's detail, by URL, or that all is in.
pub enum FetchStep {
    Comments(String),
    Reviews(String),
    Record(String),
    Checks(String),
    Done,
}

/// The next request: the comments first; for a pull request then its
/// reviews, its record, and the checks of the head commit that the record
/// names (none when the record failed).
pub open spec fn fetch_step_matches(item: Item, f: DetailFetch, r: FetchStep) -> bool {
    if f.comments is None {
        r matches FetchStep::Comments(u) && u@ == item.comments_url@
    } else if item.pull_request is None {
        r is Done
    } else if f.reviews is None {
        r matches FetchStep::Reviews(u) && u@ == item_route(item, "pulls"@) + "/reviews?per_page=30"@
    } else if f.record is None {
        r matches FetchStep::Record(u) && u@ == item.pull_request->0.url@
    } else {
        match (f.record, f.checks) {
            (Some(Ok(d)), None) => r matches FetchStep::Checks(u) && u@ == repos_prefix()
                + item.full_name() + "/commits/"@ + d.head.sha@ + "/check-runs?per_page=30"@,
            _ => r is Done,
        }
    }
}

/// The checks' reply as the detail takes it: a failed record is the checks'
/// failure.
pub open spec fn checks_reply(f: DetailFetch) -> Option<Result<CheckRuns, String>> {
    match f.record {
        Some(Err(m)) => Some(Err(m)),
        Some(Ok(_)) => f.checks,
        None => None,
    }
}

impl DetailFetch {
    /// Nothing fetched yet.
    pub fn new() -> (r: Self)
        ensures
            r.comments is None && r.reviews is None && r.record is None && r.checks is None,
    {
        DetailFetch { comments: None, reviews: None, record: None, checks: None }
    }

    /// What to fetch next for `item`.
    pub fn next(&self, item: &Item) -> (r: FetchStep)
        ensures
            fetch_step_matches(*item, *self, r),
    {
        if self.comments.is_none() {
            return FetchStep::Comments(item.comments_url.clone());
        }
        let pull = match &item.pull_request {
            Some(p) => p,
            None => {
                return FetchStep::Done;
            },
        };
        if self.reviews.is_none() {
            return FetchStep::Reviews(reviews_url(item));
        }
        match &self.record {
            None => FetchStep::Record(pull.url.clone()),
            Some(Ok(d)) => if self.checks.is_none() {
                let repo = item.repo_full_name();
                FetchStep::Checks(check_runs_url(repo.as_str(), d.head.sha.as_str()))
            } else {
                FetchStep::Done
            },
            Some(Err(_)) => FetchStep::Done,
        }
    }

    /// The detail the replies make, once the comments are in (as they are
    /// when `next` says `Done`).
    pub fn detail(self) -> (d: Detail)
        requires
            self.comments is Some,
        ensures
            detail_matches(d, self.comments->0, self.reviews, checks_reply(self)),
    {
        let comments = match self.comments {
            Some(c) => c,
            None => Err(String::new()),
        };
        let checks = match self.record {
            Some(Err(m)) => Some(Err(m)),
            Some(Ok(_)) => self.checks,
            None => None,
        };
        assemble_detail(comments, self.reviews, checks)
    }
}

/// The text of a comment to post: nothing when the prompt was cancelled or
/// left blank; else the text as entered.
pub fn comment_text(value: Option<String>) -> (r: Option<String>)
    ensures
        opt_text(r) == (match value {
            Some(t) => if trim(t@).len() > 0 { Some(t@) } else { None },
            None => None,
        }),
{
    match value {
        Some(text) => if trim_string(text.as_str()).as_str().is_empty() {
            None
        } else {
            Some(text)
        },
        None => None,
    }
}

impl Inbox {
    /// Kick off login + first refresh.
    pub fn boot(&mut self) -> (action: BootAction)
        ensures
            match old(self).token {
                None => action is Idle && *final(self) == *old(self),
                Some(t) => if old(self).login is Some {
                    action is Refresh && *final(self) == *old(self)
                } else {
                    &&& action matches BootAction::FetchLogin(x) && x@ == t@
                    &&& final(self).status@ == "signing in …"@
                    &&& *final(self) == (Inbox {
                        loading: true,
                        status: final(self).status,
                        ..*old(self)
                    })
                },
            },
    {
        match &self.token {
            None => BootAction::Idle,
            Some(t) => {
                if self.login.is_some() {
                    BootAction::Refresh
                } else {
                    let token = t.clone();
                    self.loading = true;
                    self.status = owned("signing in …");
                    BootAction::FetchLogin(token)
                }
            },
        }
    }

    /// Takes in the login found at start. Returns true when the list is to
    /// be refreshed (and the login stored).
    pub fn finish_boot(&mut self, result: Result<String, String>) -> (refresh: bool)
        ensures
            match result {
                Ok(login) => {
                    &&& refresh
                    &&& *final(self) == (Inbox { login: Some(login), error: None, ..*old(self) })
                },
                Err(message) => {
                    &&& !refresh
                    &&& final(self).status@ == "sign-in failed — press t to retry"@
                    &&& *final(self) == (Inbox {
                        error: Some(message),
                        loading: false,
                        status: final(self).status,
                        ..*old(self)
                    })
                },
            },
    {
        match result {
            Ok(login) => {
                self.login = Some(login);
                self.error = None;
                true
            },
            Err(message) => {
                self.error = Some(message);
                self.loading = false;
                self.status = owned("sign-in failed — press t to retry");
                false
            },
        }
    }

    /// Starts a refresh: the search to run, or none without a token and login.
    pub fn start_refresh(&mut self) -> (r: Option<SearchRequest>)
        ensures
            match (old(self).token, old(self).login) {
                (Some(t), Some(l)) => {
                    &&& r matches Some(req) && req.token@ == t@ && req.login@ == l@
                    &&& final(self).status@ == "refreshing @"@ + l@ + " …"@
                    &&& *final(self) == (Inbox {
                        loading: true,
                        error: None,
                        status: final(self).status,
                        ..*old(self)
                    })
                },
                _ => {
                    &&& r is None
                    &&& final(self).status@ == no_token_status()
                    &&& *final(self) == (Inbox { status: final(self).status, ..*old(self) })
                },
            },
    {
        let pair = match (&self.token, &self.login) {
            (Some(t), Some(l)) => Some((t.clone(), l.clone())),
            _ => None,
        };
        match pair {
            Some((token, login)) => {
                self.loading = true;
                self.error = None;
                let mut status = owned("refreshing @");
                status.append(login.as_str());
                status.append(" …");
                self.status = status;
                Some(SearchRequest { login, token })
            },
            None => {
                self.status = owned("no token — press t to set a GitHub token");
                None
            },
        }
    }

    /// Takes in the result of a search: keeps the external items, selects
    /// the first, and reports how many there are and how many are fresh.
    pub fn apply_search(&mut self, result: Result<SearchResponse, String>)
        ensures
            match result {
                Ok(response) => {
                    &&& final(self).items@ == external_only(response.items@)
                    &&& final(self).status@ == decimal(final(self).items@.len()) + " external ("@
                        + decimal(response.total_count as nat) + " total) · "@ + decimal(
                        fresh_count(old(self).seen@, final(self).items@),
                    ) + " updated"@
                    &&& *final(self) == (Inbox {
                        items: final(self).items,
                        loading: false,
                        error: None,
                        status: final(self).status,
                        selected: 0,
                        ..*old(self)
                    })
                },
                Err(message) => {
                    &&& final(self).status@ == "refresh failed: "@ + message@
                    &&& *final(self) == (Inbox {
                        loading: false,
                        error: Some(message),
                        status: final(self).status,
                        ..*old(self)
                    })
                },
            },
    {
        self.loading = false;
        match result {
            Ok(response) => {
                let total: u64 = response.total_count;
                let ghost all = response.items@;
                let mut kept: Vec<Item> = Vec::new();
                for item in it: response.items.into_iter()
                    invariant
                        it.seq() == all,
                        kept@ == external_only(all.take(it.index() as int)),
                {
                    assert(all.take(it.index() + 1).drop_last() =~= all.take(it.index() as int));
                    if is_external(&item) {
                        kept.push(item);
                    }
                }
                assert(all.take(all.len() as int) =~= all);
                let mut fresh: u64 = 0;
                let mut i: usize = 0;
                while i < kept.len()
                    invariant
                        i <= kept.len(),
                        fresh == fresh_count(self.seen@, kept@.take(i as int)),
                        fresh <= i,
                    decreases kept.len() - i,
                {
                    assert(kept@.take(i + 1).drop_last() =~= kept@.take(i as int));
                    if self.is_fresh(&kept[i]) {
                        fresh = fresh + 1;
                    }
                    i = i + 1;
                }
                assert(kept@.take(kept.len() as int) =~= kept@);
                let mut status = String::new();
                push_decimal(&mut status, kept.len() as u64);
                status.append(" external (");
                push_decimal(&mut status, total);
                status.append(" total) · ");
                push_decimal(&mut status, fresh);
                status.append(" updated");
                self.items = kept;
                self.selected = 0;
                self.error = None;
                self.status = status;
            },
            Err(message) => {
                let mut status = owned("refresh failed: ");
                status.append(message.as_str());
                self.error = Some(message);
                self.status = status;
            },
        }
    }

    /// Starts loading the selected item's detail: marks it seen and returns
    /// what to fetch; nothing without a token or a selection.
    pub fn start_detail(&mut self, now: Moment) -> (r: Option<ItemRequest>)
        ensures
            detail_started(*old(self), *final(self), r, now.nanos()),
    {
        let token = match &self.token {
            Some(t) => t.clone(),
            None => return None,
        };
        let index = match self.selected_position(now) {
            Some(k) => k,
            None => return None,
        };
        let id: u64 = self.items[index].id;
        let updated = self.items[index].updated_at.clone();
        self.seen.insert(id, updated);
        self.detail_loading = true;
        Some(ItemRequest { token, index })
    }

    /// Selects row `position` and, when the selection moved, starts loading
    /// the detail of the newly selected item.
    pub fn reselect(&mut self, position: usize, now: Moment) -> (r: Option<ItemRequest>)
        ensures
            ({
                let len = old(self).shown(now.nanos()).len();
                let next = if position < len { position as int } else { len - 1 };
                if len == 0 || next == old(self).selected {
                    r is None && *final(self) == *old(self)
                } else {
                    detail_started(
                        (Inbox { selected: next as usize, ..*old(self) }),
                        *final(self),
                        r,
                        now.nanos(),
                    )
                }
            }),
    {
        if self.select_index(position, now) {
            self.start_detail(now)
        } else {
            None
        }
    }

    /// Stores the detail loaded for item `id`.
    pub fn apply_detail(&mut self, id: u64, detail: Detail)
        ensures
            final(self).details@ == old(self).details@.insert(id, detail),
            *final(self) == (Inbox {
                details: final(self).details,
                detail_loading: false,
                ..*old(self)
            }),
    {
        self.details.insert(id, detail);
        self.detail_loading = false;
    }

    /// Starts a comment on the selected item: the item and the prompt to
    /// show, or a status saying there is nothing to comment on.
    pub fn start_comment(&mut self, now: Moment) -> (r: Option<(ItemRequest, String)>)
        ensures
            match (old(self).token, old(self).selection(now.nanos())) {
                (Some(t), Some(k)) => {
                    let item = old(self).items@[k];
                    &&& r matches Some(p) && p.0.token@ == t@ && p.0.index == k && p.1@
                        == "comment on "@ + item.full_name() + seq!['#'] + decimal(
                        item.number as nat,
                    )
                    &&& *final(self) == *old(self)
                },
                _ => {
                    &&& r is None
                    &&& final(self).status@ == "nothing to comment on"@
                    &&& *final(self) == (Inbox { status: final(self).status, ..*old(self) })
                },
            },
    {
        let token = match &self.token {
            Some(t) => Some(t.clone()),
            None => None,
        };
        let index = self.selected_position(now);
        match (token, index) {
            (Some(token), Some(index)) => {
                let item = &self.items[index];
                let full = item.repo_full_name();
                let mut prompt = join2("comment on ", full.as_str());
                push_char(&mut prompt, '#');
                push_decimal(&mut prompt, item.number);
                Some((ItemRequest { token, index }, prompt))
            },
            _ => {
                self.status = owned("nothing to comment on");
                None
            },
        }
    }

    /// Takes in the result of posting a comment on item `id` (number
    /// `number`). Returns true when the detail is to be reloaded.
    pub fn finish_comment(&mut self, id: u64, number: u64, result: Result<(), String>) -> (reload: bool)
        ensures
            match result {
                Ok(_) => {
                    &&& reload
                    &&& final(self).status@ == "comment posted on #"@ + decimal(number as nat)
                    &&& final(self).details@ == old(self).details@.remove(id)
                    &&& *final(self) == (Inbox {
                        status: final(self).status,
                        details: final(self).details,
                        ..*old(self)
                    })
                },
                Err(message) => {
                    &&& !reload
                    &&& final(self).status@ == "comment failed: "@ + message@
                    &&& *final(self) == (Inbox { status: final(self).status, ..*old(self) })
                },
            },
    {
        match result {
            Ok(_) => {
                let mut status = owned("comment posted on #");
                push_decimal(&mut status, number);
                self.status = status;
                self.details.remove(&id);
                true
            },
            Err(message) => {
                self.status = join2("comment failed: ", message.as_str());
                false
            },
        }
    }

    /// Starts closing the selected item, which must be open.
    pub fn start_close(&mut self, now: Moment) -> (r: Option<ItemRequest>)
        ensures
            match (old(self).token, old(self).selection(now.nanos())) {
                (Some(t), Some(k)) => {
                    let item = old(self).items@[k];
                    if item.opened() {
                        &&& r matches Some(req) && req.token@ == t@ && req.index == k
                        &&& final(self).status@ == "closing #"@ + decimal(item.number as nat)
                            + " …"@
                        &&& *final(self) == (Inbox { status: final(self).status, ..*old(self) })
                    } else {
                        &&& r is None
                        &&& final(self).status@ == "already closed — x only works on open items"@
                        &&& *final(self) == (Inbox { status: final(self).status, ..*old(self) })
                    }
                },
                _ => {
                    &&& r is None
                    &&& final(self).status@ == "nothing to close"@
                    &&& *final(self) == (Inbox { status: final(self).status, ..*old(self) })
                },
            },
    {
        let token = match &self.token {
            Some(t) => Some(t.clone()),
            None => None,
        };
        let index = self.selected_position(now);
        match (token, index) {
            (Some(token), Some(index)) => {
                if !self.items[index].is_open() {
                    self.status = owned("already closed — x only works on open items");
                    return None;
                }
                let mut status = owned("closing #");
                push_decimal(&mut status, self.items[index].number);
                status.append(" …");
                self.status = status;
                Some(ItemRequest { token, index })
            },
            _ => {
                self.status = owned("nothing to close");
                None
            },
        }
    }

    /// Takes in the result of closing item number `number`. Returns true
    /// when the list is to be refreshed.
    pub fn finish_close(&mut self, number: u64, result: Result<(), String>) -> (refresh: bool)
        ensures
            final(self).status@ == (match result {
                Ok(_) => "closed #"@ + decimal(number as nat),
                Err(message) => "close failed: "@ + message@,
            }),
            refresh == result is Ok,
            *final(self) == (Inbox { status: final(self).status, ..*old(self) }),
    {
        match result {
            Ok(_) => {
                let mut status = owned("closed #");
                push_decimal(&mut status, number);
                self.status = status;
                true
            },
            Err(message) => {
                self.status = join2("close failed: ", message.as_str());
                false
            },
        }
    }

    /// The text the token prompt opens with.
    pub fn start_token_editor(&self) -> (r: String)
        ensures
            r@ == (match self.token {
                Some(t) => t@,
                None => Seq::<char>::empty(),
            }),
    {
        match &self.token {
            Some(t) => t.clone(),
            None => String::new(),
        }
    }

    /// Takes in what the token prompt returned: nothing on cancel; a blank
    /// entry signs out; else the trimmed token is to be checked.
    pub fn submit_token(&mut self, value: Option<String>) -> (r: TokenSubmit)
        ensures
            match value {
                None => r is Ignored && *final(self) == *old(self),
                Some(v) => if trim(v@).len() == 0 {
                    &&& r is Cleared
                    &&& final(self).items@.len() == 0
                    &&& final(self).status@ == "token cleared — press t to set a GitHub token"@
                    &&& *final(self) == (Inbox {
                        token: None,
                        login: None,
                        items: final(self).items,
                        status: final(self).status,
                        ..*old(self)
                    })
                } else {
                    &&& r matches TokenSubmit::Validate(t) && t@ == trim(v@)
                    &&& *final(self) == *old(self)
                },
            },
    {
        let text = match value {
            Some(v) => v,
            None => return TokenSubmit::Ignored,
        };
        let token = trim_string(text.as_str());
        if token.as_str().is_empty() {
            self.token = None;
            self.login = None;
            self.items.clear();
            self.status = owned("token cleared — press t to set a GitHub token");
            return TokenSubmit::Cleared;
        }
        TokenSubmit::Validate(token)
    }

    /// Takes in whose `token` is. Returns true when it was valid: then it is
    /// stored with its login and the list is to be refreshed.
    pub fn finish_token(&mut self, token: String, result: Result<String, String>) -> (valid: bool)
        ensures
            match result {
                Ok(login) => {
                    &&& valid
                    &&& final(self).status@ == "token saved"@
                    &&& *final(self) == (Inbox {
                        token: Some(token),
                        login: Some(login),
                        error: None,
                        status: final(self).status,
                        ..*old(self)
                    })
                },
                Err(message) => {
                    &&& !valid
                    &&& final(self).status@ == "invalid token: "@ + message@
                    &&& *final(self) == (Inbox {
                        error: Some(message),
                        status: final(self).status,
                        ..*old(self)
                    })
                },
            },
    {
        match result {
            Ok(login) => {
                self.token = Some(token);
                self.login = Some(login);
                self.error = None;
                self.status = owned("token saved");
                true
            },
            Err(message) => {
                self.status = join2("invalid token: ", message.as_str());
                self.error = Some(message);
                false
            },
        }
    }
}

/// Every position on show is a position of the list.
pub proof fn lemma_visible_in_range(items: Seq<Item>, filter: Filter, now: int)
    ensures
        forall|k: int|
            0 <= k < visible_of(items, filter, now).len() ==> 0 <= #[trigger] visible_of(
                items,
                filter,
                now,
            )[k] < items.len(),
    decreases items.len(),
{
    if items.len() > 0 {
        lemma_visible_in_range(items.drop_last(), filter, now);
        let rest = visible_of(items.drop_last(), filter, now);
        let all = visible_of(items, filter, now);
        assert forall|k: int| 0 <= k < all.len() implies 0 <= #[trigger] all[k] < items.len() by {
            if k < rest.len() {
                assert(all[k] == rest[k]);
            }
        }
    }
}

/// A position is on show exactly when it is a position of the list whose
/// item the filter shows; positions on show come in list order, each once.
pub proof fn lemma_visible_exact(items: Seq<Item>, filter: Filter, now: int)
    ensures
        forall|k: int|
            visible_of(items, filter, now).contains(k) <==> 0 <= k < items.len() && shows(
                #[trigger] items[k],
                filter,
                now,
            ),
        forall|i: int, j: int|
            0 <= i < j < visible_of(items, filter, now).len() ==> visible_of(items, filter, now)[i]
                < visible_of(items, filter, now)[j],
    decreases items.len(),
{
    lemma_visible_in_range(items, filter, now);
    if items.len() > 0 {
        let init = items.drop_last();
        lemma_visible_exact(init, filter, now);
        lemma_visible_in_range(init, filter, now);
        let rest = visible_of(init, filter, now);
        let all = visible_of(items, filter, now);
        assert forall|k: int| all.contains(k) <==> 0 <= k < items.len() && shows(
            #[trigger] items[k],
            filter,
            now,
        ) by {
            if 0 <= k < init.len() {
                assert(init[k] == items[k]);
            }
            if all.contains(k) {
                let m = choose|m: int| 0 <= m < all.len() && all[m] == k;
                if m < rest.len() {
                    assert(all[m] == rest[m]);
                    assert(rest.contains(k));
                }
            }
            if 0 <= k < init.len() && shows(items[k], filter, now) {
                assert(rest.contains(k));
                let m = choose|m: int| 0 <= m < rest.len() && rest[m] == k;
                assert(all[m] == k);
            }
            if k == items.len() - 1 && shows(items[k], filter, now) {
                assert(all[all.len() - 1] == k);
            }
        }
        assert forall|i: int, j: int| 0 <= i < j < all.len() implies all[i] < all[j] by {
            if j < rest.len() {
                assert(all[i] == rest[i] && all[j] == rest[j]);
            } else {
                assert(all[i] == rest[i]);
                assert(0 <= rest[i] < init.len());
            }
        }
    }
}

/// The closed filter shows what neither the open nor the merged one does,
/// and the stale filter shows only open items.
pub proof fn lemma_filters_partition(item: Item, now: int)
    ensures
        shows(item, Filter::Closed, now) <==> !shows(item, Filter::Open, now) && !shows(
            item,
            Filter::Merged,
            now,
        ),
        shows(item, Filter::Stale, now) ==> shows(item, Filter::Open, now),
{
}

/// Only external items remain, none of them is lost, and none is added.
pub proof fn lemma_external_only(items: Seq<Item>)
    ensures
        forall|x: Item| external_only(items).contains(x) ==> external(x),
        forall|i: int| 0 <= i < items.len() && external(items[i]) ==> external_only(items).contains(
            items[i],
        ),
        external_only(items).len() <= items.len(),
        forall|x: Item| external_only(items).contains(x) ==> items.contains(x),
    decreases items.len(),
{
    if items.len() > 0 {
        let init = items.drop_last();
        lemma_external_only(init);
        let rest = external_only(init);
        let all = external_only(items);
        assert(all.len() <= rest.len() + 1);
        assert forall|x: Item| #[trigger] all.contains(x) implies external(x) && items.contains(x) by {
            let m = choose|m: int| 0 <= m < all.len() && all[m] == x;
            if m < rest.len() {
                assert(all[m] == rest[m]);
                assert(rest.contains(x));
                assert(init.contains(x));
                let q = choose|q: int| 0 <= q < init.len() && init[q] == x;
                assert(items[q] == x);
            } else {
                assert(external(items.last()));
                assert(all == rest.push(items.last()));
                assert(x == items.last());
                assert(items[items.len() - 1] == x);
            }
        }
        assert forall|i: int| 0 <= i < items.len() && external(items[i]) implies all.contains(
            items[i],
        ) by {
            if i < init.len() {
                assert(init[i] == items[i]);
                assert(rest.contains(items[i]));
                let m = choose|m: int| 0 <= m < rest.len() && rest[m] == items[i];
                assert(all[m] == items[i]);
            } else {
                assert(all[all.len() - 1] == items[i]);
            }
        }
    }
}

/// Once an item's current version is marked seen, it is no longer fresh.
pub proof fn lemma_marked_seen_not_fresh(seen: Map<u64, String>, item: Item)
    ensures
        !fresh_in(seen.insert(item.id, item.updated_at), item),
{
    crate::text::lemma_str_less_irreflexive(item.updated_at@);
}

/// Selecting an item marks it seen: once its detail is requested, the
/// selected item no longer counts as fresh, and nothing else in the list
/// changes.
pub proof fn lemma_selection_marks_seen(before: Inbox, after: Inbox, r: Option<ItemRequest>, now: int)
    requires
        detail_started(before, after, r, now),
        r is Some,
    ensures
        0 <= r->0.index < after.items@.len(),
        after.items@ == before.items@,
        !fresh_in(after.seen@, after.items@[r->0.index as int]),
{
    lemma_visible_in_range(before.items@, before.filter, now);
    let k = before.selection(now)->0;
    lemma_marked_seen_not_fresh(before.seen@, before.items@[k]);
}

/// An item never looked at is fresh; one looked at is fresh exactly when
/// its update sorts after the version looked at.
pub proof fn lemma_fresh_means_updated_since(seen: Map<u64, String>, item: Item, at: String)
    ensures
        !seen.contains_key(item.id) ==> fresh_in(seen, item),
        fresh_in(seen.insert(item.id, at), item) == str_less(at@, item.updated_at@),
{
}

/// There are never more fresh items than items.
pub proof fn lemma_fresh_count_bounded(seen: Map<u64, String>, items: Seq<Item>)
    ensures
        fresh_count(seen, items) <= items.len(),
    decreases items.len(),
{
    if items.len() > 0 {
        lemma_fresh_count_bounded(seen, items.drop_last());
    }
}

/// A pull request that was merged: its `pull_request` has a `merged_at`.
pub open spec fn raw_merged(item: Item) -> bool {
    item.pull_request matches Some(p) && p.merged_at is Some
}

/// What each tab lists, by the items' own fields: open holds the items
/// whose state is `open`; merged the pull requests with a `merged_at`;
/// closed the items neither open nor merged (a pull request closed without
/// merging among them); stale the open items updated more than 30 days
/// before `now`. Each position appears once, in list order.
pub proof fn lemma_tabs_by_fields(items: Seq<Item>, now: int)
    ensures
        forall|k: int|
            #[trigger] visible_of(items, Filter::Open, now).contains(k) <==> 0 <= k < items.len()
                && items[k].state@ == "open"@,
        forall|k: int|
            #[trigger] visible_of(items, Filter::Merged, now).contains(k) <==> 0 <= k < items.len()
                && raw_merged(items[k]),
        forall|k: int|
            #[trigger] visible_of(items, Filter::Closed, now).contains(k) <==> 0 <= k < items.len()
                && items[k].state@ != "open"@ && !raw_merged(items[k]),
        forall|k: int|
            #[trigger] visible_of(items, Filter::Stale, now).contains(k) <==> 0 <= k < items.len()
                && items[k].state@ == "open"@ && stale_at(items[k].updated_at@, now),
        forall|f: Filter, i: int, j: int|
            0 <= i < j < visible_of(items, f, now).len() ==> #[trigger] visible_of(items, f, now)[i]
                < #[trigger] visible_of(items, f, now)[j],
{
    lemma_visible_exact(items, Filter::Open, now);
    lemma_visible_exact(items, Filter::Merged, now);
    lemma_visible_exact(items, Filter::Closed, now);
    lemma_visible_exact(items, Filter::Stale, now);
    assert forall|k: int| #[trigger] visible_of(items, Filter::Merged, now).contains(k) <==> 0 <= k
        < items.len() && raw_merged(items[k]) by {
        if 0 <= k < items.len() {
            assert(shows(items[k], Filter::Merged, now) == items[k].merged());
        }
    }
    assert forall|k: int| #[trigger] visible_of(items, Filter::Closed, now).contains(k) <==> 0 <= k
        < items.len() && items[k].state@ != "open"@ && !raw_merged(items[k]) by {
        if 0 <= k < items.len() {
            assert(shows(items[k], Filter::Closed, now) == (!items[k].opened()
                && !items[k].merged()));
        }
    }
    assert forall|f: Filter, i: int, j: int|
        0 <= i < j < visible_of(items, f, now).len() implies #[trigger] visible_of(items, f, now)[i]
        < #[trigger] visible_of(items, f, now)[j] by {
        lemma_visible_exact(items, f, now);
    }
}

} // verus!
