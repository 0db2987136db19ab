//! Instants read from RFC 3339 timestamps, and what the inbox says about
//! the time since one: how long ago, and whether it is stale.

use vstd::prelude::*;
use vstd::string::StringExecFns;
use crate::github::Item;
use crate::text::{decimal, owned, push_decimal};

verus! {

broadcast use vstd::string::group_string_axioms;

/// An open item is stale once it has not been updated for this many days.
pub const STALE_DAYS: u64 = 30;

/// An instant: whole seconds since the Unix epoch and the nanoseconds past
/// them.
#[derive(Debug, Clone, Copy)]
pub struct Moment {
    pub unix_seconds: i64,
    pub nanosecond: u32,
}

/// Nanoseconds since the Unix epoch.
pub open spec fn nanos_of(seconds: int, nanosecond: int) -> int {
    seconds * 1_000_000_000 + nanosecond
}

impl Moment {
    /// Nanoseconds since the Unix epoch.
    pub open spec fn nanos(&self) -> int {
        nanos_of(self.unix_seconds as int, self.nanosecond as int)
    }

    pub fn total_nanos(&self) -> (r: i128)
        ensures
            r == self.nanos(),
    {
        self.unix_seconds as i128 * 1_000_000_000 + self.nanosecond as i128
    }
}

/// The instant an RFC 3339 timestamp names, as the `time` crate reads it:
/// Unix seconds and nanosecond; `None` when `text` is no such timestamp.
pub uninterp spec fn rfc3339_instant(text: Seq<char>) -> Option<(int, int)>;

/// `time::OffsetDateTime::parse` with the `Rfc3339` description, then
/// `unix_timestamp` and `nanosecond`. The contract claims the named result
/// and, as `nanosecond`'s documentation states, a nanosecond below 10^9;
/// the grammar of RFC 3339 is not written out.
#[verifier::external_body]
pub(crate) fn parse_rfc3339(text: &str) -> (r: Option<Moment>)
    ensures
        match rfc3339_instant(text@) {
            Some(t) => r matches Some(m) && m.unix_seconds as int == t.0 && m.nanosecond as int
                == t.1,
            None => r is None,
        },
        r matches Some(m) ==> m.nanosecond < 1_000_000_000,
{
    match time::OffsetDateTime::parse(text, &time::format_description::well_known::Rfc3339) {
        Ok(t) => Some(Moment { unix_seconds: t.unix_timestamp(), nanosecond: t.nanosecond() }),
        Err(_) => None,
    }
}

/// The length of the staleness window in nanoseconds.
pub open spec fn stale_window() -> int {
    STALE_DAYS * 86_400 * 1_000_000_000
}

/// A timestamp names an instant more than the staleness window before
/// `now`; a timestamp that does not parse is never stale.
pub open spec fn stale_at(updated_at: Seq<char>, now: int) -> bool {
    match rfc3339_instant(updated_at) {
        Some(t) => nanos_of(t.0, t.1) < now - stale_window(),
        None => false,
    }
}

/// Whether the item was last updated more than 30 days before `now`.
pub fn is_stale(item: &Item, now: Moment) -> (r: bool)
    ensures
        r == stale_at(item.updated_at@, now.nanos()),
{
    match parse_rfc3339(item.updated_at.as_str()) {
        Some(t) => {
            let window: i128 = STALE_DAYS as i128 * 86_400 * 1_000_000_000;
            t.total_nanos() < now.total_nanos() - window
        },
        None => false,
    }
}

/// How long ago `when` was, seen at `now` (nanoseconds): `now` for a time
/// after it, then just now, minutes, hours or days; the text itself when it
/// does not parse.
pub open spec fn ago_text(when: Seq<char>, now: int) -> Seq<char> {
    match rfc3339_instant(when) {
        Some(t) => {
            let delta = now - nanos_of(t.0, t.1);
            let seconds = delta / 1_000_000_000;
            if delta < 0 {
                "now"@
            } else if seconds < 60 {
                "just now"@
            } else if seconds < 3600 {
                decimal((seconds / 60) as nat) + "m ago"@
            } else if seconds < 86400 {
                decimal((seconds / 3600) as nat) + "h ago"@
            } else {
                decimal((seconds / 86400) as nat) + "d ago"@
            }
        },
        None => when,
    }
}

/// How long ago `when` was, seen at `now`.
pub fn ago(when: &str, now: Moment) -> (r: String)
    ensures
        r@ == ago_text(when@, now.nanos()),
{
    match parse_rfc3339(when) {
        Some(t) => {
            let delta: i128 = now.total_nanos() - t.total_nanos();
            if delta < 0 {
                return owned("now");
            }
            let seconds: i128 = delta / 1_000_000_000;
            assert(seconds <= 0x2_0000_0000_0000_0000);
            if seconds < 60 {
                owned("just now")
            } else if seconds < 3600 {
                let mut r = String::new();
                push_decimal(&mut r, (seconds / 60) as u64);
                r.append("m ago");
                r
            } else if seconds < 86400 {
                let mut r = String::new();
                push_decimal(&mut r, (seconds / 3600) as u64);
                r.append("h ago");
                r
            } else {
                let mut r = String::new();
                push_decimal(&mut r, (seconds / 86400) as u64);
                r.append("d ago");
                r
            }
        },
        None => owned(when),
    }
}

/// `q` is the number of whole `unit`s in `x`, for `x` of at least zero.
proof fn lemma_whole_units(x: int, unit: int, q: int)
    requires
        unit > 0,
        q * unit <= x < (q + 1) * unit,
    ensures
        x / unit == q,
{
    vstd::arithmetic::div_mod::lemma_fundamental_div_mod(x, unit);
    vstd::arithmetic::div_mod::lemma_mod_bound(x, unit);
    let r = x / unit;
    assert(r == q) by (nonlinear_arith)
        requires
            unit > 0,
            x == unit * r + x % unit,
            0 <= x % unit < unit,
            q * unit <= x < (q + 1) * unit,
    {
        if r < q {
            assert(unit * r + unit <= unit * q);
        } else if r > q {
            assert(unit * q + unit <= unit * r);
        }
    }
}

/// How long ago a time was, by the time elapsed since it: in the future it
/// is "now"; under a minute "just now"; then `m` whole minutes ago (1 to 59),
/// `h` whole hours ago (1 to 23), or `d` whole days ago for any number of
/// days; a text that names no instant is shown as it is.
pub proof fn lemma_ago_by_elapsed(when: Seq<char>, now: int, n: nat)
    ensures
        rfc3339_instant(when) is None ==> ago_text(when, now) == when,
        rfc3339_instant(when) matches Some(t) ==> {
            let elapsed = now - nanos_of(t.0, t.1);
            &&& elapsed < 0 ==> ago_text(when, now) == "now"@
            &&& 0 <= elapsed < 60 * 1_000_000_000 ==> ago_text(when, now) == "just now"@
            &&& 1 <= n < 60 && n * 60 * 1_000_000_000 <= elapsed < (n + 1) * 60 * 1_000_000_000
                ==> ago_text(when, now) == decimal(n) + "m ago"@
            &&& 1 <= n < 24 && n * 3600 * 1_000_000_000 <= elapsed < (n + 1) * 3600 * 1_000_000_000
                ==> ago_text(when, now) == decimal(n) + "h ago"@
            &&& 1 <= n && n * 86400 * 1_000_000_000 <= elapsed < (n + 1) * 86400 * 1_000_000_000
                ==> ago_text(when, now) == decimal(n) + "d ago"@
        },
{
    if let Some(t) = rfc3339_instant(when) {
        let elapsed = now - nanos_of(t.0, t.1);
        if elapsed >= 0 {
            let seconds = elapsed / 1_000_000_000;
            vstd::arithmetic::div_mod::lemma_fundamental_div_mod(elapsed, 1_000_000_000);
            vstd::arithmetic::div_mod::lemma_mod_bound(elapsed, 1_000_000_000);
            if 1 <= n < 60 && n * 60 * 1_000_000_000 <= elapsed < (n + 1) * 60 * 1_000_000_000 {
                lemma_whole_units(seconds, 60, n as int);
            }
            if 1 <= n < 24 && n * 3600 * 1_000_000_000 <= elapsed < (n + 1) * 3600 * 1_000_000_000 {
                lemma_whole_units(seconds, 3600, n as int);
            }
            if 1 <= n && n * 86400 * 1_000_000_000 <= elapsed < (n + 1) * 86400 * 1_000_000_000 {
                lemma_whole_units(seconds, 86400, n as int);
            }
        }
    }
}

} // verus!
