//! The seen markers as they are stored: a JSON object whose keys are item
//! ids written in decimal and whose values are the `updated_at` of the
//! version last looked at; entries under any other key are kept as they are.

use std::collections::HashMap;
use vstd::prelude::*;
use crate::json::{
    json_object_string, json_object_text, json_string_map, json_string_pairs, keys_distinct,
    lemma_members_map, lemma_members_map_reordered, members_map, object_of_members, reordering_of,
};
use crate::text::{decimal, decimal_string, hex_digit, same_text, to_chars};
use crate::uri::pair_views;

verus! {

broadcast use {vstd::string::group_string_axioms, vstd::std_specs::hash::group_hash_axioms};

/// Every char of `s` is an ASCII digit.
pub open spec fn all_digits(s: Seq<char>) -> bool {
    forall|i: int| 0 <= i < s.len() ==> '0' <= #[trigger] s[i] <= '9'
}

/// The number that the decimal digits `s` write.
pub open spec fn digits_value(s: Seq<char>) -> nat
    decreases s.len(),
{
    if s.len() == 0 {
        0
    } else {
        digits_value(s.drop_last()) * 10 + ((s.last() as u32) - ('0' as u32)) as nat
    }
}

/// What `str::parse::<u64>` gives: an optional `+` followed by one or more
/// digits, whose value fits in a `u64`; `None` for anything else.
pub open spec fn parsed_u64(s: Seq<char>) -> Option<u64> {
    let d = if s.len() > 0 && s[0] == '+' { s.drop_first() } else { s };
    if d.len() > 0 && all_digits(d) && digits_value(d) <= u64::MAX {
        Some(digits_value(d) as u64)
    } else {
        None
    }
}

proof fn lemma_digits_value_grows(s: Seq<char>, i: int)
    requires
        0 <= i <= s.len(),
        all_digits(s),
    ensures
        digits_value(s.take(i)) <= digits_value(s),
    decreases s.len(),
{
    if i < s.len() {
        let init = s.drop_last();
        assert(all_digits(init)) by {
            assert forall|j: int| 0 <= j < init.len() implies '0' <= #[trigger] init[j] <= '9' by {
                assert(init[j] == s[j]);
            }
        }
        lemma_digits_value_grows(init, i);
        assert(init.take(i) =~= s.take(i));
    } else {
        assert(s.take(i) =~= s);
    }
}

/// Parses a decimal `u64` as `str::parse` does.
pub fn parse_u64(text: &str) -> (r: Option<u64>)
    ensures
        r == parsed_u64(text@),
{
    let v = to_chars(text);
    let start: usize = if v.len() > 0 && v[0] == '+' { 1 } else { 0 };
    let ghost d = if text@.len() > 0 && text@[0] == '+' { text@.drop_first() } else { text@ };
    assert(d =~= v@.skip(start as int));
    if start == v.len() {
        return None;
    }
    let mut value: u64 = 0;
    let mut i: usize = start;
    while i < v.len()
        invariant
            start <= i <= v.len(),
            v@ == text@,
            d == v@.skip(start as int),
            d == (if text@.len() > 0 && text@[0] == '+' { text@.drop_first() } else { text@ }),
            d.len() > 0,
            all_digits(d.take(i - start)),
            value == digits_value(d.take(i - start)),
        decreases v.len() - i,
    {
        let c = v[i];
        let ghost k: int = i - start;
        assert(d[k] == c);
        assert(d.take(k + 1).drop_last() =~= d.take(k));
        if c < '0' || c > '9' {
            assert(!all_digits(d));
            return None;
        }
        let digit: u64 = ((c as u32) - ('0' as u32)) as u64;
        assert(all_digits(d.take(k + 1))) by {
            assert forall|j: int| 0 <= j < k + 1 implies '0' <= #[trigger] d.take(k + 1)[j] <= '9' by {
                if j < k {
                    assert(d.take(k + 1)[j] == d.take(k)[j]);
                }
            }
        }
        match value.checked_mul(10) {
            Some(tens) => match tens.checked_add(digit) {
                Some(next) => {
                    value = next;
                },
                None => {
                    proof {
                        if all_digits(d) {
                            lemma_digits_value_grows(d, k + 1);
                        }
                    }
                    return None;
                },
            },
            None => {
                proof {
                    if all_digits(d) {
                        lemma_digits_value_grows(d, k + 1);
                    }
                }
                return None;
            },
        }
        i = i + 1;
    }
    assert(d.take(v.len() - start) =~= d);
    Some(value)
}

/// An id written in decimal reads back as the same id.
pub proof fn lemma_id_round_trip(n: u64)
    ensures
        parsed_u64(decimal(n as nat)) == Some(n),
{
    lemma_decimal_digits(n as nat);
    assert(decimal(n as nat)[0] != '+');
}

proof fn lemma_decimal_digits(n: nat)
    ensures
        decimal(n).len() > 0,
        all_digits(decimal(n)),
        digits_value(decimal(n)) == n,
        decimal(n)[0] != '+',
    decreases n,
{
    if n < 10 {
        assert(digits_value(seq![hex_digit(n as int)].drop_last()) == 0) by {
            assert(seq![hex_digit(n as int)].drop_last() =~= Seq::<char>::empty());
        }
    } else {
        let q = n / 10;
        let d = n % 10;
        lemma_decimal_digits(q);
        let s = decimal(q).push(hex_digit(d as int));
        assert(s.drop_last() =~= decimal(q));
        assert(all_digits(s)) by {
            assert forall|j: int| 0 <= j < s.len() implies '0' <= #[trigger] s[j] <= '9' by {
                if j < decimal(q).len() {
                    assert(s[j] == decimal(q)[j]);
                }
            }
        }
        assert(q * 10 + d == n) by (nonlinear_arith)
            requires
                q == n / 10,
                d == n % 10,
        ;
        assert(s[0] == decimal(q)[0]);
    }
}

/// Two ids are written alike only when they are the same id.
proof fn lemma_decimal_injective(a: nat, b: nat)
    ensures
        decimal(a) == decimal(b) ==> a == b,
{
    lemma_decimal_digits(a);
    lemma_decimal_digits(b);
}

/// Reads a stored key: the id whose decimal form is exactly `text` (no sign,
/// no leading zero); `None` when there is none.
pub fn parse_id(text: &str) -> (r: Option<u64>)
    ensures
        match r {
            Some(n) => decimal(n as nat) == text@,
            None => forall|n: u64| #[trigger] decimal(n as nat) != text@,
        },
{
    match parse_u64(text) {
        Some(n) => {
            let written = decimal_string(n);
            if same_text(written.as_str(), text) {
                Some(n)
            } else {
                proof {
                    assert forall|m: u64| #[trigger] decimal(m as nat) != text@ by {
                        if decimal(m as nat) == text@ {
                            lemma_id_round_trip(m);
                        }
                    }
                }
                None
            }
        },
        None => {
            proof {
                assert forall|m: u64| #[trigger] decimal(m as nat) != text@ by {
                    if decimal(m as nat) == text@ {
                        lemma_id_round_trip(m);
                    }
                }
            }
            None
        },
    }
}

/// `seen` holds, for each id, the value stored under its decimal form, and
/// nothing else.
pub open spec fn seen_matches(seen: Map<u64, String>, stored: Map<Seq<char>, Seq<char>>) -> bool {
    &&& forall|id: u64| #[trigger] seen.contains_key(id) == stored.contains_key(decimal(id as nat))
    &&& forall|id: u64| #[trigger] seen.contains_key(id) ==> seen[id]@ == stored[decimal(id as nat)]
}

/// A stored key that is the decimal form of no id.
pub open spec fn not_id(k: Seq<char>) -> bool {
    forall|n: u64| #[trigger] decimal(n as nat) != k
}

/// Some entry of `p` has the key `k`.
pub open spec fn has_key(p: Seq<(Seq<char>, Seq<char>)>, k: Seq<char>) -> bool {
    exists|i: int| 0 <= i < p.len() && #[trigger] p[i].0 == k
}

/// The entries of `p` whose key is no id, each key once (its first entry),
/// in order.
pub open spec fn kept_others(p: Seq<(Seq<char>, Seq<char>)>) -> Seq<(Seq<char>, Seq<char>)>
    decreases p.len(),
{
    if p.len() == 0 {
        seq![]
    } else {
        let rest = kept_others(p.drop_last());
        if not_id(p.last().0) && !has_key(rest, p.last().0) {
            rest.push(p.last())
        } else {
            rest
        }
    }
}

/// `other` holds, keys once each, exactly the stored entries whose key is no
/// id.
pub open spec fn others_match(
    other: Seq<(Seq<char>, Seq<char>)>,
    stored: Map<Seq<char>, Seq<char>>,
) -> bool {
    &&& keys_distinct(other)
    &&& forall|i: int|
        0 <= i < other.len() ==> not_id(#[trigger] other[i].0) && stored.contains_key(other[i].0)
            && stored[other[i].0] == other[i].1
    &&& forall|k: Seq<char>| #[trigger] stored.contains_key(k) && not_id(k) ==> has_key(other, k)
}

/// The stored markers: those of items, by id, and the entries stored under
/// any other key, kept as they are.
pub struct StoredSeen {
    pub ids: HashMap<u64, String>,
    pub other: Vec<(String, String)>,
}

/// `r` is what the stored map of strings holds.
pub open spec fn stored_matches(r: StoredSeen, stored: Map<Seq<char>, Seq<char>>) -> bool {
    seen_matches(r.ids@, stored) && others_match(pair_views(r.other@), stored)
}

/// What reading the stored text gives: the entries of the object of strings
/// it holds, nothing when it holds no such object; for text written as an
/// object with distinct keys, the entries of its members.
pub open spec fn seen_read(text: Seq<char>, r: StoredSeen) -> bool {
    &&& match json_string_map(text) {
        Some(stored) => stored_matches(r, stored),
        None => r.ids@ == Map::<u64, String>::empty() && r.other@.len() == 0,
    }
    &&& forall|members: Seq<(Seq<char>, Seq<char>)>|
        text == json_object_text(members) && keys_distinct(members) ==> stored_matches(
            r,
            #[trigger] members_map(members),
        )
}

/// What `kept_others` keeps: entries of `p` under no id, keys once each,
/// and one for every key of `p` that is no id.
pub proof fn lemma_kept_others(p: Seq<(Seq<char>, Seq<char>)>)
    ensures
        keys_distinct(kept_others(p)),
        forall|x: (Seq<char>, Seq<char>)|
            #[trigger] kept_others(p).contains(x) ==> not_id(x.0) && p.contains(x),
        forall|i: int| 0 <= i < p.len() && not_id(p[i].0) ==> has_key(kept_others(p), #[trigger] p[i].0),
    decreases p.len(),
{
    if p.len() > 0 {
        let init = p.drop_last();
        lemma_kept_others(init);
        let rest = kept_others(init);
        let last = p.last();
        if not_id(last.0) && !has_key(rest, last.0) {
            let k = rest.push(last);
            assert forall|i: int, j: int| 0 <= i < j < k.len() implies #[trigger] k[i].0
                != #[trigger] k[j].0 by {
                if j == rest.len() {
                    if k[i].0 == last.0 {
                        assert(rest[i].0 == last.0);
                    }
                } else {
                    assert(k[i] == rest[i] && k[j] == rest[j]);
                }
            }
            assert forall|x: (Seq<char>, Seq<char>)| #[trigger] k.contains(x) implies not_id(x.0)
                && p.contains(x) by {
                let i = choose|i: int| 0 <= i < k.len() && k[i] == x;
                if i < rest.len() {
                    assert(rest[i] == x);
                    assert(rest.contains(x));
                    let j = choose|j: int| 0 <= j < init.len() && init[j] == x;
                    assert(p[j] == x);
                } else {
                    assert(p[p.len() - 1] == x);
                }
            }
            assert forall|i: int| 0 <= i < p.len() && not_id(p[i].0) implies has_key(
                k,
                #[trigger] p[i].0,
            ) by {
                if i < init.len() {
                    assert(init[i] == p[i]);
                    assert(has_key(rest, init[i].0));
                    let j = choose|j: int| 0 <= j < rest.len() && #[trigger] rest[j].0 == p[i].0;
                    assert(k[j] == rest[j]);
                } else {
                    assert(k[rest.len() as int].0 == p[i].0);
                }
            }
        } else {
            assert forall|x: (Seq<char>, Seq<char>)| #[trigger] rest.contains(x) implies not_id(
                x.0,
            ) && p.contains(x) by {
                let j = choose|j: int| 0 <= j < init.len() && init[j] == x;
                assert(p[j] == x);
            }
            assert forall|i: int| 0 <= i < p.len() && not_id(p[i].0) implies has_key(
                rest,
                #[trigger] p[i].0,
            ) by {
                if i < init.len() {
                    assert(init[i] == p[i]);
                }
            }
        }
    }
}

/// Entries under distinct keys that are no ids are all kept, in order.
pub proof fn lemma_kept_others_whole(p: Seq<(Seq<char>, Seq<char>)>)
    requires
        keys_distinct(p),
        forall|i: int| 0 <= i < p.len() ==> not_id(#[trigger] p[i].0),
    ensures
        kept_others(p) == p,
    decreases p.len(),
{
    if p.len() > 0 {
        let init = p.drop_last();
        assert(keys_distinct(init)) by {
            assert forall|i: int, j: int| 0 <= i < j < init.len() implies #[trigger] init[i].0
                != #[trigger] init[j].0 by {
                assert(init[i] == p[i] && init[j] == p[j]);
            }
        }
        assert forall|i: int| 0 <= i < init.len() implies not_id(#[trigger] init[i].0) by {
            assert(init[i] == p[i]);
        }
        lemma_kept_others_whole(init);
        assert(not_id(p[p.len() - 1].0));
        if has_key(init, p.last().0) {
            let j = choose|j: int| 0 <= j < init.len() && #[trigger] init[j].0 == p.last().0;
            assert(p[j].0 == p[p.len() - 1].0);
        }
        assert(init.push(p.last()) =~= p);
    }
}

/// Read from entries under distinct keys, the kept entries are exactly
/// those whose key is no id.
proof fn lemma_kept_others_read(p: Seq<(Seq<char>, Seq<char>)>)
    requires
        keys_distinct(p),
    ensures
        others_match(kept_others(p), members_map(p)),
{
    lemma_kept_others(p);
    lemma_members_map(p);
    let k = kept_others(p);
    let m = members_map(p);
    assert forall|i: int| 0 <= i < k.len() implies not_id(#[trigger] k[i].0) && m.contains_key(
        k[i].0,
    ) && m[k[i].0] == k[i].1 by {
        assert(k.contains(k[i]));
        let j = choose|j: int| 0 <= j < p.len() && p[j] == k[i];
        assert(m.contains_key(p[j].0));
    }
    assert forall|key: Seq<char>| #[trigger] m.contains_key(key) && not_id(key) implies has_key(
        k,
        key,
    ) by {
        let j = choose|j: int| 0 <= j < p.len() && p[j].0 == key;
        assert(has_key(k, p[j].0));
    }
}

/// Reads the stored seen markers: the entries under an id's decimal form
/// by id, the others as they are; text that is no JSON object of strings
/// gives none.
pub fn seen_from_json(text: &str) -> (r: StoredSeen)
    ensures
        seen_read(text@, r),
{
    let mut ids: HashMap<u64, String> = HashMap::new();
    let mut other: Vec<(String, String)> = Vec::new();
    let pairs = match json_string_pairs(text) {
        Some(v) => v,
        None => {
            return StoredSeen { ids, other };
        },
    };
    let ghost pv = pair_views(pairs@);
    let mut i: usize = 0;
    while i < pairs.len()
        invariant
            i <= pairs.len(),
            pv == pair_views(pairs@),
            keys_distinct(pv),
            seen_matches(ids@, members_map(pv.take(i as int))),
            pair_views(other@) == kept_others(pv.take(i as int)),
        decreases pairs.len() - i,
    {
        let ghost before = members_map(pv.take(i as int));
        assert(pv.take(i + 1).drop_last() =~= pv.take(i as int));
        assert(pv[i as int] == (pairs@[i as int].0@, pairs@[i as int].1@));
        let ghost key = pairs@[i as int].0@;
        let ghost after = before.insert(key, pairs@[i as int].1@);
        assert(members_map(pv.take(i + 1)) == after);
        match parse_id(pairs[i].0.as_str()) {
            Some(id) => {
                let at = pairs[i].1.clone();
                ids.insert(id, at);
                assert forall|x: u64| #[trigger] ids@.contains_key(x) == after.contains_key(
                    decimal(x as nat),
                ) by {
                    lemma_decimal_injective(x as nat, id as nat);
                }
                assert forall|x: u64| #[trigger] ids@.contains_key(x) implies ids@[x]@
                    == after[decimal(x as nat)] by {
                    lemma_decimal_injective(x as nat, id as nat);
                }
                assert(!not_id(key));
                assert(kept_others(pv.take(i + 1)) == kept_others(pv.take(i as int)));
            },
            None => {
                assert forall|x: u64| #[trigger] ids@.contains_key(x) == after.contains_key(
                    decimal(x as nat),
                ) by {
                    assert(decimal(x as nat) != key);
                }
                assert forall|x: u64| #[trigger] ids@.contains_key(x) implies ids@[x]@
                    == after[decimal(x as nat)] by {
                    assert(decimal(x as nat) != key);
                }
                proof {
                    let rest = kept_others(pv.take(i as int));
                    lemma_kept_others(pv.take(i as int));
                    if has_key(rest, key) {
                        let j = choose|j: int| 0 <= j < rest.len() && #[trigger] rest[j].0 == key;
                        assert(rest.contains(rest[j]));
                        assert(pv.take(i as int).contains(rest[j]));
                        let m = choose|m: int|
                            0 <= m < pv.take(i as int).len() && pv.take(i as int)[m] == rest[j];
                        assert(pv[m].0 == pv[i as int].0);
                    }
                }
                let entry = (pairs[i].0.clone(), pairs[i].1.clone());
                other.push(entry);
                assert(pair_views(other@) =~= kept_others(pv.take(i as int)).push(pv[i as int]));
            },
        }
        i = i + 1;
    }
    assert(pv.take(pairs.len() as int) =~= pv);
    proof {
        lemma_kept_others_read(pv);
    }
    StoredSeen { ids, other }
}

/// The ids in strictly increasing order.
pub open spec fn increasing(ids: Seq<u64>) -> bool {
    forall|i: int, j: int| 0 <= i < j < ids.len() ==> ids[i] < ids[j]
}

/// The stored members of the markers for `ids`, in that order.
pub open spec fn seen_members(seen: Map<u64, String>, ids: Seq<u64>) -> Seq<(Seq<char>, Seq<char>)> {
    ids.map_values(|id: u64| (decimal(id as nat), seen[id]@))
}

/// What writing gives: the JSON object of the markers' members (each id in
/// decimal with its value) and of the other entries kept, in some order.
pub open spec fn seen_written(
    seen: Map<u64, String>,
    other: Seq<(Seq<char>, Seq<char>)>,
    text: Seq<char>,
) -> bool {
    exists|ids: Seq<u64>|
        #![trigger seen_members(seen, ids)]
        increasing(ids) && (forall|id: u64| #[trigger] ids.contains(id) == seen.contains_key(id))
            && object_of_members(text, seen_members(seen, ids) + kept_others(other))
}

fn insert_sorted(ids: &mut Vec<u64>, k: u64)
    requires
        increasing(old(ids)@),
    ensures
        increasing(final(ids)@),
        forall|x: u64| #[trigger] final(ids)@.contains(x) == (old(ids)@.contains(x) || x == k),
{
    let mut p: usize = 0;
    while p < ids.len() && ids[p] < k
        invariant
            p <= ids.len(),
            ids@ == old(ids)@,
            forall|j: int| 0 <= j < p ==> ids@[j] < k,
        decreases ids.len() - p,
    {
        p = p + 1;
    }
    if p < ids.len() && ids[p] == k {
        assert forall|x: u64| #[trigger] ids@.contains(x) == (old(ids)@.contains(x) || x == k) by {
            if x == k {
                assert(ids@[p as int] == k);
            }
        }
        return;
    }
    let ghost s = ids@;
    ids.insert(p, k);
    assert(ids@ == s.insert(p as int, k));
    assert forall|i: int, j: int| 0 <= i < j < ids@.len() implies ids@[i] < ids@[j] by {
        if j < p {
        } else if j == p {
        } else if i < p {
            assert(ids@[j] == s[j - 1]);
            assert(s[j - 1] >= k) by {
                if j - 1 > p as int {
                    assert(s[p as int] < s[j - 1]);
                }
            }
        } else if i == p {
            assert(ids@[j] == s[j - 1]);
        } else {
            assert(ids@[i] == s[i - 1] && ids@[j] == s[j - 1]);
        }
    }
    assert forall|x: u64| #[trigger] ids@.contains(x) == (s.contains(x) || x == k) by {
        if ids@.contains(x) {
            let j = choose|j: int| 0 <= j < ids@.len() && ids@[j] == x;
            if j < p {
                assert(s[j] == x);
            } else if j > p {
                assert(s[j - 1] == x);
            }
        }
        if s.contains(x) {
            let j = choose|j: int| 0 <= j < s.len() && s[j] == x;
            if j < p {
                assert(ids@[j] == x);
            } else {
                assert(ids@[j + 1] == x);
            }
        }
        if x == k {
            assert(ids@[p as int] == k);
        }
    }
}

fn sorted_ids(seen: &HashMap<u64, String>) -> (ids: Vec<u64>)
    ensures
        increasing(ids@),
        forall|id: u64| #[trigger] ids@.contains(id) == seen@.contains_key(id),
{
    let mut ids: Vec<u64> = Vec::new();
    let keys = seen.keys();
    let ghost all = vstd::std_specs::iter::IteratorSpec::remaining(&keys);
    proof {
        assert(all.unref().to_set() == seen@.dom());
        assert forall|id: u64| #[trigger] seen@.contains_key(id) == exists|j: int|
            0 <= j < all.len() && *all[j] == id by {
            if seen@.contains_key(id) {
                assert(all.unref().to_set().contains(id));
                let j = choose|j: int| 0 <= j < all.unref().len() && all.unref()[j] == id;
                assert(*all[j] == id);
            }
            if exists|j: int| 0 <= j < all.len() && *all[j] == id {
                let j = choose|j: int| 0 <= j < all.len() && *all[j] == id;
                assert(all.unref()[j] == id);
                assert(all.unref().to_set().contains(id));
            }
        }
    }
    for k in it: keys
        invariant
            increasing(ids@),
            it.seq() == all,
            forall|id: u64|
                #[trigger] seen@.contains_key(id) == exists|j: int|
                    0 <= j < it.seq().len() && *it.seq()[j] == id,
            forall|id: u64|
                #[trigger] ids@.contains(id) == exists|j: int|
                    0 <= j < it.index() && *it.seq()[j] == id,
    {
        let ghost idx = it.index();
        assert(it.seq()[idx as int] == k);
        insert_sorted(&mut ids, *k);
        assert forall|id: u64| #[trigger] ids@.contains(id) == exists|j: int|
            0 <= j < idx + 1 && *it.seq()[j] == id by {
            if id == *k {
                assert(*it.seq()[idx as int] == id);
            }
        }
    }
    ids
}

/// Writes the stored seen markers: a JSON object of each id in decimal with
/// its `updated_at`, and of the other entries (those whose key is no id,
/// each key once), as `serde_json` writes a map.
pub fn seen_to_json(seen: &HashMap<u64, String>, other: &Vec<(String, String)>) -> (r: String)
    ensures
        seen_written(seen@, pair_views(other@), r@),
{
    let ids = sorted_ids(seen);
    let ghost ms = seen_members(seen@, ids@);
    let ghost po = pair_views(other@);
    let mut members: Vec<(String, String)> = Vec::new();
    let mut i: usize = 0;
    while i < ids.len()
        invariant
            i <= ids.len(),
            ms == seen_members(seen@, ids@),
            forall|id: u64| #[trigger] ids@.contains(id) == seen@.contains_key(id),
            pair_views(members@) == ms.take(i as int),
        decreases ids.len() - i,
    {
        let id = ids[i];
        assert(ids@.contains(id));
        let at: &String = seen.get(&id).unwrap();
        assert(ms[i as int] == (decimal(id as nat), seen@[id]@));
        let written = decimal_string(id);
        let value = at.clone();
        assert(value@ == seen@[id]@);
        let ghost before = members@;
        members.push((written, value));
        assert(pair_views(members@) =~= pair_views(before).push(ms[i as int]));
        assert(ms.take(i + 1) =~= ms.take(i as int).push(ms[i as int]));
        i = i + 1;
    }
    assert(ms.take(ids.len() as int) =~= ms);
    let n_ids: usize = ids.len();
    let mut j: usize = 0;
    while j < other.len()
        invariant
            j <= other.len(),
            n_ids == ms.len(),
            po == pair_views(other@),
            pair_views(members@) == ms + kept_others(po.take(j as int)),
        decreases other.len() - j,
    {
        let ghost rest = kept_others(po.take(j as int));
        assert(po.take(j + 1).drop_last() =~= po.take(j as int));
        assert(po[j as int] == (other@[j as int].0@, other@[j as int].1@));
        let key = other[j].0.as_str();
        let mut fresh = parse_id(key).is_none();
        assert(members@.len() == pair_views(members@).len());
        let mut m: usize = n_ids;
        while fresh && m < members.len()
            invariant
                n_ids == ms.len(),
                members@.len() == ms.len() + rest.len(),
                ms.len() <= m <= members.len(),
                pair_views(members@) == ms + rest,
                fresh ==> forall|q: int| 0 <= q < m - ms.len() ==> rest[q].0 != key@,
                !fresh ==> has_key(rest, key@) || !not_id(key@),
                fresh ==> not_id(key@),
            decreases members.len() - m,
        {
            assert(pair_views(members@)[m as int] == (members@[m as int].0@, members@[m as int].1@));
            assert((ms + rest)[m as int] == rest[m - ms.len()]);
            if same_text(members[m].0.as_str(), key) {
                assert(rest[m - ms.len()].0 == key@);
                fresh = false;
            }
            m = m + 1;
        }
        proof {
            if fresh {
                assert forall|q: int| 0 <= q < rest.len() implies #[trigger] rest[q].0 != key@ by {}
            }
        }
        if fresh {
            let entry = (other[j].0.clone(), other[j].1.clone());
            assert(entry.0@ == po[j as int].0 && entry.1@ == po[j as int].1);
            let ghost before = members@;
            members.push(entry);
            assert(pair_views(members@) =~= pair_views(before).push(po[j as int]));
            assert(ms + rest.push(po[j as int]) =~= (ms + rest).push(po[j as int]));
        }
        j = j + 1;
    }
    assert(po.take(other.len() as int) =~= po);
    proof {
        lemma_written_keys_distinct(seen@, ids@, po);
    }
    json_object_string(&members)
}

/// The members written have distinct keys: the ids are distinct and written
/// alike only when equal, and the other keys are distinct and no ids.
proof fn lemma_written_keys_distinct(
    seen: Map<u64, String>,
    ids: Seq<u64>,
    other: Seq<(Seq<char>, Seq<char>)>,
)
    requires
        increasing(ids),
    ensures
        keys_distinct(seen_members(seen, ids) + kept_others(other)),
{
    let ms = seen_members(seen, ids);
    let k = kept_others(other);
    lemma_kept_others(other);
    let all = ms + k;
    assert forall|i: int, j: int| 0 <= i < j < all.len() implies #[trigger] all[i].0
        != #[trigger] all[j].0 by {
        if j < ms.len() {
            lemma_decimal_injective(ids[i] as nat, ids[j] as nat);
        } else if i < ms.len() {
            assert(all[j] == k[j - ms.len()]);
            assert(k.contains(k[j - ms.len()]));
            assert(not_id(k[j - ms.len()].0));
            assert(all[i].0 == decimal(ids[i] as nat));
        } else {
            assert(all[i] == k[i - ms.len()] && all[j] == k[j - ms.len()]);
        }
    }
}

/// Markers written for storage and read back are the same markers: the
/// same ids with the same values, and the other entries kept (each key
/// once, no id) as the same map.
pub proof fn lemma_seen_round_trip(
    seen: Map<u64, String>,
    other: Seq<(Seq<char>, Seq<char>)>,
    text: Seq<char>,
    back: StoredSeen,
)
    requires
        seen_written(seen, other, text),
        seen_read(text, back),
    ensures
        forall|id: u64| #[trigger] back.ids@.contains_key(id) == seen.contains_key(id),
        forall|id: u64| #[trigger] back.ids@.contains_key(id) ==> back.ids@[id]@ == seen[id]@,
        members_map(pair_views(back.other@)) == members_map(kept_others(other)),
{
    let ids = choose|ids: Seq<u64>|
        #![trigger seen_members(seen, ids)]
        increasing(ids) && (forall|id: u64| #[trigger] ids.contains(id) == seen.contains_key(id))
            && object_of_members(text, seen_members(seen, ids) + kept_others(other));
    let ms = seen_members(seen, ids);
    let kept = kept_others(other);
    let all = ms + kept;
    lemma_written_keys_distinct(seen, ids, other);
    lemma_kept_others(other);
    let order = choose|order: Seq<(Seq<char>, Seq<char>)>|
        #![trigger json_object_text(order)]
        reordering_of(order, all) && text == json_object_text(order);
    lemma_members_map_reordered(order, all);
    lemma_members_map(all);
    let stored = members_map(all);
    assert(stored_matches(back, members_map(order)));
    assert(seen_matches(back.ids@, stored));
    assert forall|id: u64| #[trigger] back.ids@.contains_key(id) == seen.contains_key(id) by {
        if seen.contains_key(id) {
            assert(ids.contains(id));
            let i = choose|i: int| 0 <= i < ids.len() && ids[i] == id;
            assert(all[i] == ms[i]);
            assert(stored.contains_key(all[i].0));
        }
        if stored.contains_key(decimal(id as nat)) {
            let i = choose|i: int| 0 <= i < all.len() && all[i].0 == decimal(id as nat);
            if i < ms.len() {
                lemma_decimal_injective(ids[i] as nat, id as nat);
                assert(ids.contains(id));
            } else {
                assert(all[i] == kept[i - ms.len()]);
                assert(kept.contains(kept[i - ms.len()]));
            }
        }
    }
    assert forall|id: u64| #[trigger] back.ids@.contains_key(id) implies back.ids@[id]@
        == seen[id]@ by {
        assert(ids.contains(id));
        let i = choose|i: int| 0 <= i < ids.len() && ids[i] == id;
        assert(all[i] == ms[i]);
        assert(stored.contains_key(all[i].0));
    }
    let bo = pair_views(back.other@);
    assert(others_match(bo, stored));
    assert forall|x: (Seq<char>, Seq<char>)| #[trigger] bo.contains(x) == kept.contains(x) by {
        if bo.contains(x) {
            let i = choose|i: int| 0 <= i < bo.len() && bo[i] == x;
            assert(not_id(bo[i].0) && stored.contains_key(bo[i].0));
            let j = choose|j: int| 0 <= j < all.len() && all[j].0 == bo[i].0;
            assert(stored.contains_key(all[j].0));
            if j < ms.len() {
                assert(all[j].0 == decimal(ids[j] as nat));
            }
            assert(all[j] == kept[j - ms.len()]);
            assert(kept.contains(kept[j - ms.len()]));
        }
        if kept.contains(x) {
            let q = choose|q: int| 0 <= q < kept.len() && kept[q] == x;
            assert(all[q + ms.len()] == x);
            assert(stored.contains_key(all[q + ms.len()].0));
            assert(has_key(bo, x.0));
            let i = choose|i: int| 0 <= i < bo.len() && #[trigger] bo[i].0 == x.0;
            assert(stored.contains_key(bo[i].0));
            assert(bo[i] == x);
        }
    }
    lemma_members_map_reordered(bo, kept);
}

} // verus!
