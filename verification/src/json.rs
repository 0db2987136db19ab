//! The uses of `serde_json` on plain text: reading one string member of a
//! JSON object, reading an object of strings, and writing a string as a JSON
//! string literal.

use vstd::prelude::*;
use crate::text::hex_digit;
use crate::uri::pair_views;

verus! {

/// The string held by member `key` of the JSON object that `text` holds, as
/// `serde_json` reads it: `None` when `text` is no JSON, is no object, has
/// no such member, or the member is not a string.
pub uninterp spec fn json_str_member(text: Seq<char>, key: Seq<char>) -> Option<Seq<char>>;

/// `serde_json::from_str::<serde_json::Value>`, then `Value::get` and
/// `Value::as_str`. The contract claims only that the result is the named
/// function of `text` and `key`; what `serde_json` accepts as JSON is not
/// written out.
#[verifier::external_body]
pub(crate) fn json_member_str(text: &str, key: &str) -> (r: Option<String>)
    ensures
        match json_str_member(text@, key@) {
            Some(m) => r matches Some(s) && s@ == m,
            None => r is None,
        },
{
    match serde_json::from_str::<serde_json::Value>(text) {
        Ok(value) => match value.get(key) {
            Some(member) => match member.as_str() {
                Some(s) => Some(s.to_string()),
                None => None,
            },
            None => None,
        },
        Err(_) => None,
    }
}

/// How `serde_json` writes one char inside a string literal: `"` and `\`
/// after a backslash; backspace, tab, line feed, form feed and carriage
/// return as `\b \t \n \f \r`; any other char below U+0020 as `\u00XX` in
/// lowercase hex; every other char as it is.
pub open spec fn json_escaped(c: char) -> Seq<char> {
    let u = c as u32;
    if c == '"' {
        seq!['\\', '"']
    } else if c == '\\' {
        seq!['\\', '\\']
    } else if u == 0x08 {
        seq!['\\', 'b']
    } else if u == 0x09 {
        seq!['\\', 't']
    } else if u == 0x0A {
        seq!['\\', 'n']
    } else if u == 0x0C {
        seq!['\\', 'f']
    } else if u == 0x0D {
        seq!['\\', 'r']
    } else if u < 0x20 {
        seq!['\\', 'u', '0', '0', hex_digit(u as int / 16), hex_digit(u as int % 16)]
    } else {
        seq![c]
    }
}

/// Each char of `s` escaped in turn.
pub open spec fn json_escaped_text(s: Seq<char>) -> Seq<char>
    decreases s.len(),
{
    if s.len() == 0 {
        seq![]
    } else {
        json_escaped_text(s.drop_last()) + json_escaped(s.last())
    }
}

/// The JSON string literal that `serde_json` writes for `text`.
pub open spec fn json_quoted(text: Seq<char>) -> Seq<char> {
    seq!['"'] + json_escaped_text(text) + seq!['"']
}

/// `serde_json::to_string` on a `str`. The contract claims the literal
/// written as `json_quoted` states it, and that the call succeeds: it writes
/// into a `Vec`, and the only errors of a string's serialisation are those
/// of the writer.
#[verifier::external_body]
pub(crate) fn json_string(text: &str) -> (r: Result<String, String>)
    ensures
        r is Ok,
        r matches Ok(s) ==> s@ == json_quoted(text@),
{
    match serde_json::to_string(text) {
        Ok(s) => Ok(s),
        Err(e) => Err(e.to_string()),
    }
}

/// The members of a JSON object `{"k":"v",...}` as `serde_json` writes it
/// for string keys and values, in the order of `members`.
pub open spec fn json_object_text(members: Seq<(Seq<char>, Seq<char>)>) -> Seq<char> {
    seq!['{'] + json_members_text(members) + seq!['}']
}

/// The members joined by commas, each `"key":"value"`.
pub open spec fn json_members_text(members: Seq<(Seq<char>, Seq<char>)>) -> Seq<char>
    decreases members.len(),
{
    if members.len() == 0 {
        seq![]
    } else if members.len() == 1 {
        json_quoted(members[0].0) + seq![':'] + json_quoted(members[0].1)
    } else {
        json_members_text(members.drop_last()) + seq![','] + json_quoted(members.last().0) + seq![
            ':',
        ] + json_quoted(members.last().1)
    }
}

/// No key occurs twice among `members`.
pub open spec fn keys_distinct(members: Seq<(Seq<char>, Seq<char>)>) -> bool {
    forall|i: int, j: int|
        0 <= i < j < members.len() ==> #[trigger] members[i].0 != #[trigger] members[j].0
}

/// The map that `members` make, a later member winning over an earlier one
/// with the same key.
pub open spec fn members_map(members: Seq<(Seq<char>, Seq<char>)>) -> Map<Seq<char>, Seq<char>>
    decreases members.len(),
{
    if members.len() == 0 {
        Map::empty()
    } else {
        members_map(members.drop_last()).insert(members.last().0, members.last().1)
    }
}

/// The map of strings to strings that `serde_json` reads from `text`, as a
/// `HashMap<String, String>`: `None` when `text` is no JSON object whose
/// members are all strings.
pub uninterp spec fn json_string_map(text: Seq<char>) -> Option<Map<Seq<char>, Seq<char>>>;

/// `serde_json::from_str::<HashMap<String, String>>`, its entries handed out
/// as pairs (in the map's order, of which nothing is claimed). The contract
/// claims the named map, keys once each; and that an object written as
/// `json_object_text` with distinct keys reads back as the map of its
/// members, as serde_json's reader undoes the escapes its writer makes.
#[verifier::external_body]
pub(crate) fn json_string_pairs(text: &str) -> (r: Option<Vec<(String, String)>>)
    ensures
        r is Some == json_string_map(text@) is Some,
        r matches Some(v) ==> keys_distinct(pair_views(v@)),
        r matches Some(v) ==> json_string_map(text@) == Some(members_map(pair_views(v@))),
        forall|members: Seq<(Seq<char>, Seq<char>)>|
            text@ == json_object_text(members) && keys_distinct(members) ==> r is Some,
        forall|members: Seq<(Seq<char>, Seq<char>)>|
            text@ == json_object_text(members) && keys_distinct(members) ==> (r matches Some(v)
                ==> members_map(pair_views(v@)) == members_map(members)),
{
    match serde_json::from_str::<std::collections::HashMap<String, String>>(text) {
        Ok(map) => Some(map.into_iter().collect()),
        Err(_) => None,
    }
}

/// `order` holds the members of `members`, each once, in some order.
pub open spec fn reordering_of(
    order: Seq<(Seq<char>, Seq<char>)>,
    members: Seq<(Seq<char>, Seq<char>)>,
) -> bool {
    &&& keys_distinct(order)
    &&& order.len() == members.len()
    &&& forall|x: (Seq<char>, Seq<char>)| #[trigger] order.contains(x) == members.contains(x)
}

/// `text` is the JSON object of `members`, written in some order.
pub open spec fn object_of_members(text: Seq<char>, members: Seq<(Seq<char>, Seq<char>)>) -> bool {
    exists|order: Seq<(Seq<char>, Seq<char>)>|
        #![trigger json_object_text(order)]
        reordering_of(order, members) && text == json_object_text(order)
}

/// `serde_json::to_string` on a `HashMap<&str, &str>` of the members (whose
/// keys are distinct, so each member is one entry). The contract claims the
/// object `json_object_text` states, its members in the map's order, of
/// which nothing is claimed: that order depends on the hasher's seed. The
/// call does not fail: it writes into a `Vec`, and string keys and values
/// give no error.
#[verifier::external_body]
pub(crate) fn json_object_string(members: &Vec<(String, String)>) -> (r: String)
    requires
        keys_distinct(pair_views(members@)),
    ensures
        object_of_members(r@, pair_views(members@)),
{
    let map: std::collections::HashMap<&str, &str> =
        members.iter().map(|(k, v)| (k.as_str(), v.as_str())).collect();
    serde_json::to_string(&map).unwrap_or_default()
}

/// Two orders of the same members, keys once each, make the same map.
pub proof fn lemma_members_map_reordered(
    a: Seq<(Seq<char>, Seq<char>)>,
    b: Seq<(Seq<char>, Seq<char>)>,
)
    requires
        keys_distinct(a),
        keys_distinct(b),
        forall|x: (Seq<char>, Seq<char>)| #[trigger] a.contains(x) == b.contains(x),
    ensures
        members_map(a) == members_map(b),
{
    lemma_members_map(a);
    lemma_members_map(b);
    let ma = members_map(a);
    let mb = members_map(b);
    assert forall|k: Seq<char>| #[trigger] ma.contains_key(k) implies mb.contains_key(k) && mb[k]
        == ma[k] by {
        let i = choose|i: int| 0 <= i < a.len() && a[i].0 == k;
        assert(ma.contains_key(a[i].0));
        assert(a.contains(a[i]));
        let j = choose|j: int| 0 <= j < b.len() && b[j] == a[i];
        assert(mb.contains_key(b[j].0));
    }
    assert forall|k: Seq<char>| #[trigger] mb.contains_key(k) implies ma.contains_key(k) by {
        let j = choose|j: int| 0 <= j < b.len() && b[j].0 == k;
        assert(b.contains(b[j]));
        assert(a.contains(b[j]));
        let i = choose|i: int| 0 <= i < a.len() && a[i] == b[j];
        assert(ma.contains_key(a[i].0));
    }
    assert(ma =~= mb);
}

/// With distinct keys, the map of `members` holds each member's value under
/// its key, and no other key.
pub proof fn lemma_members_map(members: Seq<(Seq<char>, Seq<char>)>)
    requires
        keys_distinct(members),
    ensures
        forall|i: int|
            0 <= i < members.len() ==> #[trigger] members_map(members).contains_key(members[i].0)
                && members_map(members)[members[i].0] == members[i].1,
        forall|k: Seq<char>|
            #[trigger] members_map(members).contains_key(k) ==> exists|i: int|
                0 <= i < members.len() && members[i].0 == k,
    decreases members.len(),
{
    if members.len() > 0 {
        let init = members.drop_last();
        assert(keys_distinct(init)) by {
            assert forall|i: int, j: int| 0 <= i < j < init.len() implies #[trigger] init[i].0
                != #[trigger] init[j].0 by {
                assert(init[i] == members[i] && init[j] == members[j]);
            }
        }
        lemma_members_map(init);
        let last = members.len() - 1;
        assert(members_map(members) == members_map(init).insert(members[last].0, members[last].1));
        assert forall|i: int| 0 <= i < members.len() implies #[trigger] members_map(
            members,
        ).contains_key(members[i].0) && members_map(members)[members[i].0] == members[i].1 by {
            if i < last {
                assert(init[i] == members[i]);
                assert(members[i].0 != members[last].0);
            }
        }
        assert forall|k: Seq<char>| #[trigger] members_map(members).contains_key(k) implies exists|
            i: int,
        | 0 <= i < members.len() && members[i].0 == k by {
            if k != members[last].0 {
                assert(members_map(init).contains_key(k));
                let i = choose|i: int| 0 <= i < init.len() && init[i].0 == k;
                assert(members[i] == init[i]);
            }
        }
    }
}

} // verus!
