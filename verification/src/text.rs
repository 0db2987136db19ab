//! Text building blocks: char access, decimal and hex digits, trimming,
//! truncation, line splitting and ordering of strings.

use vstd::prelude::*;
use vstd::string::StringExecFns;
use vstd::utf8::{encode_scalar, encode_utf8};

verus! {

broadcast use vstd::string::group_string_axioms;

/// `String::push` from std: appends one char at the end.
#[verifier::external_body]
pub(crate) fn push_char(s: &mut String, c: char)
    ensures
        final(s)@ == old(s)@.push(c),
{
    s.push(c)
}

/// `str::to_lowercase` from std: the lowercase mapping of each char, by
/// Unicode's rules.
pub uninterp spec fn unicode_lowercase(s: Seq<char>) -> Seq<char>;

/// `str::to_lowercase` from std. Its result is a function of its argument
/// alone; it is named here, not written out.
#[verifier::external_body]
pub(crate) fn to_lowercase(s: &str) -> (r: String)
    ensures
        r@ == unicode_lowercase(s@),
{
    s.to_lowercase()
}

/// The chars of a string slice, in order.
pub fn to_chars(s: &str) -> (v: Vec<char>)
    ensures
        v@ == s@,
{
    let mut v: Vec<char> = Vec::new();
    for c in it: s.chars()
        invariant
            v@ == it.seq().take(it.index() as int),
    {
        v.push(c);
    }
    v
}

/// A new string holding `s`.
pub fn owned(s: &str) -> (r: String)
    ensures
        r@ == s@,
{
    String::from_str(s)
}

/// `a` followed by `b`.
pub fn join2(a: &str, b: &str) -> (r: String)
    ensures
        r@ == a@ + b@,
{
    let mut r = String::from_str(a);
    r.append(b);
    r
}

/// `a`, `b` and `c` one after the other.
pub fn join3(a: &str, b: &str, c: &str) -> (r: String)
    ensures
        r@ == a@ + b@ + c@,
{
    let mut r = String::from_str(a);
    r.append(b);
    r.append(c);
    r
}

/// Appends the chars `v[lo..hi]` to `s`.
pub fn push_range(s: &mut String, v: &Vec<char>, lo: usize, hi: usize)
    requires
        lo <= hi <= v.len(),
    ensures
        final(s)@ == old(s)@ + v@.subrange(lo as int, hi as int),
{
    let mut i: usize = lo;
    while i < hi
        invariant
            lo <= i <= hi <= v.len(),
            s@ == old(s)@ + v@.subrange(lo as int, i as int),
        decreases hi - i,
    {
        push_char(s, v[i]);
        assert(v@.subrange(lo as int, i + 1) =~= v@.subrange(lo as int, i as int).push(v@[i as int]));
        i = i + 1;
    }
}

/// A string made of the chars `v[lo..hi]`.
pub fn string_of_range(v: &Vec<char>, lo: usize, hi: usize) -> (r: String)
    requires
        lo <= hi <= v.len(),
    ensures
        r@ == v@.subrange(lo as int, hi as int),
{
    let mut r = String::new();
    push_range(&mut r, v, lo, hi);
    r
}

// ---------------------------------------------------------------- digits

/// The lowercase hexadecimal digit for `d` (0..16); the decimal digits are
/// its first ten.
pub open spec fn hex_digit(d: int) -> char {
    if d == 0 { '0' } else if d == 1 { '1' } else if d == 2 { '2' } else if d == 3 { '3' }
    else if d == 4 { '4' } else if d == 5 { '5' } else if d == 6 { '6' } else if d == 7 { '7' }
    else if d == 8 { '8' } else if d == 9 { '9' } else if d == 10 { 'a' } else if d == 11 { 'b' }
    else if d == 12 { 'c' } else if d == 13 { 'd' } else if d == 14 { 'e' } else { 'f' }
}

/// The uppercase hexadecimal digit for `d` (0..16).
pub open spec fn hex_digit_upper(d: int) -> char {
    if d < 10 { hex_digit(d) } else if d == 10 { 'A' } else if d == 11 { 'B' }
    else if d == 12 { 'C' } else if d == 13 { 'D' } else if d == 14 { 'E' } else { 'F' }
}

pub fn hex_digit_char(d: u8) -> (c: char)
    requires
        d < 16,
    ensures
        c == hex_digit(d as int),
{
    match d {
        0 => '0', 1 => '1', 2 => '2', 3 => '3', 4 => '4', 5 => '5', 6 => '6', 7 => '7',
        8 => '8', 9 => '9', 10 => 'a', 11 => 'b', 12 => 'c', 13 => 'd', 14 => 'e', _ => 'f',
    }
}

pub fn hex_digit_upper_char(d: u8) -> (c: char)
    requires
        d < 16,
    ensures
        c == hex_digit_upper(d as int),
{
    match d {
        10 => 'A', 11 => 'B', 12 => 'C', 13 => 'D', 14 => 'E', 15 => 'F',
        _ => hex_digit_char(d),
    }
}

/// The decimal representation of `n`, without sign or leading zeros.
pub open spec fn decimal(n: nat) -> Seq<char>
    decreases n,
{
    if n < 10 {
        seq![hex_digit(n as int)]
    } else {
        decimal(n / 10).push(hex_digit((n % 10) as int))
    }
}

/// Appends the decimal representation of `n`.
pub fn push_decimal(s: &mut String, n: u64)
    ensures
        final(s)@ == old(s)@ + decimal(n as nat),
    decreases n,
{
    if n >= 10 {
        push_decimal(s, n / 10);
    }
    let d: u64 = n % 10;
    push_char(s, hex_digit_char(d as u8));
}

/// The decimal representation of `n` as a string.
pub fn decimal_string(n: u64) -> (r: String)
    ensures
        r@ == decimal(n as nat),
{
    let mut r = String::new();
    push_decimal(&mut r, n);
    r
}

/// Two lowercase hex digits for a byte, high nibble first.
pub open spec fn hex_byte(b: u8) -> Seq<char> {
    seq![hex_digit(b as int / 16), hex_digit(b as int % 16)]
}

/// The lowercase hex encoding of a byte string, two digits per byte.
pub open spec fn hex_bytes(bytes: Seq<u8>) -> Seq<char>
    decreases bytes.len(),
{
    if bytes.len() == 0 {
        seq![]
    } else {
        hex_bytes(bytes.drop_last()) + hex_byte(bytes.last())
    }
}

/// Lowercase hex, two digits per byte (as `{:02x}` prints each byte).
pub fn hex_string(bytes: &[u8]) -> (r: String)
    ensures
        r@ == hex_bytes(bytes@),
{
    let mut r = String::new();
    let mut i: usize = 0;
    while i < bytes.len()
        invariant
            i <= bytes.len(),
            r@ == hex_bytes(bytes@.take(i as int)),
        decreases bytes.len() - i,
    {
        let b: u8 = bytes[i];
        push_char(&mut r, hex_digit_char(b / 16));
        push_char(&mut r, hex_digit_char(b % 16));
        assert(bytes@.take(i + 1).drop_last() =~= bytes@.take(i as int));
        assert(r@ =~= hex_bytes(bytes@.take(i + 1)));
        i = i + 1;
    }
    assert(bytes@.take(bytes.len() as int) =~= bytes@);
    r
}

// ------------------------------------------------------------ whitespace

/// Unicode's White_Space property, which `char::is_whitespace` tests.
pub open spec fn is_white(c: char) -> bool {
    let u = c as u32;
    ||| 0x09 <= u <= 0x0D
    ||| u == 0x20
    ||| u == 0x85
    ||| u == 0xA0
    ||| u == 0x1680
    ||| 0x2000 <= u <= 0x200A
    ||| u == 0x2028
    ||| u == 0x2029
    ||| u == 0x202F
    ||| u == 0x205F
    ||| u == 0x3000
}

pub fn is_white_char(c: char) -> (b: bool)
    ensures
        b == is_white(c),
{
    let u: u32 = c as u32;
    (0x09 <= u && u <= 0x0D) || u == 0x20 || u == 0x85 || u == 0xA0 || u == 0x1680 || (0x2000 <= u
        && u <= 0x200A) || u == 0x2028 || u == 0x2029 || u == 0x202F || u == 0x205F || u == 0x3000
}

/// `s` without its leading whitespace.
pub open spec fn trim_start(s: Seq<char>) -> Seq<char>
    decreases s.len(),
{
    if s.len() > 0 && is_white(s[0]) {
        trim_start(s.drop_first())
    } else {
        s
    }
}

/// `s` without its trailing whitespace.
pub open spec fn trim_end(s: Seq<char>) -> Seq<char>
    decreases s.len(),
{
    if s.len() > 0 && is_white(s.last()) {
        trim_end(s.drop_last())
    } else {
        s
    }
}

/// `s` without leading and trailing whitespace (what `str::trim` gives).
pub open spec fn trim(s: Seq<char>) -> Seq<char> {
    trim_end(trim_start(s))
}

proof fn lemma_trim_start_skip(s: Seq<char>, i: int)
    requires
        0 <= i <= s.len(),
        forall|j: int| 0 <= j < i ==> #[trigger] is_white(s[j]),
    ensures
        trim_start(s) == trim_start(s.skip(i)),
    decreases i,
{
    if i > 0 {
        assert(is_white(s[0]));
        assert(s.drop_first().skip(i - 1) =~= s.skip(i));
        assert forall|j: int| 0 <= j < i - 1 implies #[trigger] is_white(s.drop_first()[j]) by {
            assert(s.drop_first()[j] == s[j + 1]);
        }
        lemma_trim_start_skip(s.drop_first(), i - 1);
    } else {
        assert(s.skip(0) =~= s);
    }
}

proof fn lemma_trim_end_take(s: Seq<char>, i: int)
    requires
        0 <= i <= s.len(),
        forall|j: int| i <= j < s.len() ==> #[trigger] is_white(s[j]),
    ensures
        trim_end(s) == trim_end(s.take(i)),
    decreases s.len() - i,
{
    if i < s.len() {
        assert(is_white(s[s.len() - 1]));
        assert(s.drop_last().take(i) =~= s.take(i));
        assert forall|j: int| i <= j < s.drop_last().len() implies #[trigger] is_white(
            s.drop_last()[j],
        ) by {
            assert(s.drop_last()[j] == s[j]);
        }
        lemma_trim_end_take(s.drop_last(), i);
    } else {
        assert(s.take(i) =~= s);
    }
}

/// `s` without leading and trailing whitespace.
pub fn trim_string(s: &str) -> (r: String)
    ensures
        r@ == trim(s@),
{
    let v = to_chars(s);
    let n: usize = v.len();
    let mut lo: usize = 0;
    while lo < n && is_white_char(v[lo])
        invariant
            lo <= n == v.len(),
            v@ == s@,
            forall|j: int| 0 <= j < lo ==> #[trigger] is_white(v@[j]),
        decreases n - lo,
    {
        lo = lo + 1;
    }
    let mut hi: usize = n;
    while hi > lo && is_white_char(v[hi - 1])
        invariant
            lo <= hi <= n == v.len(),
            v@ == s@,
            forall|j: int| hi <= j < n ==> #[trigger] is_white(v@[j]),
        decreases hi,
    {
        hi = hi - 1;
    }
    proof {
        let sv = s@;
        lemma_trim_start_skip(sv, lo as int);
        let rest = sv.skip(lo as int);
        assert(trim_start(rest) == rest) by {
            if rest.len() > 0 {
                assert(rest[0] == sv[lo as int]);
            }
        }
        assert forall|j: int| hi - lo <= j < rest.len() implies #[trigger] is_white(rest[j]) by {
            assert(rest[j] == sv[j + lo]);
        }
        lemma_trim_end_take(rest, hi - lo);
        let mid = rest.take(hi - lo);
        assert(mid =~= sv.subrange(lo as int, hi as int));
        assert(trim_end(mid) == mid) by {
            if mid.len() > 0 {
                assert(mid.last() == sv[hi - 1]);
            }
        }
    }
    string_of_range(&v, lo, hi)
}

// ------------------------------------------------------------ truncation

/// At most `max` chars: a longer `s` keeps its first `max - 1` chars and
/// ends in an ellipsis (`max` of 0 keeps no chars).
pub open spec fn truncated(s: Seq<char>, max: nat) -> Seq<char> {
    if s.len() <= max {
        s
    } else {
        s.take(if max == 0 { 0 } else { max - 1 }).push('…')
    }
}

/// Shortens `text` to `max_chars` chars, marking a cut with an ellipsis.
pub fn truncate(text: &str, max_chars: usize) -> (r: String)
    ensures
        r@ == truncated(text@, max_chars as nat),
{
    let v = to_chars(text);
    if v.len() <= max_chars {
        return owned(text);
    }
    let keep: usize = if max_chars == 0 { 0 } else { max_chars - 1 };
    let mut r = string_of_range(&v, 0, keep);
    push_char(&mut r, '…');
    r
}

// ------------------------------------------------------------ lines

/// A line without the carriage return that ends it, if any.
pub open spec fn strip_cr(l: Seq<char>) -> Seq<char> {
    if l.len() > 0 && l.last() == '\r' {
        l.drop_last()
    } else {
        l
    }
}

/// The finished lines and the unfinished tail after reading `s`.
pub open spec fn line_scan(s: Seq<char>) -> (Seq<Seq<char>>, Seq<char>)
    decreases s.len(),
{
    if s.len() == 0 {
        (seq![], seq![])
    } else {
        let (done, cur) = line_scan(s.drop_last());
        if s.last() == '\n' {
            (done.push(strip_cr(cur)), seq![])
        } else {
            (done, cur.push(s.last()))
        }
    }
}

/// The lines of `s` as `str::lines` yields them: split at `\n`, a `\r`
/// before the `\n` dropped, no empty line after a final `\n`.
pub open spec fn lines(s: Seq<char>) -> Seq<Seq<char>> {
    let (done, cur) = line_scan(s);
    if cur.len() > 0 {
        done.push(cur)
    } else {
        done
    }
}

/// The views of a vector of strings.
pub open spec fn views(v: Seq<String>) -> Seq<Seq<char>> {
    v.map_values(|x: String| x@)
}

/// The lines of `text`.
pub fn lines_of(text: &str) -> (r: Vec<String>)
    ensures
        views(r@) == lines(text@),
{
    let v = to_chars(text);
    let n: usize = v.len();
    let mut done: Vec<String> = Vec::new();
    let mut lo: usize = 0;
    let mut i: usize = 0;
    while i < n
        invariant
            lo <= i <= n == v.len(),
            v@ == text@,
            line_scan(v@.take(i as int)) == (views(done@), v@.subrange(lo as int, i as int)),
        decreases n - i,
    {
        let ghost before = v@.take(i as int);
        assert(v@.take(i + 1).drop_last() =~= before);
        if v[i] == '\n' {
            let hi: usize = if i > lo && v[i - 1] == '\r' { i - 1 } else { i };
            let line = string_of_range(&v, lo, hi);
            proof {
                let cur = v@.subrange(lo as int, i as int);
                assert(strip_cr(cur) =~= v@.subrange(lo as int, hi as int));
            }
            done.push(line);
            assert(views(done@) =~= views(done@.drop_last()).push(done@.last()@));
            lo = i + 1;
        } else {
            assert(v@.subrange(lo as int, i + 1) =~= v@.subrange(lo as int, i as int).push(v@[i as int]));
        }
        i = i + 1;
    }
    assert(v@.take(n as int) =~= v@);
    if lo < n {
        let tail = string_of_range(&v, lo, n);
        done.push(tail);
        assert(views(done@) =~= views(done@.drop_last()).push(done@.last()@));
    }
    done
}

// ------------------------------------------------------------ ordering

/// `a` sorts strictly before `b`, char by char (the order of `<` on
/// `str`, since UTF-8 keeps the order of code points).
pub open spec fn str_less(a: Seq<char>, b: Seq<char>) -> bool
    decreases a.len(),
{
    if b.len() == 0 {
        false
    } else if a.len() == 0 {
        true
    } else if a[0] != b[0] {
        (a[0] as u32) < (b[0] as u32)
    } else {
        str_less(a.drop_first(), b.drop_first())
    }
}

proof fn lemma_str_less_skip(a: Seq<char>, b: Seq<char>, i: int)
    requires
        0 <= i <= a.len(),
        i <= b.len(),
        forall|j: int| 0 <= j < i ==> a[j] == b[j],
    ensures
        str_less(a, b) == str_less(a.skip(i), b.skip(i)),
    decreases i,
{
    if i > 0 {
        assert(a[0] == b[0]);
        assert(a.drop_first().skip(i - 1) =~= a.skip(i));
        assert(b.drop_first().skip(i - 1) =~= b.skip(i));
        assert forall|j: int| 0 <= j < i - 1 implies a.drop_first()[j] == b.drop_first()[j] by {
            assert(a[j + 1] == b[j + 1]);
        }
        lemma_str_less_skip(a.drop_first(), b.drop_first(), i - 1);
    } else {
        assert(a.skip(0) =~= a);
        assert(b.skip(0) =~= b);
    }
}

/// Whether `a` sorts strictly before `b`.
pub fn less_than(a: &str, b: &str) -> (r: bool)
    ensures
        r == str_less(a@, b@),
{
    let va = to_chars(a);
    let vb = to_chars(b);
    let mut i: usize = 0;
    while i < va.len() && i < vb.len() && va[i] == vb[i]
        invariant
            i <= va.len(),
            i <= vb.len(),
            va@ == a@,
            vb@ == b@,
            forall|j: int| 0 <= j < i ==> va@[j] == vb@[j],
        decreases va.len() - i,
    {
        i = i + 1;
    }
    proof {
        lemma_str_less_skip(a@, b@, i as int);
    }
    if i == vb.len() {
        false
    } else if i == va.len() {
        true
    } else {
        proof {
            assert(a@.skip(i as int)[0] == a@[i as int]);
            assert(b@.skip(i as int)[0] == b@[i as int]);
        }
        (va[i] as u32) < (vb[i] as u32)
    }
}

// ------------------------------------------------------------ searching

/// `p` is a prefix of `s`.
pub open spec fn has_prefix(s: Seq<char>, p: Seq<char>) -> bool {
    p.len() <= s.len() && s.take(p.len() as int) == p
}

/// `s` with its prefix `p` removed, or `s` itself when `p` is no prefix of it.
pub open spec fn without_prefix(s: Seq<char>, p: Seq<char>) -> Seq<char> {
    if has_prefix(s, p) {
        s.skip(p.len() as int)
    } else {
        s
    }
}

/// Whether `p` is a prefix of `s`.
pub fn starts_with(s: &str, p: &str) -> (r: bool)
    ensures
        r == has_prefix(s@, p@),
{
    let vs = to_chars(s);
    let vp = to_chars(p);
    if vp.len() > vs.len() {
        return false;
    }
    let mut i: usize = 0;
    while i < vp.len()
        invariant
            i <= vp.len() <= vs.len(),
            vs@ == s@,
            vp@ == p@,
            forall|j: int| 0 <= j < i ==> vs@[j] == vp@[j],
        decreases vp.len() - i,
    {
        if vs[i] != vp[i] {
            assert(s@.take(p@.len() as int)[i as int] != p@[i as int]);
            return false;
        }
        i = i + 1;
    }
    assert(s@.take(p@.len() as int) =~= p@);
    true
}

/// `s` with the prefix `p` removed, or all of `s` when it does not start so.
pub fn strip_prefix_or_all(s: &str, p: &str) -> (r: String)
    ensures
        r@ == without_prefix(s@, p@),
{
    if starts_with(s, p) {
        let vs = to_chars(s);
        let k: usize = p.unicode_len();
        assert(s@.subrange(p@.len() as int, s@.len() as int) =~= s@.skip(p@.len() as int));
        string_of_range(&vs, k, vs.len())
    } else {
        owned(s)
    }
}

/// The parts of `s` before and after the first `c`, if `c` occurs.
pub open spec fn split_once(s: Seq<char>, c: char) -> Option<(Seq<char>, Seq<char>)>
    decreases s.len(),
{
    if s.len() == 0 {
        None
    } else if s[0] == c {
        Some((Seq::<char>::empty(), s.drop_first()))
    } else {
        match split_once(s.drop_first(), c) {
            Some(parts) => Some((seq![s[0]] + parts.0, parts.1)),
            None => None,
        }
    }
}

proof fn lemma_split_once_at(s: Seq<char>, c: char, k: int)
    requires
        0 <= k <= s.len(),
        forall|j: int| 0 <= j < k ==> s[j] != c,
    ensures
        k < s.len() && s[k] == c ==> split_once(s, c) == Some((s.take(k), s.skip(k + 1))),
        k == s.len() ==> split_once(s, c) is None,
    decreases k,
{
    if k > 0 {
        assert forall|j: int| 0 <= j < k - 1 implies s.drop_first()[j] != c by {
            assert(s.drop_first()[j] == s[j + 1]);
        }
        lemma_split_once_at(s.drop_first(), c, k - 1);
        assert(s[0] != c);
        if k < s.len() && s[k] == c {
            assert(s.drop_first()[k - 1] == s[k]);
            assert(seq![s[0]] + s.drop_first().take(k - 1) =~= s.take(k));
            assert(s.drop_first().skip(k) =~= s.skip(k + 1));
        }
    } else {
        if s.len() > 0 && s[0] == c {
            assert(s.take(0) =~= Seq::<char>::empty());
            assert(s.drop_first() =~= s.skip(1));
        }
    }
}

/// The text after the first `c` in `s`, if `c` occurs.
pub fn after_first(s: &str, c: char) -> (r: Option<String>)
    ensures
        match split_once(s@, c) {
            Some(parts) => r matches Some(t) && t@ == parts.1,
            None => r is None,
        },
{
    let v = to_chars(s);
    let mut k: usize = 0;
    while k < v.len() && v[k] != c
        invariant
            k <= v.len(),
            v@ == s@,
            forall|j: int| 0 <= j < k ==> v@[j] != c,
        decreases v.len() - k,
    {
        k = k + 1;
    }
    proof {
        lemma_split_once_at(s@, c, k as int);
    }
    if k < v.len() {
        assert(v@.subrange(k + 1, v.len() as int) =~= s@.skip(k + 1));
        Some(string_of_range(&v, k + 1, v.len()))
    } else {
        None
    }
}

/// `p` occurs in `s` at position `i`.
pub open spec fn occurs_at(s: Seq<char>, p: Seq<char>, i: int) -> bool {
    0 <= i && i + p.len() <= s.len() && s.subrange(i, i + p.len()) == p
}

/// `p` occurs somewhere in `s`.
pub open spec fn contains_text(s: Seq<char>, p: Seq<char>) -> bool {
    exists|i: int| occurs_at(s, p, i)
}

/// Whether `p` occurs in `s`.
pub fn contains(s: &str, p: &str) -> (r: bool)
    ensures
        r == contains_text(s@, p@),
{
    let vs = to_chars(s);
    let vp = to_chars(p);
    if vp.len() > vs.len() {
        assert forall|i: int| !occurs_at(s@, p@, i) by {}
        return false;
    }
    let last: usize = vs.len() - vp.len();
    let mut i: usize = 0;
    while i <= last
        invariant
            vs@ == s@,
            vp@ == p@,
            last + vp.len() == vs.len(),
            forall|k: int| 0 <= k < i ==> !occurs_at(s@, p@, k),
        decreases last + 1 - i,
    {
        let mut j: usize = 0;
        while j < vp.len() && vs[i + j] == vp[j]
            invariant
                i <= last,
                j <= vp.len(),
                vs@ == s@,
                vp@ == p@,
                last + vp.len() == vs.len(),
                forall|m: int| 0 <= m < j ==> vs@[i + m] == vp@[m],
            decreases vp.len() - j,
        {
            j = j + 1;
        }
        if j == vp.len() {
            assert(s@.subrange(i as int, i + p@.len()) =~= p@);
            assert(occurs_at(s@, p@, i as int));
            return true;
        }
        assert(s@.subrange(i as int, i + p@.len())[j as int] != p@[j as int]);
        i = i + 1;
    }
    assert forall|k: int| !occurs_at(s@, p@, k) by {
        if 0 <= k && k + p@.len() <= s@.len() {
            assert(k < i);
        }
    }
    false
}

// ------------------------------------------------------------ equality

/// Whether `a` and `b` hold the same chars.
pub fn same_text(a: &str, b: &str) -> (r: bool)
    ensures
        r == (a@ == b@),
{
    let va = to_chars(a);
    let vb = to_chars(b);
    if va.len() != vb.len() {
        return false;
    }
    let mut i: usize = 0;
    while i < va.len()
        invariant
            i <= va.len() == vb.len(),
            va@ == a@,
            vb@ == b@,
            forall|j: int| 0 <= j < i ==> va@[j] == vb@[j],
        decreases va.len() - i,
    {
        if va[i] != vb[i] {
            return false;
        }
        i = i + 1;
    }
    assert(a@ =~= b@);
    true
}

// ------------------------------------------------------------ byte prefixes

/// The number of UTF-8 bytes of `c`.
pub open spec fn utf8_width(c: char) -> int {
    encode_scalar(c as u32).len() as int
}

/// How many leading chars of `s` take exactly `n` bytes of UTF-8; `None`
/// when byte `n` falls inside a char or past the end.
pub open spec fn chars_in_bytes(s: Seq<char>, n: int) -> Option<nat>
    decreases s.len(),
{
    if n == 0 {
        Some(0)
    } else if s.len() == 0 || n < 0 {
        None
    } else if utf8_width(s[0]) > n {
        None
    } else {
        match chars_in_bytes(s.drop_first(), n - utf8_width(s[0])) {
            Some(k) => Some(k + 1),
            None => None,
        }
    }
}

/// The leading chars of `s` that make up its first `n` bytes (meaningful
/// when `chars_in_bytes(s, n)` is `Some`).
pub open spec fn byte_prefix(s: Seq<char>, n: int) -> Seq<char> {
    match chars_in_bytes(s, n) {
        Some(k) => s.take(k as int),
        None => s,
    }
}

/// The number of UTF-8 bytes of `c`.
pub fn char_utf8_width(c: char) -> (w: usize)
    ensures
        w == utf8_width(c),
        1 <= w <= 4,
{
    proof {
        vstd::utf8::char_is_scalar(c);
    }
    let u: u32 = c as u32;
    if u <= 0x7F {
        1
    } else if u <= 0x7FF {
        2
    } else if u <= 0xFFFF {
        3
    } else {
        4
    }
}

fn chars_in_bytes_from(v: &Vec<char>, i: usize, n: usize) -> (r: Option<usize>)
    requires
        i <= v.len(),
    ensures
        match chars_in_bytes(v@.skip(i as int), n as int) {
            Some(k) => r matches Some(m) && m == i + k,
            None => r is None,
        },
        r matches Some(m) ==> i <= m <= v.len(),
    decreases v.len() - i,
{
    let ghost rest = v@.skip(i as int);
    if n == 0 {
        return Some(i);
    }
    if i == v.len() {
        return None;
    }
    let w = char_utf8_width(v[i]);
    assert(rest[0] == v@[i as int]);
    if w > n {
        return None;
    }
    assert(rest.drop_first() =~= v@.skip(i + 1));
    chars_in_bytes_from(v, i + 1, n - w)
}

/// How many leading chars of `v` take exactly `n` bytes of UTF-8.
pub fn chars_for_bytes(v: &Vec<char>, n: usize) -> (r: Option<usize>)
    ensures
        match chars_in_bytes(v@, n as int) {
            Some(k) => r matches Some(m) && m == k,
            None => r is None,
        },
        r matches Some(m) ==> m <= v.len(),
{
    assert(v@.skip(0) =~= v@);
    chars_in_bytes_from(v, 0, n)
}

// ------------------------------------------------------------ laws

proof fn lemma_chars_in_bytes_len(s: Seq<char>, n: int)
    ensures
        chars_in_bytes(s, n) matches Some(k) ==> k <= s.len(),
    decreases s.len(),
{
    if n != 0 && s.len() > 0 && n >= 0 && utf8_width(s[0]) <= n {
        lemma_chars_in_bytes_len(s.drop_first(), n - utf8_width(s[0]));
    }
}

/// Cutting at a char boundary keeps exactly the first `n` bytes: the
/// prefix found is what `&text[..n]` yields.
pub proof fn lemma_byte_prefix_bytes(s: Seq<char>, n: int)
    requires
        chars_in_bytes(s, n) is Some,
    ensures
        encode_utf8(byte_prefix(s, n)) == encode_utf8(s).take(n),
        encode_utf8(s).len() >= n,
    decreases s.len(),
{
    let k = chars_in_bytes(s, n)->Some_0;
    if n == 0 {
        assert(s.take(0) =~= Seq::<char>::empty());
        assert(encode_utf8(Seq::<char>::empty()) =~= Seq::<u8>::empty());
        assert(encode_utf8(s).take(0) =~= Seq::<u8>::empty());
    } else {
        let w = utf8_width(s[0]);
        let rest = s.drop_first();
        lemma_byte_prefix_bytes(rest, n - w);
        let kr = chars_in_bytes(rest, n - w)->Some_0;
        lemma_chars_in_bytes_len(rest, n - w);
        assert(k == kr + 1);
        let p = s.take(k as int);
        assert(p.len() > 0);
        assert(p[0] == s[0]);
        assert(p.drop_first() =~= rest.take(kr as int));
        assert(encode_utf8(p) == encode_scalar(p[0] as u32) + encode_utf8(p.drop_first()));
        assert(encode_utf8(s) == encode_scalar(s[0] as u32) + encode_utf8(rest));
        let e0 = encode_scalar(s[0] as u32);
        assert(e0.len() == w);
        assert(encode_utf8(s).len() == w + encode_utf8(rest).len());
        assert(encode_utf8(p) =~= encode_utf8(s).take(n));
    }
}

/// No string sorts before itself.
pub proof fn lemma_str_less_irreflexive(a: Seq<char>)
    ensures
        !str_less(a, a),
    decreases a.len(),
{
    if a.len() > 0 {
        lemma_str_less_irreflexive(a.drop_first());
    }
}

/// A truncated text is at most `max` chars long (for a `max` of at least
/// one), and a text that fits is kept whole.
pub proof fn lemma_truncated_fits(s: Seq<char>, max: nat)
    ensures
        max >= 1 ==> truncated(s, max).len() <= max,
        s.len() <= max ==> truncated(s, max) == s,
        s.len() > max ==> truncated(s, max).last() == '…',
{
}

/// No line holds a line feed.
pub proof fn lemma_lines_have_no_newline(s: Seq<char>)
    ensures
        forall|i: int, j: int|
            0 <= i < lines(s).len() && 0 <= j < lines(s)[i].len() ==> lines(s)[i][j] != '\n',
{
    lemma_line_scan_no_newline(s);
    let (done, cur) = line_scan(s);
    if cur.len() > 0 {
        assert forall|i: int, j: int|
            0 <= i < lines(s).len() && 0 <= j < lines(s)[i].len() implies lines(s)[i][j] != '\n' by {
            if i < done.len() {
                assert(lines(s)[i] == done[i]);
            } else {
                assert(lines(s)[i] == cur);
            }
        }
    }
}

proof fn lemma_line_scan_no_newline(s: Seq<char>)
    ensures
        forall|i: int, j: int|
            0 <= i < line_scan(s).0.len() && 0 <= j < line_scan(s).0[i].len()
                ==> line_scan(s).0[i][j] != '\n',
        forall|j: int| 0 <= j < line_scan(s).1.len() ==> line_scan(s).1[j] != '\n',
    decreases s.len(),
{
    if s.len() > 0 {
        lemma_line_scan_no_newline(s.drop_last());
        let (done, cur) = line_scan(s.drop_last());
        if s.last() == '\n' {
            let d2 = done.push(strip_cr(cur));
            assert forall|i: int, j: int| 0 <= i < d2.len() && 0 <= j < d2[i].len() implies d2[i][j]
                != '\n' by {
                if i < done.len() {
                    assert(d2[i] == done[i]);
                } else {
                    assert(d2[i] == strip_cr(cur));
                    assert(strip_cr(cur)[j] == cur[j]);
                }
            }
        } else {
            let c2 = cur.push(s.last());
            assert forall|j: int| 0 <= j < c2.len() implies c2[j] != '\n' by {
                if j < cur.len() {
                    assert(c2[j] == cur[j]);
                }
            }
        }
    }
}

} // verus!
