//! GitHub OAuth: the web flow's authorize URL and PKCE challenge, the form
//! bodies of the device flow, and how the token endpoint's replies are read.
//! Every request goes through the same-origin relay under `OAUTH_BASE`.

use base64::Engine;
use sha2::Digest;
use vstd::prelude::*;
use vstd::string::StringExecFns;
use vstd::utf8::encode_utf8;
use crate::text::{
    byte_prefix, chars_for_bytes, chars_in_bytes, decimal, join2, owned, push_char, push_decimal,
    same_text, string_of_range, to_chars, trim, trim_string,
};
use crate::uri::{form, form_body, pair_views, push_uri_component, uri_component};
use crate::json::{json_member_str, json_str_member};

verus! {

broadcast use vstd::string::group_string_axioms;

/// Same-origin relay prefix in front of `https://github.com`.
pub const OAUTH_BASE: &'static str = "/gh-oauth";

/// Requested scopes for the OAuth App token.
pub const SCOPE: &'static str = "repo";

/// Longest reply body, in bytes, that an OAuth error message quotes whole.
pub const MAX_OAUTH_ERROR_BYTES: usize = 160;

/// The device flow's grant type.
pub const DEVICE_GRANT: &'static str = "urn:ietf:params:oauth:grant-type:device_code";

/// A device code grant, as the device code endpoint answers.
#[derive(Debug, Clone)]
pub struct DeviceCode {
    pub device_code: String,
    pub user_code: String,
    pub verification_uri: String,
    pub expires_in: u64,
    pub interval: u64,
}

/// The token endpoint's reply.
#[derive(Debug, Clone)]
pub struct TokenReply {
    pub access_token: Option<String>,
    pub error: Option<String>,
    pub error_description: Option<String>,
}

/// Where polling the token endpoint stands.
#[derive(Debug, Clone)]
pub enum PollOutcome {
    Ready(String),
    Pending,
    SlowDown,
    Expired,
    Denied(String),
}

/// Seconds a device code lives when the reply does not say.
pub fn default_expires() -> (r: u64)
    ensures
        r == 900,
{
    900
}

/// Seconds between polls when the reply does not say.
pub fn default_interval() -> (r: u64)
    ensures
        r == 5,
{
    5
}

/// The web flow's callback URL under an origin.
pub fn redirect_uri_for(origin: &str) -> (r: String)
    ensures
        r@ == origin@ + "/auth/callback"@,
{
    join2(origin, "/auth/callback")
}

/// A relay URL for a path of `https://github.com`.
pub fn oauth_url(path: &str) -> (r: String)
    ensures
        r@ == OAUTH_BASE@ + path@,
{
    join2(OAUTH_BASE, path)
}

// ------------------------------------------------------------ PKCE

/// The SHA-256 digest of `data`.
pub uninterp spec fn sha256(data: Seq<u8>) -> Seq<u8>;

/// `sha2::Sha256::digest`. The contract claims that the result is the named
/// digest of `data` and is 32 bytes long; the hash itself is not written out.
#[verifier::external_body]
fn sha256_digest(data: &[u8]) -> (r: Vec<u8>)
    ensures
        r@ == sha256(data@),
        r@.len() == 32,
{
    sha2::Sha256::digest(data).to_vec()
}

/// The URL-safe base64 alphabet: `A-Z a-z 0-9 - _`.
pub open spec fn base64_url_char(i: int) -> char {
    if i < 26 {
        (65 + i) as char
    } else if i < 52 {
        (97 + i - 26) as char
    } else if i < 62 {
        (48 + i - 52) as char
    } else if i == 62 {
        '-'
    } else {
        '_'
    }
}

/// URL-safe base64 without padding: each 3 bytes become 4 chars, a last
/// byte 2 chars and a last 2 bytes 3 chars.
pub open spec fn base64_url(d: Seq<u8>) -> Seq<char>
    decreases d.len(),
{
    let b0 = d[0] as int;
    let b1 = d[1] as int;
    let b2 = d[2] as int;
    if d.len() == 0 {
        seq![]
    } else if d.len() == 1 {
        seq![base64_url_char(b0 / 4), base64_url_char((b0 % 4) * 16)]
    } else if d.len() == 2 {
        seq![
            base64_url_char(b0 / 4),
            base64_url_char((b0 % 4) * 16 + b1 / 16),
            base64_url_char((b1 % 16) * 4),
        ]
    } else {
        seq![
            base64_url_char(b0 / 4),
            base64_url_char((b0 % 4) * 16 + b1 / 16),
            base64_url_char((b1 % 16) * 4 + b2 / 64),
            base64_url_char(b2 % 64),
        ] + base64_url(d.skip(3))
    }
}

/// The length of the unpadded base64 encoding of `n` bytes.
pub open spec fn base64_url_len(n: int) -> int {
    (n / 3) * 4 + (if n % 3 == 0 { 0int } else if n % 3 == 1 { 2int } else { 3int })
}

/// `base64::engine::general_purpose::URL_SAFE_NO_PAD.encode`. The contract
/// claims the URL-safe alphabet without padding (RFC 4648, section 5); the
/// call panics when the encoded length overflows `usize`, which `requires`
/// leaves out.
#[verifier::external_body]
fn base64_url_encode(data: &[u8]) -> (r: String)
    requires
        base64_url_len(data@.len() as int) <= usize::MAX,
    ensures
        r@ == base64_url(data@),
{
    base64::engine::general_purpose::URL_SAFE_NO_PAD.encode(data)
}

/// A char of the URL-safe base64 alphabet.
pub open spec fn is_base64_url_char(c: char) -> bool {
    ||| 'A' <= c <= 'Z'
    ||| 'a' <= c <= 'z'
    ||| '0' <= c <= '9'
    ||| c == '-'
    ||| c == '_'
}

/// Every value of six bits names a char of the alphabet.
proof fn lemma_base64_url_char(i: int)
    requires
        0 <= i < 64,
    ensures
        is_base64_url_char(base64_url_char(i)),
{
}

/// The encoding has `base64_url_len` chars, all of the alphabet.
pub proof fn lemma_base64_url_shape(d: Seq<u8>)
    ensures
        base64_url(d).len() == base64_url_len(d.len() as int),
        forall|i: int| 0 <= i < base64_url(d).len() ==> is_base64_url_char(#[trigger] base64_url(d)[i]),
    decreases d.len(),
{
    let b0 = d[0] as int;
    let b1 = d[1] as int;
    let b2 = d[2] as int;
    if d.len() == 0 {
    } else if d.len() == 1 {
        lemma_base64_url_char(b0 / 4);
        lemma_base64_url_char((b0 % 4) * 16);
    } else if d.len() == 2 {
        lemma_base64_url_char(b0 / 4);
        lemma_base64_url_char((b0 % 4) * 16 + b1 / 16);
        lemma_base64_url_char((b1 % 16) * 4);
    } else {
        lemma_base64_url_char(b0 / 4);
        lemma_base64_url_char((b0 % 4) * 16 + b1 / 16);
        lemma_base64_url_char((b1 % 16) * 4 + b2 / 64);
        lemma_base64_url_char(b2 % 64);
        let rest = d.skip(3);
        lemma_base64_url_shape(rest);
        let head = seq![
            base64_url_char(b0 / 4),
            base64_url_char((b0 % 4) * 16 + b1 / 16),
            base64_url_char((b1 % 16) * 4 + b2 / 64),
            base64_url_char(b2 % 64),
        ];
        assert(base64_url(d) == head + base64_url(rest));
        assert(base64_url_len(d.len() as int) == 4 + base64_url_len(rest.len() as int));
        assert forall|i: int| 0 <= i < base64_url(d).len() implies is_base64_url_char(
            #[trigger] base64_url(d)[i],
        ) by {
            if i >= 4 {
                assert(base64_url(d)[i] == base64_url(rest)[i - 4]);
            }
        }
    }
}

/// PKCE S256 challenge for a verifier: 43 chars of the URL-safe alphabet.
pub fn pkce_challenge(verifier: &str) -> (r: String)
    ensures
        r@ == base64_url(sha256(encode_utf8(verifier@))),
        r@.len() == 43,
        forall|i: int| 0 <= i < r@.len() ==> is_base64_url_char(#[trigger] r@[i]),
{
    proof {
        lemma_base64_url_shape(sha256(encode_utf8(verifier@)));
    }
    let digest = sha256_digest(verifier.as_bytes());
    base64_url_encode(digest.as_slice())
}

// ------------------------------------------------------------ web flow

/// Step 1 of the web flow: the URL the browser is sent to.
pub open spec fn authorize_url_for(
    client_id: Seq<char>,
    redirect_uri: Seq<char>,
    state: Seq<char>,
    challenge: Seq<char>,
) -> Seq<char> {
    "https://github.com/login/oauth/authorize?client_id="@ + uri_component(client_id)
        + "&redirect_uri="@ + uri_component(redirect_uri) + "&scope="@ + uri_component(SCOPE@)
        + "&state="@ + uri_component(state) + "&code_challenge="@ + uri_component(challenge)
        + "&code_challenge_method=S256"@
}

/// Step 1 of the web flow: URL to navigate the browser to.
pub fn authorize_url(client_id: &str, redirect_uri: &str, state: &str, challenge: &str) -> (r: String)
    ensures
        r@ == authorize_url_for(client_id@, redirect_uri@, state@, challenge@),
{
    let mut r = owned("https://github.com/login/oauth/authorize?client_id=");
    push_uri_component(&mut r, client_id);
    r.append("&redirect_uri=");
    push_uri_component(&mut r, redirect_uri);
    r.append("&scope=");
    push_uri_component(&mut r, SCOPE);
    r.append("&state=");
    push_uri_component(&mut r, state);
    r.append("&code_challenge=");
    push_uri_component(&mut r, challenge);
    r.append("&code_challenge_method=S256");
    r
}

/// The parameters of the code exchange: a client secret goes along only
/// when one is given that is not blank.
pub open spec fn exchange_params_for(
    client_id: Seq<char>,
    code: Seq<char>,
    redirect_uri: Seq<char>,
    verifier: Seq<char>,
    secret: Option<Seq<char>>,
) -> Seq<(Seq<char>, Seq<char>)> {
    let base = seq![
        ("client_id"@, client_id),
        ("code"@, code),
        ("redirect_uri"@, redirect_uri),
        ("code_verifier"@, verifier),
    ];
    match secret {
        Some(s) => if trim(s).len() > 0 {
            base.push(("client_secret"@, s))
        } else {
            base
        },
        None => base,
    }
}

/// The view of an optional string slice.
pub open spec fn opt_str_view(s: Option<&str>) -> Option<Seq<char>> {
    match s {
        Some(t) => Some(t@),
        None => None,
    }
}

/// The view of an optional string.
pub open spec fn opt_view(s: Option<String>) -> Option<Seq<char>> {
    match s {
        Some(t) => Some(t@),
        None => None,
    }
}

/// Step 2 of the web flow: the parameters that exchange `code` for a token.
pub fn exchange_params(
    client_id: &str,
    code: &str,
    redirect_uri: &str,
    verifier: &str,
    secret: Option<&str>,
) -> (r: Vec<(String, String)>)
    ensures
        pair_views(r@) == exchange_params_for(
            client_id@,
            code@,
            redirect_uri@,
            verifier@,
            opt_str_view(secret),
        ),
{
    let mut r: Vec<(String, String)> = Vec::new();
    r.push((owned("client_id"), owned(client_id)));
    r.push((owned("code"), owned(code)));
    r.push((owned("redirect_uri"), owned(redirect_uri)));
    r.push((owned("code_verifier"), owned(verifier)));
    if let Some(s) = secret {
        let trimmed = trim_string(s);
        if !trimmed.as_str().is_empty() {
            r.push((owned("client_secret"), owned(s)));
        }
    }
    assert(pair_views(r@) =~= exchange_params_for(
        client_id@,
        code@,
        redirect_uri@,
        verifier@,
        opt_str_view(secret),
    ));
    r
}

/// The string, or the empty one.
pub open spec fn or_empty(s: Option<String>) -> Seq<char> {
    match s {
        Some(t) => t@,
        None => seq![],
    }
}

/// What the code exchange yields from the token endpoint's reply.
pub open spec fn exchange_result(reply: TokenReply) -> Result<Seq<char>, Seq<char>> {
    match reply.access_token {
        Some(token) => Ok(token@),
        None => {
            let error = match reply.error {
                Some(e) => e@,
                None => "exchange_failed"@,
            };
            let desc = or_empty(reply.error_description);
            Err(if desc.len() == 0 { error } else { error + ": "@ + desc })
        },
    }
}

/// The token from the exchange's reply, or the error it reports.
pub fn token_from_reply(reply: TokenReply) -> (r: Result<String, String>)
    ensures
        match r {
            Ok(t) => exchange_result(reply) == Ok::<Seq<char>, Seq<char>>(t@),
            Err(e) => exchange_result(reply) == Err::<Seq<char>, Seq<char>>(e@),
        },
{
    match reply.access_token {
        Some(token) => Ok(token),
        None => {
            let error = match reply.error {
                Some(e) => e,
                None => owned("exchange_failed"),
            };
            let desc = match reply.error_description {
                Some(d) => d,
                None => String::new(),
            };
            if desc.as_str().is_empty() {
                Err(error)
            } else {
                let mut e = error;
                e.append(": ");
                e.append(desc.as_str());
                Err(e)
            }
        },
    }
}

// ------------------------------------------------------------ device flow

/// The body that asks for a device code.
pub fn device_code_body(client_id: &str) -> (r: String)
    ensures
        r@ == form_body(seq![("client_id"@, client_id@), ("scope"@, SCOPE@)]),
{
    let mut params: Vec<(String, String)> = Vec::new();
    params.push((owned("client_id"), owned(client_id)));
    params.push((owned("scope"), owned(SCOPE)));
    assert(pair_views(params@) =~= seq![("client_id"@, client_id@), ("scope"@, SCOPE@)]);
    form(&params)
}

/// The body of one poll for the device flow's token.
pub fn poll_body(client_id: &str, device_code: &str) -> (r: String)
    ensures
        r@ == form_body(
            seq![
                ("client_id"@, client_id@),
                ("device_code"@, device_code@),
                ("grant_type"@, DEVICE_GRANT@),
            ],
        ),
{
    let mut params: Vec<(String, String)> = Vec::new();
    params.push((owned("client_id"), owned(client_id)));
    params.push((owned("device_code"), owned(device_code)));
    params.push((owned("grant_type"), owned(DEVICE_GRANT)));
    assert(pair_views(params@) =~= seq![
        ("client_id"@, client_id@),
        ("device_code"@, device_code@),
        ("grant_type"@, DEVICE_GRANT@),
    ]);
    form(&params)
}

/// The headers of a request to the token endpoints.
pub fn form_headers() -> (r: Vec<(String, String)>)
    ensures
        pair_views(r@) == seq![
            ("Accept"@, "application/json"@),
            ("Content-Type"@, "application/x-www-form-urlencoded"@),
        ],
{
    let mut r: Vec<(String, String)> = Vec::new();
    r.push((owned("Accept"), owned("application/json")));
    r.push((owned("Content-Type"), owned("application/x-www-form-urlencoded")));
    assert(pair_views(r@) =~= seq![
        ("Accept"@, "application/json"@),
        ("Content-Type"@, "application/x-www-form-urlencoded"@),
    ]);
    r
}

/// How one poll's reply reads: the token when it is there, else the
/// endpoint's error: pending, slow down, expired, denied (with its
/// description), or any other error, which fails the flow.
pub open spec fn poll_result_matches(reply: TokenReply, r: Result<PollOutcome, String>) -> bool {
    let desc = or_empty(reply.error_description);
    match reply.access_token {
        Some(t) => r matches Ok(PollOutcome::Ready(x)) && x@ == t@,
        None => match reply.error {
            Some(e) => if e@ == "authorization_pending"@ {
                r matches Ok(PollOutcome::Pending)
            } else if e@ == "slow_down"@ {
                r matches Ok(PollOutcome::SlowDown)
            } else if e@ == "expired_token"@ {
                r matches Ok(PollOutcome::Expired)
            } else if e@ == "access_denied"@ {
                r matches Ok(PollOutcome::Denied(d)) && d@ == desc
            } else {
                r matches Err(m) && m@ == "oauth: "@ + e@ + ": "@ + desc
            },
            None => r matches Err(m) && m@ == "oauth: empty token response"@,
        },
    }
}

/// Reads one poll's reply.
pub fn poll_outcome(reply: TokenReply) -> (r: Result<PollOutcome, String>)
    ensures
        poll_result_matches(reply, r),
{
    if let Some(token) = reply.access_token {
        return Ok(PollOutcome::Ready(token));
    }
    let desc = match reply.error_description {
        Some(d) => d,
        None => String::new(),
    };
    match reply.error {
        Some(e) => {
            if same_text(e.as_str(), "authorization_pending") {
                Ok(PollOutcome::Pending)
            } else if same_text(e.as_str(), "slow_down") {
                Ok(PollOutcome::SlowDown)
            } else if same_text(e.as_str(), "expired_token") {
                Ok(PollOutcome::Expired)
            } else if same_text(e.as_str(), "access_denied") {
                Ok(PollOutcome::Denied(desc))
            } else {
                let mut m = owned("oauth: ");
                m.append(e.as_str());
                m.append(": ");
                m.append(desc.as_str());
                Err(m)
            }
        },
        None => Err(owned("oauth: empty token response")),
    }
}

// ------------------------------------------------------------ replies

/// A string member of the JSON reply, or the empty string.
pub open spec fn member_or_empty(text: Seq<char>, key: Seq<char>) -> Seq<char> {
    match json_str_member(text, key) {
        Some(m) => m,
        None => seq![],
    }
}

/// The message an OAuth error reply is described by: a note on an empty
/// reply; else the reply's `error` with its description; else its
/// `message`; else the body, cut to 160 bytes and an ellipsis when longer.
pub open spec fn described(text: Seq<char>) -> Seq<char> {
    let error = member_or_empty(text, "error"@);
    let desc = member_or_empty(text, "error_description"@);
    if trim(text).len() == 0 {
        "empty response (check the /gh-oauth relay and client_id)"@
    } else if error.len() > 0 {
        error + ": "@ + desc
    } else {
        match json_str_member(text, "message"@) {
            Some(m) => m,
            None => if encode_utf8(text).len() <= MAX_OAUTH_ERROR_BYTES {
                text
            } else {
                byte_prefix(text, MAX_OAUTH_ERROR_BYTES as int).push('…')
            },
        }
    }
}

/// Describing cuts the body inside a char: the slice `&text[..160]` panics.
pub open spec fn describe_panics(text: Seq<char>) -> bool {
    &&& trim(text).len() > 0
    &&& member_or_empty(text, "error"@).len() == 0
    &&& json_str_member(text, "message"@) is None
    &&& encode_utf8(text).len() > MAX_OAUTH_ERROR_BYTES
    &&& chars_in_bytes(text, MAX_OAUTH_ERROR_BYTES as int) is None
}

/// The message an OAuth error reply is described by.
pub fn describe_error(text: &str) -> (r: String)
    requires
        !describe_panics(text@),
    ensures
        r@ == described(text@),
{
    match checked_describe_error(text) {
        Some(s) => s,
        None => owned(text),
    }
}

/// The message an OAuth error reply is described by; `None` exactly where
/// the cut would fall inside a char.
pub fn checked_describe_error(text: &str) -> (r: Option<String>)
    ensures
        r is None <==> describe_panics(text@),
        r matches Some(s) ==> s@ == described(text@),
{
    let trimmed = trim_string(text);
    if trimmed.as_str().is_empty() {
        return Some(owned("empty response (check the /gh-oauth relay and client_id)"));
    }
    let error = match json_member_str(text, "error") {
        Some(e) => e,
        None => String::new(),
    };
    let desc = match json_member_str(text, "error_description") {
        Some(d) => d,
        None => String::new(),
    };
    if !error.as_str().is_empty() {
        let mut m = error;
        m.append(": ");
        m.append(desc.as_str());
        return Some(m);
    }
    if let Some(message) = json_member_str(text, "message") {
        return Some(message);
    }
    if text.as_bytes().len() <= MAX_OAUTH_ERROR_BYTES {
        return Some(owned(text));
    }
    let v = to_chars(text);
    match chars_for_bytes(&v, MAX_OAUTH_ERROR_BYTES) {
        Some(k) => {
            let mut s = string_of_range(&v, 0, k);
            push_char(&mut s, '…');
            Some(s)
        },
        None => None,
    }
}

/// What a token endpoint request yields for a reply with `status` and body
/// `text`.
pub open spec fn oauth_reply_result(status: u16, text: Seq<char>) -> Result<Seq<char>, Seq<char>> {
    if 200 <= status < 300 {
        Ok(text)
    } else {
        Err("oauth "@ + decimal(status as nat) + ": "@ + described(text))
    }
}

/// The outcome of a token endpoint request from its reply; `None` exactly
/// where the error message cannot be cut (the request panics there).
pub fn oauth_reply_outcome(status: u16, text: &str) -> (r: Option<Result<String, String>>)
    ensures
        r is None <==> !(200 <= status < 300) && describe_panics(text@),
        r matches Some(Ok(s)) ==> oauth_reply_result(status, text@) == Ok::<Seq<char>, Seq<char>>(
            s@,
        ),
        r matches Some(Err(e)) ==> oauth_reply_result(status, text@) == Err::<Seq<char>, Seq<char>>(
            e@,
        ),
{
    if 200 <= status && status < 300 {
        return Some(Ok(owned(text)));
    }
    match checked_describe_error(text) {
        Some(d) => {
            let mut e = owned("oauth ");
            push_decimal(&mut e, status as u64);
            e.append(": ");
            e.append(d.as_str());
            Some(Err(e))
        },
        None => None,
    }
}

} // verus!
