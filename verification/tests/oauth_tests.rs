use contrib_inbox::oauth::{
    authorize_url, checked_describe_error, default_expires, default_interval, describe_error,
    device_code_body, exchange_params, form_headers, oauth_reply_outcome, oauth_url, pkce_challenge,
    poll_body, poll_outcome, redirect_uri_for, token_from_reply, PollOutcome, TokenReply,
};
use contrib_inbox::text::hex_string;

fn reply(token: Option<&str>, error: Option<&str>, desc: Option<&str>) -> TokenReply {
    TokenReply {
        access_token: token.map(|t| t.to_string()),
        error: error.map(|e| e.to_string()),
        error_description: desc.map(|d| d.to_string()),
    }
}

#[test]
fn device_code_defaults() {
    assert_eq!(default_expires(), 900);
    assert_eq!(default_interval(), 5);
}

#[test]
fn pkce_matches_rfc7636_example() {
    assert_eq!(
        pkce_challenge("dBjftJeZ4CVP-mB92K27uhbUJU1p1r_wW1gFWFOEjXk"),
        "E9Melhoa2OwvFrEMTJguCHaoeK1t8URWbuGJSstw-cM"
    );
}

#[test]
fn pkce_is_43_url_safe_chars() {
    for verifier in ["", "a", "dBjftJeZ4CVP-mB92K27uhbUJU1p1r_wW1gFWFOEjXk", "é ü 😀"] {
        let c = pkce_challenge(verifier);
        assert_eq!(c.chars().count(), 43);
        assert!(c.chars().all(|ch| ch.is_ascii_alphanumeric() || ch == '-' || ch == '_'));
    }
}

#[test]
fn pkce_of_empty_verifier() {
    // SHA-256 of nothing, URL-safe base64 without padding
    assert_eq!(pkce_challenge(""), "47DEQpj8HBSa-_TImW-5JCeuQeRkm5NMpJWZG3hSuFU");
}

#[test]
fn random_hex_formats_bytes() {
    assert_eq!(hex_string(&[1, 171, 255]), "01abff");
}

#[test]
fn authorize_url_encodes_every_part() {
    assert_eq!(
        authorize_url("Iv1.abc", "http://127.0.0.1:8080/auth/callback", "s t", "ch-_"),
        "https://github.com/login/oauth/authorize?client_id=Iv1.abc&redirect_uri=http%3A%2F%2F127.0.0.1%3A8080%2Fauth%2Fcallback&scope=repo&state=s%20t&code_challenge=ch-_&code_challenge_method=S256"
    );
}

#[test]
fn redirect_and_relay_urls() {
    assert_eq!(redirect_uri_for("http://127.0.0.1:8080"), "http://127.0.0.1:8080/auth/callback");
    assert_eq!(oauth_url("/login/device/code"), "/gh-oauth/login/device/code");
}

#[test]
fn exchange_params_skip_blank_secret() {
    let without = exchange_params("id", "code", "uri", "ver", Some("  "));
    assert_eq!(without.len(), 4);
    assert_eq!(without[3], ("code_verifier".to_string(), "ver".to_string()));
    let none = exchange_params("id", "code", "uri", "ver", None);
    assert_eq!(none, without);
    let with = exchange_params("id", "code", "uri", "ver", Some(" sec "));
    assert_eq!(with.len(), 5);
    assert_eq!(with[4], ("client_secret".to_string(), " sec ".to_string()));
}

#[test]
fn form_bodies_of_device_flow() {
    assert_eq!(device_code_body("Iv1 x"), "client_id=Iv1%20x&scope=repo");
    assert_eq!(
        poll_body("cid", "dev"),
        "client_id=cid&device_code=dev&grant_type=urn%3Aietf%3Aparams%3Aoauth%3Agrant-type%3Adevice_code"
    );
    assert_eq!(
        form_headers(),
        vec![
            ("Accept".to_string(), "application/json".to_string()),
            ("Content-Type".to_string(), "application/x-www-form-urlencoded".to_string()),
        ]
    );
}

#[test]
fn exchange_reply_reading() {
    assert_eq!(token_from_reply(reply(Some("gho_x"), None, None)), Ok("gho_x".to_string()));
    assert_eq!(
        token_from_reply(reply(None, Some("bad_verification_code"), Some("The code is wrong"))),
        Err("bad_verification_code: The code is wrong".to_string())
    );
    assert_eq!(token_from_reply(reply(None, Some("e"), Some(""))), Err("e".to_string()));
    assert_eq!(token_from_reply(reply(None, None, None)), Err("exchange_failed".to_string()));
}

#[test]
fn poll_reply_reading() {
    assert!(matches!(poll_outcome(reply(Some("t"), None, None)), Ok(PollOutcome::Ready(t)) if t == "t"));
    assert!(matches!(poll_outcome(reply(None, Some("authorization_pending"), None)), Ok(PollOutcome::Pending)));
    assert!(matches!(poll_outcome(reply(None, Some("slow_down"), None)), Ok(PollOutcome::SlowDown)));
    assert!(matches!(poll_outcome(reply(None, Some("expired_token"), None)), Ok(PollOutcome::Expired)));
    assert!(matches!(poll_outcome(reply(None, Some("access_denied"), Some("no"))), Ok(PollOutcome::Denied(d)) if d == "no"));
    assert!(matches!(poll_outcome(reply(None, Some("weird"), Some("d"))), Err(m) if m == "oauth: weird: d"));
    assert!(matches!(poll_outcome(reply(None, Some("weird"), None)), Err(m) if m == "oauth: weird: "));
    assert!(matches!(poll_outcome(reply(None, None, None)), Err(m) if m == "oauth: empty token response"));
}

#[test]
fn describe_error_cases() {
    assert_eq!(describe_error("  \n"), "empty response (check the /gh-oauth relay and client_id)");
    assert_eq!(
        describe_error("{\"error\":\"incorrect_client_credentials\",\"error_description\":\"bad id\"}"),
        "incorrect_client_credentials: bad id"
    );
    assert_eq!(describe_error("{\"error\":\"x\"}"), "x: ");
    assert_eq!(describe_error("{\"error\":\"\",\"message\":\"Not Found\"}"), "Not Found");
    assert_eq!(describe_error("<html>oops</html>"), "<html>oops</html>");
    assert_eq!(describe_error(&"q".repeat(161)), format!("{}…", "q".repeat(160)));
    assert_eq!(checked_describe_error(&format!("a{}", "é".repeat(100))), None);
}

#[test]
fn oauth_reply_outcomes() {
    assert_eq!(oauth_reply_outcome(200, "{}"), Some(Ok("{}".to_string())));
    assert_eq!(
        oauth_reply_outcome(404, ""),
        Some(Err("oauth 404: empty response (check the /gh-oauth relay and client_id)".to_string()))
    );
    assert_eq!(oauth_reply_outcome(502, &format!("a{}", "é".repeat(100))), None);
}
