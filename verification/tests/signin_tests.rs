use std::collections::HashMap;

use contrib_inbox::inbox::Inbox;
use contrib_inbox::oauth::{DeviceCode, PollOutcome};
use contrib_inbox::signin::{client_id_entered, DevicePoll, PollStep, SignInStart};

fn signed_in() -> Inbox {
    Inbox::new(Some("tok".to_string()), Some("me".to_string()), HashMap::new())
}

fn signed_out() -> Inbox {
    Inbox::new(None, None, HashMap::new())
}

fn poll(interval: u64) -> DevicePoll {
    DevicePoll { client_id: "cid".to_string(), device_code: "dev".to_string(), interval }
}

#[test]
fn client_id_is_trimmed_and_blank_is_nothing() {
    assert_eq!(client_id_entered(Some("  Iv1.abc \n".to_string())).as_deref(), Some("Iv1.abc"));
    assert_eq!(client_id_entered(Some("   ".to_string())), None);
    assert_eq!(client_id_entered(None), None);
}

#[test]
fn wait_is_interval_in_milliseconds() {
    assert_eq!(poll(5).wait_ms(), 5000);
    assert_eq!(poll(0).wait_ms(), 0);
    assert_eq!(poll(2_147_483).wait_ms(), 2_147_483_000);
    assert_eq!(poll(2_147_484).wait_ms(), i32::MAX);
    assert_eq!(poll(u64::MAX).wait_ms(), i32::MAX);
}

#[test]
fn s_signs_out_when_signed_in() {
    let mut inbox = signed_in();
    inbox.selected = 3;
    inbox.error = Some("old".to_string());
    let r = inbox.sign_in_key(Some("cid".to_string()));
    assert!(matches!(r, SignInStart::SignedOut));
    assert!(inbox.token.is_none());
    assert!(inbox.login.is_none());
    assert!(inbox.items.is_empty());
    assert!(inbox.error.is_none());
    assert_eq!(inbox.selected, 0);
    assert_eq!(inbox.status, "signed out — press s to sign in");
}

#[test]
fn s_asks_for_client_id_when_signed_out() {
    let mut inbox = signed_out();
    match inbox.sign_in_key(Some("Iv1.stored".to_string())) {
        SignInStart::AskClientId(initial) => assert_eq!(initial, "Iv1.stored"),
        SignInStart::SignedOut => panic!("no token was set"),
    }
    match inbox.sign_in_key(None) {
        SignInStart::AskClientId(initial) => assert_eq!(initial, ""),
        SignInStart::SignedOut => panic!("no token was set"),
    }
    assert_eq!(inbox.status, "no token — press t to set a GitHub token");
}

#[test]
fn device_code_shows_the_one_time_code() {
    let mut inbox = signed_out();
    let code = DeviceCode {
        device_code: "3584d83530557fdd1f46af8289938c8ef79f9dc5".to_string(),
        user_code: "WDJB-MJHT".to_string(),
        verification_uri: "https://github.com/login/device".to_string(),
        expires_in: 900,
        interval: 5,
    };
    let p = inbox.device_code_ready("cid".to_string(), Ok(code)).unwrap();
    assert_eq!(p.client_id, "cid");
    assert_eq!(p.device_code, "3584d83530557fdd1f46af8289938c8ef79f9dc5");
    assert_eq!(p.interval, 5);
    assert_eq!(inbox.status, "enter code WDJB-MJHT at https://github.com/login/device");
    assert!(inbox.error.is_none());
}

#[test]
fn device_code_failure_is_recorded() {
    let mut inbox = signed_out();
    let r = inbox.device_code_ready("cid".to_string(), Err("oauth 404: Not Found".to_string()));
    assert!(r.is_none());
    assert_eq!(inbox.error.as_deref(), Some("oauth 404: Not Found"));
    assert_eq!(inbox.status, "sign-in failed — press s to retry");
}

#[test]
fn pending_keeps_waiting() {
    let mut inbox = signed_out();
    let mut p = poll(5);
    let r = inbox.device_polled(&mut p, Ok(PollOutcome::Pending));
    assert!(matches!(r, PollStep::Wait));
    assert_eq!(p.interval, 5);
    assert_eq!(inbox.status, "no token — press t to set a GitHub token");
}

#[test]
fn slow_down_adds_five_seconds() {
    let mut inbox = signed_out();
    let mut p = poll(5);
    assert!(matches!(inbox.device_polled(&mut p, Ok(PollOutcome::SlowDown)), PollStep::Wait));
    assert_eq!(p.interval, 10);
    assert!(matches!(inbox.device_polled(&mut p, Ok(PollOutcome::SlowDown)), PollStep::Wait));
    assert_eq!(p.interval, 15);
    assert_eq!(p.wait_ms(), 15000);
    let mut q = poll(u64::MAX - 2);
    inbox.device_polled(&mut q, Ok(PollOutcome::SlowDown));
    assert_eq!(q.interval, u64::MAX);
}

#[test]
fn ready_hands_out_the_token() {
    let mut inbox = signed_out();
    let mut p = poll(5);
    match inbox.device_polled(&mut p, Ok(PollOutcome::Ready("gho_abc".to_string()))) {
        PollStep::Ready(token) => assert_eq!(token, "gho_abc"),
        _ => panic!("a token was issued"),
    }
    assert_eq!(inbox.status, "signing in …");
    assert!(inbox.finish_token("gho_abc".to_string(), Ok("octocat".to_string())));
    assert_eq!(inbox.token.as_deref(), Some("gho_abc"));
    assert_eq!(inbox.login.as_deref(), Some("octocat"));
    assert!(matches!(inbox.sign_in_key(None), SignInStart::SignedOut));
    assert!(inbox.token.is_none());
}

#[test]
fn expiry_refusal_and_errors_stop() {
    let mut inbox = signed_out();
    let mut p = poll(5);
    assert!(matches!(inbox.device_polled(&mut p, Ok(PollOutcome::Expired)), PollStep::Stopped));
    assert_eq!(inbox.status, "code expired — press s to retry");
    let r = inbox.device_polled(&mut p, Ok(PollOutcome::Denied("The user has denied".to_string())));
    assert!(matches!(r, PollStep::Stopped));
    assert_eq!(inbox.status, "sign-in denied: The user has denied");
    let r = inbox.device_polled(&mut p, Err("oauth: bad: x".to_string()));
    assert!(matches!(r, PollStep::Stopped));
    assert_eq!(inbox.status, "sign-in failed — press s to retry");
    assert_eq!(inbox.error.as_deref(), Some("oauth: bad: x"));
    assert_eq!(p.interval, 5);
}
