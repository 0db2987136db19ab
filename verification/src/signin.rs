//! Signing in with the OAuth device flow, as the `s` key does it: ask for
//! the OAuth App's client id, show the one-time code, poll the token
//! endpoint until GitHub answers, and sign out when pressed again.

use vstd::prelude::*;
use vstd::string::StringExecFns;
use crate::inbox::{opt_text, Inbox};
use crate::oauth::{DeviceCode, PollOutcome};
use crate::text::{owned, trim, trim_string};

verus! {

broadcast use vstd::string::group_string_axioms;

/// After a `slow_down` answer the polling interval grows by this many
/// seconds, for that poll and every later one (RFC 8628, section 3.5).
pub const SLOW_DOWN_SECONDS: u64 = 5;

/// What pressing `s` does.
pub enum SignInStart {
    /// A token was set: it is dropped.
    SignedOut,
    /// No token: ask for the client id, starting from this text.
    AskClientId(String),
}

/// A device-flow sign-in under way: the app, the device code, and the
/// seconds to wait between polls.
pub struct DevicePoll {
    pub client_id: String,
    pub device_code: String,
    pub interval: u64,
}

/// What to do after a poll of the token endpoint.
pub enum PollStep {
    /// Not yet: poll again after the interval.
    Wait,
    /// GitHub issued this token: find whose it is.
    Ready(String),
    /// The sign-in is over without a token.
    Stopped,
}

/// The status shown after signing out.
pub open spec fn signed_out_status() -> Seq<char> {
    "signed out — press s to sign in"@
}

/// The status shown when a sign-in fails.
pub open spec fn sign_in_failed_status() -> Seq<char> {
    "sign-in failed — press s to retry"@
}

/// The client id entered into the prompt: nothing when it was cancelled or
/// left blank; else the text trimmed.
pub fn client_id_entered(value: Option<String>) -> (r: Option<String>)
    ensures
        opt_text(r) == (match value {
            Some(v) => if trim(v@).len() > 0 { Some(trim(v@)) } else { None },
            None => None,
        }),
{
    match value {
        Some(v) => {
            let id = trim_string(v.as_str());
            if id.as_str().is_empty() {
                None
            } else {
                Some(id)
            }
        },
        None => None,
    }
}

impl DevicePoll {
    /// The wait between polls in milliseconds, as a timer takes it (capped
    /// at `i32::MAX`).
    pub fn wait_ms(&self) -> (r: i32)
        ensures
            r == (if self.interval * 1000 <= i32::MAX { self.interval * 1000 } else {
                i32::MAX as int
            }),
    {
        if self.interval <= 2_147_483 {
            (self.interval * 1000) as i32
        } else {
            i32::MAX
        }
    }
}

impl Inbox {
    /// The `s` key: signs out when a token is set (dropping the token, the
    /// login and the list); else asks for the client id, starting from the
    /// stored one.
    pub fn sign_in_key(&mut self, stored_client_id: Option<String>) -> (r: SignInStart)
        ensures
            match old(self).token {
                Some(_) => {
                    &&& r is SignedOut
                    &&& final(self).items@.len() == 0
                    &&& final(self).status@ == signed_out_status()
                    &&& *final(self) == (Inbox {
                        token: None,
                        login: None,
                        items: final(self).items,
                        error: None,
                        status: final(self).status,
                        selected: 0,
                        ..*old(self)
                    })
                },
                None => {
                    &&& r matches SignInStart::AskClientId(initial) && initial@ == (
                    match stored_client_id {
                        Some(c) => c@,
                        None => Seq::<char>::empty(),
                    })
                    &&& *final(self) == *old(self)
                },
            },
    {
        if self.token.is_some() {
            self.token = None;
            self.login = None;
            self.items.clear();
            self.error = None;
            self.status = owned("signed out — press s to sign in");
            self.selected = 0;
            return SignInStart::SignedOut;
        }
        match stored_client_id {
            Some(c) => SignInStart::AskClientId(c),
            None => SignInStart::AskClientId(String::new()),
        }
    }

    /// Takes in the device code endpoint's answer for `client_id`: on
    /// success shows the one-time code and where to enter it, and returns
    /// the polling to run; else records the error.
    pub fn device_code_ready(
        &mut self,
        client_id: String,
        result: Result<DeviceCode, String>,
    ) -> (r: Option<DevicePoll>)
        ensures
            match result {
                Ok(code) => {
                    &&& r matches Some(p) && p.client_id == client_id && p.device_code
                        == code.device_code && p.interval == code.interval
                    &&& final(self).status@ == "enter code "@ + code.user_code@ + " at "@
                        + code.verification_uri@
                    &&& *final(self) == (Inbox {
                        error: None,
                        status: final(self).status,
                        ..*old(self)
                    })
                },
                Err(message) => {
                    &&& r is None
                    &&& final(self).status@ == sign_in_failed_status()
                    &&& *final(self) == (Inbox {
                        error: Some(message),
                        status: final(self).status,
                        ..*old(self)
                    })
                },
            },
    {
        match result {
            Ok(code) => {
                let mut status = owned("enter code ");
                status.append(code.user_code.as_str());
                status.append(" at ");
                status.append(code.verification_uri.as_str());
                self.error = None;
                self.status = status;
                Some(DevicePoll { client_id, device_code: code.device_code, interval: code.interval })
            },
            Err(message) => {
                self.error = Some(message);
                self.status = owned("sign-in failed — press s to retry");
                None
            },
        }
    }

    /// Takes in one poll of the token endpoint: a token ends the polling,
    /// `authorization_pending` waits, `slow_down` waits longer from now on,
    /// an expired code, a refusal or an error stop it.
    pub fn device_polled(
        &mut self,
        poll: &mut DevicePoll,
        outcome: Result<PollOutcome, String>,
    ) -> (r: PollStep)
        ensures
            final(poll).client_id == old(poll).client_id,
            final(poll).device_code == old(poll).device_code,
            final(poll).interval == (match outcome {
                Ok(PollOutcome::SlowDown) => if old(poll).interval + SLOW_DOWN_SECONDS
                    <= u64::MAX {
                    (old(poll).interval + SLOW_DOWN_SECONDS) as u64
                } else {
                    u64::MAX
                },
                _ => old(poll).interval,
            }),
            match outcome {
                Ok(PollOutcome::Ready(token)) => {
                    &&& r matches PollStep::Ready(t) && t == token
                    &&& final(self).status@ == "signing in …"@
                    &&& *final(self) == (Inbox { status: final(self).status, ..*old(self) })
                },
                Ok(PollOutcome::Pending) => r is Wait && *final(self) == *old(self),
                Ok(PollOutcome::SlowDown) => r is Wait && *final(self) == *old(self),
                Ok(PollOutcome::Expired) => {
                    &&& r is Stopped
                    &&& final(self).status@ == "code expired — press s to retry"@
                    &&& *final(self) == (Inbox { status: final(self).status, ..*old(self) })
                },
                Ok(PollOutcome::Denied(desc)) => {
                    &&& r is Stopped
                    &&& final(self).status@ == "sign-in denied: "@ + desc@
                    &&& *final(self) == (Inbox { status: final(self).status, ..*old(self) })
                },
                Err(message) => {
                    &&& r is Stopped
                    &&& final(self).status@ == sign_in_failed_status()
                    &&& *final(self) == (Inbox {
                        error: Some(message),
                        status: final(self).status,
                        ..*old(self)
                    })
                },
            },
    {
        match outcome {
            Ok(PollOutcome::Ready(token)) => {
                self.status = owned("signing in …");
                PollStep::Ready(token)
            },
            Ok(PollOutcome::Pending) => PollStep::Wait,
            Ok(PollOutcome::SlowDown) => {
                poll.interval = poll.interval.saturating_add(SLOW_DOWN_SECONDS);
                PollStep::Wait
            },
            Ok(PollOutcome::Expired) => {
                self.status = owned("code expired — press s to retry");
                PollStep::Stopped
            },
            Ok(PollOutcome::Denied(desc)) => {
                let mut status = owned("sign-in denied: ");
                status.append(desc.as_str());
                self.status = status;
                PollStep::Stopped
            },
            Err(message) => {
                self.error = Some(message);
                self.status = owned("sign-in failed — press s to retry");
                PollStep::Stopped
            },
        }
    }
}

} // verus!
