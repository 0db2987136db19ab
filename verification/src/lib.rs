//! Verified core of the contribution inbox: text and URL handling, GitHub
//! and OAuth request shaping, the inbox state machine and its device-flow
//! sign-in.

pub mod text;
pub mod uri;
pub mod json;
pub mod github;
pub mod oauth;
pub mod clock;
pub mod display;
pub mod inbox;
pub mod seen;
pub mod signin;
pub mod overlay;
pub mod keys;
pub mod view;
