//! Request-handling rules of the Overslash API: sessions and cookies, login
//! state, admission, approvals, billing webhooks, enrollment tokens and the
//! small text codecs they rest on.

pub mod text;
pub mod html;
pub mod codec;
pub mod stripe;
pub mod error;
pub mod billing;
pub mod risk;
pub mod audit;
pub mod cookies;
pub mod login;
pub mod magic_link;
pub mod dev;
pub mod admission;
pub mod account;
pub mod connect_gate;
pub mod approvals;
pub mod enrollment;
pub mod connections;
pub mod downloads;
pub mod dev_e2e;
pub mod byoc;
pub mod providers;
pub mod json;
pub mod stripe_json;
