//! Request admission for an HTTP gateway: client identification, a
//! fixed-window rate limiter with an eviction sweep, and the stateless
//! checks around it (bearer-token authentication, CORS headers, replies).
//!
//! Everything here works on plain values. Sockets, locks, timers and the web
//! framework live with the caller, who hands in header values and time stamps
//! and carries out the decisions that come back.
//!
//! - [`client_ip`]: which address a request is counted under.
//! - [`rate_limiting`]: the store of per-client windows, the admission check
//!   and the sweep; [`guarantees`] holds what is proved of them.
//! - [`response`]: the replies.
//! - [`auth`], [`cors`], [`passwd`], [`state`]: the stages around the
//!   limiter and the token they share.
//! - [`text`]: trimming, splitting and matching of header text.

pub mod auth;
pub mod client_ip;
pub mod cors;
pub mod guarantees;
pub mod passwd;
pub mod rate_limiting;
pub mod response;
pub mod state;
pub mod text;
