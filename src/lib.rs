//! Client core of a commercial VPN service.
//!
//! - `wireguard`: the tunnel configuration and its `Key = Value` text form,
//!   read and written with exact contracts; `config_laws` proves that the
//!   text form reads back, which keys are mandatory, the keepalive default,
//!   and that line order and section headers do not matter.
//! - `api` and `auth`: the requests the client sends and how an answer's
//!   status is judged.
//! - `session`: the session state machine. An operation yields the remote
//!   calls it needs one at a time; the caller performs each and hands the
//!   answer back to `Session::resume`.
//! - `country` and `profile`: the country codes and profile checks of the
//!   desktop client.
//! - `text`: characters, trimming, lines and decimal numbers.

pub mod text;
pub mod wireguard;
pub mod config_laws;
pub mod api;
pub mod auth;
pub mod session;
pub mod country;
pub mod profile;
