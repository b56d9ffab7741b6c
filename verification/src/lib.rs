//! A client for the srun captive-portal login protocol, without the I/O.
//!
//! The crate holds what the protocol computes and decides: the text of each
//! request, the framing of each response, the two signatures of a login,
//! what a status report and a logout answer mean, and the state machine of
//! a login with its bounded retries. Sockets, TLS, clocks, the payload
//! encoder and JSON decoding stay with the caller, who hands plain values in
//! and takes plain values out.
//!
//! - `text`, `ipv4`: decimal and hexadecimal text, lengths, IPv4 addresses.
//! - `http`, `framer`: the request text, and responses put together from
//!   the pieces in which they arrive.
//! - `jsonp`: the callback token and the wrapper it names.
//! - `sign`: the keyed password signature and the checksum.
//! - `srun`, `login`: the protocol's requests and answers, and the login.
//! - `config`, `cli`, `endpoint`: the configuration of a run and the
//!   connection it calls for.

pub mod cli;
pub mod config;
pub mod endpoint;
pub mod error;
pub mod framer;
pub mod http;
pub mod ipv4;
pub mod jsonp;
pub mod login;
pub mod sign;
pub mod srun;
pub mod text;
