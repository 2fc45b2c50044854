//! A captive-portal DNS responder core: a request-servicing loop that answers
//! every query arriving on a datagram endpoint with a single configured IPv4
//! address, so that clients of an isolated network are steered to a local
//! portal whatever hostname they ask for.
//!
//! The crate is organised around two abstractions:
//! - a [`transport::Transport`] capability (bind / receive / send on datagrams),
//!   so the same loop runs on hosted sockets or an embedded network stack, and
//! - a [`codec::Codec`] collaborator that turns one raw query into one raw
//!   response (or a classified failure).
//!
//! The servicing logic itself lives in [`serve`].

pub mod addr;
pub mod codec;
pub mod serve;
pub mod transport;

pub use serve::DnsIoError;
