//! A verified core for a proof-of-work ledger simulation. The ledger is an
//! append-only chain of blocks mined under a leading-zero difficulty rule
//! over SHA-256 ([`ledger`], [`digest`]); every state transition is fanned
//! out to subscribers through a bounded, lossy broadcast bus ([`events`]),
//! each streaming session follows a verified lifecycle ([`session`]) and
//! sends events as exactly specified text frames ([`encode`]); read-only
//! queries and their route table live in [`query`]. Around the core stand a
//! verified HTTP request/response layer ([`http`]), chat-message handling
//! ([`chat`]), a markdown pipeline ([`markdown`]), lazy string splitting
//! ([`strsplit`]) and small utilities ([`numfmt`], [`strings`], [`utils`]).

pub mod chat;
pub mod digest;
pub mod encode;
pub mod events;
pub mod http;
pub mod ledger;
pub mod markdown;
pub mod numfmt;
pub mod query;
pub mod session;
pub mod strings;
pub mod strsplit;
pub mod utils;
