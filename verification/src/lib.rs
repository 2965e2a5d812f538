//! Turn execution and streaming adapter.
//!
//! This library accepts chat-completion style requests, normalizes them into a
//! single plain-text instruction, drives one "turn" of work against a session
//! (submit an instruction under a fresh request id, then consume an id-tagged
//! event stream until a terminal event), and materializes the result either as
//! one aggregate response object or as an ordered sequence of incremental wire
//! events.  All of the decision logic — normalization, event filtering and
//! accumulation, finish-reason derivation, wire-shape construction and error
//! classification — is verified; the HTTP surface and the session engine
//! bindings live outside the library and only call into it.

pub mod assemble;
pub mod chat_stream;
pub mod errors;
pub mod ids;
pub mod items;
pub mod models;
pub mod request;
pub mod responses_stream;
pub mod session;
pub mod text;
pub mod turn;
