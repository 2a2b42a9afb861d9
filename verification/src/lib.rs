//! A proxy for the Responses endpoint: how requests that replay encrypted reasoning are rewritten,
//! which key they are sent with, what the answers of upstream mean, and what is done after each.
//!
//! Documents are [`json::Json`] trees; contracts speak of them as [`json::JsonTree`]. What
//! `serde_json` is trusted to do stands in [`wire`], what std is trusted to do with text in
//! [`text`]. What holds across functions is proved in [`laws`].

pub mod auth;
pub mod config;
pub mod exchange;
pub mod json;
pub mod laws;
pub mod reply;
pub mod request;
pub mod rewrite;
pub mod text;
pub mod upstream;
pub mod wire;
