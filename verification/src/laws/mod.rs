//! What holds of the library across its functions.

pub mod authorization;
pub mod detection;
pub mod documents;
pub mod exchanges;
pub mod histories;
pub mod keys;
pub mod refusals;
pub mod requests;
pub mod rewriting;
pub mod sending;
pub mod statelessness;
pub mod stripping;
pub mod texts;
