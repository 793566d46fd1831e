//! Turns emoji reactions on Slack messages into GitHub issues.
//!
//! The crate holds the decisions of the service and leaves every network
//! call to its host: the host performs the effect that a step asks for and
//! hands the outcome back.
pub mod text;
pub mod http;
pub mod humanize;
pub mod models;
pub mod slack;
pub mod github;
pub mod render;
pub mod webhook;
