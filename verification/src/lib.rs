//! Multi-provider add-on resolution and update detection.
//!
//! The library turns a provider + name reference into a canonical lock
//! record, decides whether a newer release exists upstream, and picks
//! the downloadable artifact. Page fetching is left to the caller: every
//! function here works on page text and plain values and carries a
//! verified contract. HTML traversal and calendar arithmetic are done by
//! outside crates behind trusted wrappers.

pub mod strutil;
pub mod types;
pub mod pages;
pub mod curse;
pub mod timeparse;
pub mod tukui;
pub mod update;
pub mod download;
pub mod codec;
