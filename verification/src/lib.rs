//! A small library for serving a tree of markdown documents: a sorted file
//! index built from a directory scan, a content cache, path-safety
//! validation, a directory view builder, and an upload pipeline, together
//! with the page templating and localization around them.
//!
//! Disk and network I/O live outside this crate; the functions here work on
//! plain values (strings, byte vectors, the library's own types) and state
//! their behaviour as contracts.

pub mod ajax;
pub mod cache;
pub mod content;
pub mod directory;
pub mod html;
pub mod htmx;
pub mod i18n;
pub mod markdown;
pub mod paths;
pub mod server;
pub mod strings;
pub mod upload;

pub use i18n::Language;
pub use markdown::MarkdownParser;
pub use server::ServerConfig;
