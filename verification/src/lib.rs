//! Telemetry of an optical network terminal, read from its web interface.
//!
//! The device prints its data into HTML pages as calls of pseudo-constructors,
//! `new Name("arg", "arg", ...)`, with `\xHH` escapes in the arguments. This
//! library recovers the arguments, builds a telemetry record from the pages,
//! and decides what a scrape does at each step: log in, fetch the optical
//! page, probe the optional pages, log out. It sends nothing itself; the
//! caller carries the requests.

pub mod error;
pub mod text;
pub mod escape;
pub mod number;
pub mod pattern;
pub mod encoding;
pub mod literal;
pub mod parser;
pub mod pages;
pub mod client;
pub mod metrics;
