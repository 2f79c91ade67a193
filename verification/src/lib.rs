//! Verified core of a language, locale and timezone configuration tool.
//!
//! The library parses the bundled lookup tables (language codes, locales,
//! timezones), interprets the output of the system queries that report the
//! current keymap, locale and timezone, resolves a user's selection back to
//! system identifiers, extracts a suggested selection from a geolocation
//! response, and builds the exact sequence of shell commands that applies a
//! selection to the system.  Running those commands, the network call and the
//! user interface live outside the library.

pub mod geo;
pub mod lookup;
pub mod sort;
pub mod system;
pub mod tables;
pub mod text;
