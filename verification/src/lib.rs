//! Configuration bootstrap for the dotflow dotfile manager.
//!
//! Before any command runs, the tool guarantees that a well-formed
//! per-user configuration file exists at `<home>/.dotflow.toml`, reads
//! it, and loads it into a typed [`config::Configuration`] value,
//! synthesizing the default `<home>/.config` when the `path` field is
//! absent.  Every failure (no home directory, unreadable file,
//! malformed file) is surfaced as a typed error that the process entry
//! point turns into a diagnostic on stderr and a nonzero exit.
//!
//! The accepted file format is line based: blank lines, `#` comments,
//! `[section]` headers whose names are made of letters, digits, `_`
//! and `-`, and `key = value` assignments.  Unknown sections and keys
//! are accepted and ignored, whatever their value text; only `path`
//! inside `[config]` is consumed, and its value must be a quoted
//! string without inner quotes or backslashes.  An empty `path` value
//! counts as unset, so a loaded configuration's path is never empty.
//! A file with content but no `[config]` section is rejected; a file
//! with no content at all counts as an empty configuration and loads
//! to the defaults, as a freshly created file must.

pub mod text;
pub mod config;
pub mod parse;
pub mod bootstrap;
pub mod homedir;

