//! Text search over a directory tree: the pure core of a small file-system
//! helper. Everything here works on plain values; reading files, walking
//! directories and drawing on the terminal are left to the program around it.
//!
//! - `paths` sorts what a walk of the tree came upon into the files to work
//!   on, and picks a file by its name.
//! - `text` cuts a text into lines and tests for substrings.
//! - `window` cuts the lines around a match.
//! - `scanner` finds the matching lines of one text.
//! - `search` gathers the results of a scan, file by file.
//! - `progress` counts the files examined.
//! - `present` gives the text that is shown for a result.
//! - `command` and `error` hold the commands, what they decide, and the
//!   exit status of each way to fail.

pub mod command;
pub mod error;
pub mod paths;
pub mod present;
pub mod progress;
pub mod scanner;
pub mod search;
pub mod text;
pub mod window;
