//! Chromix: an OKLCH color tool for the terminal.
//!
//! This library holds the parts of the tool that work on plain values: hex
//! color parsing and formatting, the tonal scale tables, the WCAG usage
//! advice, word wrapping, the prompt and token-file texts, and the splash
//! screen highlighting. The color math itself is floating point and lives
//! with the command in `app/`.

pub mod cli;
pub mod color;
pub mod gradient;
pub mod prompt;
pub mod ramp;
pub mod render;
pub mod splash;
pub mod text;
pub mod tokens;
pub mod wcag;
