//! Collects a user's cloud meeting recordings: normalizes each meeting's
//! start time into its own time zone, rounds near-hour times to the hour,
//! selects meetings inside a lookback window, derives a deterministic
//! date/time file layout for every recording file, decides which planned
//! files are new, and composes the summary notification.

pub mod config;
pub mod fmt;
pub mod jsonio;
pub mod mailapi;
pub mod manifest;
pub mod notify;
pub mod plan;
pub mod pipeline;
pub mod time;
pub mod timeapi;
pub mod zoom;
