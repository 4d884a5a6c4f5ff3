//! Guidance and warning aids for fleet navigation, with verified contracts:
//! ternary directions and severity levels, foghorns and their warnings,
//! coded light patterns, watchkeepers over registered dangers, and the
//! ship's log.

pub mod signal;
pub mod foghorn;
pub mod pattern;
pub mod shiplog;
pub mod watch;
pub mod guidance;
