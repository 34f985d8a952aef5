//! A verified core for a command-line backlight brightness tool.
//!
//! The kernel exposes a backlight interface as a directory holding two
//! plain-text files, `brightness` and `max_brightness`, each the decimal
//! text of an unsigned integer.  This crate holds everything of that tool
//! that computes: resolving the interface name, parsing and rendering the
//! two files, converting between raw units and the user-facing percentage
//! scale, clamping, and interpreting command-line arguments.  The thin
//! shell around it does the actual reads and writes and hands the text in
//! and out as plain values.
//!
//! Percentages are carried in milli-percent units (thousandths of a
//! percentage point), so the user-facing range 0.1% to 100.0% is the
//! integer range 100 to 100_000 and every conversion is exact integer
//! arithmetic with truncation, as the tool's behaviour demands.

pub mod amount;
pub mod cli;
pub mod device;
pub mod errors;
pub mod numtext;
pub mod percent;
pub mod resolve;
