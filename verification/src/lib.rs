//! Verified core of a log-file activity monitor.
//!
//! The library has two cooperating engines. A [`scanner::FileScanner`] tracks
//! the read offset of a growing log file, splits newly appended bytes into
//! lines (carrying a trailing partial line over to the next read), and
//! classifies each complete line into a semantic event. A
//! [`ten_minutes::TenMinutesMeter`] folds those events, together with a
//! wall-clock sample, into a single display icon over fixed ten-minute
//! windows.
//!
//! All file, watch and tray I/O lives outside the library; it hands the
//! library plain bytes and seconds and receives events and icons back.

pub mod classify;
pub mod scanner;
pub mod ten_minutes;
