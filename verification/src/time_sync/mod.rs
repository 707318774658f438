//! Wall-clock time from an SNTP server, kept as an offset to the monotonic clock.
pub mod sntp;
