//! A live latency monitor's core: the rolling window of round-trip times with
//! its statistics, the grammar of a prober's textual report, and the two state
//! machines (sampling and dashboard) that a thin shell drives.
//!
//! Quantities with a fractional part are held as integers that count
//! thousandths: a round-trip time of 12.345 ms is `12_345` (microseconds), a
//! loss of 25 % is `25_000`.

pub mod channel;
pub mod pinger;
pub mod report;
pub mod window;
pub mod ui;
