//! Reconstruction of call-level timing and memory-lifecycle statistics from
//! captured kernel profiling events.
//!
//! The capture side of the profiler emits two kinds of records: function
//! entry/exit events, tagged with a timestamp, a call depth and a CPU id, and
//! allocation/free records, already paired by address and tagged with a size
//! and a call-site id.  This crate holds the logic that turns those raw
//! streams into per-invocation timing rows with exclusive ("self") time and
//! per-call-site memory usage statistics, together with the per-CPU depth
//! tracking state the capture side maintains.
//!
//! Everything here works on plain values; reading the capture tables, probe
//! attachment and output formatting live outside the library.

pub mod catalog;
pub mod depth;
pub mod memory;
pub mod records;
pub mod throughput;
pub mod time;
pub mod xdp;
pub mod utils;
