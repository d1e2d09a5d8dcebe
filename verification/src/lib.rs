//! Rendering of system metrics into a single status line: the sample cache
//! that remembers the previous counters between runs, the arithmetic that
//! turns two samples into a rate, and the text engine that fits a rendered
//! number into its field and substitutes it into a template.
//!
//! Everything here works on plain values. Reading the metric sources, the
//! clock and the cache files, and rendering floating-point numbers, is left
//! to the program around this library.

pub mod config;
pub mod cpu;
pub mod load;
pub mod mem;
pub mod net;
pub mod record;
pub mod text;
pub mod util;
