//! The settings of a run.

use vstd::prelude::*;

verus! {

/// The settings of one run, shared read-only by every renderer.
#[derive(Debug)]
pub struct Config {
    /// Identifies the client whose cache files are used; needed by every
    /// metric family that keeps a previous sample.
    pub client_pid: Option<String>,
    /// Seconds between two runs for the same client.
    pub status_interval: u64,
    /// The template into which the metrics are rendered.
    pub format: String,
    /// Minimum width, maximum width and decimal precision of rendered numbers.
    pub extras: Option<(usize, usize, usize)>,
    /// Names of the network interfaces to sum; empty means all but loopback.
    pub interfaces: Vec<String>,
    /// Whether load gradients are relative to physical rather than logical cores.
    pub physical: bool,
    /// Directory that holds the cache files.
    pub cachedir: String,
}

impl Config {
    /// The width and precision policy, with the defaults where none was given:
    /// no minimum, no maximum, no decimals.
    pub open spec fn policy(&self) -> (usize, usize, usize) {
        match self.extras {
            Some(e) => e,
            None => (0usize, usize::MAX, 0usize),
        }
    }

    /// Returns the minimum width, maximum width and precision in force.
    pub fn render_policy(&self) -> (p: (usize, usize, usize))
        ensures
            p == self.policy(),
    {
        match self.extras {
            Some(e) => e,
            None => (0usize, usize::MAX, 0usize),
        }
    }
}

} // verus!
