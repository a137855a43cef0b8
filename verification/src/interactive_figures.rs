//! The settings of the program that builds the interactive figures.
use vstd::prelude::*;

use crate::io_error::{io_error_kind_is_other, io_error_payload, other_io_error};

verus! {

/// An I/O error of kind `Other` that carries `message`.
pub fn error(message: &str) -> (e: std::io::Error)
    ensures
        io_error_kind_is_other(e),
        io_error_payload(e) == message@,
{
    other_io_error(message)
}

/// The command line of the figure builder.
#[derive(Debug, Clone)]
pub struct Settings {
    /// Where the figures are written.
    pub output_dir: String,
    /// Build every figure again.
    pub rebuild: bool,
    /// How often `-v` was given.
    pub verbose: u8,
    /// How many jobs run at once, when given.
    pub jobs: Option<usize>,
}

impl Settings {
    /// Whether progress is logged instead of shown as progress bars.
    pub fn is_verbose(&self) -> (r: bool)
        ensures
            r == (self.verbose > 0),
    {
        self.verbose > 0
    }

    /// The number of worker threads: the jobs asked for, or else the number
    /// of processors the machine reports (`available`).
    pub fn thread_count(&self, available: usize) -> (r: usize)
        ensures
            r == match self.jobs {
                Some(jobs) => jobs,
                None => available,
            },
    {
        match self.jobs {
            Some(jobs) => jobs,
            None => available,
        }
    }
}

} // verus!
