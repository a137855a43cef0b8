//! Verified core of the PXU figure, plot and presentation tools.
//!
//! Floating-point values never enter this crate: where a description carries
//! a float, the library stores its IEEE-754 bit pattern and leaves the
//! arithmetic to the programs that use it.
use vstd::prelude::*;

pub mod interactive_figures;
pub mod io_error;
pub mod checksum;
pub mod components;
pub mod fig_compiler;
pub mod fig_writer;
pub mod make_paths;
pub mod plot;
pub mod presentation;
pub mod provider;
pub mod presentation_description;

verus! {

} // verus!
