//! The command line options of the program.
use vstd::prelude::*;

verus! {

/// The command line options.
#[derive(Debug, Clone, PartialEq)]
pub struct Args {
    /// How many times per second the screen is drawn.
    pub fps: usize,
    /// How many ticks per second.
    pub tps: usize,
    /// A JSON file holding an array of the words to use.
    pub words_path: Option<String>,
    /// A JSON file mapping each source to its quotes.
    pub quotes_path: Option<String>,
}

} // verus!
