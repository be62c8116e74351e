//! The kinds of typing test: a quote, a number of words, or a time limit.
use vstd::prelude::*;

verus! {

/// What a typing test is made of.
#[derive(Clone, Copy, PartialEq, Eq, Debug, Structural)]
pub enum Mode {
    /// A random quote.
    Quote,
    /// A number of random words; the menu offers 10, 25, 50 or 100.
    Words(usize),
    /// A time limit in seconds; the menu offers 15, 30, 60 or 120.
    Time(usize),
}

impl Default for Mode {
    /// A quote.
    fn default() -> (res: Self)
        ensures
            res == Mode::Quote,
    {
        Mode::Quote
    }
}

} // verus!
