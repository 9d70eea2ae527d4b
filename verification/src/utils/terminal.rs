//! The value carried back from an interactive prompt: an answer that has
//! already passed a set of [`crate::utils::sanitize::Sanitize`] filters.
//! Reading from the terminal itself is left to the program around the
//! library; it validates each line with [`crate::utils::sanitize::Sanitize::execute`]
//! and keeps the first accepted answer here.

use vstd::prelude::*;

verus! {

/// A validated answer read from the terminal.
pub struct Terminal {
    pub answer: String,
}

impl Terminal {
    /// Wraps an answer that the caller has already validated.
    pub fn new(answer: String) -> (t: Terminal)
        ensures
            t.answer@ == answer@,
    {
        Terminal { answer }
    }
}

} // verus!
