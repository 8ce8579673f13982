use vstd::prelude::*;

verus! {

/// A reference pitch.
#[derive(Clone, Copy, Debug, PartialEq, Eq, Structural)]
pub enum Note {
    /// Concert A, 440 Hz.
    A4,
}

} // verus!
