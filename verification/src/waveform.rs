use vstd::prelude::*;

verus! {

/// The shape of one period of an oscillator.
#[derive(Clone, Copy, Debug, PartialEq, Eq, Structural)]
pub enum Waveform {
    Sine,
    Square,
    Sawtooth,
}

/// The oscillator shapes of the audio engine's voices.
#[derive(Clone, Copy, Debug, PartialEq, Eq, Structural)]
pub enum Shape {
    Sine,
    Square,
    Triangle,
    Sawtooth,
}

impl Default for Shape {
    fn default() -> (s: Self)
        ensures
            s == Shape::Sine,
    {
        Shape::Sine
    }
}

} // verus!
