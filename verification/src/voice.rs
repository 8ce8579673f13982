use vstd::prelude::*;
use crate::envelope::Adsr;

verus! {

/// How many notes the engine can sound at once.
pub const VOICE_COUNT: usize = 8;

/// The discrete state of one voice of the engine: whether it is free, and the
/// stage of its envelope. `params` holds what the voice computes with
/// (oscillator phase, pitch, loudness, note times), which this crate carries
/// without reading.
pub struct Voice<T, P> {
    pub asleep: bool,
    pub stage: Adsr<T>,
    pub params: P,
}

/// What the renderer does with a voice for the current frame.
#[derive(Clone, Copy, Debug, PartialEq, Eq, Structural)]
pub enum RenderStep {
    /// The envelope had finished: the voice is put back to sleep (its
    /// parameters are to be reset) and stays silent.
    Retired,
    /// The voice is asleep, or waits for its note to start: silent.
    Idle,
    /// The voice sounds.
    Sounding,
}

impl<T, P> Voice<T, P> {
    /// A sleeping voice whose envelope waits at its start.
    pub fn new(params: P) -> (v: Self)
        ensures
            v.asleep,
            v.stage is Waiting,
            v.params == params,
    {
        Voice { asleep: true, stage: Adsr::Waiting, params }
    }

    /// Decides, at the start of rendering a frame, what the voice does.
    /// `before_start` tells whether the frame's time lies before the note's
    /// start. A finished envelope retires the voice.
    pub fn begin_render(&mut self, before_start: bool) -> (step: RenderStep)
        ensures
            old(self).stage is Finished ==> step == RenderStep::Retired && final(self).asleep
                && final(self).stage == old(self).stage && final(self).params == old(self).params,
            !(old(self).stage is Finished) ==> *final(self) == *old(self),
            !(old(self).stage is Finished) ==> (step == RenderStep::Sounding <==> !old(self).asleep
                && !(old(self).stage is Waiting && before_start)),
            !(old(self).stage is Finished) ==> step != RenderStep::Retired,
    {
        if self.stage.is_finished() {
            self.asleep = true;
            return RenderStep::Retired;
        }
        if self.asleep || (self.stage.is_waiting() && before_start) {
            RenderStep::Idle
        } else {
            RenderStep::Sounding
        }
    }
}

/// Whether some voice of the bank is free.
pub open spec fn has_asleep<T, P>(voices: Seq<Voice<T, P>>) -> bool {
    exists|j: int| 0 <= j < voices.len() && #[trigger] voices[j].asleep
}

/// Hands a new note to the first sleeping voice: it wakes with its envelope
/// waiting at the start, and its index is returned so that the note's
/// parameters can be written into it. When every voice is busy the note is
/// dropped and nothing changes.
pub fn wake_first_asleep<T, P>(voices: &mut Vec<Voice<T, P>>) -> (woken: Option<usize>)
    ensures
        final(voices)@.len() == old(voices)@.len(),
        match woken {
            Some(i) => {
                &&& i < old(voices)@.len()
                &&& old(voices)@[i as int].asleep
                &&& forall|j: int| 0 <= j < i ==> !(#[trigger] old(voices)@[j]).asleep
                &&& !final(voices)@[i as int].asleep
                &&& final(voices)@[i as int].stage is Waiting
                &&& final(voices)@[i as int].params == old(voices)@[i as int].params
                &&& forall|j: int|
                    0 <= j < old(voices)@.len() && j != i ==> #[trigger] final(voices)@[j]
                        == old(voices)@[j]
            },
            None => !has_asleep(old(voices)@) && final(voices)@ == old(voices)@,
        },
{
    let n: usize = voices.len();
    let mut i: usize = 0;
    while i < n
        invariant
            n == voices@.len(),
            voices@ == old(voices)@,
            i <= n,
            forall|j: int| 0 <= j < i ==> !(#[trigger] voices@[j]).asleep,
        decreases n - i,
    {
        if voices[i].asleep {
            voices[i].asleep = false;
            voices[i].stage = Adsr::Waiting;
            return Some(i);
        }
        i = i + 1;
    }
    None
}

} // verus!
