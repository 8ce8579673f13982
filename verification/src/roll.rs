use vstd::prelude::*;
use crate::note::Note;

verus! {

/// A note as the classic piano-roll view shows it.
#[derive(Clone, Copy, Debug, PartialEq, Eq, Structural)]
pub struct Voice {
    pub note: Note,
}

impl From<Note> for Voice {
    fn from(note: Note) -> (v: Self) {
        Voice { note }
    }
}

impl vstd::std_specs::convert::FromSpecImpl<Note> for Voice {
    open spec fn obeys_from_spec() -> bool {
        true
    }

    open spec fn from_spec(note: Note) -> Self {
        Voice { note }
    }
}

/// Turns notes into the voices that the view draws.
pub trait NotesToUiVoices {
    fn to_ui_voices(&self) -> Vec<Voice>;
}

impl NotesToUiVoices for Vec<Note> {
    /// One voice per note, in order.
    fn to_ui_voices(&self) -> (voices: Vec<Voice>)
        ensures
            voices@.len() == self@.len(),
            forall|i: int| 0 <= i < self@.len() ==> #[trigger] voices@[i] == (Voice { note: self@[i] }),
    {
        let mut voices: Vec<Voice> = Vec::new();
        let n: usize = self.len();
        let mut i: usize = 0;
        while i < n
            invariant
                n == self@.len(),
                i <= n,
                voices@.len() == i,
                forall|j: int| 0 <= j < i ==> #[trigger] voices@[j] == (Voice { note: self@[j] }),
            decreases n - i,
        {
            voices.push(Voice::from(self[i]));
            i = i + 1;
        }
        voices
    }
}

} // verus!
