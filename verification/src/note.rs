use vstd::prelude::*;

verus! {

/// A note named by its letter, an optional accidental (`s` sharp, `b` flat)
/// and its octave number. Enharmonic spellings (`Cs` and `Db`, ...) name the
/// same pitch.
#[derive(Clone, Copy, Debug, PartialEq, Eq, Structural)]
pub enum Note {
    C(u8),
    Cs(u8),
    Db(u8),
    D(u8),
    Ds(u8),
    Eb(u8),
    E(u8),
    F(u8),
    Fs(u8),
    Gb(u8),
    G(u8),
    Gs(u8),
    Ab(u8),
    A(u8),
    As(u8),
    Bb(u8),
    B(u8),
}

/// Semitones of a natural letter above C.
pub open spec fn letter_semitone(letter: char) -> int {
    if letter == 'C' { 0 }
    else if letter == 'D' { 2 }
    else if letter == 'E' { 4 }
    else if letter == 'F' { 5 }
    else if letter == 'G' { 7 }
    else if letter == 'A' { 9 }
    else { 11 }
}

/// Whether a pitch class (semitones above C, `0..12`) is a white key.
pub open spec fn is_natural_semitone(s: int) -> bool {
    s == 0 || s == 2 || s == 4 || s == 5 || s == 7 || s == 9 || s == 11
}

impl Note {
    /// The letter of the spelling.
    pub open spec fn letter(self) -> char {
        match self {
            Note::C(_) | Note::Cs(_) => 'C',
            Note::Db(_) | Note::D(_) | Note::Ds(_) => 'D',
            Note::Eb(_) | Note::E(_) => 'E',
            Note::F(_) | Note::Fs(_) => 'F',
            Note::Gb(_) | Note::G(_) | Note::Gs(_) => 'G',
            Note::Ab(_) | Note::A(_) | Note::As(_) => 'A',
            Note::Bb(_) | Note::B(_) => 'B',
        }
    }

    /// The accidental of the spelling: `1` sharp, `-1` flat, `0` natural.
    pub open spec fn accidental(self) -> int {
        match self {
            Note::Cs(_) | Note::Ds(_) | Note::Fs(_) | Note::Gs(_) | Note::As(_) => 1,
            Note::Db(_) | Note::Eb(_) | Note::Gb(_) | Note::Ab(_) | Note::Bb(_) => -1,
            _ => 0,
        }
    }

    /// The octave the note is written in.
    pub open spec fn octave(self) -> u8 {
        match self {
            Note::C(o) | Note::Cs(o) | Note::Db(o) | Note::D(o) | Note::Ds(o) | Note::Eb(o)
            | Note::E(o) | Note::F(o) | Note::Fs(o) | Note::Gb(o) | Note::G(o) | Note::Gs(o)
            | Note::Ab(o) | Note::A(o) | Note::As(o) | Note::Bb(o) | Note::B(o) => o,
        }
    }

    /// Pitch class: semitones above the C of the note's octave.
    pub open spec fn semitone(self) -> int {
        letter_semitone(self.letter()) + self.accidental()
    }

    /// Semitones above C0.
    pub open spec fn pitch(self) -> int {
        12 * self.octave() + self.semitone()
    }

    /// Position of the note within its octave, counting semitones up from C.
    pub fn nth_in_octave(&self) -> (n: u8)
        ensures
            n == self.semitone(),
            n < 12,
    {
        match self {
            Note::C(_) => 0,
            Note::Cs(_) | Note::Db(_) => 1,
            Note::D(_) => 2,
            Note::Ds(_) | Note::Eb(_) => 3,
            Note::E(_) => 4,
            Note::F(_) => 5,
            Note::Fs(_) | Note::Gb(_) => 6,
            Note::G(_) => 7,
            Note::Gs(_) | Note::Ab(_) => 8,
            Note::A(_) => 9,
            Note::As(_) | Note::Bb(_) => 10,
            Note::B(_) => 11,
        }
    }

    /// The octave number the note is written in.
    pub fn octave_number(&self) -> (o: u8)
        ensures
            o == self.octave(),
    {
        match self {
            Note::C(o) | Note::Cs(o) | Note::Db(o) | Note::D(o) | Note::Ds(o) | Note::Eb(o)
            | Note::E(o) | Note::F(o) | Note::Fs(o) | Note::Gb(o) | Note::G(o) | Note::Gs(o)
            | Note::Ab(o) | Note::A(o) | Note::As(o) | Note::Bb(o) | Note::B(o) => *o,
        }
    }

    /// The row of the note on the piano roll, counting semitones up from C0.
    /// Defined while the row fits in a byte.
    pub fn ui_row(&self) -> (row: u8)
        requires
            self.pitch() <= 255,
        ensures
            row == self.pitch(),
    {
        self.nth_in_octave() + 12 * self.octave_number()
    }
}

/// Enharmonic spellings share a row, and distinct pitches never do: two notes
/// are on the same piano-roll row exactly when they have the same pitch class
/// and octave.
pub proof fn lemma_ui_row_identifies_pitch(a: Note, b: Note)
    ensures
        (a.pitch() == b.pitch()) <==> (a.semitone() == b.semitone() && a.octave() == b.octave()),
{
}

} // verus!
