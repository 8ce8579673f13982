use vstd::prelude::*;
use crate::note::{is_natural_semitone, Note};
use vstd::arithmetic::div_mod::lemma_mod_multiples_vanish;

verus! {

/// Rows of the piano roll: one per key of an 88-key piano, highest (C8) on
/// top at row 0, lowest (A0) at row 87.
pub const ROLL_ROWS: u8 = 88;

/// Whether row `row` of an octave band, counting down from B (row 0) to C
/// (row 11), is drawn in the white-key shade.
pub fn octave_row_is_white(row: u8) -> (white: bool)
    ensures
        white == (row % 2 == (if row > 6 { 1int } else { 0int })),
        row < 12 ==> (white <==> is_natural_semitone(11 - row)),
{
    row % 2 == (if row > 6 { 1 } else { 0 })
}

/// The band row of the black key drawn `i`-th.
pub open spec fn black_key_offset(i: int) -> int {
    2 * i + (if i < 3 { 1int } else { 0int })
}

/// The row below the top of an octave band at which the black key drawn
/// `i`-th (`0..6`, the fourth being skipped) lies.
pub fn black_key_row(i: u8) -> (row: Option<u8>)
    requires
        i < 6,
    ensures
        i == 3 ==> row is None,
        i != 3 ==> row == Some(black_key_offset(i as int) as u8),
{
    if i == 3 {
        None
    } else {
        Some(i * 2 + (if i < 3 { 1 } else { 0 }))
    }
}

/// The black keys are drawn exactly on the black-shaded rows of the band.
pub proof fn lemma_black_keys_on_black_rows(r: u8)
    requires
        r < 12,
    ensures
        (exists|i: int| 0 <= i < 6 && i != 3 && r == #[trigger] black_key_offset(i))
            <==> !(r % 2 == (if r > 6 { 1int } else { 0int })),
{
    if r == 1 {
        assert(r == black_key_offset(0));
    } else if r == 3 {
        assert(r == black_key_offset(1));
    } else if r == 5 {
        assert(r == black_key_offset(2));
    } else if r == 8 {
        assert(r == black_key_offset(4));
    } else if r == 10 {
        assert(r == black_key_offset(5));
    }
}

/// How strongly the `i`-th vertical grid line (one every quarter second) is
/// drawn: `2` every four seconds, `1` every second, `0` otherwise.
pub fn grid_line_emphasis(i: u32) -> (level: u8)
    ensures
        level == (if i % 4 == 0 { 1int } else { 0int }) + (if i % 16 == 0 { 1int } else { 0int }),
        level <= 2,
{
    (if i % 4 == 0 { 1 } else { 0 }) + (if i % 16 == 0 { 1 } else { 0 })
}

/// Semitones above C0 of the key on row `row` of the roll.
pub open spec fn row_pitch(row: int) -> int {
    96 - row
}

/// The pitch (semitones above C0) of the key on a row of the roll.
pub fn roll_row_pitch(row: u8) -> (pitch: u8)
    requires
        row < ROLL_ROWS,
    ensures
        pitch == row_pitch(row as int),
        9 <= pitch <= 96,
{
    96 - row
}

/// The octave number of the key on a row; C rows are labelled with it.
pub fn roll_row_octave(row: u8) -> (octave: u8)
    requires
        row < ROLL_ROWS,
    ensures
        octave == row_pitch(row as int) / 12,
        octave <= 8,
{
    (96 - row) / 12
}

/// Whether the key on a row of the roll is a white key, as its band row
/// shades it.
pub fn roll_row_is_white(row: u8) -> (white: bool)
    requires
        row < ROLL_ROWS,
    ensures
        white == is_natural_semitone(row_pitch(row as int) % 12),
{
    octave_row_is_white((row + 11) % 12)
}

/// A note within the piano's range lies on the roll row of its pitch, and
/// that row is shaded white exactly when the note is spelled without an
/// accidental.
pub proof fn lemma_note_row_shade(n: Note)
    requires
        9 <= n.pitch() <= 96,
    ensures
        0 <= 96 - n.pitch() < 88,
        row_pitch(96 - n.pitch()) == n.pitch(),
        is_natural_semitone(row_pitch(96 - n.pitch()) % 12) <==> n.accidental() == 0,
{
    assert(n.pitch() % 12 == n.semitone());
}

/// The palette shade (`1` light, `0` dark) of the `r`-th row of an octave
/// band counting up from C, as the classic view paints it.
pub fn band_row_shade(r: u8) -> (shade: usize)
    requires
        r < 12,
    ensures
        shade == (if is_natural_semitone(r as int) { 1int } else { 0int }),
{
    let shades: [usize; 12] = [1, 0, 1, 0, 1, 1, 0, 1, 0, 1, 0, 1];
    shades[r as usize]
}

/// The gap, in black-key heights, after the `i`-th black key of the classic
/// view's octave band (`0..5`): double after the second, where E and F meet.
pub fn black_key_gap(i: u8) -> (gap: u8)
    requires
        i < 5,
    ensures
        gap == (if i == 1 { 4int } else { 2int }),
{
    if i == 1 { 4 } else { 2 }
}

/// Whether row `k` of the roll carries a black key.
pub open spec fn is_black_row(k: int) -> bool {
    let r = k % 12;
    r == 2 || r == 4 || r == 6 || r == 9 || r == 11
}

/// Black rows are exactly the rows not shaded white.
pub proof fn lemma_black_rows_are_not_white(k: int)
    requires
        0 <= k < 88,
    ensures
        is_black_row(k) <==> !is_natural_semitone(row_pitch(k) % 12),
{
}

/// How many band rows, from the top of a band, the keys drawn before the
/// `i`-th black key account for.
spec fn band_rows_covered(i: int) -> int {
    if i == 0 {
        0
    } else if i == 1 {
        2
    } else if i == 2 {
        4
    } else if i <= 4 {
        6
    } else if i == 5 {
        9
    } else {
        11
    }
}

proof fn lemma_band_row_mod(b: int, r: int)
    requires
        0 <= b,
        0 <= r < 12,
    ensures
        (1 + 12 * b + r) % 12 == (1 + r) % 12,
{
    lemma_mod_multiples_vanish(b, 1 + r, 12);
}

/// The rows of the roll on which black keys are drawn, from the top: the
/// black keys of seven full octave bands (each starting one row below the
/// top C), then the one black key of the band cut off at the bottom. They
/// are exactly the black rows.
pub fn roll_black_key_rows() -> (rows: Vec<u8>)
    ensures
        rows@.len() == 36,
        forall|i: int, j: int| 0 <= i < j < rows@.len() ==> #[trigger] rows@[i] < #[trigger] rows@[j],
        forall|j: int| 0 <= j < rows@.len() ==> #[trigger] rows@[j] < ROLL_ROWS && is_black_row(
            rows@[j] as int,
        ),
        forall|k: int| 0 <= k < ROLL_ROWS && is_black_row(k) ==> rows@.contains(k as u8),
{
    let mut rows: Vec<u8> = Vec::new();
    let mut band: u8 = 0;
    while band < 8
        invariant
            band <= 8,
            rows@.len() == (if band <= 7 { 5 * band } else { 36 }),
            forall|i: int, j: int| 0 <= i < j < rows@.len() ==> #[trigger] rows@[i] < #[trigger] rows@[j],
            forall|j: int|
                0 <= j < rows@.len() ==> #[trigger] rows@[j] < (if band <= 7 { 1 + 12 * band } else { 88 })
                    && is_black_row(rows@[j] as int),
            forall|k: int|
                0 <= k < (if band <= 7 { 1 + 12 * band } else { 88 }) && is_black_row(k) ==> rows@.contains(
                    k as u8,
                ),
        decreases 8 - band,
    {
        let base: u8 = 1 + 12 * band;
        let keys: u8 = if band < 7 { 6 } else { 1 };
        let mut i: u8 = 0;
        while i < keys
            invariant
                band < 8,
                base == 1 + 12 * band,
                keys == (if band < 7 { 6u8 } else { 1u8 }),
                i <= keys,
                rows@.len() == 5 * band + (if i <= 3 { i as int } else { i - 1 }),
                forall|a: int, c: int| 0 <= a < c < rows@.len() ==> #[trigger] rows@[a] < #[trigger] rows@[c],
                forall|j: int|
                    0 <= j < rows@.len() ==> #[trigger] rows@[j] < base + band_rows_covered(i as int)
                        && is_black_row(rows@[j] as int),
                forall|k: int|
                    0 <= k < base + band_rows_covered(i as int) && is_black_row(k) ==> rows@.contains(
                        k as u8,
                    ),
            decreases keys - i,
        {
            let ghost before = rows@;
            match black_key_row(i) {
                Some(offset) => {
                    rows.push(base + offset);
                    proof {
                        lemma_band_row_mod(band as int, offset as int);
                        assert(rows@[rows@.len() - 1] == base + offset);
                        assert forall|k: int|
                            0 <= k < base + band_rows_covered(i + 1) && is_black_row(k) implies rows@.contains(
                            k as u8,
                        ) by {
                            if k >= base {
                                lemma_band_row_mod(band as int, k - base);
                            }
                            if k < base + band_rows_covered(i as int) {
                                let j = choose|j: int| 0 <= j < before.len() && before[j] == k as u8;
                                assert(rows@[j] == k as u8);
                            } else {
                                assert(k == base + offset);
                                assert(rows@[rows@.len() - 1] == k as u8);
                            }
                        }
                    }
                },
                None => {},
            }
            i = i + 1;
        }
        proof {
            if band < 7 {
                assert(band_rows_covered(6) == 11);
                assert((1 + 12 * band + 11) % 12 == 0) by {
                    lemma_band_row_mod(band as int, 11);
                }
            } else {
                assert(band_rows_covered(1) == 2);
            }
        }
        band = band + 1;
    }
    rows
}

} // verus!
