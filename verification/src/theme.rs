use vstd::prelude::*;

verus! {

/// An opaque sRGB color.
#[derive(Clone, Copy, Debug, PartialEq, Eq, Structural)]
pub struct Rgb {
    pub r: u8,
    pub g: u8,
    pub b: u8,
}

/// The colors of the piano roll.
#[derive(Clone, Copy, Debug, PartialEq, Eq, Structural)]
pub struct PianoRollTheme {
    pub white_key_line: Rgb,
    pub black_key_line: Rgb,
    pub key_separator: Rgb,
    pub outline: Rgb,
    pub white_key: Rgb,
    pub black_key: Rgb,
    pub seek_bar: Rgb,
    pub c_key_text: Rgb,
}

/// The colors of the interface.
#[derive(Clone, Copy, Debug, PartialEq, Eq, Structural)]
pub struct Theme {
    pub piano_roll: PianoRollTheme,
}

impl Theme {
    /// The Catppuccin Mocha palette: surface 0, base, subtext 1, crust, text,
    /// mantle, blue and surface 2.
    pub fn catppuccin_mocha() -> (t: Self)
        ensures
            t.piano_roll.white_key_line == (Rgb { r: 49, g: 50, b: 68 }),
            t.piano_roll.black_key_line == (Rgb { r: 30, g: 30, b: 46 }),
            t.piano_roll.key_separator == (Rgb { r: 186, g: 194, b: 222 }),
            t.piano_roll.outline == (Rgb { r: 17, g: 17, b: 27 }),
            t.piano_roll.white_key == (Rgb { r: 205, g: 214, b: 244 }),
            t.piano_roll.black_key == (Rgb { r: 24, g: 24, b: 37 }),
            t.piano_roll.seek_bar == (Rgb { r: 137, g: 180, b: 250 }),
            t.piano_roll.c_key_text == (Rgb { r: 88, g: 91, b: 112 }),
    {
        Theme {
            piano_roll: PianoRollTheme {
                white_key_line: Rgb { r: 49, g: 50, b: 68 },
                black_key_line: Rgb { r: 30, g: 30, b: 46 },
                key_separator: Rgb { r: 186, g: 194, b: 222 },
                outline: Rgb { r: 17, g: 17, b: 27 },
                white_key: Rgb { r: 205, g: 214, b: 244 },
                black_key: Rgb { r: 24, g: 24, b: 37 },
                seek_bar: Rgb { r: 137, g: 180, b: 250 },
                c_key_text: Rgb { r: 88, g: 91, b: 112 },
            },
        }
    }
}

} // verus!
