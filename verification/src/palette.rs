use vstd::prelude::*;
use crate::theme::Rgb;

verus! {

/// The background shades of the dark palette.
pub open spec fn dark_bg() -> Seq<Rgb> {
    seq![
        Rgb { r: 16, g: 0, b: 43 },
        Rgb { r: 36, g: 0, b: 70 },
        Rgb { r: 60, g: 9, b: 108 },
        Rgb { r: 90, g: 24, b: 154 },
        Rgb { r: 123, g: 44, b: 191 },
        Rgb { r: 157, g: 78, b: 221 },
        Rgb { r: 199, g: 125, b: 255 },
        Rgb { r: 224, g: 170, b: 255 },
    ]
}

/// The foreground shades of the dark palette.
pub open spec fn dark_fg() -> Seq<Rgb> {
    seq![
        Rgb { r: 248, g: 249, b: 250 },
        Rgb { r: 222, g: 226, b: 230 },
        Rgb { r: 206, g: 212, b: 218 },
        Rgb { r: 173, g: 181, b: 189 },
        Rgb { r: 108, g: 117, b: 125 },
        Rgb { r: 73, g: 80, b: 87 },
        Rgb { r: 52, g: 58, b: 64 },
        Rgb { r: 33, g: 37, b: 41 },
    ]
}

/// Eight background shades from darkest to lightest, and eight foreground
/// shades from lightest to darkest.
#[derive(Clone, Copy, Debug)]
pub struct Palette {
    pub bg: [Rgb; 8],
    pub fg: [Rgb; 8],
}

impl Palette {
    /// Purple backgrounds and grey foregrounds.
    pub fn dark() -> (p: Self)
        ensures
            p.bg@ == dark_bg(),
            p.fg@ == dark_fg(),
    {
        let bg: [Rgb; 8] = [
            Rgb { r: 16, g: 0, b: 43 },
            Rgb { r: 36, g: 0, b: 70 },
            Rgb { r: 60, g: 9, b: 108 },
            Rgb { r: 90, g: 24, b: 154 },
            Rgb { r: 123, g: 44, b: 191 },
            Rgb { r: 157, g: 78, b: 221 },
            Rgb { r: 199, g: 125, b: 255 },
            Rgb { r: 224, g: 170, b: 255 },
        ];
        let fg: [Rgb; 8] = [
            Rgb { r: 248, g: 249, b: 250 },
            Rgb { r: 222, g: 226, b: 230 },
            Rgb { r: 206, g: 212, b: 218 },
            Rgb { r: 173, g: 181, b: 189 },
            Rgb { r: 108, g: 117, b: 125 },
            Rgb { r: 73, g: 80, b: 87 },
            Rgb { r: 52, g: 58, b: 64 },
            Rgb { r: 33, g: 37, b: 41 },
        ];
        Palette { bg, fg }
    }
}

/// The colors of the classic piano-roll view.
#[derive(Clone, Copy, Debug)]
pub struct Theme {
    pub palette: Palette,
}

impl Default for Theme {
    fn default() -> (t: Self)
        ensures
            t.palette.bg@ == dark_bg(),
            t.palette.fg@ == dark_fg(),
    {
        Theme { palette: Palette::dark() }
    }
}

} // verus!
