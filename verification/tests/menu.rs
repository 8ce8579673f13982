use dondon::menu::{
    decimal_width_of, menu_padding, parse_usize, preselect, resolve_choice, resolve_trimmed, Choice,
    ChoiceError,
};
use dondon::palette::{Palette, Theme as ClassicTheme};
use dondon::pitch::Note as ReferencePitch;
use dondon::theme::{Rgb, Theme};

#[test]
fn parses_unsigned_decimals() {
    assert_eq!(parse_usize("0"), Some(0));
    assert_eq!(parse_usize("42"), Some(42));
    assert_eq!(parse_usize("+7"), Some(7));
    assert_eq!(parse_usize("007"), Some(7));
    assert_eq!(parse_usize(&usize::MAX.to_string()), Some(usize::MAX));
}

#[test]
fn rejects_what_is_not_an_unsigned_decimal() {
    assert_eq!(parse_usize(""), None);
    assert_eq!(parse_usize("+"), None);
    assert_eq!(parse_usize("-"), None);
    assert_eq!(parse_usize("-1"), None);
    assert_eq!(parse_usize("++1"), None);
    assert_eq!(parse_usize("1a"), None);
    assert_eq!(parse_usize(" 1"), None);
    assert_eq!(parse_usize("١"), None);
    assert_eq!(parse_usize("18446744073709551616"), None);
    assert_eq!(parse_usize("99999999999999999999999"), None);
}

#[test]
fn parsing_agrees_with_std() {
    for s in ["0", "12", "+3", "+", "", "-0", "1_000", "4294967296", "18446744073709551615", "18446744073709551616", "9 "] {
        assert_eq!(parse_usize(s), s.parse::<usize>().ok(), "{s:?}");
    }
}

#[test]
fn menu_numbers_are_right_aligned() {
    assert_eq!(decimal_width_of(0), 1);
    assert_eq!(decimal_width_of(9), 1);
    assert_eq!(decimal_width_of(10), 2);
    assert_eq!(decimal_width_of(12345), 5);
    assert_eq!(menu_padding(12, 3), 1);
    assert_eq!(menu_padding(12, 10), 0);
    assert_eq!(menu_padding(100, 7), 2);
    assert_eq!(menu_padding(5, 5), 0);
}

#[test]
fn no_question_for_zero_or_one_option() {
    assert_eq!(preselect(0), Some(Err(ChoiceError::NoOptions)));
    assert_eq!(preselect(1), Some(Ok(0)));
    assert_eq!(preselect(2), None);
}

#[test]
fn answer_picks_an_option_counting_from_one() {
    assert_eq!(resolve_trimmed(3, false, "1"), Ok(Choice::Picked(0)));
    assert_eq!(resolve_trimmed(3, true, "3"), Ok(Choice::Picked(2)));
    assert_eq!(resolve_trimmed(3, true, ""), Ok(Choice::Default));
}

#[test]
fn each_refusal_has_its_reason() {
    assert_eq!(resolve_trimmed(3, false, ""), Err(ChoiceError::NoDefault));
    assert_eq!(resolve_trimmed(3, true, "x"), Err(ChoiceError::NotANumber));
    assert_eq!(resolve_trimmed(3, true, "0"), Err(ChoiceError::OutOfRange(0)));
    assert_eq!(resolve_trimmed(3, true, "4"), Err(ChoiceError::OutOfRange(4)));
}

#[test]
fn typed_line_is_trimmed_before_reading() {
    assert_eq!(resolve_choice(3, false, "  2\n"), Ok(Choice::Picked(1)));
    assert_eq!(resolve_choice(3, true, " \t\n"), Ok(Choice::Default));
    assert_eq!(resolve_choice(3, false, "\u{3000}3\u{a0}"), Ok(Choice::Picked(2)));
    assert_eq!(resolve_choice(3, false, "\n"), Err(ChoiceError::NoDefault));
    assert_eq!(resolve_choice(3, false, "2 2\n"), Err(ChoiceError::NotANumber));
}

#[test]
fn catppuccin_mocha_colors() {
    let t = Theme::catppuccin_mocha();
    assert_eq!(t.piano_roll.white_key_line, Rgb { r: 49, g: 50, b: 68 });
    assert_eq!(t.piano_roll.black_key_line, Rgb { r: 30, g: 30, b: 46 });
    assert_eq!(t.piano_roll.key_separator, Rgb { r: 186, g: 194, b: 222 });
    assert_eq!(t.piano_roll.outline, Rgb { r: 17, g: 17, b: 27 });
    assert_eq!(t.piano_roll.white_key, Rgb { r: 205, g: 214, b: 244 });
    assert_eq!(t.piano_roll.black_key, Rgb { r: 24, g: 24, b: 37 });
    assert_eq!(t.piano_roll.seek_bar, Rgb { r: 137, g: 180, b: 250 });
    assert_eq!(t.piano_roll.c_key_text, Rgb { r: 88, g: 91, b: 112 });
}

#[test]
fn dark_palette_runs_dark_to_light() {
    let p = Palette::dark();
    assert_eq!(p.bg[0], Rgb { r: 16, g: 0, b: 43 });
    assert_eq!(p.bg[7], Rgb { r: 224, g: 170, b: 255 });
    assert_eq!(p.fg[0], Rgb { r: 248, g: 249, b: 250 });
    assert_eq!(p.fg[7], Rgb { r: 33, g: 37, b: 41 });
    let t = ClassicTheme::default();
    assert_eq!(t.palette.bg, p.bg);
    assert_eq!(t.palette.fg, p.fg);
    assert_eq!(ReferencePitch::A4, ReferencePitch::A4);
}

#[test]
fn every_white_space_character_is_trimmed() {
    let white: Vec<char> = (0x09u32..=0x0d)
        .chain([0x20, 0x85, 0xa0, 0x1680])
        .chain(0x2000..=0x200a)
        .chain([0x2028, 0x2029, 0x202f, 0x205f, 0x3000])
        .map(|u| char::from_u32(u).unwrap())
        .collect();
    assert_eq!(white.len(), 25);
    for c in white {
        assert!(c.is_whitespace());
        assert_eq!(resolve_choice(2, false, &format!("{c}{c}1{c}")), Ok(Choice::Picked(0)));
    }
    for c in ['\u{200b}', '\u{feff}', '\u{180e}', 'x'] {
        assert!(!c.is_whitespace());
        assert_eq!(resolve_choice(2, false, &format!("{c}1")), Err(ChoiceError::NotANumber));
    }
}
