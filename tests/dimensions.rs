use freshfetch::dimensions::{get_dimensions, measure_plain};
use freshfetch::patterns::CSI_PATTERN;

#[test]
fn colored_text_measures_visible_width() {
    assert_eq!(get_dimensions("\x1b[31mHi\x1b[0m\nWorld"), (5, 2));
}

#[test]
fn plain_text_dimensions() {
    assert_eq!(measure_plain("ab\nabcd\n"), (4, 3));
    assert_eq!(measure_plain(""), (0, 1));
    assert_eq!(measure_plain("héllo"), (5, 1));
}

#[test]
fn trailing_newline_adds_a_line() {
    assert_eq!(get_dimensions("abc\n"), (3, 2));
}

#[test]
fn measuring_twice_gives_the_same() {
    let s = "\x1b[1;32mfresh\x1b[0mfetch\n\x1b[38;5;7m--\x1b[0m";
    assert_eq!(get_dimensions(s), get_dimensions(s));
    assert_eq!(get_dimensions(s), (10, 2));
}

#[test]
fn stripping_keeps_height() {
    let raw = "a\n\x1b[1mb\x1b[0m\nc\n";
    assert_eq!(get_dimensions(raw).1, measure_plain(raw).1);
}

#[test]
fn inserted_sequences_take_no_room() {
    let plain = "Hello\nWorld!";
    let colored = "\x1b[1mHe\x1b[31mllo\n\x1b[0mWorld\x1b[4;5m!";
    assert_eq!(get_dimensions(colored), measure_plain(plain));
    assert_eq!(get_dimensions(plain), measure_plain(plain));
}

#[test]
fn incomplete_sequences_are_kept() {
    // No digit before the letter, or no letter at all: nothing is removed.
    assert_eq!(get_dimensions("\x1b[mab"), (5, 1));
    assert_eq!(get_dimensions("\x1b[12"), (4, 1));
    assert_eq!(get_dimensions("\x1b[1;m"), (5, 1));
}

#[test]
fn removal_resumes_after_each_sequence() {
    // Removing the inner sequence does not join the outer pieces into a new one.
    assert_eq!(get_dimensions("\x1b\x1b[1m[1m"), (4, 1));
}

#[test]
fn pattern_is_the_csi_form() {
    assert_eq!(CSI_PATTERN, "\\x1b\\[[0-9;]*[0-9][A-Za-z]");
}
