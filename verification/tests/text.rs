use render_core::organize::{digit_count, format_number, RenamePattern};
use render_core::text::{from_chars, render_decimal, render_padded, render_signed, split_lines, to_chars, trim};

fn text(chars: &Vec<char>) -> String {
    chars.iter().collect()
}

#[test]
fn numbers_are_written_in_decimal() {
    assert_eq!(text(&render_decimal(0)), "0");
    assert_eq!(text(&render_decimal(9)), "9");
    assert_eq!(text(&render_decimal(10)), "10");
    assert_eq!(text(&render_decimal(1_234_567_890)), "1234567890");
    assert_eq!(text(&render_decimal(u128::MAX)), u128::MAX.to_string());
    assert_eq!(text(&render_signed(-1)), "-1");
    assert_eq!(text(&render_signed(0)), "0");
    assert_eq!(text(&render_signed(i64::MIN)), i64::MIN.to_string());
    assert_eq!(text(&render_signed(i64::MAX)), i64::MAX.to_string());
}

#[test]
fn padding_never_cuts_a_number() {
    assert_eq!(text(&render_padded(7, 3)), "007");
    assert_eq!(text(&render_padded(7, 1)), "7");
    assert_eq!(text(&render_padded(7, 0)), "7");
    assert_eq!(text(&render_padded(1234, 3)), "1234");
    assert_eq!(text(&render_padded(0, 4)), "0000");
    assert_eq!(format_number(42, 5), "00042");
    assert_eq!(format_number(42, 0), "42");
    assert_eq!(format_number(42, 2), "42");
}

#[test]
fn digits_are_counted() {
    assert_eq!(digit_count(0), 1);
    assert_eq!(digit_count(9), 1);
    assert_eq!(digit_count(10), 2);
    assert_eq!(digit_count(999), 3);
    assert_eq!(digit_count(1_000), 4);
    assert_eq!(digit_count(u128::MAX), 39);
}

#[test]
fn pattern_width_follows_the_last_number() {
    let pattern = RenamePattern::new("p");
    assert_eq!(pattern.pad_width(0), 1);
    assert_eq!(pattern.pad_width(9), 1);
    assert_eq!(pattern.pad_width(10), 2);
    assert_eq!(pattern.pad_width(100), 3);
    let pattern = pattern.with_start_index(95);
    assert_eq!(pattern.pad_width(5), 2);
    assert_eq!(pattern.pad_width(6), 3);
    let pattern = pattern.with_pad_width(4);
    assert_eq!(pattern.pad_width(100_000), 4);
    let pattern = RenamePattern::new("p").with_start_index(usize::MAX);
    assert_eq!(pattern.pad_width(usize::MAX), digit_count(2 * (usize::MAX as u128) - 1));
}

#[test]
fn file_names_are_built_from_their_parts() {
    let pattern = RenamePattern::new("clip");
    assert_eq!(pattern.build_file_name(3, Some("WAV"), 2), "clip 03.WAV");
    assert_eq!(pattern.build_file_name(3, Some(""), 2), "clip 03");
    assert_eq!(pattern.build_file_name(3, None, 0), "clip 3");
    let pattern = pattern.with_separator("").lowercase_extension(true);
    assert_eq!(pattern.build_file_name(120, Some("Mp3"), 2), "clip120.mp3");
    assert_eq!(pattern.build_file_name(1, Some("ÄB"), 1), "clip1.Äb");
}

#[test]
fn strings_and_characters_convert_both_ways() {
    for sample in ["", "a", "héllo wörld", "日本語\n"] {
        let chars = to_chars(sample);
        assert_eq!(chars, sample.chars().collect::<Vec<char>>());
        assert_eq!(from_chars(&chars), sample);
    }
}

#[test]
fn trimming_and_line_splitting_follow_the_standard_library() {
    for sample in ["", " ", " a ", "\t\na b\u{a0}", "x", "\u{3000}y\u{2029}", " \n "] {
        assert_eq!(text(&trim(&to_chars(sample))), sample.trim(), "{:?}", sample);
    }
    for sample in ["", "\n", "a", "a\n", "a\nb", "a\r\nb\r\n", "\r", "a\r", "\n\n", "a\n\r\nb\r", "\r\n"] {
        let lines: Vec<String> = split_lines(&to_chars(sample)).iter().map(text).collect();
        let expected: Vec<String> = sample.lines().map(|line| line.to_string()).collect();
        assert_eq!(lines, expected, "{:?}", sample);
    }
}

#[test]
fn whitespace_is_what_the_standard_library_takes_for_it() {
    let white: Vec<char> = vec![
        '\u{9}', '\u{a}', '\u{b}', '\u{c}', '\u{d}', ' ', '\u{85}', '\u{a0}', '\u{1680}',
        '\u{2000}', '\u{2001}', '\u{2002}', '\u{2003}', '\u{2004}', '\u{2005}', '\u{2006}',
        '\u{2007}', '\u{2008}', '\u{2009}', '\u{200a}', '\u{2028}', '\u{2029}', '\u{202f}',
        '\u{205f}', '\u{3000}',
    ];
    for code in 0..=0x10FFFFu32 {
        if let Some(c) = char::from_u32(code) {
            let left = trim(&vec![c]).is_empty();
            assert_eq!(left, white.contains(&c), "{:?}", c);
            assert_eq!(left, c.is_whitespace(), "{:?}", c);
        }
    }
    for c in ['\u{8}', '\u{e}', '\u{1f}', '\u{180e}', '\u{200b}', '\u{2060}', '\u{feff}'] {
        assert_eq!(text(&trim(&vec![' ', c, ' '])), c.to_string());
    }
}
