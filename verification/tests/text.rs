use muy_zipido::progress_bar::progress::draw_bar;
use muy_zipido::progress_bar::progress::format_elapsed;
use muy_zipido::progress_bar::progress::Colour;
use muy_zipido::progress_bar::style::Style;
use muy_zipido::text::push_decimal;
use muy_zipido::text::push_decimal_two;
use muy_zipido::text::to_hex;
use muy_zipido::ZipError;

#[test]
fn hex_is_lower_case_two_digits_a_byte() {
    assert_eq!(to_hex(&[]), "");
    assert_eq!(to_hex(&[0x00, 0x0f, 0xa0, 0xff, 0x50, 0x4b]), "000fa0ff504b");
    assert_eq!(to_hex(&[0x09, 0x0a, 0x99, 0x9a]), "090a999a");
}

#[test]
fn decimal_has_no_leading_zeros() {
    let mut text = String::from("n=");
    push_decimal(&mut text, 0);
    text.push(' ');
    push_decimal(&mut text, 7);
    text.push(' ');
    push_decimal(&mut text, 10);
    text.push(' ');
    push_decimal(&mut text, 65535);
    text.push(' ');
    push_decimal(&mut text, u64::MAX);
    assert_eq!(text, "n=0 7 10 65535 18446744073709551615");
}

#[test]
fn decimal_two_pads_single_digits_only() {
    let mut text = String::new();
    push_decimal_two(&mut text, 0);
    text.push('|');
    push_decimal_two(&mut text, 9);
    text.push('|');
    push_decimal_two(&mut text, 10);
    text.push('|');
    push_decimal_two(&mut text, 123);
    assert_eq!(text, "00|09|10|123");
}

#[test]
fn elapsed_time_has_hours_only_from_one_hour_on() {
    assert_eq!(format_elapsed(0), "00:00");
    assert_eq!(format_elapsed(59), "00:59");
    assert_eq!(format_elapsed(60), "01:00");
    assert_eq!(format_elapsed(3599), "59:59");
    assert_eq!(format_elapsed(3600), "01:00:00");
    assert_eq!(format_elapsed(3661), "01:01:01");
    assert_eq!(format_elapsed(86399), "23:59:59");
    assert_eq!(format_elapsed(360000), "100:00:00");
}

#[test]
fn errors_read_as_sentences() {
    assert_eq!(ZipError::UnexpectedEof.message(), "Unexpected end of stream");
    assert_eq!(
        ZipError::InvalidSignature("deadbeef".to_string()).message(),
        "Invalid signature: deadbeef"
    );
    assert_eq!(
        ZipError::UnsupportedMethod(3).message(),
        "Decompression error: Unsupported compression method: 3"
    );
    assert_eq!(
        ZipError::UnsupportedMethod(65535).message(),
        "Decompression error: Unsupported compression method: 65535"
    );
    assert_eq!(
        ZipError::DescriptorNotFound.message(),
        "Decompression error: Data descriptor not found within reasonable limit"
    );
    assert_eq!(
        ZipError::Decompression("corrupt deflate stream".to_string()).message(),
        "Decompression error: corrupt deflate stream"
    );
}

#[test]
fn colours_have_their_escape_codes() {
    assert_eq!(Colour::Plain.ansi_code(), "");
    assert_eq!(Colour::Red.ansi_code(), "\x1b[31m");
    assert_eq!(Colour::Green.ansi_code(), "\x1b[32m");
    assert_eq!(Colour::Yellow.ansi_code(), "\x1b[33m");
    assert_eq!(Colour::Blue.ansi_code(), "\x1b[34m");
    assert_eq!(Colour::Magenta.ansi_code(), "\x1b[35m");
    assert_eq!(Colour::Cyan.ansi_code(), "\x1b[36m");
    assert_eq!(Colour::White.ansi_code(), "\x1b[37m");
    assert_eq!(Colour::default(), Colour::Cyan);
}

#[test]
fn styles_have_their_characters() {
    assert_eq!(Style::Classic.filled_char(), '█');
    assert_eq!(Style::Classic.empty_char(), '░');
    assert_eq!(Style::Ascii.filled_char(), '#');
    assert_eq!(Style::Ascii.empty_char(), '-');
    assert_eq!(Style::Dots.filled_char(), '●');
    assert_eq!(Style::Dots.empty_char(), '○');
    assert_eq!(Style::Arrows.filled_char(), '>');
    assert_eq!(Style::Arrows.empty_char(), '-');
    assert_eq!(Style::Blocks.filled_char(), '▰');
    assert_eq!(Style::Blocks.empty_char(), '▱');
    assert_eq!(Style::default(), Style::Classic);
}

#[test]
fn a_plain_bar_is_done_part_then_rest() {
    assert_eq!(draw_bar(Style::Ascii, Colour::Plain, 3, 8), "###-----");
    assert_eq!(draw_bar(Style::Arrows, Colour::Plain, 0, 4), "----");
    assert_eq!(draw_bar(Style::Arrows, Colour::Plain, 4, 4), ">>>>");
    assert_eq!(draw_bar(Style::Classic, Colour::Plain, 1, 3), "█░░");
    assert_eq!(draw_bar(Style::Dots, Colour::Plain, 0, 0), "");
}

#[test]
fn a_coloured_bar_wraps_the_done_part() {
    assert_eq!(draw_bar(Style::Ascii, Colour::Cyan, 2, 5), "\x1b[36m##\x1b[0m---");
    assert_eq!(draw_bar(Style::Blocks, Colour::Red, 0, 2), "\x1b[31m\x1b[0m▱▱");
    assert_eq!(draw_bar(Style::Dots, Colour::White, 2, 2), "\x1b[37m●●\x1b[0m");
}
