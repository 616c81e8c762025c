use color_bot::color::ParseError;
use color_bot::command::{parse_command, read_message, without_hash, Command, Intent, Reading};

fn set(raw: &str) -> Command {
    Command::SetColor(raw.to_string())
}

#[test]
fn the_reset_command_is_the_whole_message() {
    assert_eq!(parse_command(".color-reset"), Command::Reset);
}

#[test]
fn reset_with_anything_around_it_is_no_command() {
    assert_eq!(parse_command(".color-reset "), Command::Ignore);
    assert_eq!(parse_command(" .color-reset"), Command::Ignore);
    assert_eq!(parse_command(".color-reset now"), Command::Ignore);
    assert_eq!(parse_command(".color-reset\n"), Command::Ignore);
    assert_eq!(parse_command(".color-rese"), Command::Ignore);
}

#[test]
fn commands_mind_the_case() {
    assert_eq!(parse_command(".Color-reset"), Command::Ignore);
    assert_eq!(parse_command(".COLOR-RESET"), Command::Ignore);
    assert_eq!(parse_command(".Color-set ff"), Command::Ignore);
    assert_eq!(parse_command(".COLOR-SET ff"), Command::Ignore);
}

#[test]
fn the_set_command_carries_what_follows_it() {
    assert_eq!(parse_command(".color-set 1A2B3C"), set("1A2B3C"));
    assert_eq!(parse_command(".color-set ff"), set("ff"));
    assert_eq!(parse_command(".color-set zz"), set("zz"));
    assert_eq!(parse_command(".color-set  ff"), set(" ff"));
    assert_eq!(parse_command(".color-set ff 00"), set("ff 00"));
    assert_eq!(parse_command(".color-set héllo"), set("héllo"));
}

#[test]
fn one_leading_hash_is_taken_off() {
    assert_eq!(parse_command(".color-set #1A2B3C"), set("1A2B3C"));
    assert_eq!(parse_command(".color-set #"), set(""));
    assert_eq!(parse_command(".color-set ##ff"), set("#ff"));
    assert_eq!(parse_command(".color-set ff#"), set("ff#"));
    assert_eq!(parse_command(".color-set  #ff"), set(" #ff"));
}

#[test]
fn the_set_command_with_nothing_after_it() {
    assert_eq!(parse_command(".color-set "), set(""));
}

#[test]
fn the_set_word_needs_its_space() {
    assert_eq!(parse_command(".color-set"), Command::Ignore);
    assert_eq!(parse_command(".color-setff"), Command::Ignore);
    assert_eq!(parse_command(".color-set\tff"), Command::Ignore);
    assert_eq!(parse_command(".color-set#ff"), Command::Ignore);
}

#[test]
fn anything_else_is_ignored() {
    assert_eq!(parse_command(""), Command::Ignore);
    assert_eq!(parse_command("hello"), Command::Ignore);
    assert_eq!(parse_command(".color"), Command::Ignore);
    assert_eq!(parse_command("color-reset"), Command::Ignore);
    assert_eq!(parse_command("please .color-set ff"), Command::Ignore);
    assert_eq!(parse_command(".color-get"), Command::Ignore);
    assert_eq!(parse_command("#ff0000"), Command::Ignore);
}

#[test]
fn without_hash_takes_off_one_hash() {
    assert_eq!(without_hash("#ff"), "ff");
    assert_eq!(without_hash("ff"), "ff");
    assert_eq!(without_hash(""), "");
    assert_eq!(without_hash("#"), "");
    assert_eq!(without_hash("##"), "#");
    assert_eq!(without_hash("f#f"), "f#f");
    assert_eq!(without_hash("#é"), "é");
}

#[test]
fn reading_a_reset() {
    assert_eq!(read_message(".color-reset"), Reading::Accepted(Intent::Reset));
}

#[test]
fn reading_a_color() {
    assert_eq!(
        read_message(".color-set #1A2B3C"),
        Reading::Accepted(Intent::SetColor { raw: "1A2B3C".to_string(), color: 0x1A2B3C })
    );
    assert_eq!(
        read_message(".color-set ff"),
        Reading::Accepted(Intent::SetColor { raw: "ff".to_string(), color: 255 })
    );
}

#[test]
fn the_hash_changes_nothing() {
    for digits in ["0", "f", "1A", "abc", "ABCD", "12345", "1A2B3C", "ffffff", "000000"] {
        let plain = read_message(&format!(".color-set {}", digits));
        let hashed = read_message(&format!(".color-set #{}", digits));
        assert_eq!(plain, hashed);
        assert_eq!(
            plain,
            Reading::Accepted(Intent::SetColor {
                raw: digits.to_string(),
                color: u32::from_str_radix(digits, 16).unwrap(),
            })
        );
    }
}

#[test]
fn reading_keeps_black_as_written() {
    assert_eq!(
        read_message(".color-set 0"),
        Reading::Accepted(Intent::SetColor { raw: "0".to_string(), color: 0 })
    );
}

#[test]
fn reading_an_empty_color() {
    assert_eq!(read_message(".color-set "), Reading::Rejected(ParseError::EmptyColor));
    assert_eq!(read_message(".color-set #"), Reading::Rejected(ParseError::EmptyColor));
}

#[test]
fn reading_an_invalid_color() {
    assert_eq!(read_message(".color-set zz"), Reading::Rejected(ParseError::InvalidHex));
    assert_eq!(read_message(".color-set #zz"), Reading::Rejected(ParseError::InvalidHex));
    assert_eq!(read_message(".color-set ##ff"), Reading::Rejected(ParseError::InvalidHex));
    assert_eq!(read_message(".color-set  ff"), Reading::Rejected(ParseError::InvalidHex));
    assert_eq!(read_message(".color-set 1234567"), Reading::Rejected(ParseError::InvalidHex));
    assert_eq!(read_message(".color-set +ff"), Reading::Rejected(ParseError::InvalidHex));
}

#[test]
fn reading_another_message() {
    assert_eq!(read_message("good morning"), Reading::Ignored);
    assert_eq!(read_message(""), Reading::Ignored);
    assert_eq!(read_message(".color-set"), Reading::Ignored);
}
