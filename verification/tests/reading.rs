use rc5_minx::line::{read_frame_line, FrameLine, LineError};
use rc5_minx::text::{
    chars_of, parse_hex_u32, parse_token_value, read_token_value, split_words,
    take_token_and_return_value,
};

fn chars(s: &str) -> Vec<char> {
    s.chars().collect()
}

fn words(s: &str) -> Vec<String> {
    split_words(&chars(s)).into_iter().map(|w| w.into_iter().collect()).collect()
}

#[test]
fn chars_of_keeps_every_char() {
    assert_eq!(chars_of("P=17 é\u{3000}x"), chars("P=17 é\u{3000}x"));
    assert_eq!(chars_of(""), Vec::<char>::new());
}

#[test]
fn words_split_on_any_whitespace() {
    assert_eq!(words("P=17 A=0x1B C=0x14 Raw=0x16D4 R"), vec!["P=17", "A=0x1B", "C=0x14", "Raw=0x16D4", "R"]);
    assert_eq!(words("  a  bb\tc \r\n"), vec!["a", "bb", "c"]);
    assert_eq!(words("a\u{A0}b\u{3000}c\u{2009}d"), vec!["a", "b", "c", "d"]);
    assert_eq!(words(""), Vec::<String>::new());
    assert_eq!(words(" \t "), Vec::<String>::new());
}

#[test]
fn words_agree_with_std() {
    for s in ["x y", "  lead", "trail  ", "a\u{85}b\u{1680}c\u{2028}d\u{202F}e\u{205F}f", "\u{200B}zero-width"] {
        let expected: Vec<String> = s.split_whitespace().map(str::to_string).collect();
        assert_eq!(words(s), expected);
    }
}

#[test]
fn token_values() {
    assert_eq!(read_token_value("A=0x1B"), Some(0x1B));
    assert_eq!(read_token_value("C=0x14"), Some(0x14));
    assert_eq!(read_token_value("Raw=0x16D4"), Some(0x16D4));
    assert_eq!(read_token_value("Raw=16d4"), Some(0x16D4));
    assert_eq!(read_token_value("X=0x0x1F"), Some(0x1F));
    assert_eq!(read_token_value("X=+ff"), Some(0xFF));
    assert_eq!(read_token_value("X=0x+ff"), Some(0xFF));
    assert_eq!(read_token_value("A=1B=2"), Some(0x1B));
    assert_eq!(read_token_value("=7"), Some(7));
    assert_eq!(read_token_value("A=0xFFFFFFFF"), Some(u32::MAX));
    assert_eq!(read_token_value("A=000000000000000001"), Some(1));
    assert_eq!(read_token_value("A=0x0"), Some(0));
}

#[test]
fn token_value_failures() {
    assert_eq!(read_token_value("A"), None);
    assert_eq!(read_token_value("R"), None);
    assert_eq!(read_token_value("A="), None);
    assert_eq!(read_token_value("A=0x"), None);
    assert_eq!(read_token_value("A=0xG1"), None);
    assert_eq!(read_token_value("A=0x100000000"), None);
    assert_eq!(read_token_value("A=-1"), None);
    assert_eq!(read_token_value("A=+"), None);
    assert_eq!(read_token_value("A==1"), None);
    assert_eq!(read_token_value("A=0X1B"), None);
}

#[test]
fn token_values_agree_with_std() {
    for v in ["0x1B", "16D4", "0x0x0x7", "+0", "ffffffff", "1ffffffff", "", "+", "-0", "0xé", "Fa9"] {
        let expected = u32::from_str_radix(v.trim_start_matches("0x"), 16).ok();
        assert_eq!(read_token_value(&format!("K={v}")), expected, "{v}");
    }
}

#[test]
fn take_token_and_return_value_reads_value() {
    assert_eq!(take_token_and_return_value("A=0x1B"), 0x1B);
    assert_eq!(take_token_and_return_value("Raw=0x16D4"), 0x16D4);
}

#[test]
fn parse_hex_is_from_str_radix() {
    assert_eq!(parse_hex_u32(&chars("7fffffff")), Some(0x7FFF_FFFF));
    assert_eq!(parse_hex_u32(&chars("+A")), Some(10));
    assert_eq!(parse_hex_u32(&chars("")), None);
    assert_eq!(parse_hex_u32(&chars("12 ")), None);
    assert_eq!(parse_token_value(&chars("K=0x2a")), Some(42));
}

#[test]
fn sample_line_is_read() {
    assert_eq!(
        read_frame_line("P=17 A=0x1B C=0x14 Raw=0x16D4 R"),
        Ok(Some(FrameLine { address: 0x1B, command: 0x14, raw: 0x16D4 }))
    );
}

#[test]
fn other_lines_are_passed_over() {
    assert_eq!(read_frame_line(""), Ok(None));
    assert_eq!(read_frame_line("P=16 A=0x1B C=0x14 Raw=0x16D4"), Ok(None));
    assert_eq!(read_frame_line("Received noise"), Ok(None));
    assert_eq!(read_frame_line("éab"), Ok(None));
    assert_eq!(read_frame_line("aébc"), Ok(None));
    assert_eq!(read_frame_line(" P=17 A=0x1 C=0x1 Raw=0x1"), Ok(None));
}

#[test]
fn short_or_cut_header_stops() {
    assert_eq!(read_frame_line("P=1"), Err(LineError::CutHeader));
    assert_eq!(read_frame_line("x"), Err(LineError::CutHeader));
    assert_eq!(read_frame_line("abcé"), Err(LineError::CutHeader));
    assert_eq!(read_frame_line("é"), Err(LineError::CutHeader));
}

#[test]
fn missing_tokens_stop() {
    assert_eq!(read_frame_line("P=17"), Err(LineError::MissingToken));
    assert_eq!(read_frame_line("P=17 A=0x1B"), Err(LineError::MissingToken));
    assert_eq!(read_frame_line("P=17 A=0x1B C=0x14"), Err(LineError::MissingToken));
}

#[test]
fn bad_tokens_stop() {
    assert_eq!(read_frame_line("P=17 A C=0x14 Raw=0x16D4"), Err(LineError::BadToken));
    assert_eq!(read_frame_line("P=17 A=0x1B C=zz Raw=0x16D4"), Err(LineError::BadToken));
    assert_eq!(read_frame_line("P=17 A=0x1B C=0x14 Raw"), Err(LineError::BadToken));
    // a bad address is met before a missing token
    assert_eq!(read_frame_line("P=17 A=q"), Err(LineError::BadToken));
}

#[test]
fn header_token_may_run_on() {
    assert_eq!(
        read_frame_line("P=17x A=0x11 C=0x40 Raw=0x440"),
        Ok(Some(FrameLine { address: 0x11, command: 0x40, raw: 0x440 }))
    );
    assert_eq!(
        read_frame_line("P=17\tA=0x11\u{A0}C=0x40  Raw=0xC40"),
        Ok(Some(FrameLine { address: 0x11, command: 0x40, raw: 0xC40 }))
    );
}
