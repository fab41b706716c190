use std::collections::HashMap;
use i_ching::data::{Hexagram, HexagramImage, HexagramJudgment, IChingData, LineInterpretation};
use i_ching::divination::Diviner;
use i_ching::error::ReadingError;
use i_ching::interpret::parse_input_and_create_reading;

fn record(n: u8) -> Hexagram {
    let glyph = char::from_u32(0x4DC0 + n as u32 - 1).unwrap();
    Hexagram {
        number: n,
        name: format!("Figure {}", n),
        chinese: String::new(),
        pinyin: String::new(),
        unicode: glyph.to_string(),
        binary: String::new(),
        opposite: String::new(),
        upper_trigram: String::new(),
        lower_trigram: String::new(),
        description: format!("About figure {}", n),
        judgment: HexagramJudgment { text: String::new(), commentary: String::new() },
        image: HexagramImage { text: String::new(), commentary: String::new() },
        lines: (1u8..=6)
            .map(|p| {
                (p, LineInterpretation { text: format!("Line {} of {}", p, n), comments: String::new() })
            })
            .collect(),
    }
}

fn sample_data() -> IChingData {
    IChingData::load(Vec::new(), (1u8..=64).map(|n| (n, record(n))).collect())
}

fn parse(input: &str) -> Result<i_ching::reading::Reading, ReadingError> {
    let mut diviner = Diviner::new();
    parse_input_and_create_reading(&mut diviner, &sample_data(), input)
}

#[test]
fn test_parse_hexagram_number() {
    let reading = parse("1").unwrap();
    assert_eq!(reading.primary_hexagram(), 1);
}

#[test]
fn test_parse_line_numbers() {
    let reading = parse("7,8,9,6,7,8").unwrap();
    assert_eq!(reading.traditional_numbers(), [7, 8, 9, 6, 7, 8]);
}

#[test]
fn test_parse_unicode_character() {
    let reading = parse("䷀").unwrap();
    assert_eq!(reading.primary_hexagram(), 1);
}

#[test]
fn test_invalid_input() {
    assert!(parse("65").is_err());
    assert!(parse("7,8,5,6,7,8").is_err());
    assert!(parse("invalid").is_err());
}

#[test]
fn test_parse_changing_hexagram_numbers() {
    let reading = parse("32→34").unwrap();
    assert_eq!(reading.primary_hexagram(), 32);
    assert!(reading.has_changing_lines());
    if let Some(transformed) = reading.transformed_hexagram() {
        assert_eq!(transformed.primary_hexagram(), 34);
    } else {
        panic!("Expected transformed hexagram");
    }
}

#[test]
fn test_parse_changing_hexagram_ascii_arrow() {
    let reading = parse("1->2").unwrap();
    assert_eq!(reading.primary_hexagram(), 1);
    assert!(reading.has_changing_lines());
    if let Some(transformed) = reading.transformed_hexagram() {
        assert_eq!(transformed.primary_hexagram(), 2);
    } else {
        panic!("Expected transformed hexagram");
    }
}

#[test]
fn test_parse_changing_hexagram_unicode() {
    let reading = parse("䷀→䷁").unwrap();
    assert_eq!(reading.primary_hexagram(), 1);
    assert!(reading.has_changing_lines());
    if let Some(transformed) = reading.transformed_hexagram() {
        assert_eq!(transformed.primary_hexagram(), 2);
    } else {
        panic!("Expected transformed hexagram");
    }
}

#[test]
fn transition_to_itself_has_no_changing_lines() {
    let reading = parse("1→1").unwrap();
    assert_eq!(reading.primary_hexagram(), 1);
    assert!(!reading.has_changing_lines());
    assert!(reading.transformed_hexagram().is_none());
}

#[test]
fn transition_one_to_two_in_unicode_arrow() {
    let reading = parse("1→2").unwrap();
    assert_eq!(reading.primary_hexagram(), 1);
    assert!(reading.has_changing_lines());
    assert_eq!(reading.transformed_hexagram().unwrap().primary_hexagram(), 2);
}

#[test]
fn white_space_around_codes_is_ignored() {
    let a = parse("7,8,9,6,7,8").unwrap();
    let b = parse("7, 8 ,9,6,7,8").unwrap();
    assert_eq!(a.lines, b.lines);
    assert_eq!(a.question, b.question);
    let c = parse("  7,8,9,6,7,8\n").unwrap();
    assert_eq!(a.lines, c.lines);
}

#[test]
fn refused_inputs_give_unrecognized_input() {
    for text in ["65", "0", "7,8,5,6,7,8", "banana", "7,8,9,6,7", "1→65", "256", ""] {
        match parse(text) {
            Err(ReadingError::UnrecognizedInput(t)) => assert_eq!(t, text),
            other => panic!("unexpected result for {:?}: {:?}", text, other),
        }
    }
    match parse("  banana \t") {
        Err(ReadingError::UnrecognizedInput(t)) => assert_eq!(t, "banana"),
        other => panic!("unexpected result: {:?}", other),
    }
    let e = parse("banana").unwrap_err();
    assert!(e.message().starts_with("Invalid input: 'banana'"));
}

#[test]
fn numbers_glyphs_and_spaces() {
    assert_eq!(parse(" 64 ").unwrap().primary_hexagram(), 64);
    assert_eq!(parse("+5").unwrap().primary_hexagram(), 5);
    assert_eq!(parse("007").unwrap().primary_hexagram(), 7);
    assert_eq!(parse("䷿").unwrap().primary_hexagram(), 64);
    let r = parse(" 3 -> 4 ").unwrap();
    assert_eq!(r.primary_hexagram(), 3);
    assert_eq!(r.transformed_hexagram().unwrap().primary_hexagram(), 4);
}

#[test]
fn unknown_glyph_is_refused() {
    assert!(parse("x").is_err());
    let empty = IChingData::load(Vec::new(), HashMap::new());
    let mut diviner = Diviner::new();
    assert!(parse_input_and_create_reading(&mut diviner, &empty, "䷀").is_err());
    assert_eq!(parse_input_and_create_reading(&mut diviner, &empty, "2").unwrap().primary_hexagram(), 2);
}
