use std::collections::HashMap;
use i_ching::data::{
    Hexagram, HexagramImage, HexagramJudgment, IChingData, LineInterpretation, Trigram,
};
use i_ching::divination::Diviner;
use i_ching::error::ReadingError;
use i_ching::output::create_json_reading;
use i_ching::present::{compose_motd, format_brief, format_full, format_motd};
use i_ching::reading::Reading;

fn record(n: u8) -> Hexagram {
    let glyph = char::from_u32(0x4DC0 + n as u32 - 1).unwrap();
    Hexagram {
        number: n,
        name: format!("Figure {}", n),
        chinese: format!("c{}", n),
        pinyin: format!("p{}", n),
        unicode: glyph.to_string(),
        binary: String::new(),
        opposite: String::new(),
        upper_trigram: String::new(),
        lower_trigram: String::new(),
        description: format!("About figure {}", n),
        judgment: HexagramJudgment { text: format!("J{}", n), commentary: format!("JC{}", n) },
        image: HexagramImage { text: format!("I{}", n), commentary: format!("IC{}", n) },
        lines: (1u8..=6)
            .map(|p| {
                (p, LineInterpretation { text: format!("Line {} of {}", p, n), comments: format!("C{}", p) })
            })
            .collect(),
    }
}

fn sample_data() -> IChingData {
    let trigram = Trigram {
        name: "Heaven".to_string(),
        chinese: "qian".to_string(),
        unicode: "☰".to_string(),
        symbolic: String::new(),
        element: String::new(),
        attribute: String::new(),
        lines: "111".to_string(),
    };
    IChingData::load(vec![trigram], (1u8..=64).map(|n| (n, record(n))).collect())
}

fn from_codes(codes: [u8; 6], question: Option<&str>) -> Reading {
    Diviner::new()
        .cast_reading_from_numbers(codes, question.map(|q| q.to_string()))
        .unwrap()
}

#[test]
fn test_format_brief() {
    let reading = from_codes([7, 8, 9, 6, 7, 8], Some("Test question"));
    let brief = format_brief(&sample_data(), &reading);
    println!("Brief output: '{}'", brief);
    assert!(brief.contains("Q: Test question"));
    assert!(!brief.is_empty());
}

#[test]
fn test_format_full() {
    let reading = from_codes([7, 8, 7, 8, 7, 8], Some("Test question"));
    let full = format_full(&sample_data(), &reading);
    assert!(full.contains("Question: Test question"));
    assert!(full.contains("Traditional numbers"));
    assert!(full.contains("Upper trigram"));
    assert!(full.contains("Lower trigram"));
}

#[test]
fn brief_text_names_both_figures() {
    let reading = from_codes([7, 8, 9, 6, 7, 8], Some("Q"));
    assert_eq!(
        format_brief(&sample_data(), &reading),
        "Q: Q\n䷕ 22 Figure 22 → ䷙ 26 Figure 26 (lines: [3, 4])"
    );
    let plain = from_codes([7, 7, 7, 7, 7, 7], None);
    assert_eq!(format_brief(&sample_data(), &plain), "䷿ 64 Figure 64");
    let empty = IChingData::load(Vec::new(), HashMap::new());
    assert_eq!(format_brief(&empty, &plain), "Hexagram 64 (Unknown)");
}

#[test]
fn motd_uses_upper_case_names() {
    let reading = from_codes([7, 8, 9, 6, 7, 8], None);
    assert_eq!(format_motd(&sample_data(), &reading), "䷕→䷙ 22 FIGURE 22 CHANGING INTO 26 FIGURE 26");
    let plain = from_codes([8, 8, 8, 8, 8, 8], None);
    assert_eq!(format_motd(&sample_data(), &plain), "䷀ 1 FIGURE 1");
    let empty = IChingData::load(Vec::new(), HashMap::new());
    assert_eq!(format_motd(&empty, &plain), "䷜ 1 UNKNOWN");
    assert_eq!(compose_motd(&sample_data(), &plain, "X", "Y"), "䷀ 1 X");
}

#[test]
fn display_draws_lines_from_the_top() {
    let reading = from_codes([9, 8, 8, 8, 8, 7], Some("Why"));
    let expected = "Question: Why\n\nHexagram 34\n6: ━━━━━━\n5: ━━  ━━\n4: ━━  ━━\n3: ━━  ━━\n2: ━━  ━━\n1: ━━━━━━ ○\n\nChanging lines: [1]\nTransforms to hexagram 33\n";
    assert_eq!(reading.display(), expected);
}

#[test]
fn full_text_lists_changing_line_interpretations() {
    let reading = from_codes([6, 8, 8, 8, 8, 8], None);
    let full = format_full(&sample_data(), &reading);
    assert!(full.contains("\nTraditional numbers: [6, 8, 8, 8, 8, 8]\n"));
    assert!(full.contains("Upper trigram: [Yin, Yin, Yin]\n"));
    assert!(full.contains("=== ䷀ Figure 1 ===\nChinese: c1 (p1)\n"));
    assert!(full.contains("=== Changing Lines ===\nLine 1: Line 1 of 1\nComments: C1\n\n"));
    assert!(full.contains("=== Transforms to ䷁ Figure 2 ===\n"));
}

#[test]
fn structured_reading_holds_records_and_labels() {
    let data = sample_data();
    let reading = from_codes([7, 8, 9, 6, 7, 8], Some("Q"));
    let j = create_json_reading(&data, &reading).unwrap();
    assert_eq!(j.question.as_deref(), Some("Q"));
    assert_eq!(j.lines, [7, 8, 9, 6, 7, 8]);
    assert_eq!(j.primary_hexagram.number, 22);
    assert_eq!(j.primary_hexagram.judgment.text, "J22");
    assert_eq!(j.changing_lines.len(), 2);
    assert_eq!(j.changing_lines[0].position, 3);
    assert_eq!(j.changing_lines[1].text, "Line 4 of 22");
    assert_eq!(j.transformed_hexagram.unwrap().number, 26);
    assert_eq!(j.lower_trigram, ["Yang".to_string(), "Yin".to_string(), "Yang".to_string()]);
    assert_eq!(j.upper_trigram, ["Yin".to_string(), "Yang".to_string(), "Yin".to_string()]);
    let empty = IChingData::load(Vec::new(), HashMap::new());
    assert!(matches!(create_json_reading(&empty, &reading), Err(ReadingError::DataLookupFailure(22))));
}

#[test]
fn lookups_take_the_matching_record() {
    let data = sample_data();
    assert_eq!(data.get_hexagram(5).unwrap().name, "Figure 5");
    assert!(data.get_hexagram(65).is_none());
    assert_eq!(data.get_trigram("Heaven").unwrap().lines, "111");
    assert!(data.get_trigram("Earth").is_none());
    assert_eq!(data.get_line_interpretation(3, 2).unwrap().text, "Line 2 of 3");
    assert!(data.get_line_interpretation(3, 7).is_none());
    assert_eq!(data.unicode_to_hexagram_number('䷂'), Some(3));
    assert_eq!(data.unicode_to_hexagram_number('a'), None);
}
