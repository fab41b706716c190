use i_ching::figure::{create_changing_reading_from_numbers, create_reading_from_hexagram_number};
use i_ching::reading::{Age, Line, Polarity, Reading};

#[test]
fn test_line_traditional_numbers() {
    assert_eq!(Line::new(Age::Old, Polarity::Yin).traditional_number(), 6);
    assert_eq!(Line::new(Age::Young, Polarity::Yang).traditional_number(), 7);
    assert_eq!(Line::new(Age::Young, Polarity::Yin).traditional_number(), 8);
    assert_eq!(Line::new(Age::Old, Polarity::Yang).traditional_number(), 9);
}

#[test]
fn test_line_from_traditional_number() {
    assert_eq!(Line::from_traditional_number(6).unwrap(), Line::new(Age::Old, Polarity::Yin));
    assert_eq!(Line::from_traditional_number(7).unwrap(), Line::new(Age::Young, Polarity::Yang));
    assert_eq!(Line::from_traditional_number(8).unwrap(), Line::new(Age::Young, Polarity::Yin));
    assert_eq!(Line::from_traditional_number(9).unwrap(), Line::new(Age::Old, Polarity::Yang));

    assert!(Line::from_traditional_number(5).is_err());
    assert!(Line::from_traditional_number(10).is_err());
}

#[test]
fn test_line_transform() {
    assert_eq!(Line::new(Age::Old, Polarity::Yang).transform(), Line::new(Age::Young, Polarity::Yin));
    assert_eq!(Line::new(Age::Old, Polarity::Yin).transform(), Line::new(Age::Young, Polarity::Yang));
    assert_eq!(Line::new(Age::Young, Polarity::Yang).transform(), Line::new(Age::Young, Polarity::Yang));
    assert_eq!(Line::new(Age::Young, Polarity::Yin).transform(), Line::new(Age::Young, Polarity::Yin));
}

#[test]
fn test_hexagram_calculation() {
    let all_yang = [Line::new(Age::Young, Polarity::Yang); 6];
    let reading = Reading::new(all_yang, None);
    assert_eq!(reading.primary_hexagram(), 64);
}

#[test]
fn test_changing_lines() {
    let lines = [
        Line::new(Age::Young, Polarity::Yang),
        Line::new(Age::Old, Polarity::Yang),
        Line::new(Age::Young, Polarity::Yin),
        Line::new(Age::Old, Polarity::Yin),
        Line::new(Age::Young, Polarity::Yang),
        Line::new(Age::Young, Polarity::Yin),
    ];

    let reading = Reading::new(lines, None);
    assert!(reading.has_changing_lines());
    assert_eq!(reading.changing_line_positions(), vec![2, 4]);

    let transformed = reading.transformed_hexagram().unwrap();
    assert_eq!(transformed.lines[1], Line::new(Age::Young, Polarity::Yin));
    assert_eq!(transformed.lines[3], Line::new(Age::Young, Polarity::Yang));
}

#[test]
fn code_round_trip_for_every_code() {
    for c in 6u8..=9 {
        assert_eq!(Line::from_traditional_number(c).unwrap().traditional_number(), c);
    }
}

#[test]
fn identifier_round_trip_for_every_number() {
    for id in 1u8..=64 {
        let reading = create_reading_from_hexagram_number(id).unwrap();
        assert_eq!(reading.primary_hexagram(), id);
        assert!(!reading.has_changing_lines());
    }
}

#[test]
fn number_three_has_second_line_yang() {
    let reading = create_reading_from_hexagram_number(3).unwrap();
    assert_eq!(reading.lines[0], Line::new(Age::Young, Polarity::Yin));
    assert_eq!(reading.lines[1], Line::new(Age::Young, Polarity::Yang));
    assert_eq!(reading.lower_trigram(), [Polarity::Yin, Polarity::Yang, Polarity::Yin]);
    assert_eq!(reading.upper_trigram(), [Polarity::Yin, Polarity::Yin, Polarity::Yin]);
}

#[test]
fn figure_numbers_outside_range_are_refused() {
    assert!(create_reading_from_hexagram_number(0).is_err());
    assert!(create_reading_from_hexagram_number(65).is_err());
    assert!(create_changing_reading_from_numbers(0, 3).is_err());
    assert!(create_changing_reading_from_numbers(3, 65).is_err());
}

#[test]
fn transform_twice_leaves_no_changing_lines() {
    let lines = [
        Line::new(Age::Old, Polarity::Yang),
        Line::new(Age::Old, Polarity::Yin),
        Line::new(Age::Young, Polarity::Yin),
        Line::new(Age::Old, Polarity::Yin),
        Line::new(Age::Young, Polarity::Yang),
        Line::new(Age::Old, Polarity::Yang),
    ];
    let reading = Reading::new(lines, None);
    let once = reading.transformed_hexagram().unwrap();
    assert!(once.changing_line_positions().is_empty());
    assert!(once.transformed_hexagram().is_none());
    let twice = Reading::new(once.transformed_figure(), None);
    assert!(twice.changing_line_positions().is_empty());
    assert_eq!(twice.lines, once.lines);
}

#[test]
fn codes_give_positions_and_number() {
    let lines = [7u8, 8, 9, 6, 7, 8].map(|c| Line::from_traditional_number(c).unwrap());
    let reading = Reading::new(lines, None);
    assert_eq!(reading.changing_line_positions(), vec![3, 4]);
    assert_eq!(reading.primary_hexagram(), 22);
    assert_eq!(reading.traditional_numbers(), [7, 8, 9, 6, 7, 8]);
    assert_eq!(reading.transformed_hexagram().unwrap().primary_hexagram(), 26);
}

#[test]
fn transition_reproduces_both_numbers() {
    for from in 1u8..=64 {
        for to in 1u8..=64 {
            let reading = create_changing_reading_from_numbers(from, to).unwrap();
            assert_eq!(reading.primary_hexagram(), from);
            assert_eq!(reading.has_changing_lines(), from != to);
            assert_eq!(Reading::new(reading.transformed_figure(), None).primary_hexagram(), to);
        }
    }
}

#[test]
fn line_symbols() {
    assert_eq!(Line::new(Age::Young, Polarity::Yang).to_symbol(), "━━━━━━");
    assert_eq!(Line::new(Age::Young, Polarity::Yin).to_symbol(), "━━  ━━");
    assert_eq!(Line::new(Age::Old, Polarity::Yang).to_symbol(), "━━━━━━ ○");
    assert_eq!(Line::new(Age::Old, Polarity::Yin).to_symbol(), "━━  ━━ ×");
}
