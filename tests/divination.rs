use i_ching::divination::Diviner;
use i_ching::error::ReadingError;
use i_ching::reading::{Age, Line, Polarity};

#[test]
fn test_line_number_interpretation() {
    let mut diviner = Diviner::new();
    let numbers = [6, 7, 8, 9, 6, 8];
    let reading = diviner.cast_reading_with_numbers(numbers, Some("Test question".to_string()));

    assert_eq!(reading.traditional_numbers(), [6, 7, 8, 9, 6, 8]);
    assert!(reading.has_changing_lines());
    assert_eq!(reading.changing_line_positions(), vec![1, 4, 5]);
}

#[test]
fn test_cast_from_numbers() {
    let diviner = Diviner::new();
    let numbers = [7, 8, 9, 6, 7, 8];

    let reading = diviner
        .cast_reading_from_numbers(numbers, Some("Test from numbers".to_string()))
        .unwrap();

    assert_eq!(reading.traditional_numbers(), numbers);
    assert!(reading.has_changing_lines());
    assert_eq!(reading.changing_line_positions(), vec![3, 4]);
}

#[test]
fn test_invalid_numbers() {
    let diviner = Diviner::new();
    let invalid_numbers = [7, 8, 5, 6, 7, 8];

    let result = diviner.cast_reading_from_numbers(invalid_numbers, None);
    assert!(result.is_err());
    assert!(result.unwrap_err().message().contains("Invalid line number: 5"));
}

#[test]
fn test_random_casting() {
    let mut diviner = Diviner::new();
    for _ in 0..10 {
        let reading = diviner.cast_reading(Some("Random test".to_string()));
        for &num in &reading.traditional_numbers() {
            assert!([6, 7, 8, 9].contains(&num));
        }
        let hexagram = reading.primary_hexagram();
        assert!(hexagram >= 1 && hexagram <= 64);
    }
}

#[test]
fn first_invalid_code_is_reported() {
    let diviner = Diviner::new();
    let result = diviner.cast_reading_from_numbers([7, 10, 5, 6, 7, 8], None);
    assert!(matches!(result, Err(ReadingError::InvalidLineCode(10))));
    assert_eq!(
        result.unwrap_err().message(),
        "Invalid line number: 10. Must be 6, 7, 8, or 9"
    );
}

#[test]
fn three_coins_give_their_sum() {
    assert_eq!(Diviner::line_from_coins(false, false, false), Line::new(Age::Old, Polarity::Yin));
    assert_eq!(Diviner::line_from_coins(true, false, false), Line::new(Age::Young, Polarity::Yang));
    assert_eq!(Diviner::line_from_coins(false, true, true), Line::new(Age::Young, Polarity::Yin));
    assert_eq!(Diviner::line_from_coins(true, true, true), Line::new(Age::Old, Polarity::Yang));
}

#[test]
fn eight_coin_outcomes_split_one_three_three_one() {
    let mut counts = [0u32; 4];
    for a in [false, true] {
        for b in [false, true] {
            for c in [false, true] {
                let code = Diviner::line_from_coins(a, b, c).traditional_number();
                counts[(code - 6) as usize] += 1;
            }
        }
    }
    assert_eq!(counts, [1, 3, 3, 1]);
}

#[test]
fn casting_frequencies_match_the_coin_odds() {
    let mut diviner = Diviner::new();
    let mut counts = [0u32; 4];
    let casts = 20000;
    for _ in 0..casts {
        let reading = diviner.cast_reading(None);
        for code in reading.traditional_numbers() {
            counts[(code - 6) as usize] += 1;
        }
    }
    let total = (casts * 6) as f64;
    let expected = [1.0 / 8.0, 3.0 / 8.0, 3.0 / 8.0, 1.0 / 8.0];
    for i in 0..4 {
        let freq = counts[i] as f64 / total;
        assert!((freq - expected[i]).abs() < 0.01, "code {}: {}", i + 6, freq);
    }
}
