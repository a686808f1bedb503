use number_wordify::indian_money_system::number_to_word;
use number_wordify::util::convert_three_digits;
use number_wordify::{format_number_to_word, NumberScale, WordsError};

fn international(amount: u64) -> String {
    format_number_to_word(amount, NumberScale::International).unwrap()
}

fn indian(amount: u64) -> String {
    format_number_to_word(amount, NumberScale::Indian).unwrap()
}

#[test]
fn zero_is_empty() {
    assert_eq!(international(0), "");
    assert_eq!(indian(0), "");
    assert_eq!(number_to_word(0), Ok(String::new()));
}

#[test]
fn one_million_two_hundred_thirty_four_thousand() {
    assert_eq!(
        international(1234567),
        "One Million Two Hundred Thirty Four Thousand Five Hundred Sixty Seven"
    );
}

#[test]
fn twelve_lakh_thirty_four_thousand() {
    assert_eq!(indian(1234567), "Twelve Lakh Thirty Four Thousand Five Hundred Sixty Seven");
}

#[test]
fn below_a_thousand_both_scales_agree_with_three_digits() {
    for amount in 0..=999u64 {
        let expected = convert_three_digits(amount).unwrap();
        assert_eq!(international(amount), expected);
        assert_eq!(indian(amount), expected);
    }
}

#[test]
fn international_units() {
    assert_eq!(international(1_000), "One Thousand");
    assert_eq!(international(1_000_000), "One Million");
    assert_eq!(international(1_000_000_000), "One Billion");
}

#[test]
fn indian_units() {
    assert_eq!(indian(1_000), "One Thousand");
    assert_eq!(indian(1_00_000), "One Lakh");
    assert_eq!(indian(1_00_00_000), "One Crore");
    assert_eq!(indian(1_00_00_00_000), "One Arab");
    assert_eq!(indian(1_00_00_00_00_000), "One Kharab");
}

#[test]
fn zero_groups_are_left_out() {
    assert_eq!(international(1_000_001), "One Million One");
    assert_eq!(international(5_000_020_000), "Five Billion Twenty Thousand");
    assert_eq!(indian(1_00_00_001), "One Crore One");
    assert_eq!(indian(3_00_00_00_40_000), "Three Kharab Forty Thousand");
}

#[test]
fn international_highest_group_holds_three_digits() {
    assert_eq!(international(272_000_000_000), "Two Hundred Seventy Two Billion");
}

#[test]
fn indian_highest_group_holds_two_digits() {
    assert_eq!(indian(99_00_00_00_00_000), "Ninety Nine Kharab");
}

#[test]
fn largest_international_amount() {
    assert_eq!(
        international(999_999_999_999),
        "Nine Hundred Ninety Nine Billion Nine Hundred Ninety Nine Million \
         Nine Hundred Ninety Nine Thousand Nine Hundred Ninety Nine"
    );
}

#[test]
fn largest_indian_amount() {
    assert_eq!(
        indian(99_99_99_99_99_999),
        "Ninety Nine Kharab Ninety Nine Arab Ninety Nine Crore Ninety Nine Lakh \
         Ninety Nine Thousand Nine Hundred Ninety Nine"
    );
}

#[test]
fn international_overflow_starts_at_a_trillion() {
    assert!(format_number_to_word(999_999_999_999, NumberScale::International).is_ok());
    assert_eq!(
        format_number_to_word(1_000_000_000_000, NumberScale::International),
        Err(WordsError::ScaleOverflow)
    );
}

#[test]
fn indian_overflow_starts_at_hundred_kharab() {
    assert!(format_number_to_word(9_999_999_999_999, NumberScale::Indian).is_ok());
    assert_eq!(
        format_number_to_word(10_000_000_000_000, NumberScale::Indian),
        Err(WordsError::ScaleOverflow)
    );
}

#[test]
fn overflow_with_zero_groups_below() {
    assert_eq!(
        format_number_to_word(5_000_000_000_000_000, NumberScale::International),
        Err(WordsError::ScaleOverflow)
    );
    assert_eq!(
        format_number_to_word(1_000_000_000_000_000_000, NumberScale::Indian),
        Err(WordsError::ScaleOverflow)
    );
}

#[test]
fn largest_number_overflows() {
    assert_eq!(
        format_number_to_word(u64::MAX, NumberScale::International),
        Err(WordsError::ScaleOverflow)
    );
    assert_eq!(format_number_to_word(u64::MAX, NumberScale::Indian), Err(WordsError::ScaleOverflow));
    assert_eq!(number_to_word(u64::MAX), Err(WordsError::ScaleOverflow));
}

#[test]
fn number_to_word_is_the_indian_scale() {
    let amounts = [1u64, 10, 999, 1_000, 99_999, 1_00_000, 12_34_567, 99_99_99_99_99_999];
    for amount in amounts {
        assert_eq!(number_to_word(amount), format_number_to_word(amount, NumberScale::Indian));
    }
}

#[test]
fn scale_tables() {
    assert_eq!(
        NumberScale::International.get_number_scale(),
        ["", "Thousand", "Million", "Billion"]
    );
    assert_eq!(
        NumberScale::Indian.get_number_scale(),
        ["", "Thousand", "Lakh", "Crore", "Arab", "Kharab"]
    );
}

#[test]
fn international_divisors() {
    for index in 0..4 {
        assert_eq!(NumberScale::International.divisor(index), 1000);
    }
}

#[test]
fn indian_divisors() {
    assert_eq!(NumberScale::Indian.divisor(0), 1000);
    for index in 1..6 {
        assert_eq!(NumberScale::Indian.divisor(index), 100);
    }
}

fn groups(scale: NumberScale, amount: u64) -> Vec<u64> {
    let mut rest = amount;
    let mut found = Vec::new();
    for index in 0..scale.get_number_scale().len() {
        found.push(rest % scale.divisor(index));
        rest /= scale.divisor(index);
    }
    found
}

fn sample_amounts(limit: u64) -> Vec<u64> {
    let mut amounts = vec![0u64, 1, 999, 1_000, 1_001, 99_999, 100_000, 10_000_000, limit - 1];
    let mut next = 7u64;
    while next < limit {
        amounts.push(next);
        amounts.push(next / 1000 * 1000);
        amounts.push(next / 100_000 * 100_000);
        next = next * 13 + 5;
    }
    amounts
}

#[test]
fn scale_word_stands_only_for_a_group_that_is_not_zero() {
    let scales = [(NumberScale::International, 1_000_000_000_000u64), (NumberScale::Indian, 10_000_000_000_000u64)];
    for (scale, limit) in scales {
        let names = scale.get_number_scale();
        for amount in sample_amounts(limit) {
            let text = format_number_to_word(amount, scale).unwrap();
            let found = groups(scale, amount);
            for index in 1..names.len() {
                let present = text.split(' ').any(|word| word == names[index]);
                assert_eq!(present, found[index] != 0, "{} {}", amount, names[index]);
            }
        }
    }
}

#[test]
fn numbers_are_single_spaced_and_trimmed() {
    let scales = [(NumberScale::International, 1_000_000_000_000u64), (NumberScale::Indian, 10_000_000_000_000u64)];
    for (scale, limit) in scales {
        for amount in sample_amounts(limit) {
            let text = format_number_to_word(amount, scale).unwrap();
            assert!(!text.contains("  "));
            assert_eq!(text.trim(), text);
            assert_eq!(text.is_empty(), amount == 0);
        }
    }
}
