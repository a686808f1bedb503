use number_wordify::util::convert_three_digits;
use number_wordify::WordsError;

fn words(num: u64) -> String {
    convert_three_digits(num).unwrap()
}

#[test]
fn zero_has_no_words() {
    assert_eq!(convert_three_digits(0), Ok(String::new()));
}

#[test]
fn single_digits() {
    let expected = ["One", "Two", "Three", "Four", "Five", "Six", "Seven", "Eight", "Nine"];
    for (i, word) in expected.iter().enumerate() {
        assert_eq!(words(i as u64 + 1), *word);
    }
}

#[test]
fn ten_to_nineteen() {
    let expected = [
        "Ten", "Eleven", "Twelve", "Thirteen", "Fourteen", "Fifteen", "Sixteen", "Seventeen",
        "Eighteen", "Nineteen",
    ];
    for (i, word) in expected.iter().enumerate() {
        assert_eq!(words(i as u64 + 10), *word);
    }
}

#[test]
fn round_tens() {
    let expected = ["Twenty", "Thirty", "Forty", "Fifty", "Sixty", "Seventy", "Eighty", "Ninety"];
    for (i, word) in expected.iter().enumerate() {
        assert_eq!(words((i as u64 + 2) * 10), *word);
    }
}

#[test]
fn tens_with_ones() {
    assert_eq!(words(21), "Twenty One");
    assert_eq!(words(29), "Twenty Nine");
    assert_eq!(words(72), "Seventy Two");
    assert_eq!(words(99), "Ninety Nine");
}

#[test]
fn fifty() {
    assert_eq!(words(50), "Fifty");
}

#[test]
fn nine() {
    assert_eq!(words(9), "Nine");
}

#[test]
fn round_hundreds() {
    assert_eq!(words(100), "One Hundred");
    assert_eq!(words(200), "Two Hundred");
    assert_eq!(words(900), "Nine Hundred");
}

#[test]
fn hundreds_with_ones() {
    assert_eq!(words(101), "One Hundred One");
    assert_eq!(words(909), "Nine Hundred Nine");
}

#[test]
fn hundreds_with_teens() {
    assert_eq!(words(110), "One Hundred Ten");
    assert_eq!(words(519), "Five Hundred Nineteen");
}

#[test]
fn hundreds_with_tens() {
    assert_eq!(words(120), "One Hundred Twenty");
    assert_eq!(words(990), "Nine Hundred Ninety");
}

#[test]
fn one_hundred_twenty_three() {
    assert_eq!(words(123), "One Hundred Twenty Three");
}

#[test]
fn two_hundred_seventy_two() {
    assert_eq!(words(272), "Two Hundred Seventy Two");
}

#[test]
fn nine_hundred_ninety_nine() {
    assert_eq!(words(999), "Nine Hundred Ninety Nine");
}

#[test]
fn thousand_is_out_of_range() {
    assert_eq!(convert_three_digits(1000), Err(WordsError::OutOfRange));
}

#[test]
fn largest_number_is_out_of_range() {
    assert_eq!(convert_three_digits(u64::MAX), Err(WordsError::OutOfRange));
}

#[test]
fn every_number_below_a_thousand_is_accepted() {
    for num in 0..=999u64 {
        assert!(convert_three_digits(num).is_ok());
    }
}

#[test]
fn only_zero_has_no_words() {
    for num in 1..=999u64 {
        assert!(!words(num).is_empty());
    }
}

#[test]
fn no_space_at_either_end() {
    for num in 0..=999u64 {
        let text = words(num);
        assert!(!text.starts_with(' '), "{}", num);
        assert!(!text.ends_with(' '), "{}", num);
    }
}

#[test]
fn no_two_spaces_in_a_row() {
    for num in 0..=999u64 {
        assert!(!words(num).contains("  "), "{}", num);
    }
}

#[test]
fn trimming_changes_nothing() {
    for num in 0..=999u64 {
        let text = words(num);
        assert_eq!(text.trim(), text);
        assert_eq!(text.trim().trim(), text.trim());
    }
}

#[test]
fn hundreds_and_rest_are_put_together() {
    for num in 100..=999u64 {
        let head = words(num / 100 * 100);
        let tail = words(num % 100);
        let expected = if tail.is_empty() { head } else { format!("{} {}", head, tail) };
        assert_eq!(words(num), expected);
    }
}
