//! The fixed word tables: digits, teens, tens, and the names of the scales.

use vstd::prelude::*;
use crate::text::is_word;

verus! {

/// The words for one to nine, by digit. There is no word for zero.
pub const DIGITS: [&'static str; 10] = [
    "",
    "One",
    "Two",
    "Three",
    "Four",
    "Five",
    "Six",
    "Seven",
    "Eight",
    "Nine",
];

/// The words for ten to nineteen, by last digit.
pub const TEENS: [&'static str; 10] = [
    "Ten",
    "Eleven",
    "Twelve",
    "Thirteen",
    "Fourteen",
    "Fifteen",
    "Sixteen",
    "Seventeen",
    "Eighteen",
    "Nineteen",
];

/// The words for twenty to ninety, by tens digit. The first two entries are
/// not used and empty.
pub const TENS: [&'static str; 10] = [
    "",
    "",
    "Twenty",
    "Thirty",
    "Forty",
    "Fifty",
    "Sixty",
    "Seventy",
    "Eighty",
    "Ninety",
];

/// The names of the groups of three digits, lowest group first. The lowest
/// group has no name.
pub const INTERNATIONAL_SCALE: [&'static str; 4] = ["", "Thousand", "Million", "Billion"];

/// The names of the Indian groups, lowest group first: three digits, then two
/// digits each. The lowest group has no name.
pub const INDIAN_SCALE: [&'static str; 6] = ["", "Thousand", "Lakh", "Crore", "Arab", "Kharab"];

/// The word that follows the hundreds digit.
pub const HUNDRED: &'static str = "Hundred";

/// The entries of the digit tables that the converter puts out are words, and
/// the entries it skips are empty.
pub proof fn lemma_digit_tables()
    ensures
        DIGITS[0]@.len() == 0,
        TENS[0]@.len() == 0,
        TENS[1]@.len() == 0,
        forall|d: int| 1 <= d < 10 ==> is_word(#[trigger] DIGITS[d]@),
        forall|d: int| 0 <= d < 10 ==> is_word(#[trigger] TEENS[d]@),
        forall|d: int| 2 <= d < 10 ==> is_word(#[trigger] TENS[d]@),
        is_word(HUNDRED@),
{
    reveal_strlit("");
    reveal_strlit("One");
    reveal_strlit("Two");
    reveal_strlit("Three");
    reveal_strlit("Four");
    reveal_strlit("Five");
    reveal_strlit("Six");
    reveal_strlit("Seven");
    reveal_strlit("Eight");
    reveal_strlit("Nine");
    reveal_strlit("Ten");
    reveal_strlit("Eleven");
    reveal_strlit("Twelve");
    reveal_strlit("Thirteen");
    reveal_strlit("Fourteen");
    reveal_strlit("Fifteen");
    reveal_strlit("Sixteen");
    reveal_strlit("Seventeen");
    reveal_strlit("Eighteen");
    reveal_strlit("Nineteen");
    reveal_strlit("Twenty");
    reveal_strlit("Thirty");
    reveal_strlit("Forty");
    reveal_strlit("Fifty");
    reveal_strlit("Sixty");
    reveal_strlit("Seventy");
    reveal_strlit("Eighty");
    reveal_strlit("Ninety");
    reveal_strlit("Hundred");
}

/// The names in the two scale tables are words, but for the empty first entry
/// of each.
pub proof fn lemma_scale_tables()
    ensures
        INTERNATIONAL_SCALE[0]@.len() == 0,
        INDIAN_SCALE[0]@.len() == 0,
        forall|i: int| 1 <= i < 4 ==> is_word(#[trigger] INTERNATIONAL_SCALE[i]@),
        forall|i: int| 1 <= i < 6 ==> is_word(#[trigger] INDIAN_SCALE[i]@),
{
    reveal_strlit("");
    reveal_strlit("Thousand");
    reveal_strlit("Million");
    reveal_strlit("Billion");
    reveal_strlit("Lakh");
    reveal_strlit("Crore");
    reveal_strlit("Arab");
    reveal_strlit("Kharab");
}

/// Whether `w` is the name of a group in one of the two scale tables.
pub open spec fn is_scale_name(w: Seq<char>) -> bool {
    ||| exists|i: int| 1 <= i < 4 && w == #[trigger] INTERNATIONAL_SCALE[i]@
    ||| exists|i: int| 1 <= i < 6 && w == #[trigger] INDIAN_SCALE[i]@
}

/// The name of a group is none of the words of the digit tables, nor the word
/// for a hundred.
pub proof fn lemma_scale_name_is_no_digit_word(name: Seq<char>)
    requires
        is_scale_name(name),
    ensures
        forall|d: int| 1 <= d < 10 ==> #[trigger] DIGITS[d]@ != name,
        forall|d: int| 0 <= d < 10 ==> #[trigger] TEENS[d]@ != name,
        forall|d: int| 2 <= d < 10 ==> #[trigger] TENS[d]@ != name,
        HUNDRED@ != name,
{
    lemma_digit_initials();
    lemma_scale_initials();
}

/// Within each scale table no name stands twice.
pub proof fn lemma_scale_names_differ()
    ensures
        forall|i: int, j: int|
            1 <= i < j < 4 ==> #[trigger] INTERNATIONAL_SCALE[i]@ != #[trigger] INTERNATIONAL_SCALE[j]@,
        forall|i: int, j: int|
            1 <= i < j < 6 ==> #[trigger] INDIAN_SCALE[i]@ != #[trigger] INDIAN_SCALE[j]@,
{
    reveal_strlit("Thousand");
    reveal_strlit("Million");
    reveal_strlit("Billion");
    reveal_strlit("Lakh");
    reveal_strlit("Crore");
    reveal_strlit("Arab");
    reveal_strlit("Kharab");
    assert forall|i: int, j: int| 1 <= i < j < 4 implies #[trigger] INTERNATIONAL_SCALE[i]@
        != #[trigger] INTERNATIONAL_SCALE[j]@ by {
        assert(INTERNATIONAL_SCALE[i]@[0] != INTERNATIONAL_SCALE[j]@[0]);
    }
    assert forall|i: int, j: int| 1 <= i < j < 6 implies #[trigger] INDIAN_SCALE[i]@
        != #[trigger] INDIAN_SCALE[j]@ by {
        assert(INDIAN_SCALE[i]@[0] != INDIAN_SCALE[j]@[0]);
    }
}

/// How a word of the digit tables starts: with a letter that no name of a
/// group starts with, or with a T, but then not as "Thousand" does, which has
/// eight letters, the third of them an o.
spec fn starts_like_digit_word(w: Seq<char>) -> bool {
    let c = w[0];
    ||| c == 'O' || c == 'F' || c == 'S' || c == 'E' || c == 'N' || c == 'H'
    ||| c == 'T' && (w.len() != 8 || w[2] != 'o')
}

/// How a name of a group starts: with a letter that no word of the digit
/// tables starts with, or as "Thousand" does.
spec fn starts_like_scale_name(w: Seq<char>) -> bool {
    let c = w[0];
    ||| c == 'M' || c == 'B' || c == 'L' || c == 'C' || c == 'A' || c == 'K'
    ||| c == 'T' && w.len() == 8 && w[2] == 'o'
}

/// Every word of the digit tables starts like one.
proof fn lemma_digit_initials()
    ensures
        forall|d: int| 1 <= d < 10 ==> starts_like_digit_word(#[trigger] DIGITS[d]@),
        forall|d: int| 0 <= d < 10 ==> starts_like_digit_word(#[trigger] TEENS[d]@),
        forall|d: int| 2 <= d < 10 ==> starts_like_digit_word(#[trigger] TENS[d]@),
        starts_like_digit_word(HUNDRED@),
{
    reveal_strlit("One");
    reveal_strlit("Two");
    reveal_strlit("Three");
    reveal_strlit("Four");
    reveal_strlit("Five");
    reveal_strlit("Six");
    reveal_strlit("Seven");
    reveal_strlit("Eight");
    reveal_strlit("Nine");
    reveal_strlit("Ten");
    reveal_strlit("Eleven");
    reveal_strlit("Twelve");
    reveal_strlit("Thirteen");
    reveal_strlit("Fourteen");
    reveal_strlit("Fifteen");
    reveal_strlit("Sixteen");
    reveal_strlit("Seventeen");
    reveal_strlit("Eighteen");
    reveal_strlit("Nineteen");
    reveal_strlit("Twenty");
    reveal_strlit("Thirty");
    reveal_strlit("Forty");
    reveal_strlit("Fifty");
    reveal_strlit("Sixty");
    reveal_strlit("Seventy");
    reveal_strlit("Eighty");
    reveal_strlit("Ninety");
    reveal_strlit("Hundred");
}

/// Every name of a group starts like one.
proof fn lemma_scale_initials()
    ensures
        forall|w: Seq<char>| is_scale_name(w) ==> starts_like_scale_name(w),
{
    reveal_strlit("Thousand");
    reveal_strlit("Million");
    reveal_strlit("Billion");
    reveal_strlit("Lakh");
    reveal_strlit("Crore");
    reveal_strlit("Arab");
    reveal_strlit("Kharab");
}

} // verus!
