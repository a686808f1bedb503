//! Numbers below a thousand in words.

use vstd::prelude::*;
use crate::constants::{
    is_scale_name,
    lemma_digit_tables,
    lemma_scale_name_is_no_digit_word,
    DIGITS,
    HUNDRED,
    TEENS,
    TENS,
};
use crate::error::WordsError;
use crate::text::{
    all_words,
    append_spaced,
    join_words,
    lemma_join_push,
    lemma_join_shape,
    lemma_trim_tight,
    single_spaced,
    trim,
};

verus! {

/// The words for the hundreds digit `h`: the digit's word and the word for a
/// hundred, or nothing where the digit is zero.
pub open spec fn hundreds_tokens(h: nat) -> Seq<Seq<char>> {
    if h > 0 {
        seq![DIGITS[h as int]@, HUNDRED@]
    } else {
        Seq::empty()
    }
}

/// The words for a number `r` below a hundred; none for zero.
pub open spec fn remainder_tokens(r: nat) -> Seq<Seq<char>> {
    if r >= 20 {
        if r % 10 > 0 {
            seq![TENS[r as int / 10]@, DIGITS[r as int % 10]@]
        } else {
            seq![TENS[r as int / 10]@]
        }
    } else if r >= 10 {
        seq![TEENS[r as int - 10]@]
    } else if r > 0 {
        seq![DIGITS[r as int]@]
    } else {
        Seq::empty()
    }
}

/// The words for a number `n` below a thousand, in reading order; none for
/// zero.
pub open spec fn three_digit_tokens(n: nat) -> Seq<Seq<char>> {
    hundreds_tokens(n / 100) + remainder_tokens(n % 100)
}

/// A number `n` below a thousand in words, with single spaces between them.
pub open spec fn three_digit_words(n: nat) -> Seq<char> {
    join_words(three_digit_tokens(n))
}

/// Each entry of `three_digit_tokens(n)` is a word, and there is none only for
/// zero.
pub proof fn lemma_three_digit_tokens(n: nat)
    requires
        n <= 999,
    ensures
        all_words(three_digit_tokens(n)),
        three_digit_tokens(n).len() == 0 <==> n == 0,
{
    lemma_digit_tables();
}

/// The words of a number below a thousand have no space at either end and no
/// two spaces in a row; trimming them changes nothing; and they are empty
/// only for zero.
pub proof fn lemma_three_digit_words_shape(n: nat)
    requires
        n <= 999,
    ensures
        single_spaced(three_digit_words(n)),
        trim(three_digit_words(n)) == three_digit_words(n),
        three_digit_words(n).len() == 0 <==> n == 0,
{
    lemma_three_digit_tokens(n);
    lemma_join_shape(three_digit_tokens(n));
    lemma_trim_tight(three_digit_words(n));
}

/// No name of a group stands among the words of a number below a thousand.
pub proof fn lemma_three_digit_tokens_hold_no_scale_name(n: nat, name: Seq<char>)
    requires
        n <= 999,
        is_scale_name(name),
    ensures
        !three_digit_tokens(n).contains(name),
{
    lemma_scale_name_is_no_digit_word(name);
    vstd::seq_lib::lemma_seq_concat_contains_all_elements(
        hundreds_tokens(n / 100),
        remainder_tokens(n % 100),
        name,
    );
}

/// Puts a number from 0 to 999 into words, such as "Two Hundred Seventy Two".
/// Zero gives the empty text. A number above 999 is refused.
pub fn convert_three_digits(num: u64) -> (r: Result<String, WordsError>)
    ensures
        r is Ok <==> num <= 999,
        r matches Ok(words) ==> words@ == three_digit_words(num as nat),
        r matches Ok(words) ==> single_spaced(words@) && trim(words@) == words@,
        r matches Ok(words) ==> (words@.len() == 0 <==> num == 0),
        r matches Err(e) ==> e == WordsError::OutOfRange,
{
    if num > 999 {
        return Err(WordsError::OutOfRange);
    }
    let hundred: usize = (num / 100) as usize;
    let ten: usize = (num % 100) as usize;
    let one: usize = (num % 10) as usize;
    let mut words = String::new();
    let ghost mut tokens: Seq<Seq<char>> = Seq::empty();

    if hundred > 0 {
        append_spaced(&mut words, DIGITS[hundred]);
        proof {
            lemma_join_push(tokens, DIGITS[hundred as int]@);
            tokens = tokens.push(DIGITS[hundred as int]@);
        }
        append_spaced(&mut words, HUNDRED);
        proof {
            lemma_join_push(tokens, HUNDRED@);
            tokens = tokens.push(HUNDRED@);
        }
    }

    if ten >= 20 {
        append_spaced(&mut words, TENS[ten / 10]);
        proof {
            lemma_join_push(tokens, TENS[ten as int / 10]@);
            tokens = tokens.push(TENS[ten as int / 10]@);
        }
        if one > 0 {
            append_spaced(&mut words, DIGITS[one]);
            proof {
                lemma_join_push(tokens, DIGITS[one as int]@);
                tokens = tokens.push(DIGITS[one as int]@);
            }
        }
    } else if ten >= 10 {
        append_spaced(&mut words, TEENS[ten - 10]);
        proof {
            lemma_join_push(tokens, TEENS[ten as int - 10]@);
            tokens = tokens.push(TEENS[ten as int - 10]@);
        }
    } else if one > 0 {
        append_spaced(&mut words, DIGITS[one]);
        proof {
            lemma_join_push(tokens, DIGITS[one as int]@);
            tokens = tokens.push(DIGITS[one as int]@);
        }
    }
    proof {
        assert(tokens =~= three_digit_tokens(num as nat));
        lemma_three_digit_words_shape(num as nat);
    }
    Ok(words)
}

} // verus!
