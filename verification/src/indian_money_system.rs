//! Rupees and paisa in words, on the Indian scale.

use vstd::prelude::*;
use crate::currency::{currency_sentence, format_with_currency_in_words, Amount};
use crate::error::WordsError;
use crate::number::{format_number_to_word, lemma_small_number_words, number_words};
use crate::scale::NumberScale;
use crate::util::convert_three_digits;

verus! {

/// The sentence for an amount of rupees and paisa.
pub open spec fn rupee_sentence(rupees: nat, paisa: nat) -> Seq<char> {
    currency_sentence(NumberScale::Indian, rupees, paisa, "Rupees"@, "Paisa"@)
}

/// Puts `amount` into words on the Indian scale; the empty text for zero. An
/// amount of ten kharab or more is refused.
pub fn number_to_word(amount: u64) -> (r: Result<String, WordsError>)
    ensures
        r is Ok <==> NumberScale::Indian.fits(amount as nat),
        r matches Ok(words) ==> words@ == number_words(NumberScale::Indian, amount as nat),
        r matches Ok(words) ==> (words@.len() == 0 <==> amount == 0),
        r matches Err(e) ==> e == WordsError::ScaleOverflow,
{
    format_number_to_word(amount, NumberScale::Indian)
}

/// Puts an amount of rupees, with a hundred paisa to the rupee, into a
/// sentence such as "Ten Lakh Rupees And One Paisa Only". A negative amount
/// is refused, and so is one of ten kharab rupees or more.
pub fn money_to(amount: Amount) -> (r: Result<String, WordsError>)
    ensures
        r is Ok <==> !amount.negative && NumberScale::Indian.fits(amount.whole as nat),
        r matches Ok(words) ==> words@ == rupee_sentence(
            amount.whole as nat,
            amount.fractional(100),
        ),
        r matches Err(e) ==> e == if amount.negative {
            WordsError::NegativeAmount
        } else {
            WordsError::ScaleOverflow
        },
{
    proof {
        lemma_small_number_words(NumberScale::Indian, amount.fractional(100));
    }
    format_with_currency_in_words(amount, NumberScale::Indian, "Rupees", "Paisa", 100)
}

/// Puts an amount of rupees and paisa into a sentence as `money_to` does,
/// building the sentence part by part.
pub fn money_to_words_i(amount: Amount) -> (r: Result<String, WordsError>)
    ensures
        r is Ok <==> !amount.negative && NumberScale::Indian.fits(amount.whole as nat),
        r matches Ok(words) ==> words@ == rupee_sentence(
            amount.whole as nat,
            amount.fractional(100),
        ),
        r matches Err(e) ==> e == if amount.negative {
            WordsError::NegativeAmount
        } else {
            WordsError::ScaleOverflow
        },
{
    if amount.negative {
        return Err(WordsError::NegativeAmount);
    }
    let rupees = amount.whole;
    let paisa = amount.scaled % 100;
    proof {
        reveal_strlit("Zero Rupees Only");
        reveal_strlit("Zero Rupees And ");
        reveal_strlit("Zero");
        reveal_strlit(" ");
        reveal_strlit("Rupees");
        reveal_strlit(" Rupees");
        reveal_strlit(" And ");
        reveal_strlit("Paisa");
        reveal_strlit(" Paisa");
        reveal_strlit(" Only");
        lemma_small_number_words(NumberScale::Indian, paisa as nat);
        lemma_small_number_words(NumberScale::Indian, 0);
    }
    if rupees == 0 && paisa == 0 {
        return Ok(String::from_str("Zero Rupees Only"));
    }
    let mut words = match number_to_word(rupees) {
        Ok(words) => words,
        Err(e) => {
            return Err(e);
        },
    };
    if !words.as_str().is_empty() {
        words.append(" Rupees");
    }
    if paisa > 0 {
        if !words.as_str().is_empty() {
            words.append(" And ");
        } else {
            words = String::from_str("Zero Rupees And ");
        }
        let fraction = match convert_three_digits(paisa) {
            Ok(fraction) => fraction,
            Err(e) => {
                return Err(e);
            },
        };
        words.append(fraction.as_str());
        words.append(" Paisa");
    }
    words.append(" Only");
    Ok(words)
}

} // verus!
