//! Amounts of money as a sentence in words.

use vstd::prelude::*;
use crate::error::WordsError;
use crate::number::{format_number_to_word, number_words};
use crate::scale::NumberScale;

verus! {

/// An amount of money, taken apart for a currency whose main unit holds a
/// given number of fractional units (the conversion factor).
#[derive(Clone, Copy, Debug, PartialEq, Eq, Structural)]
pub struct Amount {
    /// Whether the amount is below zero.
    pub negative: bool,
    /// The amount without what follows the decimal point.
    pub whole: u64,
    /// The amount times the conversion factor, rounded to the nearest whole
    /// number.
    pub scaled: u64,
}

impl Amount {
    /// The fractional units of the amount, for a main unit of `factor` of
    /// them.
    pub open spec fn fractional(self, factor: nat) -> nat {
        self.scaled as nat % factor
    }
}

/// The main part of the sentence: the whole units in words, or "Zero", and the
/// main unit's label.
pub open spec fn main_part(scale: NumberScale, whole: nat, main_unit: Seq<char>) -> Seq<char> {
    if whole == 0 {
        "Zero"@ + " "@ + main_unit
    } else {
        number_words(scale, whole) + " "@ + main_unit
    }
}

/// The fractional part of the sentence, joined to the main part by "And";
/// nothing where there are no fractional units.
pub open spec fn fractional_part(scale: NumberScale, fractional: nat, sub_unit: Seq<char>) -> Seq<
    char,
> {
    if fractional == 0 {
        Seq::empty()
    } else {
        " And "@ + number_words(scale, fractional) + " "@ + sub_unit
    }
}

/// The sentence for `whole` main units and `fractional` fractional units.
pub open spec fn currency_sentence(
    scale: NumberScale,
    whole: nat,
    fractional: nat,
    main_unit: Seq<char>,
    sub_unit: Seq<char>,
) -> Seq<char> {
    main_part(scale, whole, main_unit) + fractional_part(scale, fractional, sub_unit) + " Only"@
}

/// Puts an amount of money into a sentence such as "Twenty Seven Rupees And
/// Twenty Nine Paisa Only". The labels are used as they are, whatever the
/// amount. A negative amount is refused, and so is one whose whole or
/// fractional units have more groups than the scale has names for.
pub fn format_with_currency_in_words(
    amount: Amount,
    number_scale: NumberScale,
    main_currency: &str,
    fractional_currency: &str,
    fractional_conversion_factor: u64,
) -> (r: Result<String, WordsError>)
    requires
        fractional_conversion_factor > 0,
    ensures
        r is Ok <==> !amount.negative && number_scale.fits(amount.whole as nat)
            && number_scale.fits(amount.fractional(fractional_conversion_factor as nat)),
        r matches Ok(words) ==> words@ == currency_sentence(
            number_scale,
            amount.whole as nat,
            amount.fractional(fractional_conversion_factor as nat),
            main_currency@,
            fractional_currency@,
        ),
        r matches Err(e) ==> e == if amount.negative {
            WordsError::NegativeAmount
        } else {
            WordsError::ScaleOverflow
        },
{
    if amount.negative {
        return Err(WordsError::NegativeAmount);
    }
    let whole_amount = amount.whole;
    let fractional_amount = amount.scaled % fractional_conversion_factor;
    proof {
        number_scale.lemma_rest_stays_zero(0, 0, number_scale.table().len());
    }
    let mut words = String::new();
    if whole_amount != 0 {
        let wrd = match format_number_to_word(whole_amount, number_scale) {
            Ok(wrd) => wrd,
            Err(e) => {
                return Err(e);
            },
        };
        words.append(wrd.as_str());
    } else {
        words.append("Zero");
    }
    words.append(" ");
    words.append(main_currency);
    if fractional_amount != 0 {
        let wrd = match format_number_to_word(fractional_amount, number_scale) {
            Ok(wrd) => wrd,
            Err(e) => {
                return Err(e);
            },
        };
        words.append(" And ");
        words.append(wrd.as_str());
        words.append(" ");
        words.append(fractional_currency);
    }
    words.append(" Only");
    assert(words@ =~= currency_sentence(
        number_scale,
        whole_amount as nat,
        fractional_amount as nat,
        main_currency@,
        fractional_currency@,
    ));
    Ok(words)
}

} // verus!
