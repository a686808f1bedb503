//! Whole numbers in words, group by group.

use vstd::prelude::*;
use crate::error::WordsError;
use crate::scale::NumberScale;
use crate::text::{
    all_words,
    append_spaced,
    join_words,
    lemma_join_concat,
    lemma_join_push,
    lemma_join_shape,
    lemma_trim_tight,
    lemma_words_of_join,
    single_spaced,
    trim,
    words_of,
};
use crate::util::{
    convert_three_digits,
    lemma_three_digit_tokens,
    lemma_three_digit_tokens_hold_no_scale_name,
    three_digit_tokens,
    three_digit_words,
};

verus! {

/// The words for one group: the words of its value and, above the lowest
/// group, the group's name. A group of value zero has no words.
pub open spec fn group_tokens(scale: NumberScale, value: nat, index: nat) -> Seq<Seq<char>> {
    if value == 0 {
        Seq::empty()
    } else if index == 0 {
        three_digit_tokens(value)
    } else {
        three_digit_tokens(value).push(scale.name(index as int))
    }
}

/// The words for the `count` lowest groups of `amount`, highest of them first.
pub open spec fn number_tokens_below(scale: NumberScale, amount: nat, count: nat) -> Seq<
    Seq<char>,
>
    decreases count,
{
    if count == 0 {
        Seq::empty()
    } else {
        let index = (count - 1) as nat;
        group_tokens(scale, scale.group(amount, index), index) + number_tokens_below(
            scale,
            amount,
            index,
        )
    }
}

/// The words for `amount` in reading order: those of its groups, highest
/// group first.
pub open spec fn number_tokens(scale: NumberScale, amount: nat) -> Seq<Seq<char>> {
    number_tokens_below(scale, amount, scale.table().len())
}

/// `amount` in words, with single spaces between them; empty for zero.
pub open spec fn number_words(scale: NumberScale, amount: nat) -> Seq<char> {
    join_words(number_tokens(scale, amount))
}

/// The words for a group are words, and there are none only for the value
/// zero.
pub proof fn lemma_group_tokens(scale: NumberScale, value: nat, index: nat)
    requires
        value <= 999,
        index < scale.table().len(),
    ensures
        all_words(group_tokens(scale, value, index)),
        group_tokens(scale, value, index).len() == 0 <==> value == 0,
{
    lemma_three_digit_tokens(value);
    scale.lemma_table_shape();
}

/// The value of a group is below a thousand.
pub proof fn lemma_group_bound(scale: NumberScale, amount: nat, index: nat)
    ensures
        scale.group(amount, index) <= 999,
{
}

/// The words for the lowest groups of an amount are words.
pub proof fn lemma_number_tokens_below(scale: NumberScale, amount: nat, count: nat)
    requires
        count <= scale.table().len(),
    ensures
        all_words(number_tokens_below(scale, amount, count)),
    decreases count,
{
    if count > 0 {
        let index = (count - 1) as nat;
        lemma_number_tokens_below(scale, amount, index);
        lemma_group_bound(scale, amount, index);
        lemma_group_tokens(scale, scale.group(amount, index), index);
    }
}

/// Groups above the point where nothing is left of the amount add no words.
pub proof fn lemma_number_tokens_stable(scale: NumberScale, amount: nat, count: nat, more: nat)
    requires
        scale.rest_after(amount, count) == 0,
        count <= more,
    ensures
        number_tokens_below(scale, amount, more) == number_tokens_below(scale, amount, count),
    decreases more,
{
    if count < more {
        let index = (more - 1) as nat;
        lemma_number_tokens_stable(scale, amount, count, index);
        scale.lemma_rest_stays_zero(amount, count, index);
        assert(group_tokens(scale, scale.group(amount, index), index) + number_tokens_below(
            scale,
            amount,
            index,
        ) =~= number_tokens_below(scale, amount, index));
    }
}

/// The words of an amount have no space at either end and no two spaces in a
/// row, and trimming them changes nothing.
pub proof fn lemma_number_words_shape(scale: NumberScale, amount: nat)
    ensures
        all_words(number_tokens(scale, amount)),
        single_spaced(number_words(scale, amount)),
        trim(number_words(scale, amount)) == number_words(scale, amount),
{
    lemma_number_tokens_below(scale, amount, scale.table().len());
    lemma_join_shape(number_tokens(scale, amount));
    lemma_trim_tight(number_words(scale, amount));
}

/// An amount below a thousand reads the same on every scale: as the
/// three-digit converter puts it.
pub proof fn lemma_small_number_words(scale: NumberScale, amount: nat)
    requires
        amount <= 999,
    ensures
        scale.fits(amount),
        number_words(scale, amount) == three_digit_words(amount),
{
    let len = scale.table().len();
    reveal_with_fuel(NumberScale::rest_after, 2);
    reveal_with_fuel(number_tokens_below, 2);
    scale.lemma_rest_stays_zero(amount, 1, len);
    lemma_number_tokens_stable(scale, amount, 1, len);
}

/// The name of the group at `at` stands among the words for the group at
/// `index` exactly if the two are one group and its value is not zero.
pub proof fn lemma_group_tokens_hold(scale: NumberScale, value: nat, index: nat, at: nat)
    requires
        value <= 999,
        index < scale.table().len(),
        1 <= at < scale.table().len(),
    ensures
        group_tokens(scale, value, index).contains(scale.name(at as int)) <==> value != 0 && index
            == at,
{
    scale.lemma_names();
    let name = scale.name(at as int);
    lemma_three_digit_tokens_hold_no_scale_name(value, name);
    if value != 0 && index != 0 {
        vstd::seq_lib::lemma_seq_contains_after_push(
            three_digit_tokens(value),
            scale.name(index as int),
            name,
        );
    }
}

/// The name of the group at `at` stands among the words for the `count`
/// lowest groups of an amount exactly if that group is one of them and its
/// value is not zero.
pub proof fn lemma_number_tokens_below_hold(scale: NumberScale, amount: nat, count: nat, at: nat)
    requires
        count <= scale.table().len(),
        1 <= at < scale.table().len(),
    ensures
        number_tokens_below(scale, amount, count).contains(scale.name(at as int)) <==> at < count
            && scale.group(amount, at) != 0,
    decreases count,
{
    if count > 0 {
        let index = (count - 1) as nat;
        lemma_number_tokens_below_hold(scale, amount, index, at);
        lemma_group_bound(scale, amount, index);
        lemma_group_tokens_hold(scale, scale.group(amount, index), index, at);
        vstd::seq_lib::lemma_seq_concat_contains_all_elements(
            group_tokens(scale, scale.group(amount, index), index),
            number_tokens_below(scale, amount, index),
            scale.name(at as int),
        );
    }
}

/// A reader of an amount in words finds the name of a group among them
/// exactly if that group of the amount is not zero: no name is put out for a
/// group of zero.
pub proof fn lemma_scale_word_only_for_nonzero_group(scale: NumberScale, amount: nat, index: nat)
    requires
        scale.fits(amount),
        1 <= index < scale.table().len(),
    ensures
        words_of(number_words(scale, amount)).contains(scale.name(index as int)) <==> scale.group(
            amount,
            index,
        ) != 0,
{
    lemma_number_words_shape(scale, amount);
    lemma_words_of_join(number_tokens(scale, amount));
    lemma_number_tokens_below_hold(scale, amount, scale.table().len(), index);
}

/// Puts `amount` into words on the given scale, such as "Twelve Lakh Thirty
/// Four Thousand" on the Indian one. Zero gives the empty text. An amount with
/// more groups than the scale has names for is refused.
pub fn format_number_to_word(amount: u64, scale_type: NumberScale) -> (r: Result<
    String,
    WordsError,
>)
    ensures
        r is Ok <==> scale_type.fits(amount as nat),
        r matches Ok(words) ==> words@ == number_words(scale_type, amount as nat),
        r matches Ok(words) ==> single_spaced(words@) && trim(words@) == words@,
        r matches Ok(words) ==> (words@.len() == 0 <==> amount == 0),
        r matches Err(e) ==> e == WordsError::ScaleOverflow,
{
    let scales = scale_type.get_number_scale();
    let mut words = String::new();
    let mut rest = amount;
    let mut scale_index: usize = 0;
    let ghost mut tokens: Seq<Seq<char>> = Seq::empty();
    while rest > 0
        invariant
            scales@ == scale_type.table(),
            scale_index <= scales@.len() <= 6,
            rest == scale_type.rest_after(amount as nat, scale_index as nat),
            tokens == number_tokens_below(scale_type, amount as nat, scale_index as nat),
            all_words(tokens),
            words@ == join_words(tokens),
            rest <= amount,
            tokens.len() == 0 ==> (rest == 0 <==> amount == 0),
            amount == 0 ==> tokens.len() == 0,
        decreases rest,
    {
        if scale_index >= scales.len() {
            return Err(WordsError::ScaleOverflow);
        }
        let divider = scale_type.divisor(scale_index);
        let group = rest % divider;
        proof {
            lemma_group_tokens(scale_type, group as nat, scale_index as nat);
        }
        if group != 0 {
            let mut phrase = match convert_three_digits(group) {
                Ok(phrase) => phrase,
                Err(e) => {
                    return Err(e);
                },
            };
            if scale_index > 0 {
                append_spaced(&mut phrase, scales[scale_index]);
                proof {
                    lemma_join_push(
                        three_digit_tokens(group as nat),
                        scale_type.name(scale_index as int),
                    );
                }
            }
            let ghost added = group_tokens(scale_type, group as nat, scale_index as nat);
            append_spaced(&mut phrase, words.as_str());
            proof {
                lemma_join_concat(added, tokens);
                tokens = added + tokens;
            }
            words = phrase;
        } else {
            proof {
                tokens = group_tokens(scale_type, group as nat, scale_index as nat) + tokens;
            }
        }
        rest = rest / divider;
        scale_index = scale_index + 1;
    }
    proof {
        let count = scale_index as nat;
        let len = scales@.len();
        lemma_number_tokens_stable(scale_type, amount as nat, count, len);
        scale_type.lemma_rest_stays_zero(amount as nat, count, len);
        lemma_number_words_shape(scale_type, amount as nat);
        lemma_join_shape(tokens);
    }
    Ok(words)
}

} // verus!
