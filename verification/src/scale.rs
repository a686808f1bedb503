//! The two ways of cutting a number into named groups of digits.

use vstd::prelude::*;
use crate::constants::{
    is_scale_name,
    lemma_scale_names_differ,
    lemma_scale_tables,
    INDIAN_SCALE,
    INTERNATIONAL_SCALE,
};
use crate::text::is_word;

verus! {

/// A way of cutting a number into groups of digits, with the names of the
/// groups.
#[derive(Clone, Copy, Debug, PartialEq, Eq, Structural)]
pub enum NumberScale {
    /// Groups of three digits throughout: thousand, million, billion.
    International,
    /// Three digits, then groups of two: thousand, lakh, crore, arab, kharab.
    Indian,
}

impl NumberScale {
    /// The names of the scale's groups, lowest group first.
    pub open spec fn table(self) -> Seq<&'static str> {
        match self {
            NumberScale::International => INTERNATIONAL_SCALE@,
            NumberScale::Indian => INDIAN_SCALE@,
        }
    }

    /// The name of the group at `index`.
    pub open spec fn name(self, index: int) -> Seq<char> {
        self.table()[index]@
    }

    /// The grouping rule: the number by which the group at `index` is cut off.
    /// The lowest group always has three digits.
    pub open spec fn group_divisor(self, index: nat) -> nat {
        if index == 0 {
            1000
        } else {
            match self {
                NumberScale::International => 1000,
                NumberScale::Indian => 100,
            }
        }
    }

    /// The place value of the group at `index`: the product of the divisors
    /// of the groups below it.
    pub open spec fn group_weight(self, index: nat) -> nat
        decreases index,
    {
        if index == 0 {
            1
        } else {
            self.group_weight((index - 1) as nat) * self.group_divisor((index - 1) as nat)
        }
    }

    /// What is left of `amount` once its `count` lowest groups are cut off.
    pub open spec fn rest_after(self, amount: nat, count: nat) -> nat
        decreases count,
    {
        if count == 0 {
            amount
        } else {
            self.rest_after(amount, (count - 1) as nat) / self.group_divisor((count - 1) as nat)
        }
    }

    /// The value of the group of `amount` at `index`.
    pub open spec fn group(self, amount: nat, index: nat) -> nat {
        self.rest_after(amount, index) % self.group_divisor(index)
    }

    /// Whether the scale has a name for every group of `amount`: nothing is
    /// left of it above the groups of the table.
    pub open spec fn fits(self, amount: nat) -> bool {
        self.rest_after(amount, self.table().len()) == 0
    }

    /// The least amount that the scale has too few names for.
    pub open spec fn capacity(self) -> nat {
        match self {
            NumberScale::International => 1_000_000_000_000,
            NumberScale::Indian => 10_000_000_000_000,
        }
    }

    /// The table of the scale's group names, lowest group first.
    pub fn get_number_scale(&self) -> (scales: &'static [&'static str])
        ensures
            scales@ == self.table(),
    {
        match self {
            NumberScale::International => &INTERNATIONAL_SCALE,
            NumberScale::Indian => &INDIAN_SCALE,
        }
    }

    /// The number by which the group at `group_index` is cut off.
    pub fn divisor(&self, group_index: usize) -> (d: u64)
        ensures
            d == self.group_divisor(group_index as nat),
    {
        if group_index == 0 {
            1000
        } else {
            match self {
                NumberScale::International => 1000,
                NumberScale::Indian => 100,
            }
        }
    }

    /// The first entry of a scale's table is empty, and the others are words.
    pub proof fn lemma_table_shape(self)
        ensures
            self.table().len() >= 1,
            self.name(0).len() == 0,
            forall|i: int| 1 <= i < self.table().len() ==> is_word(#[trigger] self.name(i)),
    {
        lemma_scale_tables();
    }

    /// The names of a scale's groups are names of the scale tables, and no
    /// two groups of a scale share a name.
    pub proof fn lemma_names(self)
        ensures
            forall|i: int| 1 <= i < self.table().len() ==> is_scale_name(#[trigger] self.name(i)),
            forall|i: int, j: int|
                1 <= i < self.table().len() && 1 <= j < self.table().len() && i != j
                    ==> #[trigger] self.name(i) != #[trigger] self.name(j),
    {
        lemma_scale_names_differ();
        assert forall|i: int| 1 <= i < self.table().len() implies is_scale_name(
            #[trigger] self.name(i),
        ) by {
            match self {
                NumberScale::International => {
                    assert(self.name(i) == INTERNATIONAL_SCALE[i]@);
                },
                NumberScale::Indian => {
                    assert(self.name(i) == INDIAN_SCALE[i]@);
                },
            }
        }
    }

    /// An amount fits a scale exactly if it is below the scale's capacity.
    pub proof fn lemma_fits_below_capacity(self, amount: nat)
        ensures
            self.fits(amount) <==> amount < self.capacity(),
    {
        reveal_with_fuel(NumberScale::rest_after, 7);
    }

    /// The capacity of a scale is the place value of the first group that
    /// its table has no name for.
    pub proof fn lemma_capacity_is_weight(self)
        ensures
            self.capacity() == self.group_weight(self.table().len()),
    {
        assert(self.group_weight(0) == 1);
        assert(self.group_weight(1) == 1_000);
        match self {
            NumberScale::International => {
                assert(self.group_weight(2) == 1_000_000);
                assert(self.group_weight(3) == 1_000_000_000);
            },
            NumberScale::Indian => {
                assert(self.group_weight(2) == 100_000);
                assert(self.group_weight(3) == 10_000_000);
                assert(self.group_weight(4) == 1_000_000_000);
                assert(self.group_weight(5) == 100_000_000_000);
            },
        }
    }

    /// Cutting off the `count` lowest groups divides by the place value of
    /// the next group, so the value of a group is the amount divided by the
    /// group's place value, modulo the group's divisor.
    pub proof fn lemma_group_by_weight(self, amount: nat, index: nat)
        ensures
            self.group_weight(index) > 0,
            self.rest_after(amount, index) == amount / self.group_weight(index),
            self.group(amount, index) == (amount / self.group_weight(index)) % self.group_divisor(
                index,
            ),
        decreases index,
    {
        if index > 0 {
            let below = (index - 1) as nat;
            self.lemma_group_by_weight(amount, below);
            vstd::arithmetic::div_mod::lemma_div_denominator(
                amount as int,
                self.group_weight(below) as int,
                self.group_divisor(below) as int,
            );
        }
    }

    /// Once nothing is left of an amount, nothing is left after more groups
    /// either, and those groups are zero.
    pub proof fn lemma_rest_stays_zero(self, amount: nat, count: nat, more: nat)
        requires
            self.rest_after(amount, count) == 0,
            count <= more,
        ensures
            self.rest_after(amount, more) == 0,
            self.group(amount, more) == 0,
        decreases more,
    {
        if count < more {
            self.lemma_rest_stays_zero(amount, count, (more - 1) as nat);
        }
    }
}

} // verus!
