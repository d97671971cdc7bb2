//! Dice notation: parsing of roll expressions such as `2d20+12-3#10`,
//! evaluation of the roll in sum or pool mode, and rendering of the result.

pub mod dice;
pub mod modifiers;
pub mod notation;
mod random;
pub mod render;
pub mod text;

pub use crate::dice::{DiceRoll, DiceRollError, DiceRollType, RollView};
pub use crate::modifiers::parse_modifiers;

use crate::notation::roll_of;
use crate::render::{compact_text, verbose_text};
use std::str::FromStr;
use vstd::prelude::*;

verus! {

/// Why a request cannot be rolled: a pool without dice, or numbers beyond
/// the machine's integers.
pub open spec fn refusal_text(roll: RollView) -> Seq<char> {
    if roll.roll_type == DiceRollType::Pool && roll.dice_count() <= 0 {
        "Invalid dice pool - must hold at least one die"@
    } else {
        "Invalid roll - the numbers are too large"@
    }
}

/// The text of a roll: in full where `is_verbose` says so, else in short.
pub open spec fn roll_text(roll: RollView, is_verbose: bool) -> Seq<char> {
    if is_verbose {
        verbose_text(roll)
    } else {
        compact_text(roll)
    }
}

/// Reads the roll expression `roll_str`, rolls it and gives the result as
/// text. The roll is a pool where `is_pool` says so, and is held against
/// `default_tn` where that is above zero and the expression names no
/// target number of its own.
pub fn run(roll_str: &str, default_tn: isize, is_pool: bool, is_verbose: bool) -> (r: Result<
    String,
    DiceRollError,
>)
    ensures
        match r {
            Ok(text) => {
                &&& roll_of(roll_str@) matches Some(asked)
                &&& asked.adjusted(default_tn as int, is_pool).can_roll()
                &&& exists|draws: Seq<int>|
                    #![trigger asked.adjusted(default_tn as int, is_pool).with_draws(draws)]
                    asked.adjusted(default_tn as int, is_pool).fair(draws) && text@ == roll_text(
                        asked.adjusted(default_tn as int, is_pool).with_draws(draws),
                        is_verbose,
                    )
            },
            Err(DiceRollError::RollSyntax(text)) => roll_of(roll_str@) is None && text@
                == roll_str@,
            Err(DiceRollError::Undefined(reason)) => {
                &&& roll_of(roll_str@) matches Some(asked)
                &&& !asked.adjusted(default_tn as int, is_pool).can_roll()
                &&& reason@ == refusal_text(asked.adjusted(default_tn as int, is_pool))
            },
        },
{
    let asked = match DiceRoll::from_str(roll_str) {
        Ok(asked) => asked,
        Err(error) => {
            return Err(error);
        },
    };
    let mut roll = asked.adjusted(default_tn, is_pool);
    if !roll.can_roll() {
        let reason = if roll.roll_type() == DiceRollType::Pool && roll.dice_qty() as i128
            + roll.inc() as i128 + roll.dec() as i128 <= 0 {
            "Invalid dice pool - must hold at least one die"
        } else {
            "Invalid roll - the numbers are too large"
        };
        return Err(DiceRollError::Undefined(reason.to_owned()));
    }
    let ghost request = roll@;
    roll.roll_dice();
    assert(roll@ == request.with_draws(roll@.roll_results));
    let text = if is_verbose {
        roll.verbose()
    } else {
        roll.to_string()
    };
    Ok(text)
}

} // verus!
