//! A roll and an error as text.

use crate::dice::{as_ints, sum, sum_of, DiceRoll, DiceRollError, DiceRollType, RollView};
use crate::text::{append_int, int_text};
use vstd::prelude::*;

verus! {

/// The numbers of `values` in base ten, with `between` between each two.
pub open spec fn joined(values: Seq<int>, between: Seq<char>) -> Seq<char>
    decreases values.len(),
{
    if values.len() == 0 {
        Seq::empty()
    } else if values.len() == 1 {
        int_text(values[0])
    } else {
        joined(values.drop_last(), between) + between + int_text(values.last())
    }
}

/// The final result behind an arrow, where a modifier has changed the
/// total.
pub open spec fn arrow_text(roll: RollView) -> Seq<char> {
    if roll.inc > 0 || roll.dec < 0 {
        " ➔ "@ + int_text(roll.final_result)
    } else {
        Seq::empty()
    }
}

/// The roll meets its target number: the final result is the target
/// number or above.
pub open spec fn succeeds(roll: RollView) -> bool {
    roll.final_result >= roll.tn
}

/// The mark of success or failure, where a target number is set.
pub open spec fn mark_text(roll: RollView) -> Seq<char> {
    if roll.tn > 0 {
        if succeeds(roll) {
            " ✔ "@
        } else {
            " ✗ "@
        }
    } else {
        Seq::empty()
    }
}

/// The number of successes of a pool, where a target number is set.
pub open spec fn tally_text(roll: RollView) -> Seq<char> {
    if roll.tn > 0 {
        "| "@ + int_text(roll.final_result) + " "@ + if roll.final_result == 1 {
            "Success"@
        } else {
            "Successes"@
        }
    } else {
        Seq::empty()
    }
}

/// The roll in short. A sum shows the total of the dice, then the final
/// result where it differs, then the mark. A pool shows each die, then
/// the number of successes.
pub open spec fn compact_text(roll: RollView) -> Seq<char> {
    match roll.roll_type {
        DiceRollType::Sum => "["@ + int_text(sum(roll.roll_results)) + arrow_text(roll)
            + mark_text(roll) + "]"@,
        DiceRollType::Pool => "["@ + joined(roll.roll_results, ","@) + tally_text(roll) + "]"@,
    }
}

/// The name of the way the dice are read.
pub open spec fn type_text(roll_type: DiceRollType) -> Seq<char> {
    match roll_type {
        DiceRollType::Sum => "Sum"@,
        DiceRollType::Pool => "Pool"@,
    }
}

/// The roll in full: each part of the request and of the result on a line
/// of its own, and the short form last.
pub open spec fn verbose_text(roll: RollView) -> Seq<char> {
    "Dice Roll {\n    Dice quantity: "@ + int_text(roll.dice_qty) + ",\n    Dice type: "@
        + int_text(roll.dice_type) + ",\n    Increment: "@ + int_text(roll.inc)
        + ",\n    Decrement: "@ + int_text(roll.dec) + ",\n    Target number: "@ + int_text(
        roll.tn,
    ) + ",\n    Type: "@ + type_text(roll.roll_type) + ",\n    Results: ["@ + joined(
        roll.roll_results,
        ", "@,
    ) + "],\n    Final Result: "@ + int_text(roll.final_result) + ",\n    Bottomline: \""@
        + compact_text(roll) + "\",\n}"@
}

/// What an error says.
pub open spec fn error_text(error: DiceRollError) -> Seq<char> {
    match error {
        DiceRollError::RollSyntax(text) => "Syntax Error on "@ + text@
            + ": your roll must follow the following pattern: XdY[+i-d][#target]\nRun roll --help to learn more"@,
        DiceRollError::Undefined(reason) => "Undefined Error: "@ + reason@,
    }
}

/// A sum whose final result is exactly its target number is a success,
/// and is marked as one.
pub proof fn lemma_target_met_is_success(roll: RollView)
    requires
        roll.roll_type == DiceRollType::Sum,
        roll.tn > 0,
        roll.final_result == roll.tn,
    ensures
        succeeds(roll),
        mark_text(roll) == " ✔ "@,
        compact_text(roll) == "["@ + int_text(sum(roll.roll_results)) + arrow_text(roll)
            + " ✔ "@ + "]"@,
{
}

/// A sum that stays below its target number is marked as a failure.
pub proof fn lemma_target_missed_is_failure(roll: RollView)
    requires
        roll.roll_type == DiceRollType::Sum,
        roll.tn > 0,
        roll.final_result < roll.tn,
    ensures
        !succeeds(roll),
        mark_text(roll) == " ✗ "@,
{
}

/// Writes `values` at the end of `out`, with `between` between each two.
fn append_joined(out: &mut String, values: &Vec<isize>, between: &str)
    ensures
        final(out)@ == old(out)@ + joined(as_ints(values@), between@),
{
    let ghost all = as_ints(values@);
    let mut i: usize = 0;
    assert(all.take(0) =~= Seq::<int>::empty());
    assert(out@ =~= old(out)@ + joined(all.take(0), between@));
    while i < values.len()
        invariant
            i <= values@.len(),
            all == as_ints(values@),
            out@ == old(out)@ + joined(all.take(i as int), between@),
        decreases values@.len() - i,
    {
        let ghost before = out@;
        if i > 0 {
            out.append(between);
        }
        append_int(out, values[i]);
        proof {
            let next = all.take(i as int + 1);
            assert(next.drop_last() =~= all.take(i as int));
            assert(next.last() == values@[i as int] as int);
            if i == 0 {
                assert(joined(all.take(0), between@) =~= Seq::<char>::empty());
                assert(next[0] == next.last());
            }
            assert(out@ =~= old(out)@ + joined(next, between@));
        }
        i += 1;
    }
    assert(all.take(i as int) =~= all);
}

impl DiceRoll {
    /// The roll in short.
    pub fn to_string(&self) -> (out: String)
        requires
            self.wf(),
        ensures
            out@ == compact_text(self@),
    {
        let mut out = String::new();
        out.append("[");
        match self.roll_type() {
            DiceRollType::Sum => {
                proof {
                    if self@.roll_results.len() > 0 {
                        assert(self@.dice_qty * self@.dice_type <= isize::MAX);
                    }
                }
                let total = sum_of(self.roll_results(), self.dice_type());
                append_int(&mut out, total);
                if self.inc() > 0 || self.dec() < 0 {
                    out.append(" ➔ ");
                    append_int(&mut out, self.final_result());
                }
                if self.tn() > 0 {
                    if self.final_result() >= self.tn() {
                        out.append(" ✔ ");
                    } else {
                        out.append(" ✗ ");
                    }
                }
                assert(out@ =~= "["@ + int_text(sum(self@.roll_results)) + arrow_text(self@)
                    + mark_text(self@));
            },
            DiceRollType::Pool => {
                append_joined(&mut out, self.roll_results(), ",");
                if self.tn() > 0 {
                    out.append("| ");
                    append_int(&mut out, self.final_result());
                    out.append(" ");
                    if self.final_result() == 1 {
                        out.append("Success");
                    } else {
                        out.append("Successes");
                    }
                }
                assert(out@ =~= "["@ + joined(self@.roll_results, ","@) + tally_text(self@));
            },
        }
        out.append("]");
        out
    }

    /// The roll in full.
    pub fn verbose(&self) -> (out: String)
        requires
            self.wf(),
        ensures
            out@ == verbose_text(self@),
    {
        let mut out = String::new();
        out.append("Dice Roll {\n    Dice quantity: ");
        append_int(&mut out, self.dice_qty());
        out.append(",\n    Dice type: ");
        append_int(&mut out, self.dice_type());
        out.append(",\n    Increment: ");
        append_int(&mut out, self.inc());
        out.append(",\n    Decrement: ");
        append_int(&mut out, self.dec());
        out.append(",\n    Target number: ");
        append_int(&mut out, self.tn());
        out.append(",\n    Type: ");
        match self.roll_type() {
            DiceRollType::Sum => out.append("Sum"),
            DiceRollType::Pool => out.append("Pool"),
        }
        out.append(",\n    Results: [");
        append_joined(&mut out, self.roll_results(), ", ");
        out.append("],\n    Final Result: ");
        append_int(&mut out, self.final_result());
        out.append(",\n    Bottomline: \"");
        let short = self.to_string();
        out.append(short.as_str());
        out.append("\",\n}");
        out
    }
}

impl DiceRollError {
    /// What the error says.
    pub fn to_string(&self) -> (out: String)
        ensures
            out@ == error_text(*self),
    {
        let mut out = String::new();
        match self {
            DiceRollError::RollSyntax(text) => {
                out.append("Syntax Error on ");
                out.append(text.as_str());
                out.append(
                    ": your roll must follow the following pattern: XdY[+i-d][#target]\nRun roll --help to learn more",
                );
            },
            DiceRollError::Undefined(reason) => {
                out.append("Undefined Error: ");
                out.append(reason.as_str());
            },
        }
        out
    }
}

} // verus!
